use movie_saver::catalog::{add_movie, delete_menu, delete_movie, display_all_movies};
use movie_saver::lines::{load_lines, save_lines};
use movie_saver::record::{input_movie, MovieInfo, MovieText};
use movie_saver::session::{step, Action, SessionState};
use movie_saver::storage::{load_movies, Stored};

fn shown(movies: &Vec<MovieInfo<f64>>) -> Vec<MovieText> {
    movies.iter().map(|m| m.with_price(format!("{:.2}", m.price))).collect()
}

fn written(movies: &Vec<MovieInfo<f64>>) -> Vec<MovieText> {
    movies.iter().map(|m| m.with_price(format!("{}", m.price))).collect()
}

fn read(rows: Vec<MovieText>) -> Vec<MovieInfo<f64>> {
    rows.iter().map(|m| m.with_price(m.price.trim().parse::<f64>().unwrap_or(0.0))).collect()
}

#[test]
fn add_list_delete_save_reload() {
    let mut state = SessionState::Running;
    let mut movies: Vec<MovieInfo<f64>> =
        load_movies("MovieData/movies.json", Stored::Missing).movies;
    assert!(movies.is_empty());

    let (next, action) = step(state, "1\n");
    assert_eq!((next, action), (SessionState::Running, Action::AddMovie));
    state = next;
    add_movie(&mut movies, input_movie("Inception\n", "2010\n", 9.99));
    let first_stamp = movies[0].timestamp.clone();

    let (next, action) = step(state, "2\n");
    assert_eq!((next, action), (SessionState::Running, Action::ListMovies));
    state = next;
    assert_eq!(
        display_all_movies(&shown(&movies)),
        vec![
            String::from("\n=== Movie Database ==="),
            String::from("Movie 1"),
            String::from("Title: Inception"),
            String::from("Year: 2010"),
            String::from("Price: $9.99"),
            format!("Last Updated: {}", first_stamp),
            String::from("---------------------"),
        ]
    );
    assert_eq!(
        delete_menu(&movies),
        vec![String::from("\n=== Delete a Movie ==="), String::from("1. Inception (2010)")]
    );

    let (next, _) = step(state, "1\n");
    state = next;
    add_movie(&mut movies, input_movie("Dune\n", "2021\n", 12.50));
    let second_stamp = movies[1].timestamp.clone();

    let (next, action) = step(state, "3\n");
    assert_eq!((next, action), (SessionState::Running, Action::DeleteMovie));
    state = next;
    let removed = delete_movie(&mut movies, "1\n");
    assert_eq!(removed.map(|m| m.title), Some(String::from("Inception")));

    assert_eq!(
        display_all_movies(&shown(&movies)),
        vec![
            String::from("\n=== Movie Database ==="),
            String::from("Movie 1"),
            String::from("Title: Dune"),
            String::from("Year: 2021"),
            String::from("Price: $12.50"),
            format!("Last Updated: {}", second_stamp),
            String::from("---------------------"),
        ]
    );
    assert_eq!(
        delete_menu(&movies),
        vec![String::from("\n=== Delete a Movie ==="), String::from("1. Dune (2021)")]
    );

    let (next, action) = step(state, "4\n");
    assert_eq!((next, action), (SessionState::Terminated, Action::SaveAndExit));
    let document = save_lines(&written(&movies));
    assert_eq!(document, format!("{}|Dune|2021|12.5\n", second_stamp));

    let reloaded = load_movies("MovieData/movies.txt", Stored::Records(read(load_lines(&document))));
    assert_eq!(reloaded.warning, None);
    assert_eq!(reloaded.movies.len(), 1);
    assert_eq!(reloaded.movies[0].title, "Dune");
    assert_eq!(reloaded.movies[0].year, 2021);
    assert_eq!(reloaded.movies[0].price, 12.50);
    assert_eq!(reloaded.movies[0].timestamp, second_stamp);
}
