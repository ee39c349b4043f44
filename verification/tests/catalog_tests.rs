use movie_saver::catalog::{
    add_movie, delete_menu, delete_movie, deletion_notice, display_all_movies, parse_selection,
};
use movie_saver::record::{display_movie, input_movie, parse_year, MovieInfo, MovieText};

fn movie(title: &str, year: i32, price: f64) -> MovieInfo<f64> {
    MovieInfo {
        timestamp: String::from("2024-01-02 03:04:05"),
        title: String::from(title),
        year,
        price,
    }
}

fn shown(movies: &Vec<MovieInfo<f64>>) -> Vec<MovieText> {
    movies.iter().map(|m| m.with_price(format!("{:.2}", m.price))).collect()
}

fn titles(movies: &Vec<MovieInfo<f64>>) -> Vec<String> {
    movies.iter().map(|m| m.title.clone()).collect()
}

#[test]
fn parse_year_falls_back_to_zero() {
    assert_eq!(parse_year("2010\n"), 2010);
    assert_eq!(parse_year("  1999  "), 1999);
    assert_eq!(parse_year("-3"), -3);
    assert_eq!(parse_year("abc"), 0);
    assert_eq!(parse_year(""), 0);
    assert_eq!(parse_year("20 10"), 0);
    assert_eq!(parse_year("3000000000"), 0);
}

#[test]
fn input_movie_trims_the_title() {
    let m = input_movie("  Inception \n", "2010\n", 9.99f64);
    assert_eq!(m.title, "Inception");
    assert_eq!(m.year, 2010);
    assert_eq!(m.price, 9.99);
    let stamp: Vec<char> = m.timestamp.chars().collect();
    assert_eq!(stamp.len(), 19);
    assert_eq!((stamp[4], stamp[7], stamp[10], stamp[13], stamp[16]), ('-', '-', ' ', ':', ':'));
}

#[test]
fn input_movie_coerces_a_bad_year() {
    let m = input_movie("Dune", "next year", 0.0f64);
    assert_eq!(m.year, 0);
    assert_eq!(m.title, "Dune");
}

#[test]
fn display_movie_gives_four_lines() {
    let lines = display_movie(&movie("Inception", 2010, 9.99).with_price(String::from("9.99")));
    assert_eq!(
        lines,
        vec![
            String::from("Title: Inception"),
            String::from("Year: 2010"),
            String::from("Price: $9.99"),
            String::from("Last Updated: 2024-01-02 03:04:05"),
        ]
    );
}

#[test]
fn display_movie_shows_a_negative_year() {
    let lines = display_movie(&movie("Old", -300, 1.0).with_price(String::from("1.00")));
    assert_eq!(lines[1], "Year: -300");
}

#[test]
fn listing_of_empty_catalog_is_one_notice() {
    let movies: Vec<MovieText> = Vec::new();
    let lines = display_all_movies(&movies);
    assert_eq!(lines, vec![String::from("No movies in database.")]);
}

#[test]
fn listing_shows_every_record_in_order() {
    let movies = vec![movie("Inception", 2010, 9.99), movie("Dune", 2021, 12.5)];
    let lines = display_all_movies(&shown(&movies));
    assert_eq!(
        lines,
        vec![
            String::from("\n=== Movie Database ==="),
            String::from("Movie 1"),
            String::from("Title: Inception"),
            String::from("Year: 2010"),
            String::from("Price: $9.99"),
            String::from("Last Updated: 2024-01-02 03:04:05"),
            String::from("---------------------"),
            String::from("Movie 2"),
            String::from("Title: Dune"),
            String::from("Year: 2021"),
            String::from("Price: $12.50"),
            String::from("Last Updated: 2024-01-02 03:04:05"),
            String::from("---------------------"),
        ]
    );
}

#[test]
fn listing_twice_gives_the_same_lines() {
    let movies = vec![movie("Inception", 2010, 9.99), movie("Dune", 2021, 12.5)];
    let texts = shown(&movies);
    let first = display_all_movies(&texts);
    let second = display_all_movies(&texts);
    assert_eq!(first, second);
    assert_eq!(texts.len(), 2);
    assert_eq!(texts[0].price, "9.99");
    assert_eq!(texts[1].title, "Dune");
    assert_eq!(titles(&movies), vec![String::from("Inception"), String::from("Dune")]);
}

#[test]
fn delete_menu_numbers_from_one() {
    let movies = vec![movie("Inception", 2010, 9.99), movie("Dune", 2021, 12.5)];
    assert_eq!(
        delete_menu(&movies),
        vec![
            String::from("\n=== Delete a Movie ==="),
            String::from("1. Inception (2010)"),
            String::from("2. Dune (2021)"),
        ]
    );
}

#[test]
fn delete_menu_of_empty_catalog_is_one_notice() {
    let movies: Vec<MovieInfo<f64>> = Vec::new();
    assert_eq!(delete_menu(&movies), vec![String::from("No movies to delete.")]);
}

#[test]
fn delete_menu_counts_past_nine() {
    let mut movies: Vec<MovieInfo<f64>> = Vec::new();
    for i in 0..12 {
        add_movie(&mut movies, movie("M", 2000 + i, 1.0));
    }
    let lines = delete_menu(&movies);
    assert_eq!(lines.len(), 13);
    assert_eq!(lines[10], "10. M (2009)");
    assert_eq!(lines[12], "12. M (2011)");
}

#[test]
fn parse_selection_accepts_one_to_len() {
    assert_eq!(parse_selection("1", 3), Some(0));
    assert_eq!(parse_selection(" 3\n", 3), Some(2));
    assert_eq!(parse_selection("+2", 3), Some(1));
    assert_eq!(parse_selection("0", 3), None);
    assert_eq!(parse_selection("4", 3), None);
    assert_eq!(parse_selection("-1", 3), None);
    assert_eq!(parse_selection("two", 3), None);
    assert_eq!(parse_selection("", 3), None);
    assert_eq!(parse_selection("1", 0), None);
}

#[test]
fn delete_out_of_range_changes_nothing() {
    for input in ["0", "-1", "3", "999999999999999999999999", "x", "", " ", "1.0"] {
        let mut movies = vec![movie("Inception", 2010, 9.99), movie("Dune", 2021, 12.5)];
        let removed = delete_movie(&mut movies, input);
        assert!(removed.is_none(), "input {:?}", input);
        assert_eq!(titles(&movies), vec![String::from("Inception"), String::from("Dune")]);
        assert_eq!(deletion_notice(&removed), "Invalid selection.");
    }
}

#[test]
fn delete_from_empty_catalog_changes_nothing() {
    let mut movies: Vec<MovieInfo<f64>> = Vec::new();
    assert!(delete_movie(&mut movies, "1").is_none());
    assert!(movies.is_empty());
}

#[test]
fn delete_removes_the_selected_record() {
    let mut movies = vec![movie("A", 1, 1.0), movie("B", 2, 2.0), movie("C", 3, 3.0), movie("D", 4, 4.0)];
    let removed = delete_movie(&mut movies, "2\n");
    assert_eq!(removed.as_ref().map(|m| m.title.clone()), Some(String::from("B")));
    assert_eq!(deletion_notice(&removed), "Deleted \"B\" (2)");
    assert_eq!(titles(&movies), vec![String::from("A"), String::from("C"), String::from("D")]);
    let removed = delete_movie(&mut movies, "3");
    assert_eq!(removed.map(|m| m.year), Some(4));
    assert_eq!(titles(&movies), vec![String::from("A"), String::from("C")]);
    let removed = delete_movie(&mut movies, "1");
    assert_eq!(removed.map(|m| m.price), Some(1.0));
    assert_eq!(titles(&movies), vec![String::from("C")]);
}

#[test]
fn add_movie_appends_and_allows_duplicates() {
    let mut movies: Vec<MovieInfo<f64>> = Vec::new();
    add_movie(&mut movies, movie("Dune", 2021, 12.5));
    add_movie(&mut movies, movie("Inception", 2010, 9.99));
    add_movie(&mut movies, movie("Dune", 2021, 12.5));
    assert_eq!(
        titles(&movies),
        vec![String::from("Dune"), String::from("Inception"), String::from("Dune")]
    );
}

#[test]
fn with_price_keeps_the_other_fields() {
    let m = movie("Dune", 2021, 12.5).with_price(1250u32);
    assert_eq!(m.title, "Dune");
    assert_eq!(m.year, 2021);
    assert_eq!(m.timestamp, "2024-01-02 03:04:05");
    assert_eq!(m.price, 1250);
}

#[test]
fn listing_numbers_every_entry_from_one() {
    let mut movies: Vec<MovieInfo<f64>> = Vec::new();
    for i in 0..11 {
        add_movie(&mut movies, movie("M", 2000 + i, 1.0));
    }
    let lines = display_all_movies(&shown(&movies));
    assert_eq!(lines.len(), 1 + 6 * 11);
    for k in 1..=11usize {
        assert_eq!(lines[6 * k - 5], format!("Movie {}", k));
        assert_eq!(lines[6 * k - 4], "Title: M");
        assert_eq!(lines[6 * k - 3], format!("Year: {}", 1999 + k));
        assert_eq!(lines[6 * k - 2], "Price: $1.00");
        assert_eq!(lines[6 * k - 1], "Last Updated: 2024-01-02 03:04:05");
        assert_eq!(lines[6 * k], "---------------------");
    }
}

#[test]
fn listing_renumbers_after_a_deletion() {
    let mut movies = vec![movie("Inception", 2010, 9.99), movie("Dune", 2021, 12.5)];
    assert!(delete_movie(&mut movies, "1").is_some());
    let lines = display_all_movies(&shown(&movies));
    assert_eq!(lines.len(), 7);
    assert_eq!(lines[1], "Movie 1");
    assert_eq!(lines[2], "Title: Dune");
    assert!(lines.iter().all(|l| !l.contains("Inception")));
    assert!(lines.iter().all(|l| l != "Movie 2"));
}
