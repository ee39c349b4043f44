//! The catalog: an ordered run of records, listed and deleted by
//! position counted from one.

use vstd::prelude::*;
use vstd::string::*;
use crate::record::{
    display_movie, movie_lines, text_view, text_views, views, MovieInfo, MovieText, MovieTextView,
    MovieView,
};
use crate::text::{
    decimal, decimal_text, is_digit, lemma_decimal_reads_back, lemma_trim_keeps_number, parse_usize,
    parsed_unsigned, signed_decimal, signed_decimal_text, texts, trim, trimmed,
};

verus! {

/// The text of the rule that closes each entry of a listing.
pub open spec fn rule_text() -> Seq<char> {
    "---------------------"@
}

/// The lines that show the record at `position`, counted from one: a
/// line that gives the position, then the record's own lines.
pub open spec fn entry_lines(position: nat, m: MovieTextView) -> Seq<Seq<char>> {
    seq!["Movie "@ + decimal(position)] + movie_lines(m)
}

/// The part of a listing that shows the records: each record's entry
/// under its position, followed by a rule.
pub open spec fn entries(movies: Seq<MovieTextView>) -> Seq<Seq<char>>
    decreases movies.len(),
{
    if movies.len() == 0 {
        Seq::empty()
    } else {
        entries(movies.drop_last()) + entry_lines(movies.len(), movies.last()).push(rule_text())
    }
}

/// The listing of a catalog: a notice where it is empty, else a heading
/// and the entries in order.
pub open spec fn listing(movies: Seq<MovieTextView>) -> Seq<Seq<char>> {
    if movies.len() == 0 {
        seq!["No movies in database."@]
    } else {
        seq!["\n=== Movie Database ==="@] + entries(movies)
    }
}

/// The line that offers one record for deletion, under its position
/// counted from one.
pub open spec fn choice_line<P>(position: nat, m: MovieView<P>) -> Seq<char> {
    decimal(position) + ". "@ + m.title + " ("@ + signed_decimal(m.year) + ")"@
}

pub open spec fn choice_lines<P>(movies: Seq<MovieView<P>>) -> Seq<Seq<char>> {
    Seq::new(movies.len(), |i: int| choice_line((i + 1) as nat, movies[i]))
}

/// What is shown before a deletion: a notice where there is nothing to
/// delete, else a heading and one line for each record.
pub open spec fn delete_menu_lines<P>(movies: Seq<MovieView<P>>) -> Seq<Seq<char>> {
    if movies.len() == 0 {
        seq!["No movies to delete."@]
    } else {
        seq!["\n=== Delete a Movie ==="@] + choice_lines(movies)
    }
}

/// The position, counted from zero, that a typed line selects in a
/// catalog of `len` records: the line, once trimmed, must read as a
/// number from 1 to `len`.
pub open spec fn selection(input: Seq<char>, len: nat) -> Option<int> {
    match parsed_unsigned(trimmed(input), len) {
        Some(k) => if k >= 1 {
            Some(k - 1)
        } else {
            None
        },
        None => None,
    }
}

/// The catalog after a deletion was asked for by `input`.
pub open spec fn after_delete<P>(movies: Seq<MovieView<P>>, input: Seq<char>) -> Seq<MovieView<P>> {
    match selection(input, movies.len()) {
        Some(i) => movies.remove(i),
        None => movies,
    }
}

/// The record that a deletion asked for by `input` takes out.
pub open spec fn removed_by<P>(movies: Seq<MovieView<P>>, input: Seq<char>) -> Option<
    MovieView<P>,
> {
    match selection(input, movies.len()) {
        Some(i) => Some(movies[i]),
        None => None,
    }
}

/// What is reported after a deletion was asked for.
pub open spec fn deletion_notice_text<P>(removed: Option<MovieView<P>>) -> Seq<char> {
    match removed {
        Some(m) => "Deleted \""@ + m.title + "\" ("@ + signed_decimal(m.year) + ")"@,
        None => "Invalid selection."@,
    }
}

/// Appends a record to the catalog.
pub fn add_movie<P>(movies: &mut Vec<MovieInfo<P>>, movie: MovieInfo<P>)
    ensures
        views(final(movies)@) == views(old(movies)@).push(movie@),
{
    movies.push(movie);
    proof {
        assert(views(movies@) =~= views(old(movies)@).push(movie@));
    }
}

/// The lines that list the catalog, each record under its position
/// counted from one and with its price held as it is to be printed.
/// The catalog is only read.
pub fn display_all_movies(movies: &Vec<MovieText>) -> (lines: Vec<String>)
    ensures
        texts(lines@) == listing(text_views(movies@)),
{
    let mut lines: Vec<String> = Vec::new();
    if movies.len() == 0 {
        lines.push(String::from_str("No movies in database."));
        proof {
            assert(texts(lines@) =~= listing(text_views(movies@)));
        }
        return lines;
    }
    lines.push(String::from_str("\n=== Movie Database ==="));
    let ghost all = text_views(movies@);
    let mut i: usize = 0;
    proof {
        assert(texts(lines@) =~= seq!["\n=== Movie Database ==="@] + entries(all.take(0)));
    }
    while i < movies.len()
        invariant
            i <= movies@.len(),
            all == text_views(movies@),
            texts(lines@) == seq!["\n=== Movie Database ==="@] + entries(all.take(i as int)),
        decreases movies@.len() - i,
    {
        let ghost before = lines@;
        let heading: String = String::from_str("Movie ").concat(
            decimal_text((i + 1) as u64).as_str(),
        );
        let mut block: Vec<String> = display_movie(&movies[i]);
        let ghost shown = block@;
        lines.push(heading);
        lines.append(&mut block);
        lines.push(String::from_str("---------------------"));
        proof {
            let m = all.take(i as int + 1);
            assert(m.drop_last() =~= all.take(i as int));
            assert(m.last() == text_view(movies@[i as int]));
            assert(m.len() == i + 1);
            assert(texts(lines@) =~= texts(before) + entry_lines((i + 1) as nat, m.last()).push(
                rule_text(),
            ));
        }
        i += 1;
    }
    proof {
        assert(all.take(i as int) =~= all);
    }
    lines
}

/// The lines shown before a deletion.
pub fn delete_menu<P>(movies: &Vec<MovieInfo<P>>) -> (lines: Vec<String>)
    ensures
        texts(lines@) == delete_menu_lines(views(movies@)),
{
    let mut lines: Vec<String> = Vec::new();
    if movies.len() == 0 {
        lines.push(String::from_str("No movies to delete."));
        proof {
            assert(texts(lines@) =~= delete_menu_lines(views(movies@)));
        }
        return lines;
    }
    lines.push(String::from_str("\n=== Delete a Movie ==="));
    let ghost all = views(movies@);
    let mut i: usize = 0;
    proof {
        assert(texts(lines@) =~= seq!["\n=== Delete a Movie ==="@] + choice_lines(all).take(0));
    }
    while i < movies.len()
        invariant
            i <= movies@.len(),
            all == views(movies@),
            texts(lines@) == seq!["\n=== Delete a Movie ==="@] + choice_lines(all).take(i as int),
        decreases movies@.len() - i,
    {
        let ghost before = lines@;
        let movie: &MovieInfo<P> = &movies[i];
        let line: String = decimal_text((i + 1) as u64).concat(". ").concat(
            movie.title.as_str(),
        ).concat(" (").concat(signed_decimal_text(movie.year).as_str()).concat(")");
        lines.push(line);
        proof {
            assert(line@ == choice_line((i + 1) as nat, all[i as int]));
            assert(choice_lines(all).take(i as int + 1) =~= choice_lines(all).take(i as int).push(
                line@,
            ));
            assert(texts(lines@) =~= texts(before).push(line@));
        }
        i += 1;
    }
    proof {
        assert(choice_lines(all).take(i as int) =~= choice_lines(all));
    }
    lines
}

/// Reads a typed selection against a catalog of `len` records.
pub fn parse_selection(input: &str, len: usize) -> (r: Option<usize>)
    ensures
        match selection(input@, len as nat) {
            Some(i) => r == Some(i as usize) && 0 <= i < len,
            None => r.is_none(),
        },
{
    match parse_usize(trim(input)) {
        Some(k) => {
            if k > 0 && k <= len {
                Some(k - 1)
            } else {
                None
            }
        },
        None => None,
    }
}

/// Deletes the record that `input` selects and hands it back. Input
/// that selects none leaves the catalog as it is.
pub fn delete_movie<P>(movies: &mut Vec<MovieInfo<P>>, input: &str) -> (removed: Option<
    MovieInfo<P>,
>)
    ensures
        views(final(movies)@) == after_delete(views(old(movies)@), input@),
        match removed_by(views(old(movies)@), input@) {
            Some(m) => removed.is_some() && removed.unwrap()@ == m,
            None => removed.is_none(),
        },
        match selection(input@, old(movies)@.len()) {
            Some(i) => removed.is_some() && removed.unwrap()@ == old(movies)@[i]@
                && final(movies)@ == old(movies)@.remove(i),
            None => removed.is_none() && final(movies)@ == old(movies)@,
        },
{
    match parse_selection(input, movies.len()) {
        Some(i) => {
            let movie: MovieInfo<P> = movies.remove(i);
            proof {
                assert(views(movies@) =~= views(old(movies)@).remove(i as int));
            }
            Some(movie)
        },
        None => None,
    }
}

/// The notice that follows a deletion.
pub fn deletion_notice<P>(removed: &Option<MovieInfo<P>>) -> (notice: String)
    ensures
        notice@ == deletion_notice_text(
            match removed {
                Some(m) => Some(m@),
                None => None,
            },
        ),
{
    match removed {
        Some(m) => String::from_str("Deleted \"").concat(m.title.as_str()).concat("\" (").concat(
            signed_decimal_text(m.year).as_str(),
        ).concat(")"),
        None => String::from_str("Invalid selection."),
    }
}

/// A listing holds six lines for each record.
pub proof fn lemma_entries_len(movies: Seq<MovieTextView>)
    ensures
        entries(movies).len() == 6 * movies.len(),
    decreases movies.len(),
{
    if movies.len() > 0 {
        lemma_entries_len(movies.drop_last());
    }
}

/// The listing of a catalog that is not empty holds, after its
/// heading, one entry for each record and in the catalog's order: the
/// entry at position `k`, counted from one, gives `k`, shows the
/// record that stands there, and ends with a rule.
pub proof fn law_listing_entry(movies: Seq<MovieTextView>, k: int)
    requires
        1 <= k <= movies.len(),
    ensures
        listing(movies).len() == 1 + 6 * movies.len(),
        listing(movies).subrange(6 * k - 5, 6 * k + 1) == entry_lines(k as nat, movies[k - 1]).push(
            rule_text(),
        ),
        listing(movies)[6 * k - 5] == "Movie "@ + decimal(k as nat),
    decreases movies.len(),
{
    let init = movies.drop_last();
    let last = entry_lines(movies.len(), movies.last()).push(rule_text());
    lemma_entries_len(movies);
    lemma_entries_len(init);
    assert(entries(movies) == entries(init) + last);
    if k == movies.len() {
        assert(listing(movies).subrange(6 * k - 5, 6 * k + 1) =~= last);
    } else {
        law_listing_entry(init, k);
        assert(listing(movies).subrange(6 * k - 5, 6 * k + 1) =~= listing(init).subrange(
            6 * k - 5,
            6 * k + 1,
        ));
        assert(init[k - 1] == movies[k - 1]);
    }
    let block = entry_lines(k as nat, movies[k - 1]).push(rule_text());
    assert(listing(movies).subrange(6 * k - 5, 6 * k + 1)[0] == block[0]);
}

/// A deletion asked for by a number outside 1 to the catalog's length
/// (zero, a negative number, one past the end) selects nothing and
/// leaves the catalog as it is.
pub proof fn law_delete_out_of_range<P>(movies: Seq<MovieView<P>>, k: int)
    requires
        k <= 0 || k > movies.len(),
    ensures
        selection(signed_decimal(k), movies.len()).is_none(),
        after_delete(movies, signed_decimal(k)) == movies,
        deletion_notice_text(removed_by(movies, signed_decimal(k))) == "Invalid selection."@,
{
    lemma_trim_keeps_number(k);
    if k >= 0 {
        lemma_decimal_reads_back(k as nat);
    } else {
        let s = signed_decimal(k);
        assert(s[0] == '-');
    }
}

/// A deletion asked for by input that is no number (nothing but white
/// space, or a character that is neither a digit nor a leading `+`)
/// selects nothing and leaves the catalog as it is.
pub proof fn law_delete_rejects_non_numbers<P>(movies: Seq<MovieView<P>>, input: Seq<char>)
    requires
        trimmed(input).len() == 0 || exists|i: int|
            0 <= i < trimmed(input).len() && !is_digit(#[trigger] trimmed(input)[i]) && (i > 0
                || trimmed(input)[0] != '+'),
    ensures
        selection(input, movies.len()).is_none(),
        after_delete(movies, input) == movies,
        deletion_notice_text(removed_by(movies, input)) == "Invalid selection."@,
{
    let t = trimmed(input);
    if t.len() > 0 {
        let i = choose|i: int|
            0 <= i < t.len() && !is_digit(#[trigger] t[i]) && (i > 0 || t[0] != '+');
        if t[0] == '+' {
            assert(t.drop_first()[i - 1] == t[i]);
        }
    }
}

/// A deletion asked for by a number `k` from 1 to the catalog's length
/// takes out the record at that position: the catalog is one shorter,
/// the records before it stay where they were, and each record after
/// it moves one place down.
pub proof fn law_delete_removes_one<P>(movies: Seq<MovieView<P>>, k: int)
    requires
        1 <= k <= movies.len(),
    ensures
        selection(signed_decimal(k), movies.len()) == Some(k - 1),
        removed_by(movies, signed_decimal(k)) == Some(movies[k - 1]),
        after_delete(movies, signed_decimal(k)).len() == movies.len() - 1,
        forall|j: int|
            0 <= j < k - 1 ==> after_delete(movies, signed_decimal(k))[j] == movies[j],
        forall|j: int|
            k - 1 <= j < movies.len() - 1 ==> after_delete(movies, signed_decimal(k))[j]
                == movies[j + 1],
{
    lemma_trim_keeps_number(k);
    lemma_decimal_reads_back(k as nat);
}

} // verus!
