//! One movie record: what it holds, how it is made from what the
//! operator typed, and how it is shown.

use vstd::prelude::*;
use vstd::string::*;
use crate::clock::{
    get_current_timestamp, instant_in_range, instant_text, is_timestamp_text, ZONE_OFFSET_SECONDS,
};
use crate::text::{parse_i32, parsed_signed, signed_decimal, signed_decimal_text, texts, trim, trimmed};

verus! {

/// One entry of the catalog.
///
/// `P` is the type in which the price is held. A record carries its
/// price without computing on it, and the caller supplies the price's
/// rendering where one is shown.
#[derive(Clone, Debug)]
pub struct MovieInfo<P> {
    pub timestamp: String,
    pub title: String,
    pub year: i32,
    pub price: P,
}

/// The mathematical content of a [`MovieInfo`].
pub struct MovieView<P> {
    pub timestamp: Seq<char>,
    pub title: Seq<char>,
    pub year: int,
    pub price: P,
}

impl<P> View for MovieInfo<P> {
    type V = MovieView<P>;

    open spec fn view(&self) -> MovieView<P> {
        MovieView {
            timestamp: self.timestamp@,
            title: self.title@,
            year: self.year as int,
            price: self.price,
        }
    }
}

/// The contents of a run of records, in order.
pub open spec fn views<P>(movies: Seq<MovieInfo<P>>) -> Seq<MovieView<P>> {
    movies.map_values(|m: MovieInfo<P>| m@)
}

/// A record whose price is held as text: as it is to be printed, or as
/// it stands in a written line.
pub type MovieText = MovieInfo<String>;

/// The content of a [`MovieText`].
pub type MovieTextView = MovieView<Seq<char>>;

pub open spec fn text_view(movie: MovieText) -> MovieTextView {
    MovieView {
        timestamp: movie.timestamp@,
        title: movie.title@,
        year: movie.year as int,
        price: movie.price@,
    }
}

pub open spec fn text_views(movies: Seq<MovieText>) -> Seq<MovieTextView> {
    movies.map_values(|m: MovieText| text_view(m))
}

/// The year that a typed line stands for: the number it holds once
/// trimmed, or 0 where it holds none that fits.
pub open spec fn year_of(input: Seq<char>) -> int {
    match parsed_signed(trimmed(input), i32::MIN as int, i32::MAX as int) {
        Some(v) => v,
        None => 0,
    }
}

/// The four lines that show one record.
pub open spec fn movie_lines(m: MovieTextView) -> Seq<Seq<char>> {
    seq![
        "Title: "@ + m.title,
        "Year: "@ + signed_decimal(m.year),
        "Price: $"@ + m.price,
        "Last Updated: "@ + m.timestamp,
    ]
}

impl<P> MovieInfo<P> {
    /// The same record with another price in place of its own.
    pub fn with_price<Q>(&self, price: Q) -> (movie: MovieInfo<Q>)
        ensures
            movie@ == (MovieView {
                timestamp: self@.timestamp,
                title: self@.title,
                year: self@.year,
                price,
            }),
    {
        MovieInfo {
            timestamp: self.timestamp.clone(),
            title: self.title.clone(),
            year: self.year,
            price,
        }
    }
}

/// Reads a typed year. Input that is no number, or none that fits,
/// counts as 0.
pub fn parse_year(input: &str) -> (year: i32)
    ensures
        year as int == year_of(input@),
{
    match parse_i32(trim(input)) {
        Some(v) => v,
        None => 0,
    }
}

/// Makes a record from what the operator typed, stamped with the
/// current time: the title is trimmed, the year is read leniently, the
/// price is taken as given.
pub fn input_movie<P>(title: &str, year: &str, price: P) -> (movie: MovieInfo<P>)
    ensures
        is_timestamp_text(movie@.timestamp),
        exists|seconds: int|
            instant_in_range(seconds) && movie@.timestamp == #[trigger] instant_text(
                seconds,
                ZONE_OFFSET_SECONDS as int,
                "%Y-%m-%d %H:%M:%S"@,
            ),
        movie@.title == trimmed(title@),
        movie@.year == year_of(year@),
        movie@.price == price,
{
    MovieInfo {
        timestamp: get_current_timestamp(),
        title: String::from_str(trim(title)),
        year: parse_year(year),
        price,
    }
}

/// The lines that show one record, whose price is held as it is to be
/// printed.
pub fn display_movie(movie: &MovieText) -> (lines: Vec<String>)
    ensures
        texts(lines@) == movie_lines(text_view(*movie)),
{
    let mut lines: Vec<String> = Vec::new();
    lines.push(String::from_str("Title: ").concat(movie.title.as_str()));
    lines.push(String::from_str("Year: ").concat(signed_decimal_text(movie.year).as_str()));
    lines.push(String::from_str("Price: $").concat(movie.price.as_str()));
    lines.push(String::from_str("Last Updated: ").concat(movie.timestamp.as_str()));
    proof {
        assert(texts(lines@) =~= movie_lines(text_view(*movie)));
    }
    lines
}

} // verus!
