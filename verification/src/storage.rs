//! What becomes of the catalog when it is read from and written to its
//! file: the caller reads and writes, and reports here what it found.

use vstd::prelude::*;
use vstd::string::*;
use crate::record::{views, MovieInfo, MovieView};

verus! {

/// What the caller found where the catalog is kept.
#[derive(Debug)]
pub enum Stored<P> {
    /// There is no file.
    Missing,
    /// The file could not be read, for the reason given.
    Unreadable(String),
    /// The file holds no catalog, for the reason given.
    Malformed(String),
    /// The file holds these records.
    Records(Vec<MovieInfo<P>>),
}

/// The catalog that a session starts with, and the warning to show.
#[derive(Debug)]
pub struct Loaded<P> {
    pub movies: Vec<MovieInfo<P>>,
    pub warning: Option<String>,
}

/// How writing the catalog went.
#[derive(Debug)]
pub enum SaveOutcome {
    /// The catalog could not be put into its written form.
    NotEncoded(String),
    /// The file could not be written.
    NotWritten(String),
    Written,
}

/// A message for the operator; `is_error` tells which stream it
/// belongs to.
#[derive(Debug)]
pub struct Notice {
    pub text: String,
    pub is_error: bool,
}

pub open spec fn stored_records<P>(stored: Stored<P>) -> Seq<MovieView<P>> {
    match stored {
        Stored::Records(movies) => views(movies@),
        _ => Seq::empty(),
    }
}

pub open spec fn load_warning<P>(filename: Seq<char>, stored: Stored<P>) -> Option<Seq<char>> {
    match stored {
        Stored::Unreadable(reason) => Some(
            "Warning: Could not read file "@ + filename + ": "@ + reason@,
        ),
        Stored::Malformed(reason) => Some(
            "Warning: Failed to parse JSON data from "@ + filename + ": "@ + reason@,
        ),
        _ => None,
    }
}

pub open spec fn save_notice(filename: Seq<char>, outcome: SaveOutcome) -> (Seq<char>, bool) {
    match outcome {
        SaveOutcome::NotEncoded(reason) => (
            "Failed to convert movies to JSON: "@ + reason@,
            true,
        ),
        SaveOutcome::NotWritten(reason) => (
            "Failed to save movies to "@ + filename + ": "@ + reason@,
            true,
        ),
        SaveOutcome::Written => ("Movies saved successfully to "@ + filename, false),
    }
}

/// The directory in which the catalog is kept.
pub fn storage_directory() -> (name: &'static str)
    ensures
        name@ == "MovieData"@,
{
    "MovieData"
}

/// The file in which the catalog is kept.
pub fn storage_file() -> (name: &'static str)
    ensures
        name@ == "MovieData/movies.json"@,
{
    "MovieData/movies.json"
}

/// The catalog to start with. A missing file gives an empty catalog
/// and no warning; a file that cannot be read, or that holds no
/// catalog, gives an empty catalog and a warning; otherwise the
/// records are those of the file, in its order.
pub fn load_movies<P>(filename: &str, stored: Stored<P>) -> (loaded: Loaded<P>)
    ensures
        views(loaded.movies@) == stored_records(stored),
        match load_warning(filename@, stored) {
            Some(text) => loaded.warning.is_some() && loaded.warning.unwrap()@ == text,
            None => loaded.warning.is_none(),
        },
{
    match stored {
        Stored::Missing => {
            let movies: Vec<MovieInfo<P>> = Vec::new();
            proof {
                assert(views(movies@) =~= Seq::<MovieView<P>>::empty());
            }
            Loaded { movies, warning: None }
        },
        Stored::Unreadable(reason) => {
            let movies: Vec<MovieInfo<P>> = Vec::new();
            proof {
                assert(views(movies@) =~= Seq::<MovieView<P>>::empty());
            }
            let text: String = String::from_str("Warning: Could not read file ").concat(
                filename,
            ).concat(": ").concat(reason.as_str());
            Loaded { movies, warning: Some(text) }
        },
        Stored::Malformed(reason) => {
            let movies: Vec<MovieInfo<P>> = Vec::new();
            proof {
                assert(views(movies@) =~= Seq::<MovieView<P>>::empty());
            }
            let text: String = String::from_str("Warning: Failed to parse JSON data from ").concat(
                filename,
            ).concat(": ").concat(reason.as_str());
            Loaded { movies, warning: Some(text) }
        },
        Stored::Records(movies) => Loaded { movies, warning: None },
    }
}

/// The message that reports how writing the catalog went.
pub fn save_movies(filename: &str, outcome: &SaveOutcome) -> (notice: Notice)
    ensures
        notice.text@ == save_notice(filename@, *outcome).0,
        notice.is_error == save_notice(filename@, *outcome).1,
{
    match outcome {
        SaveOutcome::NotEncoded(reason) => Notice {
            text: String::from_str("Failed to convert movies to JSON: ").concat(reason.as_str()),
            is_error: true,
        },
        SaveOutcome::NotWritten(reason) => Notice {
            text: String::from_str("Failed to save movies to ").concat(filename).concat(
                ": ",
            ).concat(reason.as_str()),
            is_error: true,
        },
        SaveOutcome::Written => Notice {
            text: String::from_str("Movies saved successfully to ").concat(filename),
            is_error: false,
        },
    }
}

} // verus!
