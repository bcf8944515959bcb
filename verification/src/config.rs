//! The configuration record: where the rows come from, where the metrics go and how
//! they are written.

use vstd::prelude::*;

verus! {

/// The delimiter used when the configuration names none.
pub const DEFAULT_DELIMITER: u8 = 44;

/// Where the rendered snapshot is delivered.
#[derive(Debug)]
pub enum Destination {
    /// A file that each new snapshot overwrites.
    File(String),
    /// An address on which the snapshot is served over HTTP.
    Socket(String),
}

/// The source of the rows.
#[derive(Debug)]
pub struct Input {
    pub file: String,
    pub delimiter: Option<char>,
    pub has_headers: bool,
}

/// How the metrics are written, and where to.
#[derive(Debug)]
pub struct Output {
    pub destination: Destination,
    pub prefix: String,
    pub numeric_values_only: bool,
    pub skip_duplicate_headers: bool,
}

/// The whole configuration. It is made once and not changed afterwards.
#[derive(Debug)]
pub struct Config {
    pub input: Input,
    pub output: Output,
}

/// The part of [`Output`] that decides the text of a snapshot.
pub struct Style {
    pub prefix: Seq<char>,
    pub numeric_values_only: bool,
    pub skip_duplicate_headers: bool,
}

/// The byte that separates fields: the low byte of the configured character, which is
/// its code modulo 256, or a comma where none is configured.
pub open spec fn delimiter_of(delimiter: Option<char>) -> u8 {
    match delimiter {
        Some(c) => ((c as u32) % 256) as u8,
        None => DEFAULT_DELIMITER,
    }
}

/// The one destination that a configuration names: a file or a socket, not both and
/// not neither.
pub open spec fn chosen(file: Option<String>, socket: Option<String>) -> Option<Destination> {
    match (file, socket) {
        (Some(path), None) => Some(Destination::File(path)),
        (None, Some(address)) => Some(Destination::Socket(address)),
        _ => None,
    }
}

impl Destination {
    /// Picks the destination out of the two optional settings; `None` unless exactly
    /// one of them is given.
    pub fn choose_from(file: Option<String>, socket: Option<String>) -> (r: Option<Destination>)
        ensures
            r == chosen(file, socket),
    {
        match (file, socket) {
            (Some(path), None) => Some(Destination::File(path)),
            (None, Some(address)) => Some(Destination::Socket(address)),
            _ => None,
        }
    }

    /// Whether snapshots are served over HTTP rather than written to a file.
    pub fn is_socket(&self) -> (r: bool)
        ensures
            r == (self is Socket),
    {
        match self {
            Destination::Socket(_) => true,
            Destination::File(_) => false,
        }
    }
}

impl Input {
    /// The byte that separates the fields of a row.
    pub fn delimiter_byte(&self) -> (r: u8)
        ensures
            r == delimiter_of(self.delimiter),
    {
        match self.delimiter {
            Some(c) => {
                let code: u32 = c as u32;
                (code % 256) as u8
            },
            None => DEFAULT_DELIMITER,
        }
    }
}

impl Output {
    pub open spec fn style(&self) -> Style {
        Style {
            prefix: self.prefix@,
            numeric_values_only: self.numeric_values_only,
            skip_duplicate_headers: self.skip_duplicate_headers,
        }
    }
}

} // verus!
