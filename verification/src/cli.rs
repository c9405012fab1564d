//! The options record consumed by the transform pipeline.
//!
//! Command-line parsing itself is an external concern; this module only
//! defines the plain record of switches that the rest of the library
//! consumes.

use vstd::prelude::*;

verus! {

/// The set of display switches, together with the list of requested
/// source identifiers (file paths, or `"-"` for standard input).
///
/// Invariants of meaning (enforced where the operation list is built,
/// not stored here): `show_all` forces both `show_ends` and `show_tabs`;
/// `number_nonblank` takes precedence over `number`.
#[derive(Debug)]
pub struct Cli {
    pub files: Vec<String>,
    pub show_all: bool,
    pub show_ends: bool,
    pub number: bool,
    pub number_nonblank: bool,
    pub show_tabs: bool,
    pub squeeze_blanks: bool,
}

impl Cli {
    /// A fresh record: no sources and every switch off.
    pub fn new() -> (cli: Cli)
        ensures
            cli.files@.len() == 0,
            !cli.show_all,
            !cli.show_ends,
            !cli.number,
            !cli.number_nonblank,
            !cli.show_tabs,
            !cli.squeeze_blanks,
    {
        Cli {
            files: Vec::new(),
            show_all: false,
            show_ends: false,
            number: false,
            number_nonblank: false,
            show_tabs: false,
            squeeze_blanks: false,
        }
    }
}

} // verus!
