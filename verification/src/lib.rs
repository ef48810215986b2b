//! Extraction of named addresses from an IDC symbol dump.
//!
//! A dump is read line by line. A line that holds a `set_name` directive
//! gives a record of a symbol's name and address (`pattern`, `record`). A
//! record whose name looks like a C or C++ symbol (`classify`) gives one
//! line of the listing, `0x<address>: <name>`; the others are counted and
//! left out (`dump`). At the end the counts give a summary line.
//!
//! Lines are found with a regular expression, and what the expression
//! captures is taken from the `regex` crate as it comes. Everything after
//! that is proved: which record a line's captures stand for, which names
//! are kept, what the listing and the counts are, and that an address
//! written to the listing reads back as the same number.

pub mod classify;
pub mod dump;
pub mod hex;
pub mod numeral;
pub mod pattern;
pub mod record;
pub mod text;
