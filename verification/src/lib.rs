//! Picks one basic emoji at random from the lines of an emoji data file.
//!
//! The crate reads the text of a data file line by line, keeps the code
//! points that the file tags as single basic emoji, and selects one of them.
//! Every function is stated over a mathematical model of the text
//! (`Seq<char>`) and proved against it.

pub mod hex;
pub mod laws;
pub mod parser;
pub mod record;
pub mod scan;
pub mod select;
pub mod text;
