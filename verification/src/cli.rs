//! What the command line can ask for.
use vstd::prelude::*;
use std::path::PathBuf;

verus! {

/// A file system path, carried through unchanged.
#[verifier::external_type_specification]
#[verifier::external_body]
pub struct ExPathBuf(PathBuf);

/// The actions of the command line: show a card, update the program and
/// its database, draw the interface, import a deck from a file (deck name,
/// commanders, file), or export a deck to a file.
#[derive(Debug)]
pub enum Command {
    RetrieveCard(String),
    Update,
    Draw,
    ImportDeck(String, Vec<String>, PathBuf),
    ExportDeck(i32, Option<PathBuf>),
}

} // verus!
