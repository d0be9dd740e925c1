//! Lieutenant: a commander deck builder's library — settings, the card and
//! deck model, the omnibar query language, tag rules and screen logic.
use vstd::prelude::*;

pub mod cards;
pub mod cli;
pub mod db;
pub mod field_filter;
pub mod import;
pub mod omni;
pub mod text;
pub mod ui;
pub mod util;

verus! {

/// The actions of the first command-line interface: look a card up online
/// or in the database, pull or update the database, draw the interface, or
/// import cards into a deck.
#[derive(Debug)]
pub enum Command {
    RetrieveCardOnline(String),
    RetrieveCard(String),
    FullPull,
    UpdateDB,
    Draw,
    ImportCards(usize, String),
}

} // verus!
