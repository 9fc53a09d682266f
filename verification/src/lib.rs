use vstd::prelude::*;

pub mod catalog;
pub mod cli;
pub mod clock;
pub mod db;
pub mod decimal;
pub mod detect;
pub mod episode;
pub mod http;
pub mod index;
pub mod journal;
pub mod json;
pub mod label;
pub mod ledger;
pub mod number;
pub mod order;
pub mod paths;
pub mod playback;
pub mod progress;
pub mod search;
pub mod session;
pub mod text;
pub mod title;
pub mod tui;

verus! {

} // verus!
