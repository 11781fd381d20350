//! Rewriting of function, closure and block bodies so that every value they
//! can end with is wrapped in its own variant of one generated sum type, and
//! generation of the trait implementations that make the sum type stand for
//! whichever value it holds.

pub mod catalogue;
pub mod context;
pub mod derive;
pub mod find_try;
pub mod parse;
pub mod reading;
pub mod semantics;
pub mod syntax;
pub mod visitor;

pub mod detection;
pub mod foreign;
pub mod identity;
pub mod laws;
pub mod numbering;
pub mod progress;
pub mod single;
pub mod weight;
