pub mod handler;
pub mod laws;
pub mod stemming;
pub mod text;

use vstd::prelude::*;

verus! {

/// The closed set of languages the stemming handler accepts.
#[derive(Clone, Copy, PartialEq, Eq, Structural, Debug)]
pub enum Language {
    English,
    Spanish,
}

} // verus!
