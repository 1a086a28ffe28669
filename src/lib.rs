//! Verified cores of three small text tools: a line displayer with optional
//! numbering, a head-of-input previewer and a line/word/byte/character counter.
use vstd::prelude::*;

pub mod catr;
pub mod headr;
pub mod text;
pub mod wcr;

verus! {

} // verus!
