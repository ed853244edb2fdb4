//! Effect handlers that exist in name only. None of them transforms
//! anything: the dispatcher does not route to them, and their names fall
//! through to the usage path (see `crate::cli::parse_effect`).

use vstd::prelude::*;

verus! {

/// Rotating an image has no working handler; this does nothing.
pub fn rotate(_infile: String, _outfile: String) {
}

/// Inverting an image has no working handler; this does nothing.
pub fn invert(_infile: String, _outfile: String) {
}

/// Converting an image to grayscale has no working handler; this does nothing.
pub fn grayscale(_infile: String, _outfile: String) {
}

/// Generating a solid-colour image has no working handler; this does nothing.
pub fn generate(_outfile: String) {
}

} // verus!
