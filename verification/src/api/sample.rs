//! An answer without content.

use vstd::prelude::*;

verus! {

pub struct Pixiv {}

} // verus!
