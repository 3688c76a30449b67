use vstd::prelude::*;

verus! {

/// One entry of the radio playlist: a title and the sample file it plays.
pub struct SampleData {
    pub title: String,
    pub filename: String,
}

} // verus!
