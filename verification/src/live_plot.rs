use vstd::prelude::*;

use crate::text::numbered_title;
use crate::text::spec_numbered;

verus! {

/// The live-plot widget's state: its numbered title.
#[derive(Debug)]
pub struct LivePlot {
    pub title: String,
}

impl LivePlot {
    /// A live-plot widget with the next instance number in its title.
    pub fn new(instance_num: usize) -> (r: Self)
        ensures
            r.title@ == spec_numbered("Live Plot #"@, instance_num as nat),
    {
        LivePlot { title: numbered_title("Live Plot #", instance_num) }
    }
}

} // verus!
