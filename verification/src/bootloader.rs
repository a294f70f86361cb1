use vstd::prelude::*;

use crate::text::numbered_title;
use crate::text::spec_numbered;

verus! {

/// The firmware-update widget's state: its numbered title.
pub struct Bootloader {
    pub title: String,
}

impl Bootloader {
    /// A bootloader widget with the next instance number in its title.
    pub fn new(instance_num: usize) -> (r: Self)
        ensures
            r.title@ == spec_numbered("Bootloader #"@, instance_num as nat),
    {
        Bootloader { title: numbered_title("Bootloader #", instance_num) }
    }
}

} // verus!
