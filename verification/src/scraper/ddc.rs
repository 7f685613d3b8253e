//! DDC/CI capability values read from a monitor.

use vstd::prelude::*;

verus! {

/// Current VCP values of a monitor that answers DDC/CI.
#[derive(Debug, Clone, Copy, PartialEq, Eq, Default)]
pub struct DdcCaps {
    pub brightness: u32,
    pub contrast: u32,
    pub input_source: u32,
}

} // verus!
