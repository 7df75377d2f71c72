//! What the cartridge loader hands the core: the header facts it parsed.
//! The core itself reads no file format; a host builds this from the image
//! it loaded and passes the banks as plain bytes.

use vstd::prelude::*;

verus! {

/// The loader-to-core contract: bank sizes, the mapper id, the name-table
/// mirroring, and whether the image used the extended header form.
#[derive(Clone, Copy, Debug, PartialEq, Eq, Structural)]
pub struct Flags {
    pub prg_size: usize,
    pub chr_size: usize,
    pub prg_ram_size: usize,
    pub mapper: u8,
    pub horiz_mirroring: bool,
    pub i_nes: bool,
}

} // verus!
