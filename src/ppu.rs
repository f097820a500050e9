use vstd::prelude::*;

verus! {

pub const PPU_CTRL: usize = 0;

pub const PPU_MASK: usize = 1;

pub const PPU_STATUS: usize = 2;

pub const OAM_ADDR: usize = 3;

pub const OAM_DATA: usize = 4;

pub const PPU_SCROLL: usize = 5;

pub const PPU_ADDR: usize = 6;

pub const PPU_DATA: usize = 7;

/// Number of memory-mapped registers; the bus mirrors them with this period.
pub const REG_COUNT: usize = 8;

#[derive(Debug, Clone, Copy, PartialEq, Eq, Structural)]
pub enum Version {
    NTSC,
    PAL,
}

#[derive(Debug, Clone, Copy, PartialEq, Eq, Structural)]
pub enum Error {
    /// Power-up and reset behaviour is not modelled.
    NotImplemented,
}

/// The video unit's register file, seen by the CPU through the bus.
#[derive(Debug)]
pub struct PPU {
    pub regs: [u8; 8],
    pub version: Version,
}

impl PPU {
    pub fn new() -> (r: PPU)
        ensures
            r.regs@ == Seq::new(8, |i: int| 0u8),
            r.version == Version::NTSC,
    {
        let r = PPU { regs: [0u8; 8], version: Version::NTSC };
        assert(r.regs@ =~= Seq::new(8, |i: int| 0u8));
        r
    }

    /// Reset is not modelled for any version: it reports so and changes nothing.
    pub fn reset(&mut self) -> (r: Result<(), Error>)
        ensures
            r == Err::<(), Error>(Error::NotImplemented),
            final(self).regs == old(self).regs,
            final(self).version == old(self).version,
    {
        match self.version {
            Version::NTSC => Err(Error::NotImplemented),
            Version::PAL => Err(Error::NotImplemented),
        }
    }

    pub fn regs_slice(&mut self) -> (r: &mut [u8; 8])
        ensures
            *r == old(self).regs,
            final(self).regs == *final(r),
            final(self).version == old(self).version,
    {
        &mut self.regs
    }

    /// A copy of the registers, to back the bus segment that exposes them.
    pub fn register_bytes(&self) -> (r: Vec<u8>)
        ensures
            r@ == self.regs@,
    {
        let mut out: Vec<u8> = Vec::new();
        let mut i: usize = 0;
        while i < REG_COUNT
            invariant
                0 <= i <= REG_COUNT,
                out@ == self.regs@.subrange(0, i as int),
            decreases REG_COUNT - i,
        {
            out.push(self.regs[i]);
            i = i + 1;
        }
        assert(out@ =~= self.regs@);
        out
    }
}

} // verus!
