use vstd::prelude::*;
use vstd::slice::slice_subrange;

verus! {

pub const PRG_BANK_SIZE: usize = 0x4000;

pub const CHR_BANK_SIZE: usize = 0x2000;

pub const HEADER_SIZE: usize = 16;

pub const TRAINER_SIZE: usize = 512;

/// Why a cartridge image could not be loaded or read.
#[derive(Debug, Clone, Copy, PartialEq, Eq, Structural)]
pub enum Error {
    ReadError,
    HeaderNotFound,
    PrgSizeMismatch,
    ChrSizeMismatch,
    MapperNotSupported,
    BankOutOfRange,
}

#[derive(Debug, Clone, Copy, PartialEq, Eq, Structural)]
pub enum HeaderKind {
    NoHeader,
    OldINES,
    INES,
    INES2,
}

#[derive(Debug, Clone, Copy, PartialEq, Eq, Structural)]
pub enum Mirroring {
    Horizontal,
    Vertical,
    FourScreen,
}

/// The image starts with the bytes `4E 45 53 1A`.
pub open spec fn has_magic(b: Seq<u8>) -> bool {
    &&& b.len() >= 4
    &&& b[0] == 0x4E
    &&& b[1] == 0x45
    &&& b[2] == 0x53
    &&& b[3] == 0x1A
}

/// Mapper id: low nibble from the top of byte 6, high nibble from byte 7.
pub open spec fn mapper_of(b6: u8, b7: u8) -> u16 {
    ((b6 >> 4u8) | (b7 & 0xF0u8)) as u16
}

pub open spec fn mapper_supported(mapper: u16) -> bool {
    mapper == 0 || mapper == 1
}

pub open spec fn mirroring_of(b6: u8) -> Mirroring {
    if b6 & 8u8 != 0 {
        Mirroring::FourScreen
    } else if b6 & 1u8 == 0 {
        Mirroring::Horizontal
    } else {
        Mirroring::Vertical
    }
}

pub open spec fn trainer_of(b6: u8) -> bool {
    b6 & 4u8 != 0
}

pub open spec fn nvram_of(b6: u8) -> bool {
    b6 & 2u8 != 0
}

pub open spec fn prg_offset_of(b6: u8) -> int {
    HEADER_SIZE + if trainer_of(b6) {
        TRAINER_SIZE as int
    } else {
        0
    }
}

pub open spec fn chr_offset_of(b: Seq<u8>) -> int {
    prg_offset_of(b[6]) + b[4] * PRG_BANK_SIZE
}

/// How loading an image ends: the first failed check, in order.
pub open spec fn load_result(b: Seq<u8>) -> Result<(), Error> {
    if !has_magic(b) {
        Err(Error::HeaderNotFound)
    } else if b.len() >= 8 && !mapper_supported(mapper_of(b[6], b[7])) {
        Err(Error::MapperNotSupported)
    } else if b.len() < HEADER_SIZE || b.len() < chr_offset_of(b) {
        Err(Error::PrgSizeMismatch)
    } else if b.len() < chr_offset_of(b) + b[5] * CHR_BANK_SIZE {
        Err(Error::ChrSizeMismatch)
    } else {
        Ok(())
    }
}

/// An image whose first four bytes are not the magic sequence is refused as
/// headerless, whatever follows them.
pub proof fn lemma_bad_magic_rejected(b: Seq<u8>)
    requires
        !has_magic(b),
    ensures
        load_result(b) == Err::<(), Error>(Error::HeaderNotFound),
{
}

/// A validated cartridge image together with its header fields.
#[derive(Debug)]
pub struct INesRom {
    pub header_kind: HeaderKind,
    pub buffer: Vec<u8>,
    pub size: usize,
    pub prg_offset: usize,
    pub chr_offset: usize,
    pub is_loaded: bool,
    pub prg_count: u8,
    pub chr_count: u8,
    pub mapper: u16,
    pub mirroring: Mirroring,
    pub has_nvram: bool,
    pub has_trainer: bool,
}

impl INesRom {
    /// The fields agree with the image bytes.
    pub open spec fn wf(&self) -> bool {
        let b = self.buffer@;
        &&& load_result(b) is Ok
        &&& self.size == b.len()
        &&& self.prg_count == b[4]
        &&& self.chr_count == b[5]
        &&& self.mapper == mapper_of(b[6], b[7])
        &&& self.mirroring == mirroring_of(b[6])
        &&& self.has_trainer == trainer_of(b[6])
        &&& self.has_nvram == nvram_of(b[6])
        &&& self.prg_offset == prg_offset_of(b[6])
        &&& self.chr_offset == chr_offset_of(b)
        &&& self.is_loaded
    }

    /// The bytes of PRG bank `index`.
    pub open spec fn bank_spec(&self, index: int) -> Seq<u8> {
        let begin = self.prg_offset + index * PRG_BANK_SIZE;
        self.buffer@.subrange(begin, begin + PRG_BANK_SIZE)
    }

    /// Parses a whole cartridge image.
    pub fn new(bytes: Vec<u8>) -> (r: Result<INesRom, Error>)
        ensures
            match r {
                Ok(rom) => load_result(bytes@) is Ok && rom.buffer@ == bytes@ && rom.wf()
                    && rom.header_kind == HeaderKind::INES,
                Err(e) => load_result(bytes@) == Err::<(), Error>(e),
            },
    {
        if bytes.len() < 4 || bytes[0] != 0x4E || bytes[1] != 0x45 || bytes[2] != 0x53 || bytes[3]
            != 0x1A {
            return Err(Error::HeaderNotFound);
        }
        if bytes.len() >= 8 {
            let mapper = ((bytes[6] >> 4u8) | (bytes[7] & 0xF0u8)) as u16;
            if !(mapper == 0 || mapper == 1) {
                return Err(Error::MapperNotSupported);
            }
        }
        if bytes.len() < HEADER_SIZE {
            return Err(Error::PrgSizeMismatch);
        }
        let b6 = bytes[6];
        let mapper = ((b6 >> 4u8) | (bytes[7] & 0xF0u8)) as u16;
        let mirroring = if b6 & 8 != 0 {
            Mirroring::FourScreen
        } else if b6 & 1 == 0 {
            Mirroring::Horizontal
        } else {
            Mirroring::Vertical
        };
        let prg_count = bytes[4];
        let chr_count = bytes[5];
        let has_trainer = b6 & 4 != 0;
        let prg_offset: usize = HEADER_SIZE + if has_trainer {
            TRAINER_SIZE
        } else {
            0
        };
        let chr_offset: usize = prg_offset + PRG_BANK_SIZE * prg_count as usize;
        if bytes.len() < chr_offset {
            return Err(Error::PrgSizeMismatch);
        }
        if bytes.len() - chr_offset < CHR_BANK_SIZE * chr_count as usize {
            return Err(Error::ChrSizeMismatch);
        }
        let size = bytes.len();
        Ok(
            INesRom {
                header_kind: HeaderKind::INES,
                buffer: bytes,
                size,
                prg_offset,
                chr_offset,
                is_loaded: true,
                prg_count,
                chr_count,
                mapper,
                mirroring,
                has_nvram: b6 & 2 != 0,
                has_trainer,
            },
        )
    }

    /// The 16 header bytes.
    pub fn header(&self) -> (r: &[u8])
        requires
            self.wf(),
        ensures
            r@ == self.buffer@.subrange(0, HEADER_SIZE as int),
    {
        slice_subrange(self.buffer.as_slice(), 0, HEADER_SIZE)
    }

    pub fn prg_size(&self) -> (r: usize)
        ensures
            r == self.prg_count * PRG_BANK_SIZE,
    {
        PRG_BANK_SIZE * self.prg_count as usize
    }

    pub fn chr_size(&self) -> (r: usize)
        ensures
            r == self.chr_count * CHR_BANK_SIZE,
    {
        CHR_BANK_SIZE * self.chr_count as usize
    }

    /// The 16384 bytes of PRG bank `index`, if the image holds them.
    pub fn prg_bank(&self, index: u8) -> (r: Result<&[u8], Error>)
        ensures
            ({
                let begin = self.prg_offset + index * PRG_BANK_SIZE;
                match r {
                    Ok(bank) => begin + PRG_BANK_SIZE <= self.buffer@.len() && bank@
                        == self.buffer@.subrange(begin, begin + PRG_BANK_SIZE),
                    Err(e) => e == Error::BankOutOfRange && begin + PRG_BANK_SIZE
                        > self.buffer@.len(),
                }
            }),
    {
        let len = self.buffer.len();
        let skip: usize = PRG_BANK_SIZE * index as usize;
        if self.prg_offset > len || len - self.prg_offset < skip || len - self.prg_offset - skip
            < PRG_BANK_SIZE {
            return Err(Error::BankOutOfRange);
        }
        let begin: usize = self.prg_offset + skip;
        Ok(slice_subrange(self.buffer.as_slice(), begin, begin + PRG_BANK_SIZE))
    }

    /// Mutable access to the 16384 bytes of PRG bank `index`, for mappers
    /// that change bank contents; fails as `prg_bank` does.
    pub fn prg_bank_mut(&mut self, index: u8) -> (r: Result<&mut [u8], Error>)
        ensures
            ({
                let begin = old(self).prg_offset + index * PRG_BANK_SIZE;
                let len = old(self).buffer@.len() as int;
                match r {
                    Ok(bank) => {
                        &&& begin + PRG_BANK_SIZE <= len
                        &&& bank@ == old(self).buffer@.subrange(begin, begin + PRG_BANK_SIZE)
                        &&& final(self).buffer@ == old(self).buffer@.subrange(0, begin)
                            + final(bank)@ + old(self).buffer@.subrange(begin + PRG_BANK_SIZE, len)
                    },
                    Err(e) => e == Error::BankOutOfRange && begin + PRG_BANK_SIZE > len
                        && final(self).buffer@ == old(self).buffer@,
                }
            }),
            final(self).header_kind == old(self).header_kind,
            final(self).size == old(self).size,
            final(self).prg_offset == old(self).prg_offset,
            final(self).chr_offset == old(self).chr_offset,
            final(self).is_loaded == old(self).is_loaded,
            final(self).prg_count == old(self).prg_count,
            final(self).chr_count == old(self).chr_count,
            final(self).mapper == old(self).mapper,
            final(self).mirroring == old(self).mirroring,
            final(self).has_nvram == old(self).has_nvram,
            final(self).has_trainer == old(self).has_trainer,
    {
        let len = self.buffer.len();
        let skip: usize = PRG_BANK_SIZE * index as usize;
        if self.prg_offset > len || len - self.prg_offset < skip || len - self.prg_offset - skip
            < PRG_BANK_SIZE {
            return Err(Error::BankOutOfRange);
        }
        let begin: usize = self.prg_offset + skip;
        let all = self.buffer.as_mut_slice();
        let (_, rest) = all.split_at_mut(begin);
        let (bank, _) = rest.split_at_mut(PRG_BANK_SIZE);
        Ok(bank)
    }
}

} // verus!
