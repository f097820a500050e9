use vstd::prelude::*;
use vstd::slice::slice_to_vec;
use crate::cpu::{lemma_step_same_layout, reset_spec, run_spec, CpuView, CPU, MAX_STEP_CYCLES};
use crate::cpu::Error as CpuError;
use crate::ines::{mapper_supported, INesRom, PRG_BANK_SIZE};
use crate::ines::Error as CartError;
use crate::memory_map::{lemma_resolve_containing, Kind, SegmentView};
use crate::memory_map::Error as BusError;
use crate::ppu::PPU;

verus! {

pub const RAM_START: u16 = 0x0000;

pub const RAM_END: u16 = 0x1fff;

pub const RAM_SIZE: u16 = 0x800;

pub const PPU_REGS_START: u16 = 0x2000;

pub const PPU_REGS_END: u16 = 0x3fff;

pub const PPU_REGS_SIZE: u16 = 8;

pub const PRG_LO_START: u16 = 0x8000;

pub const PRG_LO_END: u16 = 0xbfff;

pub const PRG_HI_START: u16 = 0xc000;

pub const PRG_HI_END: u16 = 0xffff;

pub const PRG_WINDOW_SIZE: u16 = 0x4000;

/// Why the console could not load a cartridge, power on or run.
#[derive(Debug, Clone, Copy, PartialEq, Eq, Structural)]
pub enum Error {
    Cartridge(CartError),
    Bus(BusError),
    Cpu(CpuError),
}

pub open spec fn layout_segment(v: SegmentView, start: u16, end: u16, size: u16, kind: Kind) -> bool {
    v.start == start && v.end == end && v.size == size && v.kind == kind
}

/// The console's bus: internal RAM, the video registers and two program
/// windows, registered in that order.
pub open spec fn console_layout(v: Seq<SegmentView>) -> bool {
    &&& v.len() == 4
    &&& layout_segment(v[0], RAM_START, RAM_END, RAM_SIZE, Kind::RAM)
    &&& layout_segment(v[1], PPU_REGS_START, PPU_REGS_END, PPU_REGS_SIZE, Kind::Registers)
    &&& layout_segment(v[2], PRG_LO_START, PRG_LO_END, PRG_WINDOW_SIZE, Kind::ROM)
    &&& layout_segment(v[3], PRG_HI_START, PRG_HI_END, PRG_WINDOW_SIZE, Kind::ROM)
}

pub open spec fn zeros(n: nat) -> Seq<u8> {
    Seq::new(n, |i: int| 0u8)
}

/// Attach zeroed RAM and the video registers, then reset the processor.
pub open spec fn power_on_spec(c: CpuView, regs: Seq<u8>, reinit: bool) -> (CpuView, Result<(), Error>) {
    let ram = zeros(RAM_SIZE as nat);
    match c.mem[0].attach_result(ram.len() as int) {
        Err(e) => (c, Err(Error::Bus(e))),
        Ok(_) => {
            let c1 = CpuView { mem: c.mem.update(0, c.mem[0].attached(ram, true)), ..c };
            match c1.mem[1].attach_result(regs.len() as int) {
                Err(e) => (c1, Err(Error::Bus(e))),
                Ok(_) => {
                    let c2 = CpuView { mem: c1.mem.update(1, c1.mem[1].attached(regs, true)), ..c1 };
                    let (c3, r) = reset_spec(c2, reinit);
                    match r {
                        Ok(_) => (c3, Ok(())),
                        Err(e) => (c3, Err(Error::Cpu(e))),
                    }
                },
            }
        },
    }
}

pub open spec fn lift(x: (CpuView, Result<(), CpuError>)) -> (CpuView, Result<(), Error>) {
    match x.1 {
        Ok(_) => (x.0, Ok(())),
        Err(e) => (x.0, Err(Error::Cpu(e))),
    }
}

/// The PRG window contents after loading `cart`: the first bank low, the
/// last bank high (the same bank twice on a one-bank cartridge).
pub open spec fn load_cart_result(v: Seq<SegmentView>, cart: INesRom) -> Result<(), Error> {
    let last_end = cart.prg_offset + cart.prg_count * PRG_BANK_SIZE;
    if !mapper_supported(cart.mapper) {
        Err(Error::Cartridge(CartError::MapperNotSupported))
    } else if cart.prg_count == 0 || last_end > cart.buffer@.len() {
        Err(Error::Cartridge(CartError::BankOutOfRange))
    } else if v[2].ready || v[3].ready {
        Err(Error::Bus(BusError::BufferAlreadyLoaded))
    } else {
        Ok(())
    }
}

fn zeroed(n: usize) -> (r: Vec<u8>)
    ensures
        r@ == zeros(n as nat),
{
    let mut out: Vec<u8> = Vec::new();
    let mut i: usize = 0;
    while i < n
        invariant
            0 <= i <= n,
            out@ == zeros(i as nat),
        decreases n - i,
    {
        out.push(0u8);
        i = i + 1;
        assert(out@ =~= zeros(i as nat));
    }
    out
}

/// The console: processor, video register file and the inserted cartridge.
#[derive(Debug)]
pub struct NES {
    pub cpu: CPU,
    pub ppu: PPU,
    pub cart: Option<INesRom>,
}

impl NES {
    pub open spec fn wf(&self) -> bool {
        &&& self.cpu.wf()
        &&& console_layout(self.cpu.mem@)
        &&& self.ppu.regs@.len() == PPU_REGS_SIZE
    }

    pub fn new() -> (r: NES)
        ensures
            r.wf(),
            forall|i: int| 0 <= i < 4 ==> !(#[trigger] r.cpu.mem@[i]).ready,
            r.cpu@ == (CpuView {
                a: 0,
                x: 0,
                y: 0,
                s: 0xff,
                p: 0,
                pc: 0,
                cycles: 0,
                state: crate::cpu::State::Halted,
                mem: r.cpu.mem@,
            }),
            !r.cpu.reinit_on_reset,
            r.ppu.regs@ == zeros(PPU_REGS_SIZE as nat),
            r.cart is None,
    {
        let mut cpu = CPU::new();
        let _ = cpu.mem.add_seg(RAM_START, RAM_END, RAM_SIZE, Kind::RAM);
        let _ = cpu.mem.add_seg(PPU_REGS_START, PPU_REGS_END, PPU_REGS_SIZE, Kind::Registers);
        let _ = cpu.mem.add_seg(PRG_LO_START, PRG_LO_END, PRG_WINDOW_SIZE, Kind::ROM);
        let _ = cpu.mem.add_seg(PRG_HI_START, PRG_HI_END, PRG_WINDOW_SIZE, Kind::ROM);
        NES { cpu, ppu: PPU::new(), cart: None }
    }

    /// Inserts a cartridge: PRG bank 0 backs the low program window and the
    /// last PRG bank the high one, both read-only.
    pub fn load_cart(&mut self, cart: INesRom) -> (r: Result<(), Error>)
        requires
            old(self).wf(),
        ensures
            final(self).wf(),
            final(self).cpu.reinit_on_reset == old(self).cpu.reinit_on_reset,
            final(self).ppu.regs == old(self).ppu.regs,
            r == load_cart_result(old(self).cpu.mem@, cart),
            r is Ok ==> final(self).cart == Some(cart) && final(self).cpu@ == (CpuView {
                mem: old(self).cpu.mem@.update(
                    2,
                    old(self).cpu.mem@[2].attached(cart.bank_spec(0), false),
                ).update(
                    3,
                    old(self).cpu.mem@[3].attached(cart.bank_spec(cart.prg_count - 1), false),
                ),
                ..old(self).cpu@
            }),
            r is Err ==> final(self).cart == old(self).cart && final(self).cpu@ == old(self).cpu@,
    {
        if !(cart.mapper == 0 || cart.mapper == 1) {
            return Err(Error::Cartridge(CartError::MapperNotSupported));
        }
        if cart.prg_count == 0 {
            return Err(Error::Cartridge(CartError::BankOutOfRange));
        }
        let hi = match cart.prg_bank(cart.prg_count - 1) {
            Ok(bank) => slice_to_vec(bank),
            Err(e) => return Err(Error::Cartridge(e)),
        };
        let lo = match cart.prg_bank(0) {
            Ok(bank) => slice_to_vec(bank),
            Err(e) => return Err(Error::Cartridge(e)),
        };
        if self.cpu.mem.segment(2).is_ready() || self.cpu.mem.segment(3).is_ready() {
            return Err(Error::Bus(BusError::BufferAlreadyLoaded));
        }
        proof {
            lemma_resolve_containing(self.cpu.mem@, PRG_LO_START, 2);
        }
        match self.cpu.mem.enable_seg_ro(PRG_LO_START, lo) {
            Ok(()) => {},
            Err(e) => return Err(Error::Bus(e)),
        }
        proof {
            lemma_resolve_containing(self.cpu.mem@, PRG_HI_START, 3);
        }
        match self.cpu.mem.enable_seg_ro(PRG_HI_START, hi) {
            Ok(()) => {},
            Err(e) => return Err(Error::Bus(e)),
        }
        self.cart = Some(cart);
        Ok(())
    }

    /// Resets the processor.
    pub fn reset(&mut self) -> (r: Result<(), Error>)
        requires
            old(self).wf(),
        ensures
            final(self).wf(),
            final(self).cpu.reinit_on_reset == old(self).cpu.reinit_on_reset,
            final(self).ppu.regs == old(self).ppu.regs,
            final(self).cart == old(self).cart,
            (final(self).cpu@, r) == lift(reset_spec(old(self).cpu@, old(self).cpu.reinit_on_reset)),
    {
        match self.cpu.reset() {
            Ok(()) => Ok(()),
            Err(e) => Err(Error::Cpu(e)),
        }
    }

    /// Attaches zeroed internal RAM and the video registers to the bus, then
    /// resets the processor.
    pub fn power_on(&mut self) -> (r: Result<(), Error>)
        requires
            old(self).wf(),
        ensures
            final(self).wf(),
            final(self).cpu.reinit_on_reset == old(self).cpu.reinit_on_reset,
            final(self).ppu.regs == old(self).ppu.regs,
            final(self).cart == old(self).cart,
            (final(self).cpu@, r) == power_on_spec(
                old(self).cpu@,
                old(self).ppu.regs@,
                old(self).cpu.reinit_on_reset,
            ),
    {
        proof {
            lemma_resolve_containing(self.cpu.mem@, RAM_START, 0);
        }
        let ghost v0 = self.cpu.mem@;
        match self.cpu.mem.enable_seg_rw(RAM_START, zeroed(RAM_SIZE as usize)) {
            Ok(()) => {},
            Err(e) => {
                assert(self.cpu.mem@ =~= v0);
                return Err(Error::Bus(e));
            },
        }
        let regs = self.ppu.register_bytes();
        proof {
            lemma_resolve_containing(self.cpu.mem@, PPU_REGS_START, 1);
        }
        let ghost v1 = self.cpu.mem@;
        match self.cpu.mem.enable_seg_rw(PPU_REGS_START, regs) {
            Ok(()) => {},
            Err(e) => {
                assert(self.cpu.mem@ =~= v1);
                return Err(Error::Bus(e));
            },
        }
        self.reset()
    }

    /// Executes at most `max_steps` instructions, stopping at the first step
    /// that fails.
    pub fn run_steps(&mut self, max_steps: u64) -> (r: Result<(), Error>)
        requires
            old(self).wf(),
            old(self).cpu.cycles + MAX_STEP_CYCLES * max_steps <= u64::MAX,
        ensures
            final(self).wf(),
            final(self).cpu.reinit_on_reset == old(self).cpu.reinit_on_reset,
            final(self).ppu.regs == old(self).ppu.regs,
            final(self).cart == old(self).cart,
            (final(self).cpu@, r) == lift(run_spec(old(self).cpu@, max_steps as nat)),
    {
        let mut k: u64 = 0;
        while k < max_steps
            invariant
                0 <= k <= max_steps,
                self.wf(),
                self.cpu.reinit_on_reset == old(self).cpu.reinit_on_reset,
                self.ppu.regs == old(self).ppu.regs,
                self.cart == old(self).cart,
                self.cpu.cycles + MAX_STEP_CYCLES * (max_steps - k) <= u64::MAX,
                run_spec(self.cpu@, (max_steps - k) as nat) == run_spec(
                    old(self).cpu@,
                    max_steps as nat,
                ),
            decreases max_steps - k,
        {
            proof {
                lemma_step_same_layout(self.cpu@);
                crate::cpu::lemma_step_cycles(self.cpu@);
            }
            match self.cpu.step() {
                Ok(()) => {},
                Err(e) => return Err(Error::Cpu(e)),
            }
            k = k + 1;
        }
        Ok(())
    }

    /// Powers on, then executes at most `max_steps` instructions.
    pub fn run(&mut self, max_steps: u64) -> (r: Result<(), Error>)
        requires
            old(self).wf(),
            MAX_STEP_CYCLES * max_steps <= u64::MAX,
        ensures
            final(self).wf(),
            final(self).cpu.reinit_on_reset == old(self).cpu.reinit_on_reset,
            final(self).ppu.regs == old(self).ppu.regs,
            final(self).cart == old(self).cart,
            ({
                let (c1, r1) = power_on_spec(
                    old(self).cpu@,
                    old(self).ppu.regs@,
                    old(self).cpu.reinit_on_reset,
                );
                if r1 is Err {
                    final(self).cpu@ == c1 && r == r1
                } else {
                    (final(self).cpu@, r) == lift(run_spec(c1, max_steps as nat))
                }
            }),
    {
        match self.power_on() {
            Ok(()) => {},
            Err(e) => return Err(e),
        }
        self.run_steps(max_steps)
    }
}

} // verus!
