use vstd::prelude::*;
use crate::memory_map::{
    bus_read, bus_write, bus_written, lemma_bus_written_layout, same_layout, MemoryMap, SegmentView,
};
use crate::memory_map::Error as BusError;

verus! {

pub const NMI_VECTOR: u16 = 0xfffa;

pub const RST_VECTOR: u16 = 0xfffc;

pub const IRQ_VECTOR: u16 = 0xfffe;

pub const FLAG_N: u8 = 0b1000_0000;

pub const FLAG_V: u8 = 0b0100_0000;

pub const FLAG_B: u8 = 0b0001_0000;

pub const FLAG_D: u8 = 0b0000_1000;

pub const FLAG_I: u8 = 0b0000_0100;

pub const FLAG_Z: u8 = 0b0000_0010;

pub const FLAG_C: u8 = 0b0000_0001;

/// Most cycles one instruction consumes: opcode, a two-byte operand and one
/// data access.
pub const MAX_STEP_CYCLES: u64 = 4;

/// Operational state of the interpreter.
#[derive(Debug, Clone, Copy, PartialEq, Eq, Structural)]
pub enum State {
    Halted,
    Running,
    /// Stopped on an opcode outside the implemented set, fetched at `pc`.
    Faulted { opcode: u8, pc: u16 },
}

/// Why a reset or an instruction step did not complete.
#[derive(Debug, Clone, Copy, PartialEq, Eq, Structural)]
pub enum Error {
    NotRunning,
    Bus(BusError),
    UnimplementedOpcode { opcode: u8, pc: u16 },
}

/// Abstract state of the processor and its bus.
pub ghost struct CpuView {
    pub a: u8,
    pub x: u8,
    pub y: u8,
    pub s: u8,
    pub p: u8,
    pub pc: u16,
    pub cycles: int,
    pub state: State,
    pub mem: Seq<SegmentView>,
}

/// A plain copy of the registers, for tracing and debugging.
#[derive(Debug, Clone, Copy, PartialEq, Eq, Structural)]
pub struct Snapshot {
    pub a: u8,
    pub x: u8,
    pub y: u8,
    pub s: u8,
    pub p: u8,
    pub pc: u16,
    pub cycles: u64,
    pub state: State,
}

pub open spec fn wrap16(v: int) -> u16 {
    (v % 0x10000) as u16
}

/// The signed value of a relative-branch operand.
pub open spec fn rel(v: u8) -> int {
    if v < 128 {
        v as int
    } else {
        v - 256
    }
}

/// Status after loading `v`: N and Z follow `v`, every other bit is kept.
pub open spec fn nz(p: u8, v: u8) -> u8 {
    (p & !(FLAG_N | FLAG_Z)) | (v & FLAG_N) | (if v == 0 {
        FLAG_Z
    } else {
        0u8
    })
}

pub open spec fn halt(c: CpuView) -> CpuView {
    CpuView { state: State::Halted, ..c }
}

/// One bus read: one cycle, whatever the bus answers.
pub open spec fn read_spec(c: CpuView, addr: u16) -> (CpuView, Result<u8, BusError>) {
    (CpuView { cycles: c.cycles + 1, ..c }, bus_read(c.mem, addr))
}

/// One bus write: one cycle, whatever the bus answers.
pub open spec fn write_spec(c: CpuView, addr: u16, v: u8) -> (CpuView, Result<(), BusError>) {
    (CpuView { cycles: c.cycles + 1, mem: bus_written(c.mem, addr, v), ..c }, bus_write(c.mem, addr))
}

/// A little-endian word; the high byte is not read when the low one fails.
pub open spec fn read_word_spec(c: CpuView, addr: u16) -> (CpuView, Result<u16, BusError>) {
    let (c1, lo) = read_spec(c, addr);
    match lo {
        Err(e) => (c1, Err(e)),
        Ok(l) => {
            let (c2, hi) = read_spec(c1, wrap16(addr + 1));
            match hi {
                Err(e) => (c2, Err(e)),
                Ok(h) => (c2, Ok((l + 256 * h) as u16)),
            }
        },
    }
}

pub open spec fn next_byte_spec(c: CpuView) -> (CpuView, Result<u8, BusError>) {
    let (c1, r) = read_spec(c, c.pc);
    (CpuView { pc: wrap16(c.pc + 1), ..c1 }, r)
}

pub open spec fn next_word_spec(c: CpuView) -> (CpuView, Result<u16, BusError>) {
    let (c1, r) = read_word_spec(c, c.pc);
    (CpuView { pc: wrap16(c.pc + 2), ..c1 }, r)
}

/// The effect of one instruction whose opcode `op` has been fetched; `c` is
/// the state after the fetch and `at` the opcode's address.
pub open spec fn execute_spec(c: CpuView, op: u8, at: u16) -> (CpuView, Result<(), Error>) {
    if op == 0x10 {
        // branch if plus: relative operand, taken when N is clear; a taken
        // branch costs no cycle of its own, as cycles count bus accesses only
        let (c1, o) = next_byte_spec(c);
        match o {
            Err(e) => (halt(c1), Err(Error::Bus(e))),
            Ok(v) => if c1.p & FLAG_N == 0 {
                (CpuView { pc: wrap16(c1.pc + rel(v)), ..c1 }, Ok(()))
            } else {
                (c1, Ok(()))
            },
        }
    } else if op == 0x78 {
        (CpuView { p: c.p | FLAG_I, ..c }, Ok(()))
    } else if op == 0x8e {
        // store X, absolute
        let (c1, o) = next_word_spec(c);
        match o {
            Err(e) => (halt(c1), Err(Error::Bus(e))),
            Ok(addr) => {
                let (c2, w) = write_spec(c1, addr, c1.x);
                match w {
                    Err(e) => (halt(c2), Err(Error::Bus(e))),
                    Ok(_) => (c2, Ok(())),
                }
            },
        }
    } else if op == 0xa2 {
        // load X, immediate
        let (c1, o) = next_byte_spec(c);
        match o {
            Err(e) => (halt(c1), Err(Error::Bus(e))),
            Ok(v) => (CpuView { x: v, p: nz(c1.p, v), ..c1 }, Ok(())),
        }
    } else if op == 0xad {
        // load A, absolute
        let (c1, o) = next_word_spec(c);
        match o {
            Err(e) => (halt(c1), Err(Error::Bus(e))),
            Ok(addr) => {
                let (c2, d) = read_spec(c1, addr);
                match d {
                    Err(e) => (halt(c2), Err(Error::Bus(e))),
                    Ok(v) => (CpuView { a: v, p: nz(c2.p, v), ..c2 }, Ok(())),
                }
            },
        }
    } else if op == 0xd8 {
        (CpuView { p: c.p & !FLAG_D, ..c }, Ok(()))
    } else {
        (
            CpuView { state: State::Faulted { opcode: op, pc: at }, ..c },
            Err(Error::UnimplementedOpcode { opcode: op, pc: at }),
        )
    }
}

/// One fetch-decode-execute step.
pub open spec fn step_spec(c: CpuView) -> (CpuView, Result<(), Error>) {
    if c.state != State::Running {
        (c, Err(Error::NotRunning))
    } else {
        let (c1, op) = next_byte_spec(c);
        match op {
            Err(e) => (halt(c1), Err(Error::Bus(e))),
            Ok(o) => execute_spec(c1, o, c.pc),
        }
    }
}

/// Reset: optionally restore the power-on registers, zero the cycle counter,
/// load `pc` from the reset vector and start running; the counter is zeroed
/// again once the vector has been read.
pub open spec fn reset_spec(c: CpuView, reinit: bool) -> (CpuView, Result<(), Error>) {
    let c0 = if reinit {
        CpuView { a: 0, x: 0, y: 0, s: 0xff, p: 0, cycles: 0, ..c }
    } else {
        CpuView { cycles: 0, ..c }
    };
    let (c1, w) = read_word_spec(c0, RST_VECTOR);
    match w {
        Ok(v) => (CpuView { pc: v, cycles: 0, state: State::Running, ..c1 }, Ok(())),
        Err(e) => (halt(c1), Err(Error::Bus(e))),
    }
}

/// Up to `n` steps, stopping at the first that fails.
pub open spec fn run_spec(c: CpuView, n: nat) -> (CpuView, Result<(), Error>)
    decreases n,
{
    if n == 0 {
        (c, Ok(()))
    } else {
        let (c1, r) = step_spec(c);
        if r is Err {
            (c1, r)
        } else {
            run_spec(c1, (n - 1) as nat)
        }
    }
}

/// A step changes the contents of the bus, never its segments.
pub proof fn lemma_step_same_layout(c: CpuView)
    ensures
        same_layout(c.mem, step_spec(c).0.mem),
{
    if c.state == State::Running {
        let (c1, op) = next_byte_spec(c);
        if op == Ok::<u8, BusError>(0x8eu8) {
            let (c2, o) = next_word_spec(c1);
            if let Ok(addr) = o {
                lemma_bus_written_layout(c2.mem, addr, c2.x);
            }
        }
    }
}

/// Each step takes at most `MAX_STEP_CYCLES` cycles and never lowers the
/// counter.
pub proof fn lemma_step_cycles(c: CpuView)
    ensures
        c.cycles <= step_spec(c).0.cycles <= c.cycles + MAX_STEP_CYCLES,
{
}

/// Set-interrupt-disable sets the I bit and clear-decimal clears the D bit;
/// every other status bit is left as it was, and each takes one cycle.
pub proof fn lemma_flag_opcodes_touch_one_bit(c: CpuView)
    requires
        c.state == State::Running,
    ensures
        bus_read(c.mem, c.pc) == Ok::<u8, BusError>(0x78u8) ==> ({
            let (n, r) = step_spec(c);
            &&& r is Ok
            &&& n.p & FLAG_I == FLAG_I
            &&& n.p & !FLAG_I == c.p & !FLAG_I
            &&& n == (CpuView { p: n.p, pc: wrap16(c.pc + 1), cycles: c.cycles + 1, ..c })
        }),
        bus_read(c.mem, c.pc) == Ok::<u8, BusError>(0xd8u8) ==> ({
            let (n, r) = step_spec(c);
            &&& r is Ok
            &&& n.p & FLAG_D == 0
            &&& n.p & !FLAG_D == c.p & !FLAG_D
            &&& n == (CpuView { p: n.p, pc: wrap16(c.pc + 1), cycles: c.cycles + 1, ..c })
        }),
{
    let p = c.p;
    assert((p | 4u8) & 4u8 == 4u8 && (p | 4u8) & !4u8 == p & !4u8) by (bit_vector);
    assert((p & !8u8) & 8u8 == 0u8 && (p & !8u8) & !8u8 == p & !8u8) by (bit_vector);
}

/// Load-X-immediate puts its operand in X, moves `pc` past the operand and
/// takes two cycles: the opcode fetch and the operand read.
pub proof fn lemma_load_x_immediate(c: CpuView, v: u8)
    requires
        c.state == State::Running,
        bus_read(c.mem, c.pc) == Ok::<u8, BusError>(0xa2u8),
        bus_read(c.mem, wrap16(c.pc + 1)) == Ok::<u8, BusError>(v),
    ensures
        ({
            let (n, r) = step_spec(c);
            &&& r is Ok
            &&& n.x == v
            &&& n.pc == wrap16(c.pc + 2)
            &&& n.cycles == c.cycles + 2
            &&& n.p == nz(c.p, v)
        }),
{
}

/// The processor: registers, cycle counter and the bus it drives.
#[derive(Debug)]
pub struct CPU {
    pub a: u8,
    pub x: u8,
    pub y: u8,
    pub s: u8,
    pub p: u8,
    pub pc: u16,
    pub mem: MemoryMap,
    pub cycles: u64,
    pub state: State,
    /// Whether `reset` also returns A, X, Y, S and P to their power-on values.
    pub reinit_on_reset: bool,
}

impl View for CPU {
    type V = CpuView;

    open spec fn view(&self) -> CpuView {
        CpuView {
            a: self.a,
            x: self.x,
            y: self.y,
            s: self.s,
            p: self.p,
            pc: self.pc,
            cycles: self.cycles as int,
            state: self.state,
            mem: self.mem@,
        }
    }
}

impl CPU {
    pub open spec fn wf(&self) -> bool {
        self.mem.wf()
    }

    pub fn new() -> (r: CPU)
        ensures
            r.wf(),
            r@ == (CpuView {
                a: 0,
                x: 0,
                y: 0,
                s: 0xff,
                p: 0,
                pc: 0,
                cycles: 0,
                state: State::Halted,
                mem: Seq::empty(),
            }),
            !r.reinit_on_reset,
    {
        CPU {
            a: 0,
            x: 0,
            y: 0,
            s: 0xff,
            p: 0,
            pc: 0,
            mem: MemoryMap::new(),
            cycles: 0,
            state: State::Halted,
            reinit_on_reset: false,
        }
    }

    pub fn snapshot(&self) -> (r: Snapshot)
        ensures
            r == (Snapshot {
                a: self.a,
                x: self.x,
                y: self.y,
                s: self.s,
                p: self.p,
                pc: self.pc,
                cycles: self.cycles,
                state: self.state,
            }),
    {
        Snapshot {
            a: self.a,
            x: self.x,
            y: self.y,
            s: self.s,
            p: self.p,
            pc: self.pc,
            cycles: self.cycles,
            state: self.state,
        }
    }

    pub fn read(&mut self, addr: u16) -> (r: Result<u8, BusError>)
        requires
            old(self).wf(),
            old(self).cycles < u64::MAX,
        ensures
            final(self).wf(),
            final(self).reinit_on_reset == old(self).reinit_on_reset,
            (final(self)@, r) == read_spec(old(self)@, addr),
    {
        self.cycles = self.cycles + 1;
        self.mem.read(addr)
    }

    pub fn write(&mut self, addr: u16, data: u8) -> (r: Result<(), BusError>)
        requires
            old(self).wf(),
            old(self).cycles < u64::MAX,
        ensures
            final(self).wf(),
            final(self).reinit_on_reset == old(self).reinit_on_reset,
            (final(self)@, r) == write_spec(old(self)@, addr, data),
    {
        self.cycles = self.cycles + 1;
        self.mem.write(addr, data)
    }

    pub fn read_word(&mut self, addr: u16) -> (r: Result<u16, BusError>)
        requires
            old(self).wf(),
            old(self).cycles < u64::MAX - 1,
        ensures
            final(self).wf(),
            final(self).reinit_on_reset == old(self).reinit_on_reset,
            (final(self)@, r) == read_word_spec(old(self)@, addr),
    {
        let lo = match self.read(addr) {
            Ok(v) => v,
            Err(e) => return Err(e),
        };
        let hi = match self.read(addr.wrapping_add(1)) {
            Ok(v) => v,
            Err(e) => return Err(e),
        };
        Ok(lo as u16 + 256 * hi as u16)
    }

    pub fn read_next_byte(&mut self) -> (r: Result<u8, BusError>)
        requires
            old(self).wf(),
            old(self).cycles < u64::MAX,
        ensures
            final(self).wf(),
            final(self).reinit_on_reset == old(self).reinit_on_reset,
            (final(self)@, r) == next_byte_spec(old(self)@),
    {
        let result = self.read(self.pc);
        self.pc = self.pc.wrapping_add(1);
        result
    }

    pub fn read_next_word(&mut self) -> (r: Result<u16, BusError>)
        requires
            old(self).wf(),
            old(self).cycles < u64::MAX - 1,
        ensures
            final(self).wf(),
            final(self).reinit_on_reset == old(self).reinit_on_reset,
            (final(self)@, r) == next_word_spec(old(self)@),
    {
        let result = self.read_word(self.pc);
        self.pc = self.pc.wrapping_add(2);
        result
    }

    pub fn set_flags(&mut self, f: u8)
        ensures
            final(self)@ == (CpuView { p: old(self).p | f, ..old(self)@ }),
            final(self).reinit_on_reset == old(self).reinit_on_reset,
    {
        self.p = self.p | f;
    }

    pub fn clear_flags(&mut self, f: u8)
        ensures
            final(self)@ == (CpuView { p: old(self).p & !f, ..old(self)@ }),
            final(self).reinit_on_reset == old(self).reinit_on_reset,
    {
        self.p = self.p & !f;
    }

    /// Whether any of the bits of `f` is set in the status register.
    pub fn is_flag_set(&self, f: u8) -> (r: bool)
        ensures
            r == (self.p & f != 0),
    {
        self.p & f != 0
    }

    /// Loads `pc` from the reset vector and starts running with a zeroed cycle
    /// counter. When `reinit_on_reset` is set, A, X, Y, S and P return to
    /// their power-on values first.
    pub fn reset(&mut self) -> (r: Result<(), Error>)
        requires
            old(self).wf(),
        ensures
            final(self).wf(),
            final(self).reinit_on_reset == old(self).reinit_on_reset,
            (final(self)@, r) == reset_spec(old(self)@, old(self).reinit_on_reset),
    {
        if self.reinit_on_reset {
            self.a = 0;
            self.x = 0;
            self.y = 0;
            self.s = 0xff;
            self.p = 0;
        }
        self.cycles = 0;
        match self.read_word(RST_VECTOR) {
            Ok(v) => {
                self.pc = v;
                self.cycles = 0;
                self.state = State::Running;
                Ok(())
            },
            Err(e) => {
                self.state = State::Halted;
                Err(Error::Bus(e))
            },
        }
    }

    /// Executes one instruction; see `step_spec` for its effect.
    pub fn step(&mut self) -> (r: Result<(), Error>)
        requires
            old(self).wf(),
            old(self).cycles <= u64::MAX - MAX_STEP_CYCLES,
        ensures
            final(self).wf(),
            final(self).reinit_on_reset == old(self).reinit_on_reset,
            (final(self)@, r) == step_spec(old(self)@),
    {
        if self.state != State::Running {
            return Err(Error::NotRunning);
        }
        let at = self.pc;
        let opcode = match self.read_next_byte() {
            Ok(v) => v,
            Err(e) => {
                self.state = State::Halted;
                return Err(Error::Bus(e));
            },
        };
        match opcode {
            0x10 => {
                let operand = match self.read_next_byte() {
                    Ok(v) => v,
                    Err(e) => {
                        self.state = State::Halted;
                        return Err(Error::Bus(e));
                    },
                };
                if !self.is_flag_set(FLAG_N) {
                    self.pc = if operand < 128 {
                        self.pc.wrapping_add(operand as u16)
                    } else {
                        self.pc.wrapping_sub(256 - operand as u16)
                    };
                }
                Ok(())
            },
            0x78 => {
                self.set_flags(FLAG_I);
                Ok(())
            },
            0x8e => {
                let addr = match self.read_next_word() {
                    Ok(v) => v,
                    Err(e) => {
                        self.state = State::Halted;
                        return Err(Error::Bus(e));
                    },
                };
                let x = self.x;
                match self.write(addr, x) {
                    Ok(()) => Ok(()),
                    Err(e) => {
                        self.state = State::Halted;
                        Err(Error::Bus(e))
                    },
                }
            },
            0xa2 => {
                let operand = match self.read_next_byte() {
                    Ok(v) => v,
                    Err(e) => {
                        self.state = State::Halted;
                        return Err(Error::Bus(e));
                    },
                };
                self.x = operand;
                self.update_nz(operand);
                Ok(())
            },
            0xad => {
                let addr = match self.read_next_word() {
                    Ok(v) => v,
                    Err(e) => {
                        self.state = State::Halted;
                        return Err(Error::Bus(e));
                    },
                };
                let value = match self.read(addr) {
                    Ok(v) => v,
                    Err(e) => {
                        self.state = State::Halted;
                        return Err(Error::Bus(e));
                    },
                };
                self.a = value;
                self.update_nz(value);
                Ok(())
            },
            0xd8 => {
                self.clear_flags(FLAG_D);
                Ok(())
            },
            other => {
                self.state = State::Faulted { opcode: other, pc: at };
                Err(Error::UnimplementedOpcode { opcode: other, pc: at })
            },
        }
    }

    fn update_nz(&mut self, v: u8)
        ensures
            final(self)@ == (CpuView { p: nz(old(self).p, v), ..old(self)@ }),
            final(self).reinit_on_reset == old(self).reinit_on_reset,
    {
        let z: u8 = if v == 0 {
            FLAG_Z
        } else {
            0
        };
        self.p = (self.p & !(FLAG_N | FLAG_Z)) | (v & FLAG_N) | z;
    }
}

} // verus!
