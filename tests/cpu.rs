use nes_core::cpu::{Error, State, CPU, FLAG_D, FLAG_I, FLAG_N, FLAG_Z};
use nes_core::memory_map::{Error as BusError, Kind};

/// A processor with 2 KiB of RAM mirrored over 0x0000..=0x1FFF and the
/// program at 0x8000, where the reset vector points.
fn machine(program: &[u8]) -> CPU {
    let mut cpu = CPU::new();
    assert_eq!(cpu.mem.add_seg(0x0000, 0x1FFF, 0x800, Kind::RAM), Ok(0));
    assert_eq!(cpu.mem.add_seg(0x8000, 0xFFFF, 0x8000, Kind::ROM), Ok(1));
    assert_eq!(cpu.mem.enable_seg_rw(0x0000, vec![0; 0x800]), Ok(()));
    let mut rom = vec![0u8; 0x8000];
    rom[..program.len()].copy_from_slice(program);
    rom[0x7FFC] = 0x00;
    rom[0x7FFD] = 0x80;
    assert_eq!(cpu.mem.enable_seg_ro(0x8000, rom), Ok(()));
    assert_eq!(cpu.reset(), Ok(()));
    cpu
}

#[test]
fn reset_loads_vector_and_zeroes_cycles() {
    let cpu = machine(&[]);
    assert_eq!(cpu.pc, 0x8000);
    assert_eq!(cpu.cycles, 0);
    assert_eq!(cpu.state, State::Running);
}

#[test]
fn reset_without_mapped_vector_halts() {
    let mut cpu = CPU::new();
    assert_eq!(cpu.reset(), Err(Error::Bus(BusError::AddressNotMapped)));
    assert_eq!(cpu.state, State::Halted);
}

#[test]
fn reset_can_reinitialise_registers() {
    let mut cpu = machine(&[0xA2, 0x42]);
    assert_eq!(cpu.step(), Ok(()));
    assert_eq!(cpu.x, 0x42);
    assert_eq!(cpu.reset(), Ok(()));
    assert_eq!(cpu.x, 0x42);
    cpu.reinit_on_reset = true;
    cpu.set_flags(FLAG_D);
    assert_eq!(cpu.reset(), Ok(()));
    assert_eq!(cpu.x, 0);
    assert_eq!(cpu.p, 0);
    assert_eq!(cpu.s, 0xFF);
    assert_eq!(cpu.pc, 0x8000);
}

#[test]
fn step_before_reset_is_refused() {
    let mut cpu = CPU::new();
    assert_eq!(cpu.step(), Err(Error::NotRunning));
    assert_eq!(cpu.cycles, 0);
}

#[test]
fn sei_sets_only_interrupt_disable() {
    let mut cpu = machine(&[0x78]);
    cpu.p = 0b1100_1011;
    assert_eq!(cpu.step(), Ok(()));
    assert_eq!(cpu.p, 0b1100_1111);
    assert!(cpu.is_flag_set(FLAG_I));
    assert_eq!(cpu.pc, 0x8001);
    assert_eq!(cpu.cycles, 1);
}

#[test]
fn cld_clears_only_decimal() {
    let mut cpu = machine(&[0xD8]);
    cpu.p = 0xFF;
    assert_eq!(cpu.step(), Ok(()));
    assert_eq!(cpu.p, 0xF7);
    assert!(!cpu.is_flag_set(FLAG_D));
    assert_eq!(cpu.pc, 0x8001);
}

#[test]
fn ldx_immediate_loads_x_in_two_cycles() {
    let mut cpu = machine(&[0xA2, 0x42]);
    let pc = cpu.pc;
    let cycles = cpu.cycles;
    assert_eq!(cpu.step(), Ok(()));
    assert_eq!(cpu.x, 0x42);
    assert_eq!(cpu.pc, pc + 2);
    assert_eq!(cpu.cycles, cycles + 2);
    assert!(!cpu.is_flag_set(FLAG_N | FLAG_Z));
}

#[test]
fn ldx_sets_negative_and_zero() {
    let mut cpu = machine(&[0xA2, 0x80, 0xA2, 0x00]);
    assert_eq!(cpu.step(), Ok(()));
    assert_eq!(cpu.p, FLAG_N);
    assert_eq!(cpu.step(), Ok(()));
    assert_eq!(cpu.p, FLAG_Z);
}

#[test]
fn stx_then_lda_absolute_round_trip() {
    // LDX #$5A; STX $0010; LDA $0810 (a mirror of $0010)
    let mut cpu = machine(&[0xA2, 0x5A, 0x8E, 0x10, 0x00, 0xAD, 0x10, 0x08]);
    assert_eq!(cpu.step(), Ok(()));
    assert_eq!(cpu.step(), Ok(()));
    assert_eq!(cpu.cycles, 2 + 4);
    assert_eq!(cpu.mem.read(0x0010), Ok(0x5A));
    assert_eq!(cpu.step(), Ok(()));
    assert_eq!(cpu.a, 0x5A);
    assert_eq!(cpu.pc, 0x8008);
    assert_eq!(cpu.cycles, 2 + 4 + 4);
}

#[test]
fn stx_to_rom_halts_with_bus_error() {
    let mut cpu = machine(&[0x8E, 0x00, 0x90]);
    assert_eq!(cpu.step(), Err(Error::Bus(BusError::WriteToReadOnly)));
    assert_eq!(cpu.state, State::Halted);
    assert_eq!(cpu.step(), Err(Error::NotRunning));
}

#[test]
fn bpl_branches_when_negative_clear() {
    let mut cpu = machine(&[0x10, 0x05]);
    assert_eq!(cpu.step(), Ok(()));
    assert_eq!(cpu.pc, 0x8007);
    assert_eq!(cpu.cycles, 2);

    let mut back = machine(&[0x10, 0xFE]);
    assert_eq!(back.step(), Ok(()));
    assert_eq!(back.pc, 0x8000);

    let mut not_taken = machine(&[0x10, 0x05]);
    not_taken.set_flags(FLAG_N);
    assert_eq!(not_taken.step(), Ok(()));
    assert_eq!(not_taken.pc, 0x8002);
    assert_eq!(not_taken.cycles, 2);
}

#[test]
fn unimplemented_opcode_faults_and_stays_inspectable() {
    let mut cpu = machine(&[0xEA]);
    assert_eq!(cpu.step(), Err(Error::UnimplementedOpcode { opcode: 0xEA, pc: 0x8000 }));
    assert_eq!(cpu.state, State::Faulted { opcode: 0xEA, pc: 0x8000 });
    assert_eq!(cpu.snapshot().state, State::Faulted { opcode: 0xEA, pc: 0x8000 });
    assert_eq!(cpu.step(), Err(Error::NotRunning));
}

#[test]
fn flag_helpers() {
    let mut cpu = CPU::new();
    cpu.set_flags(FLAG_N | FLAG_Z);
    assert_eq!(cpu.p, 0x82);
    assert!(cpu.is_flag_set(FLAG_Z | FLAG_D));
    cpu.clear_flags(FLAG_N);
    assert_eq!(cpu.p, 0x02);
    assert!(!cpu.is_flag_set(FLAG_N));
}

#[test]
fn read_word_is_little_endian() {
    let mut cpu = machine(&[0x34, 0x12]);
    let before = cpu.cycles;
    assert_eq!(cpu.read_word(0x8000), Ok(0x1234));
    assert_eq!(cpu.cycles, before + 2);
    assert_eq!(cpu.read_next_word(), Ok(0x1234));
    assert_eq!(cpu.pc, 0x8002);
    assert_eq!(cpu.write(0x0001, 9), Ok(()));
    assert_eq!(cpu.read(0x0801), Ok(9));
}
