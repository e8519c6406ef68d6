// Tests of loading, booting, resetting, and the diagnostic views.

use cpu16::cpu::{Cpu, LoadError, MachineState};

fn le_bytes(words: &[u16]) -> Vec<u8> {
    let mut bytes: Vec<u8> = Vec::new();
    for w in words {
        bytes.push((w & 0xff) as u8);
        bytes.push((w >> 8) as u8);
    }
    bytes
}

#[test]
fn load_round_trip() {
    // A NOP followed by a SET-like word: booting puts the program counter
    // at the program start, memory mirrors the image verbatim, and the
    // first step advances the program counter by exactly one word.
    let mut cpu = Cpu::new();
    assert_eq!(cpu.load_image(&le_bytes(&[0x0000, 0x0401])), Ok(()));
    assert_eq!(cpu.state(), MachineState::Ready);
    let snap = cpu.snapshot();
    assert_eq!(snap.pc, 0x8000);
    assert_eq!(snap.sp, 0x7fff);
    assert_eq!(cpu.peek(0x8000), 0x0000);
    assert_eq!(cpu.peek(0x8001), 0x0401);
    assert_eq!(cpu.tick(), Ok(1));
    assert_eq!(cpu.snapshot().pc, 0x8001);
    for i in 0..8 {
        assert_eq!(cpu.get_reg(i), 0);
    }
}

#[test]
fn load_is_little_endian() {
    // Low byte first: the bytes 0x34, 0x12 make the word 0x1234.
    let mut cpu = Cpu::new();
    assert_eq!(cpu.load_image(&vec![0x34, 0x12]), Ok(()));
    assert_eq!(cpu.peek(0x8000), 0x1234);
}

#[test]
fn odd_byte_count_is_rejected_unchanged() {
    let mut cpu = Cpu::new();
    cpu.poke(0x8000, 0x7777);
    let before = cpu.snapshot();
    assert_eq!(
        cpu.load_image(&vec![0x00, 0x00, 0x01]),
        Err(LoadError::OddLength)
    );
    assert_eq!(cpu.snapshot(), before);
    assert_eq!(cpu.state(), MachineState::Halted);
    assert_eq!(cpu.peek(0x8000), 0x7777);
    for i in 0..8 {
        assert_eq!(cpu.get_reg(i), 0);
    }
}

#[test]
fn oversized_image_is_rejected_without_partial_copy() {
    // One byte more than the 32K-word program region holds.
    let mut cpu = Cpu::new();
    let image: Vec<u8> = vec![0xAB; 0x10002];
    assert_eq!(cpu.load_image(&image), Err(LoadError::TooLarge));
    assert_eq!(cpu.state(), MachineState::Halted);
    assert_eq!(cpu.snapshot().pc, 0);
    // Nothing was copied, not even a prefix.
    assert_eq!(cpu.peek(0x8000), 0);
    assert_eq!(cpu.peek(0xffff), 0);
}

#[test]
fn largest_image_fits_exactly() {
    let mut cpu = Cpu::new();
    let image: Vec<u8> = vec![0xCD; 0x10000];
    assert_eq!(cpu.load_image(&image), Ok(()));
    assert_eq!(cpu.peek(0x8000), 0xCDCD);
    assert_eq!(cpu.peek(0xffff), 0xCDCD);
}

#[test]
fn reset_keeps_the_image_and_boot_restores_it() {
    let mut cpu = Cpu::new();
    cpu.load_image(&le_bytes(&[0x1234, 0x5678])).unwrap();
    cpu.set_reg(3, 99);
    cpu.reset();
    assert_eq!(cpu.state(), MachineState::Halted);
    assert_eq!(cpu.get_reg(3), 0);
    assert_eq!(cpu.peek(0x8000), 0);
    assert_eq!(cpu.snapshot().pc, 0);
    cpu.boot();
    assert_eq!(cpu.state(), MachineState::Ready);
    assert_eq!(cpu.peek(0x8000), 0x1234);
    assert_eq!(cpu.peek(0x8001), 0x5678);
    assert_eq!(cpu.snapshot().pc, 0x8000);
    assert_eq!(cpu.snapshot().sp, 0x7fff);
}

#[test]
fn loading_a_shorter_image_keeps_the_rest_of_the_old_one() {
    let mut cpu = Cpu::new();
    cpu.load_image(&le_bytes(&[0x1111, 0x2222])).unwrap();
    cpu.load_image(&le_bytes(&[0x3333])).unwrap();
    assert_eq!(cpu.peek(0x8000), 0x3333);
    assert_eq!(cpu.peek(0x8001), 0x2222);
}

#[test]
fn fail_is_a_terminal_stop() {
    let mut cpu = Cpu::new();
    cpu.load_image(&le_bytes(&[0x0000])).unwrap();
    cpu.fail();
    assert_eq!(cpu.state(), MachineState::Faulted);
    assert!(cpu.tick().is_err());
    cpu.reset();
    assert_eq!(cpu.state(), MachineState::Halted);
}

#[test]
fn dump_reads_32_words_with_wraparound() {
    let mut cpu = Cpu::new();
    cpu.poke(0xffff, 0xAAAA);
    cpu.poke(0x0000, 0xBBBB);
    let words = cpu.dump(0xffff);
    assert_eq!(words.len(), 32);
    assert_eq!(words[0], 0xAAAA);
    assert_eq!(words[1], 0xBBBB);
    assert_eq!(words[2], 0);
}

#[test]
fn dump_ins_reads_at_the_program_counter() {
    let mut cpu = Cpu::new();
    cpu.load_image(&le_bytes(&[0x0123, 0x4567])).unwrap();
    let words = cpu.dump_ins();
    assert_eq!(words.len(), 32);
    assert_eq!(words[0], 0x0123);
    assert_eq!(words[1], 0x4567);
    assert_eq!(words, cpu.dump(0x8000));
}

#[test]
fn peek_poke_get_set() {
    let mut cpu = Cpu::new();
    cpu.poke(0x1234, 0x4321);
    assert_eq!(cpu.peek(0x1234), 0x4321);
    cpu.set_reg(7, 0x7007);
    assert_eq!(cpu.get_reg(7), 0x7007);
    assert_eq!(cpu.get_reg(6), 0);
}
