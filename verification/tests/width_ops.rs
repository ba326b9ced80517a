use afl::corpus::InMemoryCorpus;
use afl::inputs::BytesInput;
use afl::mutations::mutation_byteadd;
use afl::mutations::mutation_byteinteresting;
use afl::mutations::mutation_dwordadd;
use afl::mutations::mutation_dwordinteresting;
use afl::mutations::mutation_qwordadd;
use afl::mutations::mutation_wordadd;
use afl::mutations::mutation_wordinteresting;
use afl::mutations::MutationResult;
use afl::mutations::SizedMutator;
use afl::rand::FixedRand;
use afl::rand::XorShift64Rand;

#[test]
fn byteadd_skips_single_byte() {
    let mut m = SizedMutator::new(1024);
    let mut r = FixedRand::new(vec![0]);
    let c = InMemoryCorpus::new();
    let mut input = BytesInput::new(vec![7]);
    let res = mutation_byteadd(&mut m, &mut r, &c, &mut input);
    assert!(matches!(res, Ok(MutationResult::Skipped)));
    assert_eq!(input.bytes, vec![7]);
}

#[test]
fn byteadd_adds_delta() {
    let mut m = SizedMutator::new(1024);
    // offset 0, delta 1 + 4, variant add
    let mut r = FixedRand::new(vec![0, 4, 0]);
    let c = InMemoryCorpus::new();
    let mut input = BytesInput::new(vec![10, 99]);
    let res = mutation_byteadd(&mut m, &mut r, &c, &mut input);
    assert!(matches!(res, Ok(MutationResult::Mutated)));
    assert_eq!(input.bytes, vec![15, 99]);
}

#[test]
fn byteadd_subtracts_with_wraparound() {
    let mut m = SizedMutator::new(1024);
    // offset 0, delta 1 + 9, variant subtract
    let mut r = FixedRand::new(vec![0, 9, 1]);
    let c = InMemoryCorpus::new();
    let mut input = BytesInput::new(vec![1, 50]);
    let res = mutation_byteadd(&mut m, &mut r, &c, &mut input);
    assert!(matches!(res, Ok(MutationResult::Mutated)));
    // (1 - 10) mod 256 == 247
    assert_eq!(input.bytes, vec![247, 50]);
}

#[test]
fn wordadd_little_endian_add() {
    let mut m = SizedMutator::new(1024);
    // offset 0, delta 1 + 2, variant add in native (little-endian) order
    let mut r = FixedRand::new(vec![0, 2, 0]);
    let c = InMemoryCorpus::new();
    let mut input = BytesInput::new(vec![0x10, 0x00, 7]);
    let res = mutation_wordadd(&mut m, &mut r, &c, &mut input);
    assert!(matches!(res, Ok(MutationResult::Mutated)));
    assert_eq!(input.bytes, vec![0x13, 0x00, 7]);
}

#[test]
fn wordadd_big_endian_subtract_wraps() {
    let mut m = SizedMutator::new(1024);
    // offset 0, delta 1, variant subtract in swapped (big-endian) order
    let mut r = FixedRand::new(vec![0, 0, 3]);
    let c = InMemoryCorpus::new();
    let mut input = BytesInput::new(vec![0x00, 0x00, 7]);
    let res = mutation_wordadd(&mut m, &mut r, &c, &mut input);
    assert!(matches!(res, Ok(MutationResult::Mutated)));
    // big-endian 0x0000 - 1 wraps to 0xffff
    assert_eq!(input.bytes, vec![0xff, 0xff, 7]);
}

#[test]
fn wordadd_trials_match_wraparound_and_hit_both_orders() {
    let a: u8 = 0x12;
    let b: u8 = 0x34;
    let le0: u16 = (a as u16) | ((b as u16) << 8);
    let be0: u16 = ((a as u16) << 8) | (b as u16);
    let mut saw_le = false;
    let mut saw_be = false;
    let mut seed: u64 = 1;
    while seed < 400 {
        let mut m = SizedMutator::new(1024);
        let mut r = XorShift64Rand::with_seed(seed);
        let c = InMemoryCorpus::new();
        let mut input = BytesInput::new(vec![a, b]);
        let res = mutation_wordadd(&mut m, &mut r, &c, &mut input);
        assert!(matches!(res, Ok(MutationResult::Mutated)));
        let x = input.bytes[0];
        let y = input.bytes[1];
        let le1: u16 = (x as u16) | ((y as u16) << 8);
        let be1: u16 = ((x as u16) << 8) | (y as u16);
        let mut le_match = false;
        let mut be_match = false;
        let mut d: u16 = 1;
        while d <= 35 {
            if le1 == le0.wrapping_add(d) || le1 == le0.wrapping_sub(d) {
                le_match = true;
            }
            if be1 == be0.wrapping_add(d) || be1 == be0.wrapping_sub(d) {
                be_match = true;
            }
            d += 1;
        }
        assert!(le_match || be_match);
        if le_match {
            saw_le = true;
        }
        if be_match {
            saw_be = true;
        }
        seed += 1;
    }
    assert!(saw_le && saw_be);
}

#[test]
fn dwordadd_skips_short_input() {
    let mut m = SizedMutator::new(1024);
    let mut r = FixedRand::new(vec![0]);
    let c = InMemoryCorpus::new();
    let mut input = BytesInput::new(vec![1, 2, 3]);
    let res = mutation_dwordadd(&mut m, &mut r, &c, &mut input);
    assert!(matches!(res, Ok(MutationResult::Skipped)));
    assert_eq!(input.bytes, vec![1, 2, 3]);
}

#[test]
fn dwordadd_little_endian_add() {
    let mut m = SizedMutator::new(1024);
    // offset 0, delta 1, variant add in little-endian order
    let mut r = FixedRand::new(vec![0, 0, 0]);
    let c = InMemoryCorpus::new();
    let mut input = BytesInput::new(vec![1, 0, 0, 0, 9]);
    let res = mutation_dwordadd(&mut m, &mut r, &c, &mut input);
    assert!(matches!(res, Ok(MutationResult::Mutated)));
    assert_eq!(input.bytes, vec![2, 0, 0, 0, 9]);
}

#[test]
fn qwordadd_skips_short_input() {
    let mut m = SizedMutator::new(1024);
    let mut r = FixedRand::new(vec![0]);
    let c = InMemoryCorpus::new();
    let mut input = BytesInput::new(vec![1, 2, 3, 4, 5, 6, 7]);
    let res = mutation_qwordadd(&mut m, &mut r, &c, &mut input);
    assert!(matches!(res, Ok(MutationResult::Skipped)));
    assert_eq!(input.bytes, vec![1, 2, 3, 4, 5, 6, 7]);
}

#[test]
fn qwordadd_wraps_to_zero() {
    let mut m = SizedMutator::new(1024);
    // offset 0, delta 1, variant add in swapped (big-endian) order
    let mut r = FixedRand::new(vec![0, 0, 2]);
    let c = InMemoryCorpus::new();
    let mut input = BytesInput::new(vec![0xff; 8]);
    let res = mutation_qwordadd(&mut m, &mut r, &c, &mut input);
    assert!(matches!(res, Ok(MutationResult::Mutated)));
    assert_eq!(input.bytes, vec![0x00; 8]);
}

#[test]
fn byteinteresting_writes_table_value() {
    let mut m = SizedMutator::new(1024);
    // offset 0, table index 0: -128 as u8 == 0x80
    let mut r = FixedRand::new(vec![0, 0]);
    let c = InMemoryCorpus::new();
    let mut input = BytesInput::new(vec![9, 9]);
    let res = mutation_byteinteresting(&mut m, &mut r, &c, &mut input);
    assert!(matches!(res, Ok(MutationResult::Mutated)));
    assert_eq!(input.bytes, vec![0x80, 9]);
}

#[test]
fn wordinteresting_little_endian() {
    let mut m = SizedMutator::new(1024);
    // offset 0, table index 9: -32768 == 0x8000, native order
    let mut r = FixedRand::new(vec![0, 9, 0]);
    let c = InMemoryCorpus::new();
    let mut input = BytesInput::new(vec![9, 9, 9]);
    let res = mutation_wordinteresting(&mut m, &mut r, &c, &mut input);
    assert!(matches!(res, Ok(MutationResult::Mutated)));
    assert_eq!(input.bytes, vec![0x00, 0x80, 9]);
}

#[test]
fn wordinteresting_big_endian() {
    let mut m = SizedMutator::new(1024);
    // offset 0, table index 12: 255 == 0x00ff, swapped order
    let mut r = FixedRand::new(vec![0, 12, 1]);
    let c = InMemoryCorpus::new();
    let mut input = BytesInput::new(vec![9, 9, 9]);
    let res = mutation_wordinteresting(&mut m, &mut r, &c, &mut input);
    assert!(matches!(res, Ok(MutationResult::Mutated)));
    assert_eq!(input.bytes, vec![0x00, 0xff, 9]);
}

#[test]
fn wordinteresting_trials_stay_in_table() {
    let table: Vec<i16> = vec![
        -128, -1, 0, 1, 16, 32, 64, 100, 127, -32768, -129, 128, 255, 256, 512, 1000, 1024, 4096,
        32767,
    ];
    let mut seed: u64 = 1;
    while seed < 200 {
        let mut m = SizedMutator::new(1024);
        let mut r = XorShift64Rand::with_seed(seed);
        let c = InMemoryCorpus::new();
        // length 2: the only possible offset is 0, so the window is the buffer
        let mut input = BytesInput::new(vec![9, 9]);
        let res = mutation_wordinteresting(&mut m, &mut r, &c, &mut input);
        assert!(matches!(res, Ok(MutationResult::Mutated)));
        let x = input.bytes[0];
        let y = input.bytes[1];
        let le: u16 = (x as u16) | ((y as u16) << 8);
        let be: u16 = ((x as u16) << 8) | (y as u16);
        let in_table =
            table.iter().any(|v| *v as u16 == le) || table.iter().any(|v| *v as u16 == be);
        assert!(in_table);
        seed += 1;
    }
}

#[test]
fn dwordinteresting_forced_value() {
    let mut m = SizedMutator::new(1024);
    // offset 0, table index 19: -2147483648 == 0x80000000, native order
    let mut r = FixedRand::new(vec![0, 19, 0]);
    let c = InMemoryCorpus::new();
    let mut input = BytesInput::new(vec![9, 9, 9, 9]);
    let res = mutation_dwordinteresting(&mut m, &mut r, &c, &mut input);
    assert!(matches!(res, Ok(MutationResult::Mutated)));
    assert_eq!(input.bytes, vec![0x00, 0x00, 0x00, 0x80]);
}

#[test]
fn dwordinteresting_trials_stay_in_table() {
    let table: Vec<i32> = vec![
        -128, -1, 0, 1, 16, 32, 64, 100, 127, -32768, -129, 128, 255, 256, 512, 1000, 1024, 4096,
        32767, -2147483648, -100663046, -32769, 32768, 65535, 65536, 100663045, 2147483647,
    ];
    let mut seed: u64 = 1;
    while seed < 200 {
        let mut m = SizedMutator::new(1024);
        let mut r = XorShift64Rand::with_seed(seed);
        let c = InMemoryCorpus::new();
        // length 4: the only possible offset is 0, so the window is the buffer
        let mut input = BytesInput::new(vec![9, 9, 9, 9]);
        let res = mutation_dwordinteresting(&mut m, &mut r, &c, &mut input);
        assert!(matches!(res, Ok(MutationResult::Mutated)));
        let b = &input.bytes;
        let le: u32 = (b[0] as u32)
            | ((b[1] as u32) << 8)
            | ((b[2] as u32) << 16)
            | ((b[3] as u32) << 24);
        let be: u32 = (b[3] as u32)
            | ((b[2] as u32) << 8)
            | ((b[1] as u32) << 16)
            | ((b[0] as u32) << 24);
        let in_table =
            table.iter().any(|v| *v as u32 == le) || table.iter().any(|v| *v as u32 == be);
        assert!(in_table);
        seed += 1;
    }
}
