use afl::corpus::InMemoryCorpus;
use afl::inputs::BytesInput;
use afl::mutations::mutation_bitflip;
use afl::mutations::mutation_bytedec;
use afl::mutations::mutation_byteflip;
use afl::mutations::mutation_byteinc;
use afl::mutations::mutation_byteneg;
use afl::mutations::mutation_byterand;
use afl::mutations::MutationResult;
use afl::mutations::SizedMutator;
use afl::rand::FixedRand;

#[test]
fn bitflip_empty_skips() {
    let mut m = SizedMutator::new(1024);
    let mut r = FixedRand::new(vec![0]);
    let c = InMemoryCorpus::new();
    let mut input = BytesInput::new(vec![]);
    let res = mutation_bitflip(&mut m, &mut r, &c, &mut input);
    assert!(matches!(res, Ok(MutationResult::Skipped)));
    assert_eq!(input.bytes, Vec::<u8>::new());
}

#[test]
fn byteflip_empty_skips() {
    let mut m = SizedMutator::new(1024);
    let mut r = FixedRand::new(vec![0]);
    let c = InMemoryCorpus::new();
    let mut input = BytesInput::new(vec![]);
    let res = mutation_byteflip(&mut m, &mut r, &c, &mut input);
    assert!(matches!(res, Ok(MutationResult::Skipped)));
    assert_eq!(input.bytes, Vec::<u8>::new());
}

#[test]
fn byteinc_empty_skips() {
    let mut m = SizedMutator::new(1024);
    let mut r = FixedRand::new(vec![0]);
    let c = InMemoryCorpus::new();
    let mut input = BytesInput::new(vec![]);
    let res = mutation_byteinc(&mut m, &mut r, &c, &mut input);
    assert!(matches!(res, Ok(MutationResult::Skipped)));
    assert_eq!(input.bytes, Vec::<u8>::new());
}

#[test]
fn bytedec_empty_skips() {
    let mut m = SizedMutator::new(1024);
    let mut r = FixedRand::new(vec![0]);
    let c = InMemoryCorpus::new();
    let mut input = BytesInput::new(vec![]);
    let res = mutation_bytedec(&mut m, &mut r, &c, &mut input);
    assert!(matches!(res, Ok(MutationResult::Skipped)));
    assert_eq!(input.bytes, Vec::<u8>::new());
}

#[test]
fn byteneg_empty_skips() {
    let mut m = SizedMutator::new(1024);
    let mut r = FixedRand::new(vec![0]);
    let c = InMemoryCorpus::new();
    let mut input = BytesInput::new(vec![]);
    let res = mutation_byteneg(&mut m, &mut r, &c, &mut input);
    assert!(matches!(res, Ok(MutationResult::Skipped)));
    assert_eq!(input.bytes, Vec::<u8>::new());
}

#[test]
fn byterand_empty_skips() {
    let mut m = SizedMutator::new(1024);
    let mut r = FixedRand::new(vec![0]);
    let c = InMemoryCorpus::new();
    let mut input = BytesInput::new(vec![]);
    let res = mutation_byterand(&mut m, &mut r, &c, &mut input);
    assert!(matches!(res, Ok(MutationResult::Skipped)));
    assert_eq!(input.bytes, Vec::<u8>::new());
}

#[test]
fn byteflip_single_ff_becomes_zero() {
    let mut m = SizedMutator::new(1024);
    let mut r = FixedRand::new(vec![0]);
    let c = InMemoryCorpus::new();
    let mut input = BytesInput::new(vec![0xff]);
    let res = mutation_byteflip(&mut m, &mut r, &c, &mut input);
    assert!(matches!(res, Ok(MutationResult::Mutated)));
    assert_eq!(input.bytes, vec![0x00]);
}

#[test]
fn bitflip_sets_high_bit() {
    let mut m = SizedMutator::new(1024);
    let mut r = FixedRand::new(vec![0, 0]);
    let c = InMemoryCorpus::new();
    let mut input = BytesInput::new(vec![0x00]);
    let res = mutation_bitflip(&mut m, &mut r, &c, &mut input);
    assert!(matches!(res, Ok(MutationResult::Mutated)));
    assert_eq!(input.bytes, vec![0x80]);
}

#[test]
fn bitflip_changes_exactly_one_bit() {
    let mut m = SizedMutator::new(1024);
    let mut r = FixedRand::new(vec![1, 5]);
    let c = InMemoryCorpus::new();
    let mut input = BytesInput::new(vec![0xaa, 0xff]);
    let res = mutation_bitflip(&mut m, &mut r, &c, &mut input);
    assert!(matches!(res, Ok(MutationResult::Mutated)));
    // byte 1, bit offset 5: mask 128 >> 5 == 0x04
    assert_eq!(input.bytes, vec![0xaa, 0xfb]);
}

#[test]
fn byteflip_changes_exactly_one_byte() {
    let mut m = SizedMutator::new(1024);
    let mut r = FixedRand::new(vec![1]);
    let c = InMemoryCorpus::new();
    let mut input = BytesInput::new(vec![1, 2, 3]);
    let res = mutation_byteflip(&mut m, &mut r, &c, &mut input);
    assert!(matches!(res, Ok(MutationResult::Mutated)));
    assert_eq!(input.bytes, vec![1, 0xfd, 3]);
}

#[test]
fn byteinc_wraps_around() {
    let mut m = SizedMutator::new(1024);
    let mut r = FixedRand::new(vec![0]);
    let c = InMemoryCorpus::new();
    let mut input = BytesInput::new(vec![0xff]);
    let res = mutation_byteinc(&mut m, &mut r, &c, &mut input);
    assert!(matches!(res, Ok(MutationResult::Mutated)));
    assert_eq!(input.bytes, vec![0x00]);
}

#[test]
fn byteinc_adds_one() {
    let mut m = SizedMutator::new(1024);
    let mut r = FixedRand::new(vec![0]);
    let c = InMemoryCorpus::new();
    let mut input = BytesInput::new(vec![5, 7]);
    let res = mutation_byteinc(&mut m, &mut r, &c, &mut input);
    assert!(matches!(res, Ok(MutationResult::Mutated)));
    assert_eq!(input.bytes, vec![6, 7]);
}

#[test]
fn bytedec_wraps_around() {
    let mut m = SizedMutator::new(1024);
    let mut r = FixedRand::new(vec![0]);
    let c = InMemoryCorpus::new();
    let mut input = BytesInput::new(vec![0x00]);
    let res = mutation_bytedec(&mut m, &mut r, &c, &mut input);
    assert!(matches!(res, Ok(MutationResult::Mutated)));
    assert_eq!(input.bytes, vec![0xff]);
}

#[test]
fn byteneg_complements_one_byte() {
    let mut m = SizedMutator::new(1024);
    let mut r = FixedRand::new(vec![1]);
    let c = InMemoryCorpus::new();
    let mut input = BytesInput::new(vec![0x0f, 0xf0]);
    let res = mutation_byteneg(&mut m, &mut r, &c, &mut input);
    assert!(matches!(res, Ok(MutationResult::Mutated)));
    assert_eq!(input.bytes, vec![0x0f, 0x0f]);
}

#[test]
fn byterand_writes_scripted_value() {
    let mut m = SizedMutator::new(1024);
    let mut r = FixedRand::new(vec![0, 0x41]);
    let c = InMemoryCorpus::new();
    let mut input = BytesInput::new(vec![9]);
    let res = mutation_byterand(&mut m, &mut r, &c, &mut input);
    assert!(matches!(res, Ok(MutationResult::Mutated)));
    assert_eq!(input.bytes, vec![0x41]);
}
