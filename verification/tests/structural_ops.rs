use afl::corpus::InMemoryCorpus;
use afl::inputs::BytesInput;
use afl::mutations::mutation_bytescopy;
use afl::mutations::mutation_bytesdelete;
use afl::mutations::mutation_bytesexpand;
use afl::mutations::mutation_bytesinsert;
use afl::mutations::mutation_bytesrandinsert;
use afl::mutations::mutation_bytesrandset;
use afl::mutations::mutation_bytesset;
use afl::mutations::mutation_bytesswap;
use afl::mutations::MutationResult;
use afl::mutations::SizedMutator;
use afl::rand::FixedRand;

#[test]
fn bytesdelete_skips_short_input() {
    let mut m = SizedMutator::new(1024);
    let mut r = FixedRand::new(vec![0]);
    let c = InMemoryCorpus::new();
    let mut input = BytesInput::new(vec![1, 2]);
    let res = mutation_bytesdelete(&mut m, &mut r, &c, &mut input);
    assert!(matches!(res, Ok(MutationResult::Skipped)));
    assert_eq!(input.bytes, vec![1, 2]);
}

#[test]
fn bytesdelete_removes_span() {
    let mut m = SizedMutator::new(1024);
    // offset 1, span length 2
    let mut r = FixedRand::new(vec![1, 2]);
    let c = InMemoryCorpus::new();
    let mut input = BytesInput::new(vec![1, 2, 3, 4, 5]);
    let res = mutation_bytesdelete(&mut m, &mut r, &c, &mut input);
    assert!(matches!(res, Ok(MutationResult::Mutated)));
    assert_eq!(input.bytes, vec![1, 4, 5]);
    // new length == old length - removed span length
    assert_eq!(input.bytes.len(), 5 - 2);
}

#[test]
fn bytesdelete_zero_length_span_still_mutated() {
    let mut m = SizedMutator::new(1024);
    // offset 1, span length 0: a no-op removal, still reported as Mutated
    let mut r = FixedRand::new(vec![1, 0]);
    let c = InMemoryCorpus::new();
    let mut input = BytesInput::new(vec![1, 2, 3]);
    let res = mutation_bytesdelete(&mut m, &mut r, &c, &mut input);
    assert!(matches!(res, Ok(MutationResult::Mutated)));
    assert_eq!(input.bytes, vec![1, 2, 3]);
}

#[test]
fn bytesexpand_duplicates_suffix() {
    let mut m = SizedMutator::new(1024);
    // offset 1, grown by 4
    let mut r = FixedRand::new(vec![1, 4]);
    let c = InMemoryCorpus::new();
    let mut input = BytesInput::new(vec![1, 2, 3]);
    let res = mutation_bytesexpand(&mut m, &mut r, &c, &mut input);
    assert!(matches!(res, Ok(MutationResult::Mutated)));
    // gap keeps the bytes that sat in [1, 5), zero-padded past the old end
    assert_eq!(input.bytes, vec![1, 2, 3, 0, 0, 2, 3]);
    assert_eq!(input.bytes.len(), 3 + 4);
}

#[test]
fn bytesexpand_respects_max_size() {
    let mut m = SizedMutator::new(1);
    let mut r = FixedRand::new(vec![0, 15]);
    let c = InMemoryCorpus::new();
    let mut input = BytesInput::new(vec![1, 2, 3]);
    let res = mutation_bytesexpand(&mut m, &mut r, &c, &mut input);
    assert!(matches!(res, Ok(MutationResult::Mutated)));
    // the drawn growth is strictly below min(16, max size) == 1, so zero
    assert_eq!(input.bytes, vec![1, 2, 3]);
}

#[test]
fn bytesinsert_empty_skips() {
    let mut m = SizedMutator::new(1024);
    let mut r = FixedRand::new(vec![0]);
    let c = InMemoryCorpus::new();
    let mut input = BytesInput::new(vec![]);
    let res = mutation_bytesinsert(&mut m, &mut r, &c, &mut input);
    assert!(matches!(res, Ok(MutationResult::Skipped)));
    assert_eq!(input.bytes, Vec::<u8>::new());
}

#[test]
fn bytesinsert_fills_gap_from_buffer() {
    let mut m = SizedMutator::new(1024);
    // offset 0, grown by 3, fill byte sampled at index 1
    let mut r = FixedRand::new(vec![0, 3, 1]);
    let c = InMemoryCorpus::new();
    let mut input = BytesInput::new(vec![7, 8]);
    let res = mutation_bytesinsert(&mut m, &mut r, &c, &mut input);
    assert!(matches!(res, Ok(MutationResult::Mutated)));
    assert_eq!(input.bytes, vec![8, 8, 8, 7, 8]);
    assert_eq!(input.bytes.len(), 2 + 3);
}

#[test]
fn bytesrandinsert_grows_empty_input() {
    let mut m = SizedMutator::new(1024);
    // grown by 2, fill byte 0x41
    let mut r = FixedRand::new(vec![2, 0x41]);
    let c = InMemoryCorpus::new();
    let mut input = BytesInput::new(vec![]);
    let res = mutation_bytesrandinsert(&mut m, &mut r, &c, &mut input);
    assert!(matches!(res, Ok(MutationResult::Mutated)));
    assert_eq!(input.bytes, vec![0x41, 0x41]);
}

#[test]
fn bytesset_empty_skips() {
    let mut m = SizedMutator::new(1024);
    let mut r = FixedRand::new(vec![0]);
    let c = InMemoryCorpus::new();
    let mut input = BytesInput::new(vec![]);
    let res = mutation_bytesset(&mut m, &mut r, &c, &mut input);
    assert!(matches!(res, Ok(MutationResult::Skipped)));
    assert_eq!(input.bytes, Vec::<u8>::new());
}

#[test]
fn bytesset_repeats_buffer_byte() {
    let mut m = SizedMutator::new(1024);
    // fill byte sampled at index 0, range start 2, range length 1
    let mut r = FixedRand::new(vec![0, 2, 1]);
    let c = InMemoryCorpus::new();
    let mut input = BytesInput::new(vec![1, 2, 3, 4]);
    let res = mutation_bytesset(&mut m, &mut r, &c, &mut input);
    assert!(matches!(res, Ok(MutationResult::Mutated)));
    assert_eq!(input.bytes, vec![1, 2, 1, 4]);
    assert_eq!(input.bytes.len(), 4);
}

#[test]
fn bytesrandset_empty_skips() {
    let mut m = SizedMutator::new(1024);
    let mut r = FixedRand::new(vec![0]);
    let c = InMemoryCorpus::new();
    let mut input = BytesInput::new(vec![]);
    let res = mutation_bytesrandset(&mut m, &mut r, &c, &mut input);
    assert!(matches!(res, Ok(MutationResult::Skipped)));
    assert_eq!(input.bytes, Vec::<u8>::new());
}

#[test]
fn bytesrandset_overwrites_range() {
    let mut m = SizedMutator::new(1024);
    // fill byte 0xaa, range start 0, range length 2
    let mut r = FixedRand::new(vec![0xaa, 0, 2]);
    let c = InMemoryCorpus::new();
    let mut input = BytesInput::new(vec![5, 5, 5]);
    let res = mutation_bytesrandset(&mut m, &mut r, &c, &mut input);
    assert!(matches!(res, Ok(MutationResult::Mutated)));
    assert_eq!(input.bytes, vec![0xaa, 0xaa, 5]);
}

#[test]
fn bytescopy_skips_single_byte() {
    let mut m = SizedMutator::new(1024);
    let mut r = FixedRand::new(vec![0]);
    let c = InMemoryCorpus::new();
    let mut input = BytesInput::new(vec![9]);
    let res = mutation_bytescopy(&mut m, &mut r, &c, &mut input);
    assert!(matches!(res, Ok(MutationResult::Skipped)));
    assert_eq!(input.bytes, vec![9]);
}

#[test]
fn bytescopy_copies_span() {
    let mut m = SizedMutator::new(1024);
    // from 0, to 3, length 1
    let mut r = FixedRand::new(vec![0, 3, 1]);
    let c = InMemoryCorpus::new();
    let mut input = BytesInput::new(vec![1, 2, 3, 4, 5]);
    let res = mutation_bytescopy(&mut m, &mut r, &c, &mut input);
    assert!(matches!(res, Ok(MutationResult::Mutated)));
    assert_eq!(input.bytes, vec![1, 2, 3, 1, 5]);
    assert_eq!(input.bytes.len(), 5);
}

#[test]
fn bytesswap_skips_single_byte() {
    let mut m = SizedMutator::new(1024);
    let mut r = FixedRand::new(vec![0]);
    let c = InMemoryCorpus::new();
    let mut input = BytesInput::new(vec![9]);
    let res = mutation_bytesswap(&mut m, &mut r, &c, &mut input);
    assert!(matches!(res, Ok(MutationResult::Skipped)));
    assert_eq!(input.bytes, vec![9]);
}

#[test]
fn bytesswap_exchanges_spans() {
    let mut m = SizedMutator::new(1024);
    // spans [0, 2) and [3, 5)
    let mut r = FixedRand::new(vec![0, 3, 2]);
    let c = InMemoryCorpus::new();
    let mut input = BytesInput::new(vec![1, 2, 3, 4, 5, 6]);
    let res = mutation_bytesswap(&mut m, &mut r, &c, &mut input);
    assert!(matches!(res, Ok(MutationResult::Mutated)));
    assert_eq!(input.bytes, vec![4, 5, 3, 1, 2, 6]);
    assert_eq!(input.bytes.len(), 6);
}

#[test]
fn bytesswap_twice_restores_disjoint_spans() {
    let mut m = SizedMutator::new(1024);
    let c = InMemoryCorpus::new();
    let mut input = BytesInput::new(vec![1, 2, 3, 4, 5, 6]);
    let mut r1 = FixedRand::new(vec![0, 3, 2]);
    let res1 = mutation_bytesswap(&mut m, &mut r1, &c, &mut input);
    assert!(matches!(res1, Ok(MutationResult::Mutated)));
    let mut r2 = FixedRand::new(vec![0, 3, 2]);
    let res2 = mutation_bytesswap(&mut m, &mut r2, &c, &mut input);
    assert!(matches!(res2, Ok(MutationResult::Mutated)));
    assert_eq!(input.bytes, vec![1, 2, 3, 4, 5, 6]);
}
