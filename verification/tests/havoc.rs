//! The byte-havoc operator suite and its draw source.

use intent_fuzz::byte_havoc::XorShift;
use intent_fuzz::byte_havoc::bit_flip_mutate;
use intent_fuzz::byte_havoc::byte_add_mutate;
use intent_fuzz::byte_havoc::byte_dec_mutate;
use intent_fuzz::byte_havoc::byte_inc_mutate;
use intent_fuzz::byte_havoc::byte_interesting_mutate;
use intent_fuzz::byte_havoc::byte_neg_mutate;
use intent_fuzz::byte_havoc::byte_rand_mutate;
use intent_fuzz::byte_havoc::bytes_copy_mutate;
use intent_fuzz::byte_havoc::bytes_delete_mutate;
use intent_fuzz::byte_havoc::bytes_expand_mutate;
use intent_fuzz::byte_havoc::bytes_insert_copy_mutate;
use intent_fuzz::byte_havoc::bytes_insert_mutate;
use intent_fuzz::byte_havoc::bytes_rand_insert_mutate;
use intent_fuzz::byte_havoc::bytes_rand_set_mutate;
use intent_fuzz::byte_havoc::bytes_set_mutate;
use intent_fuzz::byte_havoc::bytes_swap_mutate;
use intent_fuzz::byte_havoc::dword_add_mutate;
use intent_fuzz::byte_havoc::havoc_slot;
use intent_fuzz::byte_havoc::qword_add_mutate;
use intent_fuzz::byte_havoc::word_add_mutate;
use intent_fuzz::byte_havoc::word_interesting_mutate;
use intent_fuzz::intent_mutator::MutationOutcome;

#[test]
fn xorshift_is_deterministic() {
    let mut a = XorShift::new(7);
    let mut b = XorShift::new(7);
    for _ in 0..16 {
        assert_eq!(a.next(), b.next());
    }
    let mut c = XorShift::new(8);
    assert_ne!(a.next(), c.next());
}

#[test]
fn bit_flip_and_single_byte_ops() {
    let mut v = vec![0b0000_0001u8, 0xff, 0x00];
    assert_eq!(bit_flip_mutate(&mut v, 0, 1), MutationOutcome::Mutated);
    assert_eq!(v, vec![0b0000_0011, 0xff, 0x00]);
    assert_eq!(byte_inc_mutate(&mut v, 1), MutationOutcome::Mutated);
    assert_eq!(v[1], 0x00);
    assert_eq!(byte_dec_mutate(&mut v, 2), MutationOutcome::Mutated);
    assert_eq!(v[2], 0xff);
    assert_eq!(byte_neg_mutate(&mut v, 0), MutationOutcome::Mutated);
    assert_eq!(v[0], 0xfd);
    assert_eq!(byte_rand_mutate(&mut v, 0, 0x41), MutationOutcome::Mutated);
    assert_eq!(v[0], 0x41);
    let mut empty: Vec<u8> = vec![];
    assert_eq!(bit_flip_mutate(&mut empty, 0, 0), MutationOutcome::Skipped);
    assert!(empty.is_empty());
}

#[test]
fn byte_add_wraps_both_ways() {
    let mut v = vec![0xffu8];
    // amount draw zero adds one
    assert_eq!(byte_add_mutate(&mut v, 0, 0, false), MutationOutcome::Mutated);
    assert_eq!(v[0], 0x00);
    assert_eq!(byte_add_mutate(&mut v, 0, 0, true), MutationOutcome::Mutated);
    assert_eq!(v[0], 0xff);
}

#[test]
fn word_add_little_and_big_endian() {
    let mut v = vec![0xffu8, 0x00];
    // little endian: 0x00ff + 1 = 0x0100
    assert_eq!(word_add_mutate(&mut v, 0, 0, false, false), MutationOutcome::Mutated);
    assert_eq!(v, vec![0x00, 0x01]);
    let mut w = vec![0x00u8, 0xff];
    // big endian: 0x00ff + 1 = 0x0100
    assert_eq!(word_add_mutate(&mut w, 0, 0, false, true), MutationOutcome::Mutated);
    assert_eq!(w, vec![0x01, 0x00]);
    let mut short = vec![0x01u8];
    assert_eq!(word_add_mutate(&mut short, 0, 0, false, false), MutationOutcome::Skipped);
}

#[test]
fn dword_and_qword_add() {
    let mut v = vec![0xffu8, 0xff, 0xff, 0xff];
    assert_eq!(dword_add_mutate(&mut v, 0, 0, false, false), MutationOutcome::Mutated);
    assert_eq!(v, vec![0x00, 0x00, 0x00, 0x00]);
    let mut q = vec![0u8; 8];
    assert_eq!(qword_add_mutate(&mut q, 0, 1, true, false), MutationOutcome::Mutated);
    // subtracting two from zero wraps to the top
    assert_eq!(q, vec![0xfe, 0xff, 0xff, 0xff, 0xff, 0xff, 0xff, 0xff]);
}

#[test]
fn interesting_value_substitution() {
    let mut v = vec![0x55u8];
    assert_eq!(byte_interesting_mutate(&mut v, 0, 0), MutationOutcome::Mutated);
    assert_eq!(v[0], 0x80);
    let mut w = vec![0x55u8, 0x55];
    // entry nine is the 16-bit minimum, written big endian here
    assert_eq!(word_interesting_mutate(&mut w, 0, 9, true), MutationOutcome::Mutated);
    assert_eq!(w, vec![0x80, 0x00]);
}

#[test]
fn delete_and_expand() {
    let mut v = vec![1u8, 2, 3, 4];
    // delete one byte at offset one
    assert_eq!(bytes_delete_mutate(&mut v, 1, 0), MutationOutcome::Mutated);
    assert_eq!(v, vec![1, 3, 4]);
    // duplicate the two bytes at offset one
    assert_eq!(bytes_expand_mutate(&mut v, 1, 1), MutationOutcome::Mutated);
    assert_eq!(v, vec![1, 3, 4, 3, 4]);
    let mut single = vec![9u8];
    assert_eq!(bytes_delete_mutate(&mut single, 0, 0), MutationOutcome::Skipped);
}

#[test]
fn insert_runs() {
    let mut v = vec![7u8, 8];
    // insert two copies of the byte at offset one, at position zero
    assert_eq!(bytes_insert_mutate(&mut v, 0, 1, 1), MutationOutcome::Mutated);
    assert_eq!(v, vec![8, 8, 7, 8]);
    let mut empty: Vec<u8> = vec![];
    assert_eq!(bytes_insert_mutate(&mut empty, 0, 0, 0), MutationOutcome::Skipped);
    // random insertion works on an empty buffer
    assert_eq!(bytes_rand_insert_mutate(&mut empty, 0, 0x41, 2), MutationOutcome::Mutated);
    assert_eq!(empty, vec![0x41, 0x41, 0x41]);
}

#[test]
fn set_runs() {
    let mut v = vec![1u8, 2, 3, 4];
    // overwrite two bytes at offset one with the byte at offset zero
    assert_eq!(bytes_set_mutate(&mut v, 1, 0, 1), MutationOutcome::Mutated);
    assert_eq!(v, vec![1, 1, 1, 4]);
    assert_eq!(bytes_rand_set_mutate(&mut v, 2, 0x33, 1), MutationOutcome::Mutated);
    assert_eq!(v, vec![1, 1, 0x33, 0x33]);
}

#[test]
fn copy_insert_copy_and_swap() {
    let mut v = vec![1u8, 2, 3, 4];
    // copy two bytes from offset zero onto offset two
    assert_eq!(bytes_copy_mutate(&mut v, 0, 2, 1), MutationOutcome::Mutated);
    assert_eq!(v, vec![1, 2, 1, 2]);
    let mut w = vec![1u8, 2, 3];
    // insert a copy of the byte at offset two, at the end
    assert_eq!(bytes_insert_copy_mutate(&mut w, 2, 3, 0), MutationOutcome::Mutated);
    assert_eq!(w, vec![1, 2, 3, 3]);
    let mut x = vec![1u8, 2, 3, 4];
    // swap the two-byte runs at offsets zero and two
    assert_eq!(bytes_swap_mutate(&mut x, 0, 2, 1), MutationOutcome::Mutated);
    assert_eq!(x, vec![3, 4, 1, 2]);
    // overlapping runs are skipped
    let mut y = vec![1u8, 2, 3, 4];
    assert_eq!(bytes_swap_mutate(&mut y, 0, 1, 1), MutationOutcome::Skipped);
    assert_eq!(y, vec![1, 2, 3, 4]);
}

#[test]
fn havoc_slots_weight_deletion() {
    // slots twelve through fifteen all select the deletion operator
    assert_eq!(havoc_slot(12), 12);
    assert_eq!(havoc_slot(13), 12);
    assert_eq!(havoc_slot(14), 12);
    assert_eq!(havoc_slot(15), 12);
    assert_eq!(havoc_slot(0), 0);
    assert_eq!(havoc_slot(11), 11);
    assert_eq!(havoc_slot(16), 13);
    assert_eq!(havoc_slot(23), 20);
    assert_eq!(havoc_slot(24), 0);
}
