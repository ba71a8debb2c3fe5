#![allow(deprecated)]

use fileid_store::fileid::{check_hash, dispatch, file_hash, HashFile};
use std::hash::{Hash, Hasher, SipHasher};

#[derive(Hash)]
struct DerivedPair {
    start: i32,
    length: i32,
}

fn derived_hash(start: i32, length: i32) -> u64 {
    let mut hasher = SipHasher::new();
    DerivedPair { start, length }.hash(&mut hasher);
    hasher.finish()
}

#[test]
fn file_hash_known_values() {
    // These digests are of little-endian bytes, the order of this machine.
    assert_eq!(1u32.to_ne_bytes(), 1u32.to_le_bytes());
    assert_eq!(file_hash(&HashFile { start: 0, length: 0 }), 16738165381834614119);
    assert_eq!(file_hash(&HashFile { start: 1, length: 5 }), 4269874692000356951);
    assert_eq!(file_hash(&HashFile { start: 42, length: 1024 }), 5503270691048628722);
    assert_eq!(file_hash(&HashFile { start: -3, length: 10 }), 3972764287013828780);
    assert_eq!(file_hash(&HashFile { start: 1000, length: -1 }), 1836276268187609234);
}

#[test]
fn file_hash_matches_derived_hash() {
    for (s, l) in [(0, 0), (1, 5), (7, 100), (-3, 10), (i32::MAX, i32::MIN)] {
        assert_eq!(file_hash(&HashFile { start: s, length: l }), derived_hash(s, l));
    }
}

#[test]
fn check_hash_accepts_the_digest() {
    assert!(check_hash(1, 5, "4269874692000356951"));
    assert!(check_hash(1, 5, "4269874692000356951.jpg"));
    assert!(check_hash(1, 5, "4269874692000356951.tar.gz"));
    assert!(check_hash(1, 5, "+4269874692000356951"));
}

#[test]
fn check_hash_refuses_other_text() {
    assert!(!check_hash(1, 5, "4269874692000356952"));
    assert!(!check_hash(1, 6, "4269874692000356951"));
    assert!(!check_hash(1, 5, "aaa"));
    assert!(!check_hash(1, 5, ""));
    assert!(!check_hash(1, 5, ".4269874692000356951"));
}

#[test]
fn dispatch_hands_out_the_next_number() {
    let a = dispatch([0, 0, 0, 5], 100);
    assert_eq!(a.index, 5);
    assert_eq!(a.next_head, [0, 0, 0, 6]);
    assert_eq!(a.fid, "fileid/5/100/17434742808796644246");
}

#[test]
fn dispatch_on_fresh_and_negative_heads() {
    let a = dispatch([0, 0, 0, 0], 12);
    assert_eq!(a.index, 0);
    assert_eq!(a.next_head, [0, 0, 0, 1]);
    assert_eq!(a.fid, "fileid/0/12/6543267228504064927");
    let b = dispatch([0xff, 0xff, 0xff, 0xfb], 2);
    assert_eq!(b.index, -5);
    assert_eq!(b.next_head, [0xff, 0xff, 0xff, 0xfc]);
    assert_eq!(b.fid, "fileid/-5/2/2575200662169635207");
}

#[test]
fn successive_dispatches_count_up() {
    let a = dispatch([0, 0, 0, 69], 1);
    let b = dispatch(a.next_head, 1);
    assert_eq!(b.index, a.index + 1);
    assert_eq!(b.index, 70);
}
