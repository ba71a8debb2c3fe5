use vstd::prelude::*;
use vstd::endian::{endianness, Endian};

use crate::codec::{be_bytes, be_u32, i32tou8, le_bytes, law_decode_encode, u8toi32, wrap_i32};
use crate::decimal::{decimal, lemma_decimal_excludes, parse_u64, push_i32, push_u64, signed_decimal, spec_parse_u64};
use crate::text::{chars_of, lemma_split_concat, lemma_split_nonempty, lemma_split_single, split_on, split_ranges};

verus! {

/// A name for the SipHash-2-4 value, with both keys zero, of a byte string.
pub uninterp spec fn sip_hash_2_4_zero_key(msg: Seq<u8>) -> u64;

/// Feeds `msg` to `std::hash::SipHasher::new()` (SipHash-2-4 with both keys
/// zero) by one `Hasher::write` and returns `Hasher::finish`. The contract
/// claims only that the value is a function of the bytes (SipHasher reads
/// its input as a byte stream and loads words little-endian, so the value
/// does not depend on the machine); it does not state the algorithm.
#[verifier::external_body]
#[allow(deprecated)]
fn sip_hash_bytes(msg: &[u8]) -> (r: u64)
    ensures
        r == sip_hash_2_4_zero_key(msg@),
{
    let mut hasher = std::hash::SipHasher::new();
    std::hash::Hasher::write(&mut hasher, msg);
    std::hash::Hasher::finish(&hasher)
}

/// The part of a file id that its digest covers.
#[derive(Clone, Copy, Debug, PartialEq, Eq, Hash)]
pub struct HashFile {
    pub start: i32,
    pub length: i32,
}

/// The four bytes of `v` in the byte order of the machine that runs the
/// code (vstd's `endianness()`).
pub open spec fn native_bytes(v: i32) -> Seq<u8> {
    match endianness() {
        Endian::Little => le_bytes(v),
        Endian::Big => be_bytes(v),
    }
}

/// `i32::to_ne_bytes`: the memory representation of `v` in the native byte
/// order of the machine, as std documents it. The contract says that this
/// is the little-endian layout on a little-endian machine and the
/// big-endian one otherwise.
#[verifier::external_body]
fn ne_bytes(v: i32) -> (r: [u8; 4])
    ensures
        r@ == native_bytes(v),
{
    v.to_ne_bytes()
}

/// The bytes that are hashed for a file id: each field, in order, as the
/// four native-endian bytes that the derived `Hash` writes for an `i32`
/// (`Hasher::write_i32`).
pub open spec fn digest_input(start: i32, length: i32) -> Seq<u8> {
    native_bytes(start) + native_bytes(length)
}

/// The digest of a file id.
pub open spec fn spec_file_hash(start: i32, length: i32) -> u64 {
    sip_hash_2_4_zero_key(digest_input(start, length))
}

/// The digest that a file id carries: SipHash-2-4 with zero keys of the
/// fields of `obj`.
pub fn file_hash(obj: &HashFile) -> (r: u64)
    ensures
        r == spec_file_hash(obj.start, obj.length),
{
    let s = ne_bytes(obj.start);
    let l = ne_bytes(obj.length);
    let msg: Vec<u8> = vec![s[0], s[1], s[2], s[3], l[0], l[1], l[2], l[3]];
    assert(msg@ =~= digest_input(obj.start, obj.length));
    sip_hash_bytes(msg.as_slice())
}

/// The digest field of a file id may carry an extension after a `.`; the
/// check reads the digits before the first `.` and compares them with the
/// digest of `index` and `length`. Text that `u64::from_str` rejects fails
/// the check.
pub open spec fn spec_check_hash(index: i32, length: i32, chev: Seq<char>) -> bool {
    match spec_parse_u64(split_on(chev, '.')[0]) {
        Some(n) => n == spec_file_hash(index, length),
        None => false,
    }
}

/// `check_hash` on text already split into characters.
pub fn check_hash_chars(index: i32, length: i32, chev: &[char]) -> (r: bool)
    ensures
        r == spec_check_hash(index, length, chev@),
{
    let parts = split_ranges(chev, '.');
    proof {
        lemma_split_nonempty(chev@, '.');
    }
    let (lo, hi) = parts[0];
    let first = &chev[lo..hi];
    assert(first@ =~= chev@.subrange(lo as int, hi as int));
    match parse_u64(first) {
        Some(n) => {
            let hf = HashFile { start: index, length: length };
            n == file_hash(&hf)
        },
        None => false,
    }
}

/// Whether `chev` carries the digest of the file id `index`, `length`.
pub fn check_hash(index: i32, length: i32, chev: &str) -> (r: bool)
    ensures
        r == spec_check_hash(index, length, chev@),
{
    let v = chars_of(chev);
    check_hash_chars(index, length, v.as_slice())
}

/// `fileid`, the first field of every file id.
pub open spec fn fileid_word() -> Seq<char> {
    seq!['f', 'i', 'l', 'e', 'i', 'd']
}

/// `fileid/`, how every file id begins.
pub open spec fn fid_prefix() -> Seq<char> {
    fileid_word() + seq!['/']
}

/// The file id that the dispatcher hands out for the file numbered `index`
/// of `len` bytes: `fileid/{index}/{len}/{digest}`.
pub open spec fn spec_fid(index: i32, len: i32) -> Seq<char> {
    fid_prefix() + signed_decimal(index as int) + seq!['/'] + signed_decimal(len as int) + seq![
        '/',
    ] + decimal(spec_file_hash(index, len) as nat)
}

/// What the dispatcher decides for one upload.
pub struct Allocation {
    /// The file id sent back to the client.
    pub fid: String,
    /// The number given to the file.
    pub index: i32,
    /// The counter to write back at the head of the data file.
    pub next_head: [u8; 4],
}

/// One round of the dispatcher: the data file's head holds the big-endian
/// number of the next file; the upload of `len` bytes gets that number, its
/// file id, and the head is advanced by one. The head must not hold
/// `i32::MAX`, where the increment overflows.
pub fn dispatch(head: [u8; 4], len: i32) -> (r: Allocation)
    requires
        wrap_i32(be_u32(head@)) < i32::MAX,
    ensures
        r.index == wrap_i32(be_u32(head@)),
        r.next_head@ == be_bytes((r.index + 1) as i32),
        wrap_i32(be_u32(r.next_head@)) == r.index + 1,
        r.fid@ == spec_fid(r.index, len),
{
    let index = u8toi32(head);
    let next_head = i32tou8(index + 1);
    proof {
        law_decode_encode((index + 1) as i32);
    }
    let hf = HashFile { start: index, length: len };
    let digest = file_hash(&hf);
    let mut fid = String::new();
    proof {
        reveal_strlit("fileid/");
        reveal_strlit("/");
    }
    fid.append("fileid/");
    push_i32(&mut fid, index);
    fid.append("/");
    push_i32(&mut fid, len);
    fid.append("/");
    push_u64(&mut fid, digest);
    assert(fid@ =~= spec_fid(index, len));
    Allocation { fid, index, next_head }
}

/// The fields of an issued file id, split at `/`.
pub proof fn lemma_fid_fields(index: i32, len: i32)
    ensures
        split_on(spec_fid(index, len), '/') == seq![
            fileid_word(),
            signed_decimal(index as int),
            signed_decimal(len as int),
            decimal(spec_file_hash(index, len) as nat),
        ],
{
    let a = fileid_word();
    let b = signed_decimal(index as int);
    let c = signed_decimal(len as int);
    let d = decimal(spec_file_hash(index, len) as nat);
    let sl = seq!['/'];
    assert(spec_fid(index, len) =~= a + sl + (b + sl + (c + sl + d)));
    lemma_decimal_excludes(index as int, '/');
    lemma_decimal_excludes(len as int, '/');
    lemma_decimal_excludes(spec_file_hash(index, len) as int, '/');
    assert(!a.contains('/')) by {
        if a.contains('/') {
            let k = choose|k: int| 0 <= k < a.len() && a[k] == '/';
        }
    }
    lemma_split_concat(a, b + sl + (c + sl + d), '/');
    lemma_split_concat(b, c + sl + d, '/');
    lemma_split_concat(c, d, '/');
    lemma_split_single(a, '/');
    lemma_split_single(b, '/');
    lemma_split_single(c, '/');
    lemma_split_single(d, '/');
    assert(split_on(spec_fid(index, len), '/') =~= seq![a, b, c, d]);
}

/// The digest field of an issued file id passes `check_hash` for the
/// number and length that the id carries.
pub proof fn law_issued_digest_checks(index: i32, len: i32)
    ensures
        spec_check_hash(index, len, decimal(spec_file_hash(index, len) as nat)),
{
    let d = decimal(spec_file_hash(index, len) as nat);
    lemma_decimal_excludes(spec_file_hash(index, len) as int, '.');
    lemma_split_single(d, '.');
    crate::decimal::law_parse_u64_of_decimal(spec_file_hash(index, len));
}

} // verus!
