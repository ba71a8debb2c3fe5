use vstd::prelude::*;

use crate::decimal::{decimal, law_parse_i32_of_signed_decimal, law_parse_usize_of_decimal, parse_i32, parse_usize, push_i32, push_u64, signed_decimal, spec_parse_i32, spec_parse_usize};
use crate::fileid::{check_hash_chars, lemma_fid_fields, law_issued_digest_checks, spec_check_hash, spec_fid, spec_file_hash};
use crate::text::{chars_of, lemma_split_nonempty, split_on, split_ranges};

verus! {

/// Why a file id could not be read. The services stop the connection on
/// each of these.
#[derive(Clone, Copy, Debug, PartialEq, Eq, Structural)]
pub enum FileIdError {
    /// The id has fewer `/`-separated fields than the service reads.
    MissingField,
    /// The file number field is not a number the service accepts.
    BadIndex,
    /// The length field is not a `usize`.
    BadLength,
}

/// What a download request asks for, as text.
pub enum FileRequest {
    /// Send `length` bytes of the file at `path`.
    Serve { path: Seq<char>, length: usize },
    /// The digest does not match: answer with the error message.
    Reject,
}

/// What the TCP service does with a download request.
pub enum ReadPlan {
    /// Send `length` bytes of the file at `path`.
    Serve { path: String, length: usize },
    /// The digest does not match: answer with the error message.
    Reject,
}

impl View for ReadPlan {
    type V = FileRequest;

    open spec fn view(&self) -> FileRequest {
        match self {
            ReadPlan::Serve { path, length } => FileRequest::Serve { path: path@, length: *length },
            ReadPlan::Reject => FileRequest::Reject,
        }
    }
}

/// `data/`, the root of the store.
pub open spec fn data_dir() -> Seq<char> {
    seq!['d', 'a', 't', 'a', '/']
}

/// The bucket of a file: its number modulo 64, with the sign of the number
/// as Rust's `%` gives it.
pub open spec fn bucket_of(index: i32) -> int {
    if index >= 0 {
        (index % 64) as int
    } else {
        -((-index) % 64)
    }
}

/// The directory that holds file `index`: `data/{index % 64}/`.
pub open spec fn bucket_dir(index: i32) -> Seq<char> {
    data_dir() + signed_decimal(bucket_of(index)) + seq!['/']
}

/// How the TCP service reads a download request `fid/{index}/{length}/{name}`:
/// the fields are split at `/`, the number and the length are parsed, and
/// the digest in `name` is checked against them.
pub open spec fn spec_read_plan(fid: Seq<char>) -> Result<FileRequest, FileIdError> {
    let v = split_on(fid, '/');
    if v.len() < 2 {
        Err(FileIdError::MissingField)
    } else {
        match spec_parse_i32(v[1]) {
            None => Err(FileIdError::BadIndex),
            Some(index) => if v.len() < 3 {
                Err(FileIdError::MissingField)
            } else {
                match spec_parse_usize(v[2]) {
                    None => Err(FileIdError::BadLength),
                    Some(length) => if v.len() < 4 {
                        Err(FileIdError::MissingField)
                    } else if spec_check_hash(index, length as i32, v[3]) {
                        Ok(FileRequest::Serve { path: bucket_dir(index) + v[3], length })
                    } else {
                        Ok(FileRequest::Reject)
                    },
                }
            },
        }
    }
}

pub open spec fn read_result_view(r: Result<ReadPlan, FileIdError>) -> Result<FileRequest, FileIdError> {
    match r {
        Ok(p) => Ok(p@),
        Err(e) => Err(e),
    }
}

/// The path at which the TCP service stores an upload: the file number is
/// read as a `usize` and the bucket follows `data//`.
pub open spec fn spec_write_path(fid: Seq<char>) -> Result<Seq<char>, FileIdError> {
    let v = split_on(fid, '/');
    if v.len() < 2 {
        Err(FileIdError::MissingField)
    } else {
        match spec_parse_usize(v[1]) {
            None => Err(FileIdError::BadIndex),
            Some(st) => if v.len() < 4 {
                Err(FileIdError::MissingField)
            } else {
                Ok(data_dir() + seq!['/'] + decimal((st % 64) as nat) + seq!['/'] + v[3])
            },
        }
    }
}

/// `index % 64` as Rust computes it.
fn bucket(index: i32) -> (r: i32)
    ensures
        r == bucket_of(index),
{
    if index >= 0 {
        index % 64
    } else {
        let m: u64 = (0 - (index as i64)) as u64;
        (0 - ((m % 64) as i64)) as i32
    }
}

/// Appends `data/{index % 64}/`.
pub fn push_bucket_dir(out: &mut String, index: i32)
    ensures
        final(out)@ == old(out)@ + bucket_dir(index),
{
    proof {
        reveal_strlit("data/");
        reveal_strlit("/");
    }
    out.append("data/");
    push_i32(out, bucket(index));
    out.append("/");
    assert(final(out)@ =~= old(out)@ + bucket_dir(index));
}

/// Reads a download request of the TCP service (the text the client sent).
pub fn read_plan(fid: &str) -> (r: Result<ReadPlan, FileIdError>)
    ensures
        read_result_view(r) == spec_read_plan(fid@),
{
    let v = chars_of(fid);
    let parts = split_ranges(v.as_slice(), '/');
    proof {
        lemma_split_nonempty(fid@, '/');
    }
    if parts.len() < 2 {
        return Err(FileIdError::MissingField);
    }
    let (a, b) = parts[1];
    let f1 = &v.as_slice()[a..b];
    assert(f1@ =~= split_on(fid@, '/')[1]);
    let index = match parse_i32(f1) {
        Some(i) => i,
        None => {
            return Err(FileIdError::BadIndex);
        },
    };
    if parts.len() < 3 {
        return Err(FileIdError::MissingField);
    }
    let (c, d) = parts[2];
    let f2 = &v.as_slice()[c..d];
    assert(f2@ =~= split_on(fid@, '/')[2]);
    let length = match parse_usize(f2) {
        Some(l) => l,
        None => {
            return Err(FileIdError::BadLength);
        },
    };
    if parts.len() < 4 {
        return Err(FileIdError::MissingField);
    }
    let (e, f) = parts[3];
    let f3 = &v.as_slice()[e..f];
    assert(f3@ =~= split_on(fid@, '/')[3]);
    if check_hash_chars(index, length as i32, f3) {
        let mut path = String::new();
        push_bucket_dir(&mut path, index);
        let name = fid.substring_char(e, f);
        path.append(name);
        assert(path@ =~= bucket_dir(index) + split_on(fid@, '/')[3]);
        Ok(ReadPlan::Serve { path, length })
    } else {
        Ok(ReadPlan::Reject)
    }
}

/// Where the TCP service stores an upload whose file id is `fid`.
pub fn write_path(fid: &str) -> (r: Result<String, FileIdError>)
    ensures
        match r {
            Ok(p) => spec_write_path(fid@) == Ok::<Seq<char>, FileIdError>(p@),
            Err(e) => spec_write_path(fid@) == Err::<Seq<char>, FileIdError>(e),
        },
{
    let v = chars_of(fid);
    let parts = split_ranges(v.as_slice(), '/');
    proof {
        lemma_split_nonempty(fid@, '/');
    }
    if parts.len() < 2 {
        return Err(FileIdError::MissingField);
    }
    let (a, b) = parts[1];
    let f1 = &v.as_slice()[a..b];
    assert(f1@ =~= split_on(fid@, '/')[1]);
    let st = match parse_usize(f1) {
        Some(s) => s,
        None => {
            return Err(FileIdError::BadIndex);
        },
    };
    if parts.len() < 4 {
        return Err(FileIdError::MissingField);
    }
    let (e, f) = parts[3];
    let mut path = String::new();
    proof {
        reveal_strlit("data/");
        reveal_strlit("/");
    }
    path.append("data/");
    path.append("/");
    push_u64(&mut path, (st % 64) as u64);
    path.append("/");
    let name = fid.substring_char(e, f);
    path.append(name);
    assert(path@ =~= data_dir() + seq!['/'] + decimal((st % 64) as nat) + seq!['/'] + split_on(
        fid@,
        '/',
    )[3]);
    Ok(path)
}

/// The directory `data/{bucket}` that the server creates for a bucket.
pub open spec fn spec_storage_dir(bucket: i32) -> Seq<char> {
    data_dir() + signed_decimal(bucket as int)
}

/// The directory `data/{bucket}` that the server creates at start for each
/// bucket from 0 to 63.
pub fn storage_dir(bucket: i32) -> (r: String)
    ensures
        r@ == spec_storage_dir(bucket),
{
    let mut out = String::new();
    proof {
        reveal_strlit("data/");
    }
    out.append("data/");
    push_i32(&mut out, bucket);
    assert(out@ =~= spec_storage_dir(bucket));
    out
}

/// A file with a non-negative number lives in one of the 64 directories
/// that the server creates at start.
pub proof fn law_bucket_is_created(index: i32)
    requires
        index >= 0,
    ensures
        0 <= bucket_of(index) < 64,
        bucket_dir(index) == spec_storage_dir(bucket_of(index) as i32) + seq!['/'],
{
    assert(bucket_dir(index) =~= spec_storage_dir(bucket_of(index) as i32) + seq!['/']);
}

/// A file id handed out by the dispatcher, sent back to the TCP service,
/// is served: the service reads the number and length it carries, its
/// digest checks, and the file is read from the bucket of the number under
/// the name of the digest. Negative lengths are left out: `usize::from_str`
/// refuses them and the service stops there.
pub proof fn law_issued_fid_is_served(index: i32, len: i32)
    requires
        len >= 0,
    ensures
        spec_read_plan(spec_fid(index, len)) == Ok::<FileRequest, FileIdError>(
            FileRequest::Serve {
                path: bucket_dir(index) + decimal(spec_file_hash(index, len) as nat),
                length: len as usize,
            },
        ),
{
    lemma_fid_fields(index, len);
    law_parse_i32_of_signed_decimal(index);
    law_parse_usize_of_decimal(len as usize);
    law_issued_digest_checks(index, len);
}

/// The upload of a file id handed out by the dispatcher is stored under
/// `data//{index % 64}/{digest}`, the file that a download reads
/// (`data/{index % 64}/{digest}`, the same file with one `/` less).
/// Negative numbers are left out: the upload reads the number with
/// `usize::from_str`, which refuses them.
pub proof fn law_upload_and_download_agree(index: i32, len: i32)
    requires
        index >= 0,
        len >= 0,
    ensures
        spec_write_path(spec_fid(index, len)) == Ok::<Seq<char>, FileIdError>(
            data_dir() + seq!['/'] + decimal(bucket_of(index) as nat) + seq!['/'] + decimal(
                spec_file_hash(index, len) as nat,
            ),
        ),
        bucket_dir(index) + decimal(spec_file_hash(index, len) as nat) == data_dir() + decimal(
            bucket_of(index) as nat,
        ) + seq!['/'] + decimal(spec_file_hash(index, len) as nat),
{
    lemma_fid_fields(index, len);
    law_parse_usize_of_decimal(index as usize);
    assert(decimal((index as usize) as nat) == signed_decimal(index as int));
    assert(((index as usize) % 64) as nat == bucket_of(index));
    assert(bucket_dir(index) + decimal(spec_file_hash(index, len) as nat) =~= data_dir()
        + decimal(bucket_of(index) as nat) + seq!['/'] + decimal(spec_file_hash(index, len) as nat));
}

} // verus!
