use vstd::prelude::*;

use crate::decimal::{parse_i32, parse_usize, spec_parse_i32, spec_parse_usize};
use crate::decimal::{decimal, law_parse_i32_of_signed_decimal, law_parse_usize_of_decimal, lemma_decimal_excludes};
use crate::fileid::{check_hash_chars, fileid_word, lemma_fid_fields, law_issued_digest_checks, spec_check_hash, spec_fid, spec_file_hash};
use crate::request::{bucket_dir, push_bucket_dir, FileIdError};
use crate::text::{chars_of, count_char, has_prefix, lemma_split_concat, lemma_split_len, lemma_split_nonempty, lemma_split_single, range_equals, skip_leading, split_on, split_ranges, strip_leading};

verus! {

/// The media types the HTTP service announces.
#[derive(Clone, Copy, Debug, PartialEq, Eq, Structural)]
pub enum ContentType {
    Jpg,
    Text,
    Png,
    Html,
    Xml,
    Binary,
}

/// The media type of a file extension.
pub open spec fn content_type_for(ext: Seq<char>) -> ContentType {
    if ext == seq!['j', 'p', 'g'] {
        ContentType::Jpg
    } else if ext == seq!['t', 'x', 't'] {
        ContentType::Text
    } else if ext == seq!['p', 'n', 'g'] {
        ContentType::Png
    } else if ext == seq!['h', 't', 'm', 'l'] || ext == seq!['h', 't', 'm'] || ext == seq![
        'x',
        'h',
        't',
        'm',
        'l',
    ] {
        ContentType::Html
    } else if ext == seq!['x', 'm', 'l'] || ext == seq!['t', 's', 'd'] || ext == seq![
        'x',
        's',
        'd',
    ] {
        ContentType::Xml
    } else {
        ContentType::Binary
    }
}

/// The media type of a stored name: only a name with exactly one `.` has an
/// extension that counts.
pub open spec fn spec_content_type(name: Seq<char>) -> ContentType {
    let c = split_on(name, '.');
    if c.len() == 2 {
        content_type_for(c[1])
    } else {
        ContentType::Binary
    }
}

/// The media type of the extension in `v[lo..hi]`.
fn classify_ext(v: &[char], lo: usize, hi: usize) -> (r: ContentType)
    requires
        lo <= hi <= v@.len(),
    ensures
        r == content_type_for(v@.subrange(lo as int, hi as int)),
{
    assert(['j', 'p', 'g']@ =~= seq!['j', 'p', 'g']);
    assert(['t', 'x', 't']@ =~= seq!['t', 'x', 't']);
    assert(['p', 'n', 'g']@ =~= seq!['p', 'n', 'g']);
    assert(['h', 't', 'm', 'l']@ =~= seq!['h', 't', 'm', 'l']);
    assert(['h', 't', 'm']@ =~= seq!['h', 't', 'm']);
    assert(['x', 'h', 't', 'm', 'l']@ =~= seq!['x', 'h', 't', 'm', 'l']);
    assert(['x', 'm', 'l']@ =~= seq!['x', 'm', 'l']);
    assert(['t', 's', 'd']@ =~= seq!['t', 's', 'd']);
    assert(['x', 's', 'd']@ =~= seq!['x', 's', 'd']);
    if range_equals(v, lo, hi, &['j', 'p', 'g']) {
        ContentType::Jpg
    } else if range_equals(v, lo, hi, &['t', 'x', 't']) {
        ContentType::Text
    } else if range_equals(v, lo, hi, &['p', 'n', 'g']) {
        ContentType::Png
    } else if range_equals(v, lo, hi, &['h', 't', 'm', 'l']) || range_equals(v, lo, hi, &['h', 't', 'm'])
        || range_equals(v, lo, hi, &['x', 'h', 't', 'm', 'l']) {
        ContentType::Html
    } else if range_equals(v, lo, hi, &['x', 'm', 'l']) || range_equals(v, lo, hi, &['t', 's', 'd'])
        || range_equals(v, lo, hi, &['x', 's', 'd']) {
        ContentType::Xml
    } else {
        ContentType::Binary
    }
}

/// The characters that `char::is_whitespace` accepts among ASCII.
pub open spec fn is_whitespace_ascii_range(c: char) -> bool {
    c == ' ' || ('\t' <= c && c <= '\r')
}

pub open spec fn is_ascii_text(s: Seq<char>) -> bool {
    forall|i: int| 0 <= i < s.len() ==> (#[trigger] s[i]) as u32 <= 0x7f
}

/// An ASCII header line that `tiny_http` parses: a `:` occurs, and the
/// field name before the first one holds no whitespace.
pub open spec fn header_line_accepted(s: Seq<char>) -> bool
    decreases s.len(),
{
    if s.len() == 0 {
        false
    } else if s[0] == ':' {
        true
    } else if is_whitespace_ascii_range(s[0]) {
        false
    } else {
        header_line_accepted(s.drop_first())
    }
}

/// The `Content-Type` header line announced for a media type.
pub open spec fn spec_header_line(ct: ContentType) -> Seq<char> {
    match ct {
        ContentType::Jpg => "Content-Type: image/jpg"@,
        ContentType::Text => "Content-Type: text/plain"@,
        ContentType::Png => "Content-Type: image/png"@,
        ContentType::Html => "Content-Type: text/html"@,
        ContentType::Xml => "Content-Type: text/xml"@,
        ContentType::Binary => "Content-Type: application/octet-stream"@,
    }
}

impl ContentType {
    /// The `Content-Type` header line of this media type.
    pub fn header_line(&self) -> (r: &'static str)
        ensures
            r@ == spec_header_line(*self),
            is_ascii_text(r@),
            header_line_accepted(r@),
    {
        match self {
            ContentType::Jpg => {
                proof {
                    reveal_strlit("Content-Type: image/jpg");
                    reveal_with_fuel(header_line_accepted, 14);
                }
                "Content-Type: image/jpg"
            },
            ContentType::Text => {
                proof {
                    reveal_strlit("Content-Type: text/plain");
                    reveal_with_fuel(header_line_accepted, 14);
                }
                "Content-Type: text/plain"
            },
            ContentType::Png => {
                proof {
                    reveal_strlit("Content-Type: image/png");
                    reveal_with_fuel(header_line_accepted, 14);
                }
                "Content-Type: image/png"
            },
            ContentType::Html => {
                proof {
                    reveal_strlit("Content-Type: text/html");
                    reveal_with_fuel(header_line_accepted, 14);
                }
                "Content-Type: text/html"
            },
            ContentType::Xml => {
                proof {
                    reveal_strlit("Content-Type: text/xml");
                    reveal_with_fuel(header_line_accepted, 14);
                }
                "Content-Type: text/xml"
            },
            ContentType::Binary => {
                proof {
                    reveal_strlit("Content-Type: application/octet-stream");
                    reveal_with_fuel(header_line_accepted, 14);
                }
                "Content-Type: application/octet-stream"
            },
        }
    }
}

/// The `cache-control` header line sent with every file.
pub open spec fn spec_cache_control_line() -> Seq<char> {
    "cache-control: no-cache"@
}

/// The `cache-control` header line sent with every file.
pub fn cache_control_line() -> (r: &'static str)
    ensures
        r@ == spec_cache_control_line(),
        is_ascii_text(r@),
        header_line_accepted(r@),
{
    proof {
        reveal_strlit("cache-control: no-cache");
        reveal_with_fuel(header_line_accepted, 15);
    }
    "cache-control: no-cache"
}

#[verifier::external_type_specification]
#[verifier::external_body]
pub struct ExHeader(tiny_http::Header);

/// A name for the header that `tiny_http` parses from a line; its parser
/// reads nothing but the line.
pub uninterp spec fn parsed_header(line: Seq<char>) -> tiny_http::Header;

/// `<tiny_http::Header as FromStr>::from_str`. Its source splits the line
/// at the first `:`, parses the part before it as a field name (refused
/// when it holds whitespace or non-ASCII characters) and takes the trimmed
/// rest as an ASCII value. The contract states when it succeeds for ASCII
/// lines, and for any line that success needs a `:`; the header returned is
/// the one `parsed_header` names for the line, its field and value are not
/// spelled out.
#[verifier::external_body]
fn header_from_str(line: &str) -> (r: Result<tiny_http::Header, ()>)
    ensures
        r matches Ok(h) ==> h == parsed_header(line@),
        r is Ok ==> line@.contains(':'),
        is_ascii_text(line@) ==> (r is Ok <==> header_line_accepted(line@)),
{
    line.parse::<tiny_http::Header>()
}

/// Parses a header line with `tiny_http`.
pub fn parse_header_line(line: &str) -> (r: Option<tiny_http::Header>)
    ensures
        r matches Some(h) ==> h == parsed_header(line@),
        r is Some ==> line@.contains(':'),
        is_ascii_text(line@) ==> (r is Some <==> header_line_accepted(line@)),
{
    match header_from_str(line) {
        Ok(h) => Some(h),
        Err(_) => None,
    }
}

/// The two headers sent with a file: its `Content-Type` and
/// `cache-control: no-cache`. Both lines are accepted by the parser, so
/// this never fails.
pub fn file_headers(ct: ContentType) -> (r: (tiny_http::Header, tiny_http::Header))
    ensures
        r.0 == parsed_header(spec_header_line(ct)),
        r.1 == parsed_header(spec_cache_control_line()),
{
    let content = match parse_header_line(ct.header_line()) {
        Some(h) => h,
        None => vstd::pervasive::unreached(),
    };
    let cache = match parse_header_line(cache_control_line()) {
        Some(h) => h,
        None => vstd::pervasive::unreached(),
    };
    (content, cache)
}

/// The answer when the digest does not match.
pub open spec fn bad_hash_message() -> Seq<char> {
    "Error file id check_hash!"@
}

/// The answer when the path does not name a file id.
pub open spec fn bad_id_message() -> Seq<char> {
    "Error file id!"@
}

/// What the HTTP service answers, as text.
pub enum HttpReply {
    /// `length` bytes of the file at `path`, announced as `content_type`.
    File { path: Seq<char>, length: usize, content_type: ContentType },
    /// A plain-text message.
    Message(Seq<char>),
}

/// What the HTTP service answers.
pub enum HttpPlan {
    /// `length` bytes of the file at `path`, announced as `content_type`.
    File { path: String, length: usize, content_type: ContentType },
    /// A plain-text message.
    Message(&'static str),
}

impl View for HttpPlan {
    type V = HttpReply;

    open spec fn view(&self) -> HttpReply {
        match self {
            HttpPlan::File { path, length, content_type } => HttpReply::File {
                path: path@,
                length: *length,
                content_type: *content_type,
            },
            HttpPlan::Message(m) => HttpReply::Message(m@),
        }
    }
}

pub open spec fn http_result_view(r: Result<HttpPlan, FileIdError>) -> Result<HttpReply, FileIdError> {
    match r {
        Ok(p) => Ok(p@),
        Err(e) => Err(e),
    }
}

/// How the HTTP service answers a request for `url`: leading `/` are
/// dropped; a path that does not begin with `fileid` gets a message; else
/// the fields are read as by the TCP service, and a matching digest serves
/// the file named by the digest field up to its first `.`, with the media
/// type of its extension.
pub open spec fn spec_http_plan(url: Seq<char>) -> Result<HttpReply, FileIdError> {
    let fid = strip_leading(url, '/');
    if !has_prefix(fid, fileid_word()) {
        Ok(HttpReply::Message(bad_id_message()))
    } else {
        let v = split_on(fid, '/');
        if v.len() < 2 {
            Err(FileIdError::MissingField)
        } else {
            match spec_parse_i32(v[1]) {
                None => Err(FileIdError::BadIndex),
                Some(index) => if v.len() < 3 {
                    Err(FileIdError::MissingField)
                } else {
                    match spec_parse_usize(v[2]) {
                        None => Err(FileIdError::BadLength),
                        Some(length) => if v.len() < 4 {
                            Err(FileIdError::MissingField)
                        } else if spec_check_hash(index, length as i32, v[3]) {
                            Ok(
                                HttpReply::File {
                                    path: bucket_dir(index) + split_on(v[3], '.')[0],
                                    length,
                                    content_type: spec_content_type(v[3]),
                                },
                            )
                        } else {
                            Ok(HttpReply::Message(bad_hash_message()))
                        },
                    }
                },
            }
        }
    }
}

/// Answers an HTTP request for `url` (the path part of the request line).
pub fn route_http(url: &str) -> (r: Result<HttpPlan, FileIdError>)
    ensures
        http_result_view(r) == spec_http_plan(url@),
{
    let all = chars_of(url);
    let start = skip_leading(all.as_slice(), '/');
    let v = &all.as_slice()[start..all.len()];
    let ghost fid = strip_leading(url@, '/');
    assert(v@ =~= fid);
    assert(['f', 'i', 'l', 'e', 'i', 'd']@ =~= fileid_word());
    if v.len() < 6 || !range_equals(v, 0, 6, &['f', 'i', 'l', 'e', 'i', 'd']) {
        assert(!has_prefix(fid, fileid_word())) by {
            if v@.len() >= 6 {
                assert(v@.take(6) =~= v@.subrange(0, 6));
            }
        }
        proof {
            reveal_strlit("Error file id!");
        }
        return Ok(HttpPlan::Message("Error file id!"));
    }
    assert(has_prefix(fid, fileid_word())) by {
        assert(v@.take(6) =~= v@.subrange(0, 6));
    }
    let parts = split_ranges(v, '/');
    proof {
        lemma_split_nonempty(fid, '/');
    }
    if parts.len() < 2 {
        return Err(FileIdError::MissingField);
    }
    let (a, b) = parts[1];
    let f1 = &v[a..b];
    assert(f1@ =~= split_on(fid, '/')[1]);
    let index = match parse_i32(f1) {
        Some(i) => i,
        None => {
            return Err(FileIdError::BadIndex);
        },
    };
    if parts.len() < 3 {
        return Err(FileIdError::MissingField);
    }
    let (c, d) = parts[2];
    let f2 = &v[c..d];
    assert(f2@ =~= split_on(fid, '/')[2]);
    let length = match parse_usize(f2) {
        Some(l) => l,
        None => {
            return Err(FileIdError::BadLength);
        },
    };
    if parts.len() < 4 {
        return Err(FileIdError::MissingField);
    }
    let (e, f) = parts[3];
    let name = &v[e..f];
    let ghost name_s = split_on(fid, '/')[3];
    assert(name@ =~= name_s);
    if !check_hash_chars(index, length as i32, name) {
        proof {
            reveal_strlit("Error file id check_hash!");
        }
        return Ok(HttpPlan::Message("Error file id check_hash!"));
    }
    let pieces = split_ranges(name, '.');
    proof {
        lemma_split_nonempty(name_s, '.');
    }
    let (p0, p1) = pieces[0];
    let content_type = if pieces.len() == 2 {
        let (x0, x1) = pieces[1];
        assert(name@.subrange(x0 as int, x1 as int) == split_on(name_s, '.')[1]);
        classify_ext(name, x0, x1)
    } else {
        ContentType::Binary
    };
    let mut path = String::new();
    push_bucket_dir(&mut path, index);
    let stem = url.substring_char(start + e + p0, start + e + p1);
    assert(stem@ =~= split_on(name_s, '.')[0]);
    path.append(stem);
    assert(path@ =~= bucket_dir(index) + split_on(name_s, '.')[0]);
    Ok(HttpPlan::File { path, length, content_type })
}

/// A file id handed out by the dispatcher, requested over HTTP as
/// `/{fid}`, is served from the same file as over TCP, as
/// `application/octet-stream` (the digest has no extension). Negative
/// lengths are left out, as over TCP.
pub proof fn law_issued_fid_is_served_over_http(index: i32, len: i32)
    requires
        len >= 0,
    ensures
        spec_http_plan(seq!['/'] + spec_fid(index, len)) == Ok::<HttpReply, FileIdError>(
            HttpReply::File {
                path: bucket_dir(index) + decimal(spec_file_hash(index, len) as nat),
                length: len as usize,
                content_type: ContentType::Binary,
            },
        ),
{
    let fid = spec_fid(index, len);
    let url = seq!['/'] + fid;
    assert(url.drop_first() =~= fid);
    assert(fid[0] == 'f');
    assert(strip_leading(fid, '/') == fid);
    assert(strip_leading(url, '/') == fid);
    assert(fid.take(6) =~= fileid_word());
    lemma_fid_fields(index, len);
    law_parse_i32_of_signed_decimal(index);
    law_parse_usize_of_decimal(len as usize);
    law_issued_digest_checks(index, len);
    let d = decimal(spec_file_hash(index, len) as nat);
    lemma_decimal_excludes(spec_file_hash(index, len) as int, '.');
    lemma_split_single(d, '.');
}

/// `Content-Type: `, how every header line of a file begins.
pub open spec fn content_type_prefix() -> Seq<char> {
    seq!['C', 'o', 'n', 't', 'e', 'n', 't', '-', 'T', 'y', 'p', 'e', ':', ' ']
}

/// `s` ends with `t`.
pub open spec fn has_suffix(s: Seq<char>, t: Seq<char>) -> bool {
    t.len() <= s.len() && s.skip(s.len() - t.len()) == t
}

spec fn media_chars(ct: ContentType) -> Seq<char> {
    match ct {
        ContentType::Jpg => seq!['i', 'm', 'a', 'g', 'e', '/', 'j', 'p', 'g'],
        ContentType::Text => seq!['t', 'e', 'x', 't', '/', 'p', 'l', 'a', 'i', 'n'],
        ContentType::Png => seq!['i', 'm', 'a', 'g', 'e', '/', 'p', 'n', 'g'],
        ContentType::Html => seq!['t', 'e', 'x', 't', '/', 'h', 't', 'm', 'l'],
        ContentType::Xml => seq!['t', 'e', 'x', 't', '/', 'x', 'm', 'l'],
        ContentType::Binary => seq!['a', 'p', 'p', 'l', 'i', 'c', 'a', 't', 'i', 'o', 'n', '/', 'o', 'c', 't', 'e', 't', '-', 's', 't', 'r', 'e', 'a', 'm'],
    }
}

proof fn lemma_header_line_chars(ct: ContentType)
    ensures
        spec_header_line(ct) == content_type_prefix() + media_chars(ct),
{
    match ct {
        ContentType::Jpg => {
            reveal_strlit("Content-Type: image/jpg");
            assert(spec_header_line(ct) =~= content_type_prefix() + media_chars(ct));
        },
        ContentType::Text => {
            reveal_strlit("Content-Type: text/plain");
            assert(spec_header_line(ct) =~= content_type_prefix() + media_chars(ct));
        },
        ContentType::Png => {
            reveal_strlit("Content-Type: image/png");
            assert(spec_header_line(ct) =~= content_type_prefix() + media_chars(ct));
        },
        ContentType::Html => {
            reveal_strlit("Content-Type: text/html");
            assert(spec_header_line(ct) =~= content_type_prefix() + media_chars(ct));
        },
        ContentType::Xml => {
            reveal_strlit("Content-Type: text/xml");
            assert(spec_header_line(ct) =~= content_type_prefix() + media_chars(ct));
        },
        ContentType::Binary => {
            reveal_strlit("Content-Type: application/octet-stream");
            assert(spec_header_line(ct) =~= content_type_prefix() + media_chars(ct));
        },
    }
}

/// Every header line of a file is `Content-Type: ` followed by its media
/// type.
pub proof fn law_header_line_is_content_type(ct: ContentType)
    ensures
        has_prefix(spec_header_line(ct), content_type_prefix()),
        spec_header_line(ct).len() > content_type_prefix().len(),
{
    lemma_header_line_chars(ct);
    assert(spec_header_line(ct).take(14) =~= content_type_prefix());
}

/// Different media types are announced by different header lines.
pub proof fn law_header_lines_distinct(a: ContentType, b: ContentType)
    ensures
        a != b ==> spec_header_line(a) != spec_header_line(b),
{
    lemma_header_line_chars(a);
    lemma_header_line_chars(b);
    if a != b && spec_header_line(a) == spec_header_line(b) {
        assert(media_chars(a) =~= spec_header_line(a).skip(14));
        assert(media_chars(b) =~= spec_header_line(b).skip(14));
        let (ma, mb) = (media_chars(a), media_chars(b));
        assert(ma.len() == mb.len());
        assert(ma[0] == mb[0] && ma[6] == mb[6] && ma[7] == mb[7]);
    }
}

/// Pictures are announced as `image/...`, the text formats as `text/...`,
/// and anything else as `application/octet-stream`.
pub proof fn law_header_line_top_level(ct: ContentType)
    ensures
        (ct == ContentType::Jpg || ct == ContentType::Png) <==> has_prefix(
            spec_header_line(ct).skip(14),
            seq!['i', 'm', 'a', 'g', 'e', '/'],
        ),
        (ct == ContentType::Text || ct == ContentType::Html || ct == ContentType::Xml)
            <==> has_prefix(spec_header_line(ct).skip(14), seq!['t', 'e', 'x', 't', '/']),
        (ct == ContentType::Binary) <==> spec_header_line(ct).skip(14) == seq!['a', 'p', 'p', 'l', 'i', 'c', 'a', 't', 'i', 'o', 'n', '/', 'o', 'c', 't', 'e', 't', '-', 's', 't', 'r', 'e', 'a', 'm'],
{
    lemma_header_line_chars(ct);
    let m = media_chars(ct);
    assert(spec_header_line(ct).skip(14) =~= m);
    assert(m.take(6) =~= seq!['i', 'm', 'a', 'g', 'e', '/'] <==> (ct == ContentType::Jpg || ct == ContentType::Png)) by {
        if m.take(6) =~= seq!['i', 'm', 'a', 'g', 'e', '/'] {
            assert(m[0] == 'i');
        }
    }
    assert(m.take(5) =~= seq!['t', 'e', 'x', 't', '/'] <==> (ct == ContentType::Text || ct == ContentType::Html
        || ct == ContentType::Xml)) by {
        if m.take(5) =~= seq!['t', 'e', 'x', 't', '/'] {
            assert(m[0] == 't');
        }
    }
    assert((m =~= seq!['a', 'p', 'p', 'l', 'i', 'c', 'a', 't', 'i', 'o', 'n', '/', 'o', 'c', 't', 'e', 't', '-', 's', 't', 'r', 'e', 'a', 'm']) <==> (ct == ContentType::Binary)) by {
        if m =~= seq!['a', 'p', 'p', 'l', 'i', 'c', 'a', 't', 'i', 'o', 'n', '/', 'o', 'c', 't', 'e', 't', '-', 's', 't', 'r', 'e', 'a', 'm'] {
            assert(m[0] == 'a');
        }
    }
}

/// For the extensions `jpg`, `png`, `html` and `xml` the announced media
/// subtype is the extension itself; `txt` is announced as `text/plain`.
pub proof fn law_header_line_names_extension(ext: Seq<char>)
    ensures
        ext == seq!['j', 'p', 'g'] || ext == seq!['p', 'n', 'g'] || ext == seq!['h', 't', 'm', 'l'] || ext == seq!['x', 'm', 'l']
            ==> has_suffix(spec_header_line(content_type_for(ext)), seq!['/'] + ext),
        ext == seq!['t', 'x', 't'] ==> has_suffix(
            spec_header_line(content_type_for(ext)),
            seq!['/', 'p', 'l', 'a', 'i', 'n'],
        ),
{
    lemma_header_line_chars(content_type_for(ext));
    let line = spec_header_line(content_type_for(ext));
    if ext == seq!['j', 'p', 'g'] || ext == seq!['p', 'n', 'g'] || ext == seq!['h', 't', 'm', 'l'] || ext == seq!['x', 'm', 'l'] {
        assert(line.skip(line.len() - (ext.len() + 1)) =~= seq!['/'] + ext);
    }
    if ext == seq!['t', 'x', 't'] {
        assert(line.skip(line.len() - 6) =~= seq!['/', 'p', 'l', 'a', 'i', 'n']);
    }
}

/// `htm` and `xhtml` are announced as `html` is, `tsd` and `xsd` as `xml`
/// is.
pub proof fn law_extension_aliases()
    ensures
        content_type_for(seq!['h', 't', 'm']) == content_type_for(seq!['h', 't', 'm', 'l']),
        content_type_for(seq!['x', 'h', 't', 'm', 'l']) == content_type_for(seq!['h', 't', 'm', 'l']),
        content_type_for(seq!['t', 's', 'd']) == content_type_for(seq!['x', 'm', 'l']),
        content_type_for(seq!['x', 's', 'd']) == content_type_for(seq!['x', 'm', 'l']),
{
}

/// Only a name with exactly one `.` is announced by its extension: a name
/// announced as anything but `application/octet-stream` holds one `.`.
pub proof fn law_content_type_needs_one_dot(name: Seq<char>)
    ensures
        spec_content_type(name) != ContentType::Binary ==> count_char(name, '.') == 1,
{
    lemma_split_len(name, '.');
}

/// A second extension makes a name plain data: `{name}.{ext}` is announced
/// as `application/octet-stream` whenever `name` already holds a `.`.
pub proof fn law_second_extension_is_binary(name: Seq<char>, ext: Seq<char>)
    requires
        count_char(name, '.') >= 1,
    ensures
        spec_content_type(name + seq!['.'] + ext) == ContentType::Binary,
{
    lemma_split_concat(name, ext, '.');
    lemma_split_len(name, '.');
    lemma_split_nonempty(ext, '.');
}

} // verus!
