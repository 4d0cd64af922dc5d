use vstd::prelude::*;
use crate::comments::{stripped, strip_cairo_comments};
use crate::errors::{plain_error, ErrorKind, UcError};
use vstd::string::StringSliceAdditionalSpecFns;
use crate::paths::{has_cairo_extension, is_cairo_file_name, name_view};

verus! {

/// The lowercase hex BLAKE3 digest of `data`.
pub uninterp spec fn blake3_hex_digest(data: Seq<u8>) -> Seq<char>;

pub open spec fn is_lower_hex_digit(c: char) -> bool {
    ('0' <= c <= '9') || ('a' <= c <= 'f')
}

/// The shape of a BLAKE3 hex digest: 64 lowercase hex digits.
pub open spec fn is_hex_digest(s: Seq<char>) -> bool {
    &&& s.len() == 64
    &&& forall|i: int| 0 <= i < s.len() ==> is_lower_hex_digit(#[trigger] s[i])
}

/// `blake3::hash(data).to_hex()`: the 32-byte BLAKE3 digest of `data`, as 64
/// lowercase hex digits. Hashing a concatenation is what the incremental
/// `Hasher` gives for its parts fed in order.
#[verifier::external_body]
pub(crate) fn blake3_hex(data: &[u8]) -> (digest: String)
    ensures
        digest@ == blake3_hex_digest(data@),
        is_hex_digest(digest@),
{
    blake3::hash(data).to_hex().to_string()
}

/// Appends `data` to `out`.
pub fn append_bytes(out: &mut Vec<u8>, data: &[u8])
    ensures
        final(out)@ == old(out)@ + data@,
{
    let ghost start = out@;
    let mut i: usize = 0;
    while i < data.len()
        invariant
            i <= data.len(),
            out@ == start + data@.subrange(0, i as int),
        decreases data.len() - i,
    {
        out.push(data[i]);
        i = i + 1;
        assert(out@ =~= start + data@.subrange(0, i as int));
    }
    assert(data@.subrange(0, i as int) =~= data@);
}

pub open spec fn is_ascii_ws_byte(b: u8) -> bool {
    b == 0x20 || b == 0x09 || b == 0x0d || b == 0x0a
}

/// `s` without trailing spaces, tabs, carriage returns and newlines.
pub open spec fn trim_trailing_ws(s: Seq<u8>) -> Seq<u8>
    decreases s.len(),
{
    if s.len() > 0 && is_ascii_ws_byte(s.last()) {
        trim_trailing_ws(s.drop_last())
    } else {
        s
    }
}

/// The domain prefix of semantic Cairo source hashes.
pub open spec fn semantic_hash_domain() -> Seq<u8> {
    "uc-cairo-semantic-hash-v1".spec_bytes()
}

/// The semantic hash of Cairo source bytes: comments removed, trailing white
/// space dropped, hashed behind a domain prefix.
pub open spec fn semantic_source_hash(contents: Seq<u8>) -> Seq<char> {
    blake3_hex_digest(semantic_hash_domain() + trim_trailing_ws(stripped(contents)))
}

/// Hashes Cairo source so that edits to comments and trailing white space
/// keep the hash.
pub fn hash_cairo_source_semantic(contents: &[u8]) -> (h: String)
    ensures
        h@ == semantic_source_hash(contents@),
        is_hex_digest(h@),
{
    let mut normalized = strip_cairo_comments(contents);
    while normalized.len() > 0 && (normalized[normalized.len() - 1] == 0x20
        || normalized[normalized.len() - 1] == 0x09 || normalized[normalized.len() - 1] == 0x0d
        || normalized[normalized.len() - 1] == 0x0a)
        invariant
            trim_trailing_ws(normalized@) == trim_trailing_ws(stripped(contents@)),
        decreases normalized.len(),
    {
        normalized.pop();
    }
    let domain: &str = "uc-cairo-semantic-hash-v1";
    let mut data: Vec<u8> = Vec::new();
    append_bytes(&mut data, domain.as_bytes());
    append_bytes(&mut data, normalized.as_slice());
    assert(data@ =~= semantic_hash_domain() + trim_trailing_ws(stripped(contents@)));
    blake3_hex(data.as_slice())
}

/// Largest file, in bytes, that plain content hashing accepts.
pub const MAX_CACHEABLE_ARTIFACT_BYTES: u64 = 64 * 1024 * 1024;

/// The BLAKE3 hex digest of a file's `contents`, refused when the file's size
/// is over `MAX_CACHEABLE_ARTIFACT_BYTES`.
pub fn hash_file_blake3(size_bytes: u64, contents: &[u8]) -> (r: Result<String, UcError>)
    ensures
        r matches Ok(h) ==> is_hex_digest(h@),
        match r {
            Ok(h) => size_bytes <= MAX_CACHEABLE_ARTIFACT_BYTES && h@ == blake3_hex_digest(
                contents@,
            ),
            Err(e) => size_bytes > MAX_CACHEABLE_ARTIFACT_BYTES && e.kind
                == (ErrorKind::HashInputTooLarge {
                size_bytes,
                limit_bytes: MAX_CACHEABLE_ARTIFACT_BYTES,
            }) && !e.native_fallback_eligible,
        },
{
    if size_bytes > MAX_CACHEABLE_ARTIFACT_BYTES {
        return Err(
            plain_error(
                ErrorKind::HashInputTooLarge {
                    size_bytes,
                    limit_bytes: MAX_CACHEABLE_ARTIFACT_BYTES,
                },
            ),
        );
    }
    Ok(blake3_hex(contents))
}

/// Hashes a fingerprinted source file: Cairo files (by extension, in any
/// ASCII case) by their semantic hash, any other file by its plain BLAKE3
/// digest, which refuses files over the hashing size limit.
pub fn hash_fingerprint_source_file(file_name: Option<&str>, size_bytes: u64, contents: &[u8]) -> (r:
    Result<String, UcError>)
    ensures
        r matches Ok(h) ==> is_hex_digest(h@),
        has_cairo_extension(name_view(file_name)) ==> r is Ok && r->Ok_0@ == semantic_source_hash(
            contents@,
        ),
        !has_cairo_extension(name_view(file_name)) ==> match r {
            Ok(h) => size_bytes <= MAX_CACHEABLE_ARTIFACT_BYTES && h@ == blake3_hex_digest(
                contents@,
            ),
            Err(e) => size_bytes > MAX_CACHEABLE_ARTIFACT_BYTES && e.kind
                == (ErrorKind::HashInputTooLarge {
                size_bytes,
                limit_bytes: MAX_CACHEABLE_ARTIFACT_BYTES,
            }),
        },
{
    if is_cairo_file_name(file_name) {
        return Ok(hash_cairo_source_semantic(contents));
    }
    hash_file_blake3(size_bytes, contents)
}

/// Sources that strip to the same bytes have the same semantic hash; in
/// particular editing the text of a line comment that ends the file keeps
/// the hash.
pub proof fn lemma_semantic_hash_ignores_comment_edits(
    code: Seq<u8>,
    comment_a: Seq<u8>,
    comment_b: Seq<u8>,
)
    requires
        crate::comments::is_plain_code(code),
        forall|k: int| 0 <= k < comment_a.len() ==> #[trigger] comment_a[k] != 0x0a,
        forall|k: int| 0 <= k < comment_b.len() ==> #[trigger] comment_b[k] != 0x0a,
    ensures
        semantic_source_hash(code + seq![0x2fu8, 0x2fu8] + comment_a) == semantic_source_hash(
            code + seq![0x2fu8, 0x2fu8] + comment_b,
        ),
{
    crate::comments::lemma_strip_drops_trailing_line_comment(code, comment_a);
    crate::comments::lemma_strip_drops_trailing_line_comment(code, comment_b);
}

proof fn lemma_trim_ignores_blank_tail(p: Seq<u8>, t: Seq<u8>)
    requires
        crate::comments::all_blank(t),
    ensures
        trim_trailing_ws(p + t) == trim_trailing_ws(p),
    decreases t.len(),
{
    if t.len() > 0 {
        let d = t.drop_last();
        assert((p + t).last() == t.last());
        assert((p + t).drop_last() =~= p + d);
        assert(crate::comments::all_blank(d)) by {
            assert forall|k: int| 0 <= k < d.len() implies is_ascii_ws_byte(#[trigger] d[k]) by {
                assert(d[k] == t[k]);
            }
        }
        lemma_trim_ignores_blank_tail(p, d);
    } else {
        assert(p + t =~= p);
    }
}

/// The semantic hash ignores comment text and trailing white space: two
/// sources that differ only in the text of their comments (no newline, `/`
/// or `*` edited in or out), each followed by any amount of white space,
/// have the same semantic hash.
pub proof fn lemma_semantic_hash_ignores_comment_text_and_trailing_blank(
    a: Seq<u8>,
    b: Seq<u8>,
    tail_a: Seq<u8>,
    tail_b: Seq<u8>,
)
    requires
        crate::comments::differ_in_comment_text(a, b),
        crate::comments::all_blank(tail_a),
        crate::comments::all_blank(tail_b),
    ensures
        semantic_source_hash(a + tail_a) == semantic_source_hash(b + tail_b),
{
    crate::comments::lemma_strip_ignores_comment_text(a, b);
    crate::comments::lemma_strip_trailing_blank(a, tail_a);
    crate::comments::lemma_strip_trailing_blank(b, tail_b);
    let sa = stripped(a);
    lemma_trim_ignores_blank_tail(sa, stripped(a + tail_a).skip(sa.len() as int));
    lemma_trim_ignores_blank_tail(sa, stripped(b + tail_b).skip(sa.len() as int));
}

} // verus!
