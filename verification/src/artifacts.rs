use vstd::prelude::*;
use crate::surface::copy_str;
use crate::text::{chars_of, push_str, string_from_chars};

verus! {

/// Whether `s` ends with `suffix`.
pub open spec fn ends_with(s: Seq<char>, suffix: Seq<char>) -> bool {
    s.len() >= suffix.len() && s.skip(s.len() - suffix.len()) == suffix
}

/// Whether a build output with this file name is kept in the build cache:
/// Sierra, CASM, contract class and Starknet artifact files.
pub open spec fn cacheable_artifact_name(name: Seq<char>) -> bool {
    ||| ends_with(name, ".sierra.json"@)
    ||| ends_with(name, ".sierra"@)
    ||| ends_with(name, ".casm"@)
    ||| ends_with(name, ".contract_class.json"@)
    ||| ends_with(name, ".compiled_contract_class.json"@)
    ||| ends_with(name, ".starknet_artifacts.json"@)
    ||| ends_with(name, ".executable.json"@)
}

proof fn lemma_ends_with_concat(stem: Seq<char>, suffix: Seq<char>)
    ensures
        ends_with(stem + suffix, suffix),
{
    assert((stem + suffix).skip(stem.len() as int) =~= suffix);
}

/// Every Sierra, CASM, contract class, compiled contract class, Starknet
/// artifacts and executable output is kept in the build cache, whatever its
/// stem.
pub proof fn lemma_build_outputs_are_cacheable(stem: Seq<char>)
    ensures
        cacheable_artifact_name(stem + ".sierra.json"@),
        cacheable_artifact_name(stem + ".sierra"@),
        cacheable_artifact_name(stem + ".casm"@),
        cacheable_artifact_name(stem + ".contract_class.json"@),
        cacheable_artifact_name(stem + ".compiled_contract_class.json"@),
        cacheable_artifact_name(stem + ".starknet_artifacts.json"@),
        cacheable_artifact_name(stem + ".executable.json"@),
{
    lemma_ends_with_concat(stem, ".sierra.json"@);
    lemma_ends_with_concat(stem, ".sierra"@);
    lemma_ends_with_concat(stem, ".casm"@);
    lemma_ends_with_concat(stem, ".contract_class.json"@);
    lemma_ends_with_concat(stem, ".compiled_contract_class.json"@);
    lemma_ends_with_concat(stem, ".starknet_artifacts.json"@);
    lemma_ends_with_concat(stem, ".executable.json"@);
}

/// The object of a digest lives in the directory named by the digest's
/// first two characters, in a file named by the whole digest and `.bin`.
pub proof fn lemma_object_rel_path_shape(hash: Seq<char>)
    requires
        hash.len() >= 2,
    ensures
        object_rel_path(hash).len() == hash.len() + 7,
        object_rel_path(hash).take(2) == hash.take(2),
        object_rel_path(hash)[2] == '/',
        object_rel_path(hash).subrange(3, 3 + hash.len() as int) == hash,
        ends_with(object_rel_path(hash), ".bin"@),
{
    reveal_strlit("/");
    reveal_strlit(".bin");
    let p = object_rel_path(hash);
    assert(p.take(2) =~= hash.take(2));
    assert(p.subrange(3, 3 + hash.len() as int) =~= hash);
    assert(p.skip(p.len() - 4) =~= ".bin"@);
}

fn ends_with_exec(s: &Vec<char>, suffix: &str) -> (b: bool)
    ensures
        b == ends_with(s@, suffix@),
{
    let t = chars_of(suffix);
    if s.len() < t.len() {
        return false;
    }
    let sl = s.len();
    let off = sl - t.len();
    let mut i: usize = 0;
    while i < t.len()
        invariant
            i <= t@.len(),
            t@ == suffix@,
            sl == s@.len(),
            off as int + t@.len() == s@.len(),
            forall|j: int| 0 <= j < i ==> s@[off + j] == t@[j],
        decreases t@.len() - i,
    {
        assert(off as int + (i as int) < s@.len());
        let pos = off + i;
        if s[pos] != t[i] {
            assert(s@.skip(off as int)[i as int] == s@[pos as int]);
            return false;
        }
        i = i + 1;
    }
    assert(s@.skip(off as int) =~= t@);
    true
}

/// Whether a build output with this file name is kept in the build cache.
pub fn is_cacheable_artifact_name(name: &str) -> (b: bool)
    ensures
        b == cacheable_artifact_name(name@),
{
    let s = chars_of(name);
    ends_with_exec(&s, ".sierra.json") || ends_with_exec(&s, ".sierra") || ends_with_exec(&s, ".casm")
        || ends_with_exec(&s, ".contract_class.json") || ends_with_exec(
        &s,
        ".compiled_contract_class.json",
    ) || ends_with_exec(&s, ".starknet_artifacts.json") || ends_with_exec(&s, ".executable.json")
}

/// Where the cache stores the object of a digest, under its objects
/// directory: `<first two digits>/<digest>.bin`.
pub open spec fn object_rel_path(hash: Seq<char>) -> Seq<char> {
    hash.take(2) + "/"@ + hash + ".bin"@
}

/// Where the cache stores the object of a digest.
pub fn cache_object_rel_path(hash: &str) -> (p: String)
    requires
        hash@.len() >= 2,
    ensures
        p@ == object_rel_path(hash@),
{
    let h = chars_of(hash);
    let mut first: Vec<char> = Vec::new();
    first.push(h[0]);
    first.push(h[1]);
    let mut p = string_from_chars(&first);
    assert(first@ =~= hash@.take(2));
    push_str(&mut p, "/");
    push_str(&mut p, hash);
    push_str(&mut p, ".bin");
    p
}

} // verus!
