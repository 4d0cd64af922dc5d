use vstd::prelude::*;
use crate::documents::{parse_json_value, parsed_json};
use crate::text::str_eq;

verus! {

/// A JSON value as the daemon's wire format carries it: numbers keep their
/// text, and an object keeps its members in order, keys unique.
#[derive(Debug, PartialEq)]
pub enum JsonNode {
    Null,
    Bool(bool),
    Number(String),
    Str(String),
    Array(Vec<JsonNode>),
    Object(Vec<(String, JsonNode)>),
}

/// The first member of an object under `key`, if any.
pub open spec fn member_index(entries: Seq<(String, JsonNode)>, key: Seq<char>) -> int
    decreases entries.len(),
{
    if entries.len() == 0 {
        -1
    } else {
        let i = member_index(entries.drop_last(), key);
        if i >= 0 {
            i
        } else if entries.last().0@ == key {
            entries.len() - 1
        } else {
            -1
        }
    }
}

/// The object with `value` set under the key of `member`: the first member
/// with that key gets the value (keeping its key), or the member is added
/// at the end.
pub open spec fn member_set(entries: Seq<(String, JsonNode)>, member: (String, JsonNode)) -> Seq<
    (String, JsonNode),
> {
    let i = member_index(entries, member.0@);
    if i >= 0 {
        entries.update(i, (entries[i].0, member.1))
    } else {
        entries.push(member)
    }
}

/// The payload's members set into the root object one after the other,
/// but for its `type`, which the root's own discriminant decides.
pub open spec fn merged_members(root: Seq<(String, JsonNode)>, payload: Seq<(String, JsonNode)>) -> Seq<
    (String, JsonNode),
>
    decreases payload.len(),
{
    if payload.len() == 0 {
        root
    } else {
        let r = merged_members(root, payload.drop_last());
        if payload.last().0@ == "type"@ {
            r
        } else {
            member_set(r, payload.last())
        }
    }
}

fn find_member(entries: &Vec<(String, JsonNode)>, key: &str) -> (r: Option<usize>)
    ensures
        match r {
            Some(i) => i == member_index(entries@, key@) && i < entries@.len(),
            None => member_index(entries@, key@) == -1,
        },
{
    let mut i: usize = 0;
    while i < entries.len()
        invariant
            i <= entries@.len(),
            member_index(entries@.take(i as int), key@) == -1,
        decreases entries@.len() - i,
    {
        assert(entries@.take(i + 1).drop_last() =~= entries@.take(i as int));
        if str_eq(entries[i].0.as_str(), key) {
            proof {
                lemma_member_index_prefix(entries@, key@, i + 1);
            }
            return Some(i);
        }
        i = i + 1;
    }
    assert(entries@.take(i as int) =~= entries@);
    None
}

proof fn lemma_member_index_prefix(entries: Seq<(String, JsonNode)>, key: Seq<char>, n: int)
    requires
        0 <= n <= entries.len(),
        member_index(entries.take(n), key) >= 0,
    ensures
        member_index(entries, key) == member_index(entries.take(n), key),
        0 <= member_index(entries, key) < n,
    decreases entries.len(),
{
    lemma_member_index_bounds(entries.take(n), key);
    if n < entries.len() {
        assert(entries.drop_last().take(n) =~= entries.take(n));
        lemma_member_index_prefix(entries.drop_last(), key, n);
    } else {
        assert(entries.take(n) =~= entries);
    }
}

proof fn lemma_member_index_bounds(entries: Seq<(String, JsonNode)>, key: Seq<char>)
    ensures
        -1 <= member_index(entries, key) < entries.len(),
        member_index(entries, key) >= 0 ==> entries[member_index(entries, key)].0@ == key,
    decreases entries.len(),
{
    if entries.len() > 0 {
        lemma_member_index_bounds(entries.drop_last(), key);
    }
}

fn set_member(entries: &mut Vec<(String, JsonNode)>, member: (String, JsonNode))
    ensures
        final(entries)@ == member_set(old(entries)@, member),
{
    match find_member(entries, member.0.as_str()) {
        Some(i) => {
            let ghost before = entries@;
            let (key, _old) = entries.remove(i);
            entries.insert(i, (key, member.1));
            assert(entries@ =~= before.update(i as int, (before[i as int].0, member.1)));
        },
        None => {
            entries.push(member);
        },
    }
}

/// Whether `after` is the flat form of the wire message `before`.
pub open spec fn flattened(before: JsonNode, after: JsonNode) -> bool {
    match before {
        JsonNode::Object(entries) => {
            let i = member_index(entries@, "payload"@);
            &&& i < 0 ==> after == before
            &&& i >= 0 ==> (after matches JsonNode::Object(out) && out@ == match entries@[i].1 {
                JsonNode::Object(p) => merged_members(entries@.remove(i), p@),
                _ => entries@.remove(i).push(entries@[i]),
            })
        },
        _ => after == before,
    }
}

/// Brings a daemon wire message into flat form: an object with a
/// `payload` member that is itself an object has that member taken out
/// and its members (but for `type`, which the root's own discriminant
/// decides) set into the root; a `payload` that is not an object is put
/// back at the end; any other value stays as it is.
pub fn flatten_payload_wrapped_wire_shape(value: &mut JsonNode)
    ensures
        flattened(*old(value), *final(value)),
{
    let mut taken = JsonNode::Null;
    std::mem::swap(&mut taken, value);
    let mut entries = match taken {
        JsonNode::Object(e) => e,
        other => {
            *value = other;
            return;
        },
    };
    let ghost start = entries@;
    let i = match find_member(&entries, "payload") {
        Some(i) => i,
        None => {
            *value = JsonNode::Object(entries);
            return;
        },
    };
    let payload = entries.remove(i);
    let ghost rest = entries@;
    assert(rest == start.remove(i as int));
    match payload.1 {
        JsonNode::Object(members) => {
            let mut members = members;
            let ghost all = members@;
            let ghost mut k: int = 0;
            while members.len() > 0
                invariant
                    0 <= k <= all.len(),
                    members@ == all.skip(k),
                    entries@ == merged_members(rest, all.take(k)),
                decreases members@.len(),
            {
                let m = members.remove(0);
                proof {
                    assert(m == all[k]);
                    assert(all.take(k + 1).drop_last() =~= all.take(k));
                    assert(all.take(k + 1).last() == all[k]);
                    assert(members@ =~= all.skip(k + 1));
                    k = k + 1;
                }
                if !str_eq(m.0.as_str(), "type") {
                    set_member(&mut entries, m);
                }
            }
            assert(all.take(k) =~= all);
            *value = JsonNode::Object(entries);
        },
        other => {
            entries.push((payload.0, other));
            *value = JsonNode::Object(entries);
        },
    }
}

/// Reads a daemon wire line: parses it as JSON and brings it into flat
/// form; none when the line is not JSON.
pub fn decode_daemon_wire(line: &str) -> (r: Option<JsonNode>)
    ensures
        match parsed_json(line@) {
            Some(v) => r matches Some(w) && flattened(v, w),
            None => r is None,
        },
{
    match parse_json_value(line) {
        Some(v) => {
            let mut w = v;
            flatten_payload_wrapped_wire_shape(&mut w);
            Some(w)
        },
        None => None,
    }
}

} // verus!
