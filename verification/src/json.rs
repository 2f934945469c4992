//! Reading single fields out of JSON metadata blobs. Parsing is done by
//! `serde_json`; what the rules do with the fields is verified.
use vstd::prelude::*;

verus! {

/// Whether `serde_json` accepts the bytes as one JSON value.
pub uninterp spec fn json_parses(bytes: Seq<u8>) -> bool;

/// What `serde_json` gives for `value[key].as_bool()` after parsing the bytes;
/// `None` also when the bytes do not parse.
pub uninterp spec fn json_bool_at(bytes: Seq<u8>, key: Seq<char>) -> Option<bool>;

/// What `serde_json` gives for `value[key].as_u64()` after parsing the bytes;
/// `None` also when the bytes do not parse.
pub uninterp spec fn json_u64_at(bytes: Seq<u8>, key: Seq<char>) -> Option<u64>;

/// What `serde_json` gives for `value[key].as_str()` after parsing the bytes;
/// `None` also when the bytes do not parse.
pub uninterp spec fn json_str_at(bytes: Seq<u8>, key: Seq<char>) -> Option<Seq<char>>;

/// Calls `serde_json::from_slice::<serde_json::Value>` and reports whether it
/// succeeded. The contract claims only that the answer is a function of the bytes.
#[verifier::external_body]
pub(crate) fn parses_as_json(bytes: &[u8]) -> (r: bool)
    ensures
        r == json_parses(bytes@),
{
    serde_json::from_slice::<serde_json::Value>(bytes).is_ok()
}

/// Calls `serde_json::from_slice::<serde_json::Value>`, then `Value::index` with
/// `key` and `Value::as_bool`. The contract claims that the answer is a
/// function of the bytes and the key, and is `None` when the bytes do not parse.
#[verifier::external_body]
pub(crate) fn json_bool_field(bytes: &[u8], key: &str) -> (r: Option<bool>)
    ensures
        r == json_bool_at(bytes@, key@),
        !json_parses(bytes@) ==> r is None,
{
    match serde_json::from_slice::<serde_json::Value>(bytes) {
        Ok(value) => value[key].as_bool(),
        Err(_) => None,
    }
}

/// Calls `serde_json::from_slice::<serde_json::Value>`, then `Value::index` with
/// `key` and `Value::as_u64`. The contract claims that the answer is a
/// function of the bytes and the key, and is `None` when the bytes do not parse.
#[verifier::external_body]
pub(crate) fn json_u64_field(bytes: &[u8], key: &str) -> (r: Option<u64>)
    ensures
        r == json_u64_at(bytes@, key@),
        !json_parses(bytes@) ==> r is None,
{
    match serde_json::from_slice::<serde_json::Value>(bytes) {
        Ok(value) => value[key].as_u64(),
        Err(_) => None,
    }
}

/// Calls `serde_json::from_slice::<serde_json::Value>`, then `Value::index` with
/// `key` and `Value::as_str`, and copies the string out. The contract claims
/// that the answer is a function of the bytes and the key, and is `None` when
/// the bytes do not parse.
#[verifier::external_body]
pub(crate) fn json_str_field(bytes: &[u8], key: &str) -> (r: Option<String>)
    ensures
        match r {
            Some(s) => json_str_at(bytes@, key@) == Some(s@),
            None => json_str_at(bytes@, key@) is None,
        },
        !json_parses(bytes@) ==> r is None,
{
    match serde_json::from_slice::<serde_json::Value>(bytes) {
        Ok(value) => value[key].as_str().map(String::from),
        Err(_) => None,
    }
}

/// `i` is the position of the first `{` in `s`.
pub open spec fn is_first_brace(s: Seq<u8>, i: int) -> bool {
    &&& 0 <= i < s.len()
    &&& s[i] == 123u8
    &&& forall|j: int| 0 <= j < i ==> s[j] != 123u8
}

/// A sequence has at most one first `{`.
pub proof fn lemma_first_brace_unique(s: Seq<u8>, i: int, j: int)
    requires
        is_first_brace(s, i),
        is_first_brace(s, j),
    ensures
        i == j,
{
}

/// The position of the first `{` in `s`, if there is one.
pub open spec fn first_brace(s: Seq<u8>) -> Option<int> {
    if exists|i: int| is_first_brace(s, i) {
        Some(choose|i: int| is_first_brace(s, i))
    } else {
        None
    }
}

/// Where the JSON text of a metadata blob begins: at its first `{`, or at its
/// start when it holds none.
pub open spec fn json_text(s: Seq<u8>) -> Seq<u8> {
    match first_brace(s) {
        Some(i) => s.skip(i),
        None => s,
    }
}

/// Finds the first `{` in the blob.
pub fn find_json_start(raw: &Vec<u8>) -> (r: Option<usize>)
    ensures
        match r {
            Some(i) => first_brace(raw@) == Some(i as int),
            None => first_brace(raw@) is None,
        },
{
    let mut i: usize = 0;
    while i < raw.len()
        invariant
            i <= raw.len(),
            forall|j: int| 0 <= j < i ==> raw@[j] != 123u8,
        decreases raw.len() - i,
    {
        if raw[i] == 123u8 {
            proof {
                assert(is_first_brace(raw@, i as int));
                let c = choose|c: int| is_first_brace(raw@, c);
                lemma_first_brace_unique(raw@, c, i as int);
            }
            return Some(i);
        }
        i = i + 1;
    }
    proof {
        assert(!exists|c: int| is_first_brace(raw@, c));
    }
    None
}

/// The JSON text of a metadata blob: from its first `{` on, or all of it when it
/// holds none.
pub fn json_text_of(raw: &Vec<u8>) -> (r: &[u8])
    ensures
        r@ == json_text(raw@),
{
    let start = match find_json_start(raw) {
        Some(i) => i,
        None => 0,
    };
    let r = vstd::slice::slice_subrange(raw.as_slice(), start, raw.len());
    assert(r@ =~= json_text(raw@));
    r
}

} // verus!
