//! The DSH address: its default, its normal form, its validity, the event
//! endpoint URLs under it, and the decision taken when an edited address is
//! submitted.

use vstd::prelude::*;

use crate::strings::{
    is_whitespace, is_ws, owned, push_str, starts_with_seq, str_eq, string_from_range, to_chars,
    trim_end_char_seq, trim_end_seq, trim_seq, trim_start_seq,
};

verus! {

/// The default DSH address.
pub const ENDPOINT_DEFAULT: &'static str = "http://127.0.0.1:3080";

/// The address with surrounding whitespace and trailing `/` removed.
pub open spec fn normalized_spec(endpoint: Seq<char>) -> Seq<char> {
    trim_end_char_seq(trim_seq(endpoint), '/')
}

/// An address is valid when, trimmed, it is not empty and starts with
/// `http://` or `https://`.
pub open spec fn valid_endpoint_spec(s: Seq<char>) -> bool {
    let t = trim_seq(s);
    t.len() > 0 && (starts_with_seq(t, "http://"@) || starts_with_seq(t, "https://"@))
}

proof fn lemma_trim_start_skip(s: Seq<char>, i: int)
    requires
        0 <= i <= s.len(),
        forall|j: int| 0 <= j < i ==> is_ws(#[trigger] s[j]),
    ensures
        trim_start_seq(s) == trim_start_seq(s.skip(i)),
    decreases i,
{
    if i > 0 {
        assert(s.skip(1) =~= s.drop_first());
        assert forall|j: int| 0 <= j < i - 1 implies is_ws(#[trigger] s.drop_first()[j]) by {
            assert(s.drop_first()[j] == s[j + 1]);
        }
        lemma_trim_start_skip(s.drop_first(), i - 1);
        assert(s.drop_first().skip(i - 1) =~= s.skip(i));
    } else {
        assert(s.skip(0) =~= s);
    }
}

proof fn lemma_trim_end_take(s: Seq<char>, k: int)
    requires
        0 <= k <= s.len(),
        forall|j: int| k <= j < s.len() ==> is_ws(#[trigger] s[j]),
    ensures
        trim_end_seq(s) == trim_end_seq(s.take(k)),
    decreases s.len() - k,
{
    if k < s.len() {
        lemma_trim_end_take(s.drop_last(), k);
        assert(s.drop_last().take(k) =~= s.take(k));
    } else {
        assert(s.take(k) =~= s);
    }
}

proof fn lemma_trim_char_take(s: Seq<char>, c: char, k: int)
    requires
        0 <= k <= s.len(),
        forall|j: int| k <= j < s.len() ==> #[trigger] s[j] == c,
    ensures
        trim_end_char_seq(s, c) == trim_end_char_seq(s.take(k), c),
    decreases s.len() - k,
{
    if k < s.len() {
        lemma_trim_char_take(s.drop_last(), c, k);
        assert(s.drop_last().take(k) =~= s.take(k));
    } else {
        assert(s.take(k) =~= s);
    }
}

/// `s` without surrounding whitespace (`str::trim`).
pub fn trim_str(s: &str) -> (r: String)
    ensures
        r@ == trim_seq(s@),
{
    let cs = to_chars(s);
    let mut lo: usize = 0;
    while lo < cs.len() && is_whitespace(cs[lo])
        invariant
            lo <= cs.len(),
            forall|j: int| 0 <= j < lo ==> is_ws(#[trigger] cs@[j]),
        decreases cs.len() - lo,
    {
        lo = lo + 1;
    }
    proof {
        lemma_trim_start_skip(cs@, lo as int);
        if lo < cs.len() {
            assert(cs@.skip(lo as int)[0] == cs@[lo as int]);
        }
    }
    let ghost t = cs@.skip(lo as int);
    let mut hi: usize = cs.len();
    while hi > lo && is_whitespace(cs[hi - 1])
        invariant
            lo <= hi <= cs.len(),
            t == cs@.skip(lo as int),
            forall|j: int| hi <= j < cs.len() ==> is_ws(#[trigger] cs@[j]),
        decreases hi,
    {
        hi = hi - 1;
    }
    proof {
        assert forall|j: int| hi - lo <= j < t.len() implies is_ws(#[trigger] t[j]) by {
            assert(t[j] == cs@[lo + j]);
        }
        lemma_trim_end_take(t, hi - lo);
        if hi > lo {
            assert(t.take(hi - lo).last() == cs@[hi - 1]);
        }
        assert(t.take(hi - lo) =~= cs@.subrange(lo as int, hi as int));
    }
    string_from_range(&cs, lo, hi)
}

/// The address in normal form: trimmed, without trailing `/`, ready to have
/// an API path appended.
pub fn normalized_endpoint(endpoint: &str) -> (r: String)
    ensures
        r@ == normalized_spec(endpoint@),
{
    let t = trim_str(endpoint);
    let cs = to_chars(t.as_str());
    let mut hi: usize = cs.len();
    while hi > 0 && cs[hi - 1] == '/'
        invariant
            hi <= cs.len(),
            forall|j: int| hi <= j < cs.len() ==> #[trigger] cs@[j] == '/',
        decreases hi,
    {
        hi = hi - 1;
    }
    proof {
        lemma_trim_char_take(cs@, '/', hi as int);
        if hi > 0 {
            assert(cs@.take(hi as int).last() == cs@[hi - 1]);
        }
        assert(cs@.take(hi as int) =~= cs@.subrange(0, hi as int));
    }
    string_from_range(&cs, 0, hi)
}

/// Whether `p` is a prefix of `s`.
fn starts_with(s: &str, p: &str) -> (r: bool)
    ensures
        r == starts_with_seq(s@, p@),
{
    let cs = to_chars(s);
    let ps = to_chars(p);
    if ps.len() > cs.len() {
        return false;
    }
    let head = string_from_range(&cs, 0, ps.len());
    assert(cs@.subrange(0, ps@.len() as int) =~= s@.take(p@.len() as int));
    str_eq(head.as_str(), p)
}

/// Whether `s` is an acceptable DSH address: trimmed, it is not empty and
/// starts with `http://` or `https://`.
pub fn is_valid_endpoint(s: &str) -> (r: bool)
    ensures
        r == valid_endpoint_spec(s@),
{
    let t = trim_str(s);
    !t.as_str().is_empty() && (starts_with(t.as_str(), "http://") || starts_with(t.as_str(), "https://"))
}

/// The URL of an event endpoint: `<endpoint>/api/events.<kind>`.
pub open spec fn events_url_spec(endpoint: Seq<char>, kind: Seq<char>) -> Seq<char> {
    endpoint + "/api/events."@ + kind
}

/// The URL of the `mux` or `host` event endpoint under `endpoint`.
pub fn events_url(endpoint: &str, kind: &str) -> (r: String)
    ensures
        r@ == events_url_spec(endpoint@, kind@),
{
    let mut r = owned(endpoint);
    push_str(&mut r, "/api/events.");
    push_str(&mut r, kind);
    r
}

/// What submitting the edited address `text` does while `current` is in
/// use: the normalised address when it is valid and differs from `current`
/// (the connection then switches to it), `None` otherwise (the field goes
/// back to `current`).
pub open spec fn commit_endpoint_spec(text: Seq<char>, current: Seq<char>) -> Option<Seq<char>> {
    let t = normalized_spec(text);
    if valid_endpoint_spec(t) && t != current {
        Some(t)
    } else {
        None
    }
}

/// Decides what submitting the edited address does (see [`commit_endpoint_spec`]).
pub fn commit_endpoint(text: &str, current: &str) -> (r: Option<String>)
    ensures
        match r {
            Some(t) => commit_endpoint_spec(text@, current@) == Some(t@),
            None => commit_endpoint_spec(text@, current@) is None,
        },
{
    let t = normalized_endpoint(text);
    if is_valid_endpoint(t.as_str()) && !str_eq(t.as_str(), current) {
        Some(t)
    } else {
        None
    }
}

/// An address that is switched to starts with `http://` or `https://`, once
/// trimmed; an address that does not is never switched to.
pub proof fn law_commit_only_valid(text: Seq<char>, current: Seq<char>)
    ensures
        match commit_endpoint_spec(text, current) {
            Some(t) => valid_endpoint_spec(t) && t != current && t == normalized_spec(text),
            None => !valid_endpoint_spec(normalized_spec(text)) || normalized_spec(text)
                == current,
        },
{
}

} // verus!
