//! The `session.list` JSON-RPC call of DSH: its URL, its request id and
//! body, and what is taken from its answer.

use vstd::prelude::*;

use crate::json::Json;
use crate::strings::{dec, dec_string, owned, push_char, push_str};
use crate::types::{now_ms, RpcResponse, RpcResult};

verus! {

/// The URL of `session.list` under the DSH base URL `base`.
pub open spec fn session_list_url_spec(base: Seq<char>) -> Seq<char> {
    base + "/api/session.list"@
}

/// The URL to POST `session.list` to.
pub fn session_list_url(base: &str) -> (r: String)
    ensures
        r@ == session_list_url_spec(base@),
{
    let mut r = owned(base);
    push_str(&mut r, "/api/session.list");
    r
}

/// Lower-case hexadecimal digit of `d` (for `d < 16`).
pub open spec fn hex_digit(d: nat) -> char {
    if d < 10 {
        (('0' as u32) + d) as char
    } else {
        (('a' as u32) + (d - 10)) as char
    }
}

/// Lower-case hexadecimal representation of `n`, as `{:x}` prints it.
pub open spec fn hex(n: nat) -> Seq<char>
    decreases n,
{
    if n < 16 {
        seq![hex_digit(n)]
    } else {
        hex(n / 16).push(hex_digit(n % 16))
    }
}

fn hex_char(d: u32) -> (c: char)
    requires
        d < 16,
    ensures
        c == hex_digit(d as nat),
{
    let digits: [char; 16] = [
        '0', '1', '2', '3', '4', '5', '6', '7', '8', '9', 'a', 'b', 'c', 'd', 'e', 'f',
    ];
    let c = digits[d as usize];
    assert(c == hex_digit(d as nat)) by {
        assert(digits@[d as int] == hex_digit(d as nat));
    }
    c
}

/// Lower-case hexadecimal representation of `n`.
fn hex_string(n: u32) -> (r: String)
    ensures
        r@ == hex(n as nat),
    decreases n,
{
    if n < 16 {
        let mut r = String::new();
        push_char(&mut r, hex_char(n));
        assert(r@ =~= seq![hex_digit(n as nat)]);
        r
    } else {
        let mut r = hex_string(n / 16);
        push_char(&mut r, hex_char(n % 16));
        r
    }
}

/// The request id `pet-<now>-<nonce in hex>`.
pub open spec fn rpc_id_spec(now: u64, nonce: u32) -> Seq<char> {
    "pet-"@ + dec(now as nat) + "-"@ + hex(nonce as nat)
}

/// The request id made from the time `now` and a random `nonce`.
pub fn rpc_request_id(now: u64, nonce: u32) -> (r: String)
    ensures
        r@ == rpc_id_spec(now, nonce),
{
    let mut r = owned("pet-");
    let d = dec_string_u64(now);
    push_str(&mut r, d.as_str());
    push_str(&mut r, "-");
    let h = hex_string(nonce);
    push_str(&mut r, h.as_str());
    r
}

fn dec_string_u64(n: u64) -> (r: String)
    ensures
        r@ == dec(n as nat),
    decreases n,
{
    if n < 10 {
        dec_string(n as usize)
    } else {
        let mut r = dec_string_u64(n / 10);
        let d = dec_string((n % 10) as usize);
        assert(d@ == seq![crate::strings::digit_char((n % 10) as nat)]);
        push_str(&mut r, d.as_str());
        assert(r@ =~= dec((n / 10) as nat).push(crate::strings::digit_char((n % 10) as nat)));
        r
    }
}

/// A random 32-bit number.
///
/// Trusted: calls `rand::random::<u32>()`; the result is chance, so nothing
/// is stated of it.
#[verifier::external_body]
fn random_u32() -> u32 {
    rand::random::<u32>()
}

/// A fresh request id: the current time and a random number.
pub fn new_rpc_id() -> (r: String)
    ensures
        exists|now: u64, nonce: u32| r@ == rpc_id_spec(now, nonce),
{
    let now = now_ms();
    let nonce = random_u32();
    rpc_request_id(now, nonce)
}

/// `v` is a string holding `s`.
pub open spec fn is_str(v: Json, s: Seq<char>) -> bool {
    v.spec_as_str() == Some(s)
}

/// The body of a `session.list` call with id `rpc_id`:
/// `{"type":"client-request","rpcId":<id>,"method":"session.list","payload":{}}`,
/// members in that order.
pub open spec fn is_session_list_request(r: Json, rpc_id: Seq<char>) -> bool {
    match r {
        Json::Object(f) => {
            &&& f@.len() == 4
            &&& f@[0].0@ == "type"@ && is_str(f@[0].1, "client-request"@)
            &&& f@[1].0@ == "rpcId"@ && is_str(f@[1].1, rpc_id)
            &&& f@[2].0@ == "method"@ && is_str(f@[2].1, "session.list"@)
            &&& f@[3].0@ == "payload"@
            &&& f@[3].1 matches Json::Object(p) && p@.len() == 0
        },
        _ => false,
    }
}

/// The body of a `session.list` call with id `rpc_id`.
pub fn session_list_request(rpc_id: String) -> (r: Json)
    ensures
        is_session_list_request(r, rpc_id@),
{
    let mut fields: Vec<(String, Json)> = Vec::new();
    fields.push((owned("type"), Json::Str(owned("client-request"))));
    fields.push((owned("rpcId"), Json::Str(rpc_id)));
    fields.push((owned("method"), Json::Str(owned("session.list"))));
    fields.push((owned("payload"), Json::Object(Vec::new())));
    Json::Object(fields)
}

/// The items of a `session.list` answer: the error message (or `rpc error`)
/// when the call failed; otherwise the elements of `value.items`, none when
/// the value or its `items` is missing or not an array.
pub open spec fn rpc_items_spec(result: RpcResult) -> Result<Seq<Json>, Seq<char>> {
    if !result.ok {
        Err(
            match result.error {
                Some(e) => e.message@,
                None => "rpc error"@,
            },
        )
    } else {
        Ok(
            match result.value {
                Some(v) => match v.spec_get("items"@) {
                    Some(items) => match items.spec_as_array() {
                        Some(a) => a,
                        None => Seq::empty(),
                    },
                    None => Seq::empty(),
                },
                None => Seq::empty(),
            },
        )
    }
}

/// The member `key` of an object, taken by value.
fn take_member(v: Json, key: &str) -> (r: Option<Json>)
    ensures
        r == v.spec_get(key@),
{
    match v {
        Json::Object(fields) => {
            let ghost f = fields@;
            assert(v.spec_get(key@) == crate::json::lookup_member(f, key@));
            let mut i: usize = 0;
            assert(f.skip(0) =~= f);
            while i < fields.len()
                invariant
                    i <= fields.len(),
                    fields@ == f,
                    v.spec_get(key@) == crate::json::lookup_member(f, key@),
                    crate::json::lookup_member(f, key@) == crate::json::lookup_member(
                        f.skip(i as int),
                        key@,
                    ),
                decreases fields.len() - i,
            {
                assert(f.skip(i as int).drop_first() =~= f.skip(i + 1));
                assert(f.skip(i as int)[0] == f[i as int]);
                if crate::strings::str_eq(fields[i].0.as_str(), key) {
                    assert(crate::json::lookup_member(f.skip(i as int), key@) == Some(f[i as int].1));
                    let mut fields = fields;
                    let (_, x) = fields.remove(i);
                    assert(x == f[i as int].1);
                    return Some(x);
                }
                i = i + 1;
            }
            None
        },
        _ => None,
    }
}

/// Takes the session items out of a `session.list` answer.
pub fn rpc_items(resp: RpcResponse) -> (r: Result<Vec<Json>, String>)
    ensures
        match r {
            Ok(items) => rpc_items_spec(resp.result) == Ok::<Seq<Json>, Seq<char>>(items@),
            Err(e) => rpc_items_spec(resp.result) == Err::<Seq<Json>, Seq<char>>(e@),
        },
{
    let result = resp.result;
    if !result.ok {
        return Err(
            match result.error {
                Some(e) => e.message,
                None => owned("rpc error"),
            },
        );
    }
    match result.value {
        Some(v) => match take_member(v, "items") {
            Some(items) => match items {
                Json::Array(a) => Ok(a),
                _ => Ok(Vec::new()),
            },
            None => Ok(Vec::new()),
        },
        None => Ok(Vec::new()),
    }
}

} // verus!
