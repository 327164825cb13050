//! Response, error and notification framing.
//!
//! Output lines are built character by character, so their exact text is part
//! of each builder's contract.
use vstd::prelude::*;

use crate::hexs::{spec_dec, spec_dec_int};
use crate::jsonval::{Jv, jtext, write_jv, spec_esc, push_esc};

verus! {

/// Relies on `String: FromIterator<char>`: the collected string holds exactly
/// the given characters, in order.
#[verifier::external_body]
pub fn chars_to_string(v: &Vec<char>) -> (s: String)
    ensures
        s@ == v@,
{
    v.iter().collect()
}

/// Appends the characters of `s` to `out`.
pub fn push_str_chars(s: &str, out: &mut Vec<char>)
    ensures
        final(out)@ == old(out)@ + s@,
{
    let n = s.unicode_len();
    let mut i: usize = 0;
    while i < n
        invariant
            i <= n,
            n == s@.len(),
            out@ == old(out)@ + s@.take(i as int),
        decreases n - i,
    {
        out.push(s.get_char(i));
        proof {
            assert(s@.take(i + 1 as int) =~= s@.take(i as int) + seq![s@[i as int]]);
        }
        i = i + 1;
    }
    proof {
        assert(s@.take(s@.len() as int) =~= s@);
    }
}

/// Appends the characters of `v` to `out`.
pub fn push_chars(v: &Vec<char>, out: &mut Vec<char>)
    ensures
        final(out)@ == old(out)@ + v@,
{
    let mut i: usize = 0;
    while i < v.len()
        invariant
            i <= v.len(),
            out@ == old(out)@ + v@.take(i as int),
        decreases v.len() - i,
    {
        out.push(v[i]);
        proof {
            assert(v@.take(i + 1 as int) =~= v@.take(i as int) + seq![v@[i as int]]);
        }
        i = i + 1;
    }
    proof {
        assert(v@.take(v@.len() as int) =~= v@);
    }
}

/// Compares a string's text with a literal's.
pub fn text_eq(m: &String, lit: &str) -> (r: bool)
    ensures
        r == (m@ == lit@),
{
    let mlen = m.as_str().unicode_len();
    let llen = lit.unicode_len();
    if mlen != llen {
        return false;
    }
    let mut i: usize = 0;
    while i < mlen
        invariant
            i <= mlen,
            mlen == m@.len() == lit@.len(),
            forall|k: int| 0 <= k < i ==> m@[k] == lit@[k],
        decreases mlen - i,
    {
        if m.as_str().get_char(i) != lit.get_char(i) {
            return false;
        }
        i = i + 1;
    }
    proof {
        assert(m@ =~= lit@);
    }
    true
}

/// A call-level failure and the code and message it is answered with.
pub enum ErrKind {
    Parse,
    InvalidRequest,
    MethodNotFound,
    InvalidParams,
    Unavailable,
    Bad(String),
    Daemon(String),
}

pub open spec fn err_code(k: ErrKind) -> int {
    match k {
        ErrKind::Parse => -32700,
        ErrKind::InvalidRequest => -32600,
        ErrKind::MethodNotFound => -32601,
        ErrKind::InvalidParams => -32602,
        ErrKind::Unavailable => -32603,
        ErrKind::Bad(_) => 1,
        ErrKind::Daemon(_) => 2,
    }
}

pub open spec fn err_message(k: ErrKind) -> Seq<char> {
    match k {
        ErrKind::Parse => "parse error"@,
        ErrKind::InvalidRequest => "invalid request"@,
        ErrKind::MethodNotFound => "method not found"@,
        ErrKind::InvalidParams => "invalid params"@,
        ErrKind::Unavailable => "unavailable index"@,
        ErrKind::Bad(m) => m@,
        ErrKind::Daemon(m) => m@,
    }
}

/// Text of a success response object.
pub open spec fn spec_result_line(id: Seq<char>, res: Seq<char>) -> Seq<char> {
    "{\"jsonrpc\":\"2.0\",\"id\":"@ + id + ",\"result\":"@ + res + seq!['}']
}

/// Text of an error response object, from its code and message.
pub open spec fn spec_error_text(id: Seq<char>, code: int, msg: Seq<char>) -> Seq<char> {
    "{\"jsonrpc\":\"2.0\",\"id\":"@ + id + ",\"error\":{\"code\":"@ + spec_dec_int(code)
        + ",\"message\":\""@ + spec_esc(msg) + "\"}}"@
}

/// Text of an error response object.
pub open spec fn spec_error_line(id: Seq<char>, k: ErrKind) -> Seq<char> {
    spec_error_text(id, err_code(k), err_message(k))
}

/// Text of a server-initiated notification object.
pub open spec fn spec_notification_line(method: Seq<char>, params_body: Seq<char>) -> Seq<char> {
    "{\"jsonrpc\":\"2.0\",\"method\":\""@ + method + "\",\"params\":["@ + params_body + "]}"@
}

/// Success response for the request whose id reads `id_text`.
pub fn result_line(id_text: &String, res: &Jv) -> (r: String)
    ensures
        r@ == spec_result_line(id_text@, jtext(*res)),
{
    let mut out: Vec<char> = Vec::new();
    push_str_chars("{\"jsonrpc\":\"2.0\",\"id\":", &mut out);
    push_str_chars(id_text.as_str(), &mut out);
    push_str_chars(",\"result\":", &mut out);
    write_jv(res, &mut out);
    out.push('}');
    proof {
        assert(out@ =~= spec_result_line(id_text@, jtext(*res)));
    }
    chars_to_string(&out)
}

/// Error response for the request whose id reads `id_text`.
pub fn error_line(id_text: &String, k: &ErrKind) -> (r: String)
    ensures
        r@ == spec_error_line(id_text@, *k),
{
    let mut out: Vec<char> = Vec::new();
    push_str_chars("{\"jsonrpc\":\"2.0\",\"id\":", &mut out);
    push_str_chars(id_text.as_str(), &mut out);
    push_str_chars(",\"error\":{\"code\":", &mut out);
    match k {
        ErrKind::Parse => push_str_chars("-32700", &mut out),
        ErrKind::InvalidRequest => push_str_chars("-32600", &mut out),
        ErrKind::MethodNotFound => push_str_chars("-32601", &mut out),
        ErrKind::InvalidParams => push_str_chars("-32602", &mut out),
        ErrKind::Unavailable => push_str_chars("-32603", &mut out),
        ErrKind::Bad(_) => push_str_chars("1", &mut out),
        ErrKind::Daemon(_) => push_str_chars("2", &mut out),
    }
    proof {
        lemma_code_text(*k);
    }
    push_str_chars(",\"message\":\"", &mut out);
    match k {
        ErrKind::Parse => push_str_chars("parse error", &mut out),
        ErrKind::InvalidRequest => push_str_chars("invalid request", &mut out),
        ErrKind::MethodNotFound => push_str_chars("method not found", &mut out),
        ErrKind::InvalidParams => push_str_chars("invalid params", &mut out),
        ErrKind::Unavailable => push_str_chars("unavailable index", &mut out),
        ErrKind::Bad(m) => push_esc(m.as_str(), &mut out),
        ErrKind::Daemon(m) => push_esc(m.as_str(), &mut out),
    }
    proof {
        lemma_esc_fixed_messages(*k);
    }
    push_str_chars("\"}}", &mut out);
    proof {
        assert(out@ =~= spec_error_line(id_text@, *k));
    }
    chars_to_string(&out)
}

/// The decimal text of each fixed error code.
proof fn lemma_code_text(k: ErrKind)
    ensures
        match k {
            ErrKind::Parse => "-32700"@ == spec_dec_int(err_code(k)),
            ErrKind::InvalidRequest => "-32600"@ == spec_dec_int(err_code(k)),
            ErrKind::MethodNotFound => "-32601"@ == spec_dec_int(err_code(k)),
            ErrKind::InvalidParams => "-32602"@ == spec_dec_int(err_code(k)),
            ErrKind::Unavailable => "-32603"@ == spec_dec_int(err_code(k)),
            ErrKind::Bad(_) => "1"@ == spec_dec_int(err_code(k)),
            ErrKind::Daemon(_) => "2"@ == spec_dec_int(err_code(k)),
        },
{
    reveal_with_fuel(spec_dec, 8);
    reveal_strlit("-32700");
    reveal_strlit("-32600");
    reveal_strlit("-32601");
    reveal_strlit("-32602");
    reveal_strlit("-32603");
    reveal_strlit("1");
    reveal_strlit("2");
    assert(spec_dec_int(-32700) =~= "-32700"@);
    assert(spec_dec_int(-32600) =~= "-32600"@);
    assert(spec_dec_int(-32601) =~= "-32601"@);
    assert(spec_dec_int(-32602) =~= "-32602"@);
    assert(spec_dec_int(-32603) =~= "-32603"@);
    assert(spec_dec_int(1) =~= "1"@);
    assert(spec_dec_int(2) =~= "2"@);
}

/// The fixed error messages contain no character that escaping rewrites.
proof fn lemma_esc_fixed_messages(k: ErrKind)
    ensures
        match k {
            ErrKind::Parse => spec_esc("parse error"@) == "parse error"@,
            ErrKind::InvalidRequest => spec_esc("invalid request"@) == "invalid request"@,
            ErrKind::MethodNotFound => spec_esc("method not found"@) == "method not found"@,
            ErrKind::InvalidParams => spec_esc("invalid params"@) == "invalid params"@,
            ErrKind::Unavailable => spec_esc("unavailable index"@) == "unavailable index"@,
            ErrKind::Bad(_) => true,
            ErrKind::Daemon(_) => true,
        },
{
    reveal_with_fuel(spec_esc, 20);
    reveal_strlit("parse error");
    reveal_strlit("invalid request");
    reveal_strlit("method not found");
    reveal_strlit("invalid params");
    reveal_strlit("unavailable index");
    assert(spec_esc("parse error"@) =~= "parse error"@);
    assert(spec_esc("invalid request"@) =~= "invalid request"@);
    assert(spec_esc("method not found"@) =~= "method not found"@);
    assert(spec_esc("invalid params"@) =~= "invalid params"@);
    assert(spec_esc("unavailable index"@) =~= "unavailable index"@);
}

/// Notification for a method, with an already serialized parameter list body.
pub fn notification_line(method: &str, params_body: &Vec<char>) -> (r: String)
    ensures
        r@ == spec_notification_line(method@, params_body@),
{
    let mut out: Vec<char> = Vec::new();
    push_str_chars("{\"jsonrpc\":\"2.0\",\"method\":\"", &mut out);
    push_str_chars(method, &mut out);
    push_str_chars("\",\"params\":[", &mut out);
    push_chars(params_body, &mut out);
    push_str_chars("]}", &mut out);
    proof {
        assert(out@ =~= spec_notification_line(method@, params_body@));
    }
    chars_to_string(&out)
}

/// Text of the first `i` parts of a batch body, comma separated.
pub open spec fn spec_join(parts: Seq<Seq<char>>, i: int) -> Seq<char>
    decreases i,
{
    if i <= 0 || i > parts.len() {
        Seq::empty()
    } else {
        spec_join(parts, i - 1) + (if i > 1 {
            seq![',']
        } else {
            Seq::empty()
        }) + parts[i - 1]
    }
}

pub open spec fn spec_batch_line(parts: Seq<Seq<char>>) -> Seq<char> {
    seq!['['] + spec_join(parts, parts.len() as int) + seq![']']
}

/// One output line for a batch: the per-call responses in input order, as a
/// JSON array.
pub fn batch_line(parts: &Vec<String>) -> (r: String)
    ensures
        r@ == spec_batch_line(parts@.map_values(|p: String| p@)),
{
    let mut out: Vec<char> = Vec::new();
    out.push('[');
    let mut i: usize = 0;
    while i < parts.len()
        invariant
            i <= parts.len(),
            out@ == seq!['['] + spec_join(parts@.map_values(|p: String| p@), i as int),
        decreases parts.len() - i,
    {
        if i > 0 {
            out.push(',');
        }
        push_str_chars(parts[i].as_str(), &mut out);
        proof {
            assert(out@ =~= seq!['['] + spec_join(parts@.map_values(|p: String| p@), i + 1));
        }
        i = i + 1;
    }
    out.push(']');
    proof {
        assert(out@ =~= spec_batch_line(parts@.map_values(|p: String| p@)));
    }
    chars_to_string(&out)
}

} // verus!
