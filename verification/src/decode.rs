//! Inbound frames: one JSON text line becomes a single request or a batch.
//!
//! The JSON grammar itself is serde_json's business; everything after the
//! parsed value — the request shape, the defaulting of `params`, the batch
//! walk — is verified here.
use vstd::prelude::*;

use crate::jsonval::{Jv, jtext, jv_chars};
use crate::wire::{chars_to_string, text_eq, ErrKind};

verus! {

#[verifier::external_type_specification]
#[verifier::external_body]
pub struct ExValue(serde_json::Value);

/// What serde_json makes of a text: a value, or nothing for bad JSON.
pub uninterp spec fn json_decoded(s: Seq<char>) -> Option<Jv>;

/// Relies on `serde_json::from_str::<Value>`: whether a text parses, and the
/// value it parses to, depend on the text alone.
#[verifier::external_body]
pub fn decode_json(line: &str) -> (r: Option<Jv>)
    ensures
        r == json_decoded(line@),
{
    match serde_json::from_str::<serde_json::Value>(line) {
        Ok(v) => Some(jv_of(&v)),
        Err(_) => None,
    }
}

/// Relies on the `serde_json::Value` variants: each JSON shape is carried
/// over one to one; a number that is no `u64` keeps only its serialized text,
/// which is all the protocol ever does with it.
#[verifier::external_body]
fn jv_of(v: &serde_json::Value) -> Jv {
    match v {
        serde_json::Value::Null => Jv::Null,
        serde_json::Value::Bool(b) => Jv::Bool(*b),
        serde_json::Value::Number(n) => match n.as_u64() {
            Some(u) => Jv::Uint(u),
            None => Jv::Raw(n.to_string()),
        },
        serde_json::Value::String(s) => Jv::Str(s.clone()),
        serde_json::Value::Array(a) => Jv::Arr(a.iter().map(jv_of).collect()),
        serde_json::Value::Object(m) => Jv::Obj(m.iter().map(|(k, x)| (k.clone(), jv_of(x))).collect()),
    }
}

/// The value under the first entry with this key.
pub open spec fn obj_get(o: Seq<(String, Jv)>, k: Seq<char>) -> Option<Jv>
    decreases o.len(),
{
    if o.len() == 0 {
        None
    } else if o[0].0@ == k {
        Some(o[0].1)
    } else {
        obj_get(o.drop_first(), k)
    }
}

/// What a single request object means: its id, its method name, and its
/// parameter value if one is given.
pub ghost struct ReqSpec {
    pub id: Jv,
    pub method: Seq<char>,
    pub params: Option<Jv>,
}

/// The request an object denotes: it needs an `id` and a string `method`;
/// `params` may be absent.
pub open spec fn req_of(v: Jv) -> Option<ReqSpec> {
    match v {
        Jv::Obj(o) => match (obj_get(o@, "id"@), obj_get(o@, "method"@)) {
            (Some(id), Some(Jv::Str(m))) => Some(
                ReqSpec { id: id, method: m@, params: obj_get(o@, "params"@) },
            ),
            _ => None,
        },
        _ => None,
    }
}

/// The requests a batch denotes, all or nothing.
pub open spec fn reqs_of(a: Seq<Jv>) -> Option<Seq<ReqSpec>>
    decreases a.len(),
{
    if a.len() == 0 {
        Some(Seq::empty())
    } else {
        match (req_of(a[0]), reqs_of(a.drop_first())) {
            (Some(r), Some(rest)) => Some(seq![r] + rest),
            _ => None,
        }
    }
}

/// One parsed request: the id already serialized, the method name, and the
/// parameter value, an empty list standing in where none was given.
pub struct ReqIn {
    pub id_text: String,
    pub method: String,
    pub params: Jv,
}

/// How a parsed request realizes a denoted one.
pub open spec fn req_matches(r: ReqIn, s: ReqSpec) -> bool {
    &&& r.id_text@ == jtext(s.id)
    &&& r.method@ == s.method
    &&& match s.params {
        Some(p) => r.params == p,
        None => r.params matches Jv::Arr(a) && a@.len() == 0,
    }
}

/// A decoded input line.
pub enum Frame {
    Bad(ErrKind),
    Single(ReqIn),
    Batch(Vec<ReqIn>),
}

/// Splits a request object into its three fields, keeping the first
/// occurrence of each key.
#[verifier::loop_isolation(false)]
fn split_obj(o: Vec<(String, Jv)>) -> (r: (Option<Jv>, Option<Jv>, Option<Jv>))
    ensures
        r.0 == obj_get(o@, "id"@),
        r.1 == obj_get(o@, "method"@),
        r.2 == obj_get(o@, "params"@),
{
    let mut rest = o;
    let mut id: Option<Jv> = None;
    let mut method: Option<Jv> = None;
    let mut params: Option<Jv> = None;
    proof {
        assert(o@.skip(o@.len() as int) =~= Seq::<(String, Jv)>::empty());
        reveal_strlit("id");
        reveal_strlit("method");
        reveal_strlit("params");
        assert("id"@.len() == 2 && "method"@.len() == 6 && "params"@.len() == 6);
        assert("method"@[0] == 'm' && "params"@[0] == 'p');
        assert("id"@ != "method"@ && "id"@ != "params"@ && "method"@ != "params"@);
    }
    loop
        invariant
            rest@.len() <= o@.len(),
            rest@ == o@.take(rest@.len() as int),
            id == obj_get(o@.skip(rest@.len() as int), "id"@),
            method == obj_get(o@.skip(rest@.len() as int), "method"@),
            params == obj_get(o@.skip(rest@.len() as int), "params"@),
        decreases rest@.len(),
    {
        let ghost pre = rest@;
        match rest.pop() {
            Some((k, v)) => {
                proof {
                    let n = pre.len() as int;
                    assert(pre[n - 1] == (k, v));
                    assert(pre[n - 1] == o@[n - 1]);
                    assert(o@.skip(n - 1) =~= seq![o@[n - 1]] + o@.skip(n));
                    assert(o@.skip(n - 1).drop_first() =~= o@.skip(n));
                }
                if text_eq(&k, "id") {
                    id = Some(v);
                } else if text_eq(&k, "method") {
                    method = Some(v);
                } else if text_eq(&k, "params") {
                    params = Some(v);
                }
                proof {
                    assert(rest@ =~= o@.take(rest@.len() as int));
                }
            },
            None => {
                proof {
                    assert(o@.skip(0) =~= o@);
                }
                return (id, method, params);
            },
        }
    }
}

/// Turns one request object into a parsed request.
fn parse_req(v: Jv) -> (r: Option<ReqIn>)
    ensures
        match r {
            Some(q) => req_of(v) matches Some(s) && req_matches(q, s),
            None => req_of(v) is None,
        },
{
    match v {
        Jv::Obj(o) => {
            let (id, method, params) = split_obj(o);
            match (id, method) {
                (Some(idv), Some(Jv::Str(m))) => {
                    let id_text = chars_to_string(&jv_chars(&idv));
                    let params_jv = match params {
                        Some(p) => p,
                        None => Jv::Arr(Vec::new()),
                    };
                    Some(ReqIn { id_text, method: m, params: params_jv })
                },
                _ => None,
            }
        },
        _ => None,
    }
}

/// Decodes one input line: bad JSON, a bad shape, one request, or a batch.
/// An empty batch counts as a bad shape.
#[verifier::loop_isolation(false)]
pub fn parse_line(line: &str) -> (r: Frame)
    ensures
        match r {
            Frame::Bad(e) => match json_decoded(line@) {
                None => e == ErrKind::Parse,
                Some(v) => e == ErrKind::InvalidRequest && match v {
                    Jv::Obj(_) => req_of(v) is None,
                    Jv::Arr(a) => a@.len() == 0 || reqs_of(a@) is None,
                    _ => true,
                },
            },
            Frame::Single(q) => json_decoded(line@) matches Some(v) && req_of(v) matches Some(s)
                && req_matches(q, s),
            Frame::Batch(qs) => json_decoded(line@) matches Some(Jv::Arr(a)) && (a@.len() > 0
                && (reqs_of(a@) matches Some(ss) && (qs@.len() == ss.len() && forall|k: int|
                0 <= k < qs@.len() ==> req_matches(#[trigger] qs@[k], ss[k])))),
        },
{
    match decode_json(line) {
        None => Frame::Bad(ErrKind::Parse),
        Some(v) => {
            match v {
                Jv::Obj(o) => {
                    match parse_req(Jv::Obj(o)) {
                        Some(q) => Frame::Single(q),
                        None => Frame::Bad(ErrKind::InvalidRequest),
                    }
                },
                Jv::Arr(a) => {
                    if a.len() == 0 {
                        return Frame::Bad(ErrKind::InvalidRequest);
                    }
                    let ghost av = a@;
                    let mut rest = a;
                    let mut out: Vec<ReqIn> = Vec::new();
                    proof {
                        assert(av.skip(av.len() as int) =~= Seq::<Jv>::empty());
                    }
                    loop
                        invariant
                            rest@.len() <= av.len(),
                            rest@ == av.take(rest@.len() as int),
                            reqs_of(av.skip(rest@.len() as int)) matches Some(ss) && out@.len()
                                == ss.len() && forall|k: int|
                                0 <= k < out@.len() ==> req_matches(#[trigger] out@[k], ss[k]),
                        decreases rest@.len(),
                    {
                        let ghost pre = rest@;
                        match rest.pop() {
                            Some(x) => {
                                proof {
                                    let n = pre.len() as int;
                                    assert(pre[n - 1] == x);
                                    assert(pre[n - 1] == av[n - 1]);
                                    assert(av.skip(n - 1) =~= seq![av[n - 1]] + av.skip(n));
                                    assert(av.skip(n - 1).drop_first() =~= av.skip(n));
                                    assert(rest@ =~= av.take(rest@.len() as int));
                                }
                                match parse_req(x) {
                                    Some(q) => {
                                        out.insert(0, q);
                                    },
                                    None => {
                                        proof {
                                            lemma_reqs_prefix_none(av, pre.len() as int - 1);
                                        }
                                        return Frame::Bad(ErrKind::InvalidRequest);
                                    },
                                }
                            },
                            None => {
                                proof {
                                    assert(av.skip(0) =~= av);
                                }
                                return Frame::Batch(out);
                            },
                        }
                    }
                },
                _ => Frame::Bad(ErrKind::InvalidRequest),
            }
        },
    }
}

/// A request that does not parse spoils its whole batch, wherever it sits.
proof fn lemma_reqs_prefix_none(a: Seq<Jv>, i: int)
    requires
        0 <= i < a.len(),
        req_of(a[i]) is None,
    ensures
        reqs_of(a) is None,
    decreases i,
{
    if i == 0 {
    } else {
        assert(a.drop_first()[i - 1] == a[i]);
        lemma_reqs_prefix_none(a.drop_first(), i - 1);
    }
}

} // verus!
