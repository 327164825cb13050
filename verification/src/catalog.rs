//! The closed method catalog: a total map from method name and parameter
//! value to a typed call, refusing unknown names and malformed parameters.
use vstd::prelude::*;

use crate::hexs::spec_unhex;
use crate::jsonval::Jv;
use crate::types::Hash32;
use crate::wire::chars_to_string;

verus! {

/// A typed parameter set, one variant per method.
pub enum Params {
    Banner,
    BlockHeader(u64),
    BlockHeaders(u64, u64),
    TransactionBroadcast(String),
    Donation,
    EstimateFee(u16),
    Features,
    HeadersSubscribe,
    MempoolFeeHistogram,
    PeersSubscribe,
    Ping,
    RelayFee,
    ScriptHashGetBalance(Hash32),
    ScriptHashGetHistory(Hash32),
    ScriptHashGetHistoryFilter(Hash32, Option<u64>, Option<u64>),
    ScriptHashListUnspent(Hash32),
    ScriptHashSelectUnspent(Hash32, Vec<u64>, u64, bool),
    ScriptHashUnspentExist(Hash32, Hash32),
    ScriptHashSubscribe(Hash32),
    ScriptHashUnsubscribe(Hash32),
    TransactionGet(Hash32, bool),
    TransactionGetMerkle(Hash32, u64),
    TransactionFromPosition(u64, u64, bool),
    Version(String, VersionReq),
}

/// The protocol version a client asks for: one version, or a range.
pub enum VersionReq {
    Single(String),
    Range(String, String),
}

pub ghost enum VersionReqV {
    Single(Seq<char>),
    Range(Seq<char>, Seq<char>),
}

pub ghost enum ParamsV {
    Banner,
    BlockHeader(u64),
    BlockHeaders(u64, u64),
    TransactionBroadcast(Seq<char>),
    Donation,
    EstimateFee(u16),
    Features,
    HeadersSubscribe,
    MempoolFeeHistogram,
    PeersSubscribe,
    Ping,
    RelayFee,
    ScriptHashGetBalance(Seq<u8>),
    ScriptHashGetHistory(Seq<u8>),
    ScriptHashGetHistoryFilter(Seq<u8>, Option<u64>, Option<u64>),
    ScriptHashListUnspent(Seq<u8>),
    ScriptHashSelectUnspent(Seq<u8>, Seq<u64>, u64, bool),
    ScriptHashUnspentExist(Seq<u8>, Seq<u8>),
    ScriptHashSubscribe(Seq<u8>),
    ScriptHashUnsubscribe(Seq<u8>),
    TransactionGet(Seq<u8>, bool),
    TransactionGetMerkle(Seq<u8>, u64),
    TransactionFromPosition(u64, u64, bool),
    Version(Seq<char>, VersionReqV),
}

impl View for VersionReq {
    type V = VersionReqV;

    open spec fn view(&self) -> VersionReqV {
        match self {
            VersionReq::Single(s) => VersionReqV::Single(s@),
            VersionReq::Range(a, b) => VersionReqV::Range(a@, b@),
        }
    }
}

impl View for Params {
    type V = ParamsV;

    open spec fn view(&self) -> ParamsV {
        match self {
            Params::Banner => ParamsV::Banner,
            Params::BlockHeader(h) => ParamsV::BlockHeader(*h),
            Params::BlockHeaders(s, c) => ParamsV::BlockHeaders(*s, *c),
            Params::TransactionBroadcast(t) => ParamsV::TransactionBroadcast(t@),
            Params::Donation => ParamsV::Donation,
            Params::EstimateFee(n) => ParamsV::EstimateFee(*n),
            Params::Features => ParamsV::Features,
            Params::HeadersSubscribe => ParamsV::HeadersSubscribe,
            Params::MempoolFeeHistogram => ParamsV::MempoolFeeHistogram,
            Params::PeersSubscribe => ParamsV::PeersSubscribe,
            Params::Ping => ParamsV::Ping,
            Params::RelayFee => ParamsV::RelayFee,
            Params::ScriptHashGetBalance(h) => ParamsV::ScriptHashGetBalance(h@),
            Params::ScriptHashGetHistory(h) => ParamsV::ScriptHashGetHistory(h@),
            Params::ScriptHashGetHistoryFilter(h, f, t) => ParamsV::ScriptHashGetHistoryFilter(
                h@,
                *f,
                *t,
            ),
            Params::ScriptHashListUnspent(h) => ParamsV::ScriptHashListUnspent(h@),
            Params::ScriptHashSelectUnspent(h, a, m, c) => ParamsV::ScriptHashSelectUnspent(
                h@,
                a@,
                *m,
                *c,
            ),
            Params::ScriptHashUnspentExist(h, t) => ParamsV::ScriptHashUnspentExist(h@, t@),
            Params::ScriptHashSubscribe(h) => ParamsV::ScriptHashSubscribe(h@),
            Params::ScriptHashUnsubscribe(h) => ParamsV::ScriptHashUnsubscribe(h@),
            Params::TransactionGet(t, v) => ParamsV::TransactionGet(t@, *v),
            Params::TransactionGetMerkle(t, h) => ParamsV::TransactionGetMerkle(t@, *h),
            Params::TransactionFromPosition(h, p, m) => ParamsV::TransactionFromPosition(
                *h,
                *p,
                *m,
            ),
            Params::Version(c, v) => ParamsV::Version(c@, v@),
        }
    }
}

/// Why a call does not parse.
pub enum CatErr {
    NotFound,
    BadParams,
}

/// A 32-byte digest written as 64 hex digits.
pub open spec fn as_digest(j: Jv) -> Option<Seq<u8>> {
    match j {
        Jv::Str(s) => if s@.len() == 64 {
            spec_unhex(s@)
        } else {
            None
        },
        _ => None,
    }
}

pub open spec fn as_uint(j: Jv) -> Option<u64> {
    match j {
        Jv::Uint(u) => Some(u),
        _ => None,
    }
}

pub open spec fn as_bool(j: Jv) -> Option<bool> {
    match j {
        Jv::Bool(b) => Some(b),
        _ => None,
    }
}

pub open spec fn as_text(j: Jv) -> Option<Seq<char>> {
    match j {
        Jv::Str(s) => Some(s@),
        _ => None,
    }
}

/// An optional index: null stands for an open end.
pub open spec fn as_opt_uint(j: Jv) -> Option<Option<u64>> {
    match j {
        Jv::Null => Some(None),
        Jv::Uint(u) => Some(Some(u)),
        _ => None,
    }
}

/// A list of amounts, every element an unsigned number.
pub open spec fn as_uint_list(a: Seq<Jv>) -> Option<Seq<u64>>
    decreases a.len(),
{
    if a.len() == 0 {
        Some(Seq::empty())
    } else {
        match (as_uint_list(a.drop_last()), as_uint(a.last())) {
            (Some(rest), Some(u)) => Some(rest.push(u)),
            _ => None,
        }
    }
}

/// The version argument: a plain string, or a two-string range.
pub open spec fn as_version(j: Jv) -> Option<VersionReqV> {
    match j {
        Jv::Str(s) => Some(VersionReqV::Single(s@)),
        Jv::Arr(a) => if a@.len() == 2 {
            match (as_text(a@[0]), as_text(a@[1])) {
                (Some(x), Some(y)) => Some(VersionReqV::Range(x, y)),
                _ => None,
            }
        } else {
            None
        },
        _ => None,
    }
}

/// The catalog itself: what `(method, params)` means, or why it is refused.
pub open spec fn catalog(m: Seq<char>, p: Jv) -> Result<ParamsV, CatErr> {
    if m == "server.banner"@ {
        Ok(ParamsV::Banner)
    } else if m == "server.donation_address"@ {
        Ok(ParamsV::Donation)
    } else if m == "server.features"@ {
        Ok(ParamsV::Features)
    } else if m == "server.peers.subscribe"@ {
        Ok(ParamsV::PeersSubscribe)
    } else if m == "server.ping"@ {
        Ok(ParamsV::Ping)
    } else if m == "blockchain.headers.subscribe"@ {
        Ok(ParamsV::HeadersSubscribe)
    } else if m == "blockchain.relayfee"@ {
        Ok(ParamsV::RelayFee)
    } else if m == "mempool.get_fee_histogram"@ {
        Ok(ParamsV::MempoolFeeHistogram)
    } else if m == "blockchain.block.header"@ {
        match arr1(p) {
            Some(a) => match as_uint(a) {
                Some(h) => Ok(ParamsV::BlockHeader(h)),
                None => Err(CatErr::BadParams),
            },
            None => Err(CatErr::BadParams),
        }
    } else if m == "blockchain.block.headers"@ {
        match arr2(p) {
            Some((a, b)) => match (as_uint(a), as_uint(b)) {
                (Some(s), Some(c)) => Ok(ParamsV::BlockHeaders(s, c)),
                _ => Err(CatErr::BadParams),
            },
            None => Err(CatErr::BadParams),
        }
    } else if m == "blockchain.estimatefee"@ {
        match arr1(p) {
            Some(a) => match as_uint(a) {
                Some(n) => if n <= 65535 {
                    Ok(ParamsV::EstimateFee(n as u16))
                } else {
                    Err(CatErr::BadParams)
                },
                None => Err(CatErr::BadParams),
            },
            None => Err(CatErr::BadParams),
        }
    } else if m == "blockchain.transaction.broadcast"@ {
        match arr1(p) {
            Some(a) => match as_text(a) {
                Some(t) => Ok(ParamsV::TransactionBroadcast(t)),
                None => Err(CatErr::BadParams),
            },
            None => Err(CatErr::BadParams),
        }
    } else if m == "blockchain.scripthash.get_balance"@ {
        match sh1(p) {
            Some(h) => Ok(ParamsV::ScriptHashGetBalance(h)),
            None => Err(CatErr::BadParams),
        }
    } else if m == "blockchain.scripthash.get_history"@ {
        match sh1(p) {
            Some(h) => Ok(ParamsV::ScriptHashGetHistory(h)),
            None => Err(CatErr::BadParams),
        }
    } else if m == "blockchain.scripthash.get_history_filter"@ {
        match arr3(p) {
            Some((a, b, c)) => match (as_digest(a), as_opt_uint(b), as_opt_uint(c)) {
                (Some(h), Some(f), Some(t)) => Ok(ParamsV::ScriptHashGetHistoryFilter(h, f, t)),
                _ => Err(CatErr::BadParams),
            },
            None => Err(CatErr::BadParams),
        }
    } else if m == "blockchain.scripthash.listunspent"@ {
        match sh1(p) {
            Some(h) => Ok(ParamsV::ScriptHashListUnspent(h)),
            None => Err(CatErr::BadParams),
        }
    } else if m == "blockchain.scripthash.select_unspent"@ {
        match arr4(p) {
            Some((a, b, c, d)) => match (as_digest(a), list_uints(b), as_uint(c), as_bool(d)) {
                (Some(h), Some(l), Some(mn), Some(cf)) => Ok(
                    ParamsV::ScriptHashSelectUnspent(h, l, mn, cf),
                ),
                _ => Err(CatErr::BadParams),
            },
            None => Err(CatErr::BadParams),
        }
    } else if m == "blockchain.scripthash.unspent_exist"@ {
        match arr2(p) {
            Some((a, b)) => match (as_digest(a), as_digest(b)) {
                (Some(h), Some(t)) => Ok(ParamsV::ScriptHashUnspentExist(h, t)),
                _ => Err(CatErr::BadParams),
            },
            None => Err(CatErr::BadParams),
        }
    } else if m == "blockchain.scripthash.subscribe"@ {
        match sh1(p) {
            Some(h) => Ok(ParamsV::ScriptHashSubscribe(h)),
            None => Err(CatErr::BadParams),
        }
    } else if m == "blockchain.scripthash.unsubscribe"@ {
        match sh1(p) {
            Some(h) => Ok(ParamsV::ScriptHashUnsubscribe(h)),
            None => Err(CatErr::BadParams),
        }
    } else if m == "blockchain.transaction.get"@ {
        match p {
            Jv::Arr(a) => if a@.len() == 1 {
                match as_digest(a@[0]) {
                    Some(t) => Ok(ParamsV::TransactionGet(t, false)),
                    None => Err(CatErr::BadParams),
                }
            } else if a@.len() == 2 {
                match (as_digest(a@[0]), as_bool(a@[1])) {
                    (Some(t), Some(v)) => Ok(ParamsV::TransactionGet(t, v)),
                    _ => Err(CatErr::BadParams),
                }
            } else {
                Err(CatErr::BadParams)
            },
            _ => Err(CatErr::BadParams),
        }
    } else if m == "blockchain.transaction.get_merkle"@ {
        match arr2(p) {
            Some((a, b)) => match (as_digest(a), as_uint(b)) {
                (Some(t), Some(h)) => Ok(ParamsV::TransactionGetMerkle(t, h)),
                _ => Err(CatErr::BadParams),
            },
            None => Err(CatErr::BadParams),
        }
    } else if m == "blockchain.transaction.id_from_pos"@ {
        match arr3(p) {
            Some((a, b, c)) => match (as_uint(a), as_uint(b), as_bool(c)) {
                (Some(h), Some(q), Some(mk)) => Ok(ParamsV::TransactionFromPosition(h, q, mk)),
                _ => Err(CatErr::BadParams),
            },
            None => Err(CatErr::BadParams),
        }
    } else if m == "server.version"@ {
        match arr2(p) {
            Some((a, b)) => match (as_text(a), as_version(b)) {
                (Some(c), Some(v)) => Ok(ParamsV::Version(c, v)),
                _ => Err(CatErr::BadParams),
            },
            None => Err(CatErr::BadParams),
        }
    } else {
        Err(CatErr::NotFound)
    }
}

pub open spec fn arr1(p: Jv) -> Option<Jv> {
    match p {
        Jv::Arr(a) => if a@.len() == 1 {
            Some(a@[0])
        } else {
            None
        },
        _ => None,
    }
}

pub open spec fn arr2(p: Jv) -> Option<(Jv, Jv)> {
    match p {
        Jv::Arr(a) => if a@.len() == 2 {
            Some((a@[0], a@[1]))
        } else {
            None
        },
        _ => None,
    }
}

pub open spec fn arr3(p: Jv) -> Option<(Jv, Jv, Jv)> {
    match p {
        Jv::Arr(a) => if a@.len() == 3 {
            Some((a@[0], a@[1], a@[2]))
        } else {
            None
        },
        _ => None,
    }
}

pub open spec fn arr4(p: Jv) -> Option<(Jv, Jv, Jv, Jv)> {
    match p {
        Jv::Arr(a) => if a@.len() == 4 {
            Some((a@[0], a@[1], a@[2], a@[3]))
        } else {
            None
        },
        _ => None,
    }
}

/// One script-hash as the only parameter.
pub open spec fn sh1(p: Jv) -> Option<Seq<u8>> {
    match arr1(p) {
        Some(a) => as_digest(a),
        None => None,
    }
}

/// A whole parameter list of amounts.
pub open spec fn list_uints(j: Jv) -> Option<Seq<u64>> {
    match j {
        Jv::Arr(a) => as_uint_list(a@),
        _ => None,
    }
}

/// Compares a method name with one of the catalog's.
fn is_method(m: &String, lit: &str) -> (r: bool)
    ensures
        r == (m@ == lit@),
{
    crate::wire::text_eq(m, lit)
}

/// The characters of a string, as a vector.
pub fn str_chars(s: &str) -> (r: Vec<char>)
    ensures
        r@ == s@,
{
    let n = s.unicode_len();
    let mut out: Vec<char> = Vec::new();
    let mut i: usize = 0;
    while i < n
        invariant
            i <= n,
            n == s@.len(),
            out@ =~= s@.take(i as int),
        decreases n - i,
    {
        out.push(s.get_char(i));
        proof {
            assert(out@ =~= s@.take(i + 1 as int));
        }
        i = i + 1;
    }
    proof {
        assert(s@.take(s@.len() as int) =~= s@);
    }
    out
}

/// A digest argument.
fn take_digest(j: &Jv) -> (r: Option<Hash32>)
    ensures
        match r {
            Some(h) => as_digest(*j) == Some(h@) && h.wf(),
            None => as_digest(*j) is None,
        },
{
    match j {
        Jv::Str(s) => {
            let cs = str_chars(s.as_str());
            Hash32::from_hex(&cs)
        },
        _ => None,
    }
}

/// One parsed call: the request id as its serialized text, the method name,
/// and the typed parameters.
pub struct CallMsg {
    pub id_text: String,
    pub method: String,
    pub params: Params,
}

fn get1(p: &Jv) -> (r: Option<&Jv>)
    ensures
        match r {
            Some(x) => arr1(*p) == Some(*x),
            None => arr1(*p) is None,
        },
{
    match p {
        Jv::Arr(a) => if a.len() == 1 {
            Some(&a[0])
        } else {
            None
        },
        _ => None,
    }
}

fn get2(p: &Jv) -> (r: Option<(&Jv, &Jv)>)
    ensures
        match r {
            Some(x) => arr2(*p) == Some((*x.0, *x.1)),
            None => arr2(*p) is None,
        },
{
    match p {
        Jv::Arr(a) => if a.len() == 2 {
            Some((&a[0], &a[1]))
        } else {
            None
        },
        _ => None,
    }
}

fn get3(p: &Jv) -> (r: Option<(&Jv, &Jv, &Jv)>)
    ensures
        match r {
            Some(x) => arr3(*p) == Some((*x.0, *x.1, *x.2)),
            None => arr3(*p) is None,
        },
{
    match p {
        Jv::Arr(a) => if a.len() == 3 {
            Some((&a[0], &a[1], &a[2]))
        } else {
            None
        },
        _ => None,
    }
}

fn get4(p: &Jv) -> (r: Option<(&Jv, &Jv, &Jv, &Jv)>)
    ensures
        match r {
            Some(x) => arr4(*p) == Some((*x.0, *x.1, *x.2, *x.3)),
            None => arr4(*p) is None,
        },
{
    match p {
        Jv::Arr(a) => if a.len() == 4 {
            Some((&a[0], &a[1], &a[2], &a[3]))
        } else {
            None
        },
        _ => None,
    }
}

fn take_uint(j: &Jv) -> (r: Option<u64>)
    ensures
        r == as_uint(*j),
{
    match j {
        Jv::Uint(u) => Some(*u),
        _ => None,
    }
}

fn take_bool(j: &Jv) -> (r: Option<bool>)
    ensures
        r == as_bool(*j),
{
    match j {
        Jv::Bool(b) => Some(*b),
        _ => None,
    }
}

fn take_text(j: &Jv) -> (r: Option<String>)
    ensures
        match r {
            Some(s) => as_text(*j) == Some(s@),
            None => as_text(*j) is None,
        },
{
    match j {
        Jv::Str(s) => Some(s.clone()),
        _ => None,
    }
}

fn take_opt_uint(j: &Jv) -> (r: Option<Option<u64>>)
    ensures
        r == as_opt_uint(*j),
{
    match j {
        Jv::Null => Some(None),
        Jv::Uint(u) => Some(Some(*u)),
        _ => None,
    }
}

#[verifier::loop_isolation(false)]
fn take_uint_list(j: &Jv) -> (r: Option<Vec<u64>>)
    ensures
        match r {
            Some(l) => list_uints(*j) == Some(l@),
            None => list_uints(*j) is None,
        },
{
    match j {
        Jv::Arr(a) => {
            let mut out: Vec<u64> = Vec::new();
            let mut i: usize = 0;
            while i < a.len()
                invariant
                    i <= a.len(),
                    as_uint_list(a@.take(i as int)) == Some(out@),
                decreases a.len() - i,
            {
                match take_uint(&a[i]) {
                    Some(u) => {
                        out.push(u);
                        proof {
                            let t = a@.take(i + 1 as int);
                            assert(t.drop_last() =~= a@.take(i as int));
                            assert(t.last() == a@[i as int]);
                            assert(as_uint_list(a@.take(i + 1 as int)) == Some(out@));
                        }
                    },
                    None => {
                        proof {
                            lemma_uint_list_prefix_none(a@, i + 1 as int);
                        }
                        return None;
                    },
                }
                i = i + 1;
            }
            proof {
                assert(a@.take(a@.len() as int) =~= a@);
            }
            Some(out)
        },
        _ => None,
    }
}

/// A stray element anywhere spoils the whole list.
proof fn lemma_uint_list_prefix_none(a: Seq<Jv>, i: int)
    requires
        0 <= i <= a.len(),
        as_uint_list(a.take(i)) is None,
    ensures
        as_uint_list(a) is None,
    decreases a.len() - i,
{
    if i < a.len() {
        assert(a.take(i + 1).drop_last() =~= a.take(i));
        lemma_uint_list_prefix_none(a, i + 1);
    } else {
        assert(a.take(i) =~= a);
    }
}

fn take_version(j: &Jv) -> (r: Option<VersionReq>)
    ensures
        match r {
            Some(v) => as_version(*j) == Some(v@),
            None => as_version(*j) is None,
        },
{
    match j {
        Jv::Str(s) => Some(VersionReq::Single(s.clone())),
        Jv::Arr(a) => {
            if a.len() == 2 {
                match (take_text(&a[0]), take_text(&a[1])) {
                    (Some(x), Some(y)) => Some(VersionReq::Range(x, y)),
                    _ => None,
                }
            } else {
                None
            }
        },
        _ => None,
    }
}

/// Parses one method's parameters; the result is exactly what the catalog
/// table says for this name and value.
pub fn parse_params(method: &String, params: &Jv) -> (r: Result<Params, CatErr>)
    ensures
        match r {
            Ok(ps) => catalog(method@, *params) == Ok::<ParamsV, CatErr>(ps@),
            Err(e) => catalog(method@, *params) == Err::<ParamsV, CatErr>(e),
        },
{
    if is_method(method, "server.banner") {
        Ok(Params::Banner)
    } else if is_method(method, "server.donation_address") {
        Ok(Params::Donation)
    } else if is_method(method, "server.features") {
        Ok(Params::Features)
    } else if is_method(method, "server.peers.subscribe") {
        Ok(Params::PeersSubscribe)
    } else if is_method(method, "server.ping") {
        Ok(Params::Ping)
    } else if is_method(method, "blockchain.headers.subscribe") {
        Ok(Params::HeadersSubscribe)
    } else if is_method(method, "blockchain.relayfee") {
        Ok(Params::RelayFee)
    } else if is_method(method, "mempool.get_fee_histogram") {
        Ok(Params::MempoolFeeHistogram)
    } else if is_method(method, "blockchain.block.header") {
        match get1(params) {
            Some(a) => match take_uint(a) {
                Some(h) => Ok(Params::BlockHeader(h)),
                None => Err(CatErr::BadParams),
            },
            None => Err(CatErr::BadParams),
        }
    } else if is_method(method, "blockchain.block.headers") {
        match get2(params) {
            Some((a, b)) => match (take_uint(a), take_uint(b)) {
                (Some(s), Some(c)) => Ok(Params::BlockHeaders(s, c)),
                _ => Err(CatErr::BadParams),
            },
            None => Err(CatErr::BadParams),
        }
    } else if is_method(method, "blockchain.estimatefee") {
        match get1(params) {
            Some(a) => match take_uint(a) {
                Some(n) => if n <= 65535 {
                    Ok(Params::EstimateFee(n as u16))
                } else {
                    Err(CatErr::BadParams)
                },
                None => Err(CatErr::BadParams),
            },
            None => Err(CatErr::BadParams),
        }
    } else if is_method(method, "blockchain.transaction.broadcast") {
        match get1(params) {
            Some(a) => match take_text(a) {
                Some(t) => Ok(Params::TransactionBroadcast(t)),
                None => Err(CatErr::BadParams),
            },
            None => Err(CatErr::BadParams),
        }
    } else if is_method(method, "blockchain.scripthash.get_balance") {
        match get1(params) {
            Some(a) => match take_digest(a) {
                Some(h) => Ok(Params::ScriptHashGetBalance(h)),
                None => Err(CatErr::BadParams),
            },
            None => Err(CatErr::BadParams),
        }
    } else if is_method(method, "blockchain.scripthash.get_history") {
        match get1(params) {
            Some(a) => match take_digest(a) {
                Some(h) => Ok(Params::ScriptHashGetHistory(h)),
                None => Err(CatErr::BadParams),
            },
            None => Err(CatErr::BadParams),
        }
    } else if is_method(method, "blockchain.scripthash.get_history_filter") {
        match get3(params) {
            Some((a, b, c)) => match (take_digest(a), take_opt_uint(b), take_opt_uint(c)) {
                (Some(h), Some(f), Some(t)) => Ok(Params::ScriptHashGetHistoryFilter(h, f, t)),
                _ => Err(CatErr::BadParams),
            },
            None => Err(CatErr::BadParams),
        }
    } else if is_method(method, "blockchain.scripthash.listunspent") {
        match get1(params) {
            Some(a) => match take_digest(a) {
                Some(h) => Ok(Params::ScriptHashListUnspent(h)),
                None => Err(CatErr::BadParams),
            },
            None => Err(CatErr::BadParams),
        }
    } else if is_method(method, "blockchain.scripthash.select_unspent") {
        match get4(params) {
            Some((a, b, c, d)) => match (take_digest(a), take_uint_list(b), take_uint(c), take_bool(
                d,
            )) {
                (Some(h), Some(l), Some(mn), Some(cf)) => Ok(
                    Params::ScriptHashSelectUnspent(h, l, mn, cf),
                ),
                _ => Err(CatErr::BadParams),
            },
            None => Err(CatErr::BadParams),
        }
    } else if is_method(method, "blockchain.scripthash.unspent_exist") {
        match get2(params) {
            Some((a, b)) => match (take_digest(a), take_digest(b)) {
                (Some(h), Some(t)) => Ok(Params::ScriptHashUnspentExist(h, t)),
                _ => Err(CatErr::BadParams),
            },
            None => Err(CatErr::BadParams),
        }
    } else if is_method(method, "blockchain.scripthash.subscribe") {
        match get1(params) {
            Some(a) => match take_digest(a) {
                Some(h) => Ok(Params::ScriptHashSubscribe(h)),
                None => Err(CatErr::BadParams),
            },
            None => Err(CatErr::BadParams),
        }
    } else if is_method(method, "blockchain.scripthash.unsubscribe") {
        match get1(params) {
            Some(a) => match take_digest(a) {
                Some(h) => Ok(Params::ScriptHashUnsubscribe(h)),
                None => Err(CatErr::BadParams),
            },
            None => Err(CatErr::BadParams),
        }
    } else if is_method(method, "blockchain.transaction.get") {
        match params {
            Jv::Arr(a) => {
                if a.len() == 1 {
                    match take_digest(&a[0]) {
                        Some(t) => Ok(Params::TransactionGet(t, false)),
                        None => Err(CatErr::BadParams),
                    }
                } else if a.len() == 2 {
                    match (take_digest(&a[0]), take_bool(&a[1])) {
                        (Some(t), Some(v)) => Ok(Params::TransactionGet(t, v)),
                        _ => Err(CatErr::BadParams),
                    }
                } else {
                    Err(CatErr::BadParams)
                }
            },
            _ => Err(CatErr::BadParams),
        }
    } else if is_method(method, "blockchain.transaction.get_merkle") {
        match get2(params) {
            Some((a, b)) => match (take_digest(a), take_uint(b)) {
                (Some(t), Some(h)) => Ok(Params::TransactionGetMerkle(t, h)),
                _ => Err(CatErr::BadParams),
            },
            None => Err(CatErr::BadParams),
        }
    } else if is_method(method, "blockchain.transaction.id_from_pos") {
        match get3(params) {
            Some((a, b, c)) => match (take_uint(a), take_uint(b), take_bool(c)) {
                (Some(h), Some(q), Some(mk)) => Ok(Params::TransactionFromPosition(h, q, mk)),
                _ => Err(CatErr::BadParams),
            },
            None => Err(CatErr::BadParams),
        }
    } else if is_method(method, "server.version") {
        match get2(params) {
            Some((a, b)) => match (take_text(a), take_version(b)) {
                (Some(c), Some(v)) => Ok(Params::Version(c, v)),
                _ => Err(CatErr::BadParams),
            },
            None => Err(CatErr::BadParams),
        }
    } else {
        Err(CatErr::NotFound)
    }
}

} // verus!
