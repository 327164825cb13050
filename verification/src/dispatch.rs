//! The dispatcher: one parsed call at a time, against the per-client state
//! and the answers the collaborators gave so far.
//!
//! The tracker, the daemon, the transaction cache and the merkle-proof
//! builder live outside this crate. Whatever a handler needs from them is a
//! `Query`; the caller performs it and hands back the matching `Answer`,
//! then runs the call again with the grown answer list. A call mutates the
//! client only when it completes, so the replay is safe; on a mismatched
//! answer the same query is asked again.
use vstd::prelude::*;

use crate::catalog::{Params, ParamsV, VersionReq, VersionReqV, CallMsg};
use crate::client::{Client, has_key, val_of, spec_subscribe, statushash_shows};
use crate::hexs::{spec_dec, spec_digit, spec_hex, digit, push_dec, unhex};
use crate::jsonval::{Jv, jtext};
use crate::types::{Hash32, Status, StatusV, RemoteErr, EntryV};
use crate::wire::{chars_to_string, push_str_chars, push_chars, notification_line,
    spec_notification_line, ErrKind};

verus! {

#[verifier::external_type_specification]
#[verifier::external_body]
pub struct ExTransaction(bitcoin::Transaction);

/// Whether a byte string is a complete consensus encoding of a transaction.
pub uninterp spec fn tx_decodes(b: Seq<u8>) -> bool;

/// The bytes a transaction value was decoded from.
pub uninterp spec fn tx_bytes_of(t: bitcoin::Transaction) -> Seq<u8>;

/// Relies on `bitcoin::consensus::deserialize::<Transaction>`: it succeeds
/// exactly on the complete, well-formed encodings, as a function of the
/// bytes alone, and the value it returns stands for exactly the given bytes.
#[verifier::external_body]
fn parse_tx(b: &Vec<u8>) -> (r: Result<bitcoin::Transaction, ()>)
    ensures
        r is Ok <==> tx_decodes(b@),
        r matches Ok(t) ==> tx_bytes_of(t) == b@,
{
    match bitcoin::consensus::deserialize::<bitcoin::Transaction>(b.as_slice()) {
        Ok(tx) => Ok(tx),
        Err(_) => Err(()),
    }
}

/// The chain tip as the tracker shows it.
pub struct ChainTip {
    pub hash: Hash32,
    pub height: u64,
    pub header_hex: String,
}

/// What a handler needs from a collaborator.
pub enum Query {
    /// A fresh status for one script-hash, built against the index.
    BuildStatus(Hash32),
    /// Fresh statuses for many script-hashes, built in parallel.
    BuildStatuses(Vec<Hash32>),
    /// The current chain tip.
    ChainTip,
    /// The serialized header at a height, if the chain reaches it.
    Header(u64),
    /// The serialized headers at the heights `[start, end)` that exist.
    HeaderRange(u64, u64),
    /// A fee estimate for this many blocks, in satoshis per kilobyte.
    EstimateFee(u16),
    /// The node's relay fee, in satoshis per kilobyte.
    RelayFee,
    /// The mempool fee histogram, as its serialized JSON value.
    FeeHistogram,
    /// Hand this transaction to the node.
    Broadcast(bitcoin::Transaction),
    /// The serialized transaction from the cache, if cached.
    CachedTx(Hash32),
    /// The confirmed transaction from the index: its block hash and its
    /// serialized form.
    IndexTx(Hash32),
    /// The serialized transaction from the node.
    DaemonTxHex(Hash32),
    /// The node's verbose description of a transaction, as JSON text.
    DaemonTxInfo(Hash32, Option<Hash32>),
    /// The block hash at a height, if the chain reaches it.
    BlockHash(u64),
    /// The transaction ids of a block, in block order.
    BlockTxids(Hash32),
    /// The merkle proof nodes for the transaction at this position, each as
    /// hex text.
    MerkleProof(Vec<Hash32>, u64),
    /// The hash of the first block.
    GenesisHash,
}

/// What the collaborator answered.
pub enum Answer {
    Status(Result<Status, String>),
    Statuses(Vec<(Hash32, Result<Status, String>)>),
    ChainTip(ChainTip),
    Header(Option<String>),
    HeaderRange(Vec<String>),
    EstimateFee(Result<Option<u64>, RemoteErr>),
    RelayFee(Result<u64, RemoteErr>),
    FeeHistogram(Result<String, RemoteErr>),
    Broadcast(Result<Hash32, RemoteErr>),
    CachedTx(Option<String>),
    IndexTx(Result<Option<(Hash32, String)>, RemoteErr>),
    DaemonTxHex(Result<String, RemoteErr>),
    DaemonTxInfo(Result<String, RemoteErr>),
    BlockHash(Option<Hash32>),
    BlockTxids(Result<Vec<Hash32>, RemoteErr>),
    MerkleProof(Vec<String>),
    GenesisHash(Option<Hash32>),
}

/// One step of a call: its response line fragment, or the next query.
pub enum Step {
    Done(String),
    Need(Query),
}

/// The failure a collaborator reported, as the error it is answered with.
pub open spec fn remote_err(e: RemoteErr) -> ErrKind {
    match e {
        RemoteErr::Daemon(m) => ErrKind::Daemon(m),
        RemoteErr::Other(m) => ErrKind::Bad(m),
    }
}

fn remote_to_err(e: &RemoteErr) -> (r: ErrKind)
    ensures
        r == remote_err(*e),
{
    match e {
        RemoteErr::Daemon(m) => ErrKind::Daemon(m.clone()),
        RemoteErr::Other(m) => ErrKind::Bad(m.clone()),
    }
}

/// The methods served while the index is still catching up.
pub open spec fn gate_allows(p: ParamsV) -> bool {
    ||| p is BlockHeader
    ||| p is BlockHeaders
    ||| p is HeadersSubscribe
    ||| p is Version
}

/// Value of a decimal digit run, most significant first.
pub open spec fn dec_val(s: Seq<char>) -> int
    decreases s.len(),
{
    if s.len() == 0 {
        0
    } else {
        dec_val(s.drop_last()) * 10 + (s.last() as int - 48)
    }
}

/// A run of one to nine decimal digits.
pub open spec fn is_digits(s: Seq<char>) -> bool {
    1 <= s.len() <= 9 && forall|i: int| 0 <= i < s.len() ==> '0' <= #[trigger] s[i] <= '9'
}

/// A protocol version `major.minor`, both components short digit runs.
pub open spec fn ver_of(s: Seq<char>) -> Option<(int, int)> {
    if exists|d: int| 0 <= d < s.len() && s[d] == '.' {
        let d = choose|d: int| 0 <= d < s.len() && s[d] == '.';
        if is_digits(s.take(d)) && is_digits(s.skip(d + 1)) && (forall|i: int|
            0 <= i < s.len() && i != d ==> s[i] != '.') {
            Some((dec_val(s.take(d)), dec_val(s.skip(d + 1))))
        } else {
            None
        }
    } else {
        None
    }
}

/// Version order: by major, then minor.
pub open spec fn ver_le(a: (int, int), b: (int, int)) -> bool {
    a.0 < b.0 || (a.0 == b.0 && a.1 <= b.1)
}

/// Whether a client's version request negotiates to protocol 1.4: either the
/// exact string, or a range that brackets it.
pub open spec fn version_ok(v: VersionReqV) -> bool {
    match v {
        VersionReqV::Single(s) => s == "1.4"@,
        VersionReqV::Range(a, b) => match (ver_of(a), ver_of(b)) {
            (Some(x), Some(y)) => ver_le(x, (1, 4)) && ver_le((1, 4), y),
            _ => false,
        },
    }
}

/// Splits a version text at its single dot and reads both digit runs.
#[verifier::loop_isolation(false)]
fn parse_ver(s: &String) -> (r: Option<(u64, u64)>)
    ensures
        match r {
            Some(p) => ver_of(s@) == Some((p.0 as int, p.1 as int)),
            None => ver_of(s@) is None,
        },
{
    let n = s.as_str().unicode_len();
    let mut dot: Option<usize> = None;
    let mut i: usize = 0;
    while i < n
        invariant
            i <= n,
            n == s@.len(),
            match dot {
                Some(d) => d < i && s@[d as int] == '.' && forall|k: int|
                    0 <= k < i && k != d ==> s@[k] != '.',
                None => forall|k: int| 0 <= k < i ==> s@[k] != '.',
            },
        decreases n - i,
    {
        if s.as_str().get_char(i) == '.' {
            match dot {
                Some(_) => {
                    proof {
                        lemma_two_dots(s@, dot->Some_0 as int, i as int);
                    }
                    return None;
                },
                None => {
                    dot = Some(i);
                },
            }
        }
        i = i + 1;
    }
    match dot {
        None => {
            proof {
                if ver_of(s@) is Some {
                    let d = choose|d: int| 0 <= d < s@.len() && s@[d] == '.';
                }
                assert(ver_of(s@) is None);
            }
            None
        },
        Some(d) => {
            proof {
                assert(s@[d as int] == '.');
                let w = choose|w: int| 0 <= w < s@.len() && s@[w] == '.';
                if w != d {
                    assert(s@[w] != '.');
                }
            }
            let major = read_digits(s, 0, d);
            let minor = read_digits(s, d + 1, n);
            proof {
                assert(s@.take(d as int) =~= s@.take(d as int));
            }
            match (major, minor) {
                (Some(x), Some(y)) => {
                    proof {
                        assert(s@.subrange(0, d as int) =~= s@.take(d as int));
                        assert(s@.subrange(d + 1 as int, n as int) =~= s@.skip(d + 1 as int));
                    }
                    Some((x, y))
                },
                _ => {
                    proof {
                        assert(s@.subrange(0, d as int) =~= s@.take(d as int));
                        assert(s@.subrange(d + 1 as int, n as int) =~= s@.skip(d + 1 as int));
                    }
                    None
                },
            }
        },
    }
}

/// With a second dot in the text, no split passes the single-dot test.
proof fn lemma_two_dots(s: Seq<char>, d1: int, d2: int)
    requires
        0 <= d1 < s.len(),
        0 <= d2 < s.len(),
        d1 != d2,
        s[d1] == '.',
        s[d2] == '.',
    ensures
        ver_of(s) is None,
{
    if ver_of(s) is Some {
        let d = choose|d: int| 0 <= d < s.len() && s[d] == '.';
        if d != d1 {
            assert(s[d1] != '.');
        } else {
            assert(s[d2] != '.');
        }
    }
}

/// Reads the digit run at `[from, to)`; nine digits at most.
#[verifier::loop_isolation(false)]
fn read_digits(s: &String, from: usize, to: usize) -> (r: Option<u64>)
    requires
        from <= to <= s@.len(),
    ensures
        match r {
            Some(v) => is_digits(s@.subrange(from as int, to as int)) && v as int == dec_val(
                s@.subrange(from as int, to as int),
            ),
            None => !is_digits(s@.subrange(from as int, to as int)),
        },
{
    let len = to - from;
    if len < 1 || len > 9 {
        return None;
    }
    let mut v: u64 = 0;
    let mut i: usize = from;
    while i < to
        invariant
            from <= i <= to,
            to <= s@.len(),
            to - from <= 9,
            forall|k: int| from <= k < i ==> '0' <= #[trigger] s@[k] <= '9',
            v as int == dec_val(s@.subrange(from as int, i as int)),
            v < 1000000000,
        decreases to - i,
    {
        let c = s.as_str().get_char(i);
        let u = c as u32;
        if u < 48 || u > 57 {
            proof {
                assert(s@.subrange(from as int, to as int)[i - from] == s@[i as int]);
            }
            return None;
        }
        proof {
            let pre = s@.subrange(from as int, i + 1 as int);
            assert(pre.drop_last() =~= s@.subrange(from as int, i as int));
            assert(pre.last() == s@[i as int]);
            lemma_dec_bound(s@.subrange(from as int, i + 1 as int));
        }
        v = v * 10 + ((u - 48) as u64);
        i = i + 1;
    }
    proof {
        assert(s@.subrange(from as int, to as int) =~= s@.subrange(from as int, i as int));
    }
    Some(v)
}

/// Ten to the `n`.
pub open spec fn p10(n: nat) -> int
    decreases n,
{
    if n == 0 {
        1
    } else {
        10 * p10((n - 1) as nat)
    }
}

/// The value of a digit run is below ten to its length.
proof fn lemma_dec_pow(s: Seq<char>)
    requires
        forall|i: int| 0 <= i < s.len() ==> '0' <= #[trigger] s[i] <= '9',
    ensures
        0 <= dec_val(s) < p10(s.len() as nat),
    decreases s.len(),
{
    if s.len() > 0 {
        lemma_dec_pow(s.drop_last());
    }
}

/// A digit run of at most nine digits stays below a billion.
proof fn lemma_dec_bound(s: Seq<char>)
    requires
        forall|i: int| 0 <= i < s.len() ==> '0' <= #[trigger] s[i] <= '9',
        s.len() <= 9,
    ensures
        0 <= dec_val(s) < 1000000000,
{
    lemma_dec_pow(s);
    assert(p10(9) == 1000000000) by {
        reveal_with_fuel(p10, 10);
    }
    if s.len() < 9 {
        lemma_p10_le(s.len() as nat, 9);
    }
}

/// Ten to the power grows with the exponent.
proof fn lemma_p10_le(a: nat, b: nat)
    requires
        a <= b,
    ensures
        1 <= p10(a) <= p10(b),
    decreases b,
{
    if a < b {
        lemma_p10_le(a, (b - 1) as nat);
    } else if a > 0 {
        lemma_p10_le((a - 1) as nat, (b - 1) as nat);
    }
}


/// Digits of an eight-place fraction, most significant first.
pub open spec fn pad8(f: u64) -> Seq<char> {
    Seq::new(8, |i: int| spec_digit((((f as int) / p10((7 - i) as nat)) % 10) as u8))
}

/// Drops trailing zeros, keeping at least one digit.
pub open spec fn trim_frac(s: Seq<char>) -> Seq<char>
    decreases s.len(),
{
    if s.len() <= 1 {
        s
    } else if s.last() == '0' {
        trim_frac(s.drop_last())
    } else {
        s
    }
}

/// A satoshi amount as decimal bitcoin text: whole part, a dot, and the
/// fraction with trailing zeros dropped.
pub open spec fn spec_btc(sats: u64) -> Seq<char> {
    spec_dec((sats / 100000000) as nat) + seq!['.'] + trim_frac(pad8(sats % 100000000))
}

/// Writes a satoshi amount as bitcoin text.
#[verifier::loop_isolation(false)]
fn btc_text(sats: u64) -> (r: String)
    ensures
        r@ == spec_btc(sats),
{
    let mut out: Vec<char> = Vec::new();
    push_dec(sats / 100000000, &mut out);
    out.push('.');
    let f: u64 = sats % 100000000;
    let mut frac: Vec<char> = Vec::new();
    frac.push(digit(((f / 10000000) % 10) as u8));
    frac.push(digit(((f / 1000000) % 10) as u8));
    frac.push(digit(((f / 100000) % 10) as u8));
    frac.push(digit(((f / 10000) % 10) as u8));
    frac.push(digit(((f / 1000) % 10) as u8));
    frac.push(digit(((f / 100) % 10) as u8));
    frac.push(digit(((f / 10) % 10) as u8));
    frac.push(digit((f % 10) as u8));
    proof {
        reveal_with_fuel(p10, 9);
        assert(frac@ =~= pad8(f));
    }
    while frac.len() > 1 && frac[frac.len() - 1] == '0'
        invariant
            frac@.len() >= 1,
            trim_frac(frac@) == trim_frac(pad8(f)),
        decreases frac@.len(),
    {
        frac.pop();
    }
    proof {
        assert(trim_frac(frac@) == frac@);
    }
    push_chars(&frac, &mut out);
    proof {
        assert(out@ =~= spec_btc(sats));
    }
    chars_to_string(&out)
}

/// The params body of a status notification: the script-hash and the status
/// hash, hex-quoted, the latter null while the history is empty.
pub open spec fn sub_note(sh: Seq<u8>, hash: Option<Seq<u8>>) -> Seq<char> {
    spec_notification_line(
        "blockchain.scripthash.subscribe"@,
        seq!['"'] + spec_hex(sh) + seq!['"', ','] + match hash {
            Some(h) => seq!['"'] + spec_hex(h) + seq!['"'],
            None => "null"@
        },
    )
}

/// The headers notification for a new tip.
pub open spec fn headers_note(height: u64, hex: Seq<char>) -> Seq<char> {
    spec_notification_line(
        "blockchain.headers.subscribe"@,
        "{\"height\":"@ + spec_dec(height as nat) + ",\"hex\":\""@ + hex + "\"}"@,
    )
}

fn sub_note_line(sh: &Hash32, hash: &Option<Hash32>) -> (r: String)
    ensures
        r@ == sub_note(sh@, match hash {
            Some(h) => Some(h@),
            None => None,
        }),
{
    let mut body: Vec<char> = Vec::new();
    body.push('"');
    crate::hexs::push_hex(&sh.bytes, &mut body);
    body.push('"');
    body.push(',');
    match hash {
        Some(h) => {
            body.push('"');
            crate::hexs::push_hex(&h.bytes, &mut body);
            body.push('"');
        },
        None => {
            push_str_chars("null", &mut body);
        },
    }
    proof {
        assert(body@ =~= seq!['"'] + spec_hex(sh@) + seq!['"', ','] + match hash {
            Some(h) => seq!['"'] + spec_hex(h@) + seq!['"'],
            None => "null"@,
        });
    }
    notification_line("blockchain.scripthash.subscribe", &body)
}

fn headers_note_line(height: u64, hex: &String) -> (r: String)
    ensures
        r@ == headers_note(height, hex@),
{
    let mut body: Vec<char> = Vec::new();
    push_str_chars("{\"height\":", &mut body);
    push_dec(height, &mut body);
    push_str_chars(",\"hex\":\"", &mut body);
    push_str_chars(hex.as_str(), &mut body);
    push_str_chars("\"}", &mut body);
    proof {
        assert(body@ =~= "{\"height\":"@ + spec_dec(height as nat) + ",\"hex\":\""@ + hex@
            + "\"}"@);
    }
    notification_line("blockchain.headers.subscribe", &body)
}

/// Compares two optional status hashes by contents.
fn opt_hash_eq(a: &Option<Hash32>, b: &Option<Hash32>) -> (r: bool)
    ensures
        r == (match *a {
            Some(x) => Some(x@),
            None => None::<Seq<u8>>,
        } == match *b {
            Some(y) => Some(y@),
            None => None::<Seq<u8>>,
        }),
{
    match (a, b) {
        (None, None) => true,
        (Some(x), Some(y)) => x.same(y),
        _ => false,
    }
}

/// What one status update does to the table, and the notification it emits:
/// a changed status hash is announced, an unchanged one is stored silently,
/// and an unknown key changes nothing.
pub open spec fn step_update(subs: Seq<(Seq<u8>, StatusV)>, up: (Seq<u8>, StatusV)) -> (
    Seq<(Seq<u8>, StatusV)>,
    Seq<Seq<char>>,
) {
    if has_key(subs, up.0) {
        let stored = val_of(subs, up.0);
        let subs2 = crate::client::set_val(subs, up.0, up.1);
        if stored.hash != up.1.hash {
            (subs2, seq![sub_note(up.0, up.1.hash)])
        } else {
            (subs2, Seq::<Seq<char>>::empty())
        }
    } else {
        (subs, Seq::<Seq<char>>::empty())
    }
}

/// The first `i` updates, run in order.
pub open spec fn run_updates(
    subs: Seq<(Seq<u8>, StatusV)>,
    ups: Seq<(Seq<u8>, StatusV)>,
    i: int,
) -> (Seq<(Seq<u8>, StatusV)>, Seq<Seq<char>>)
    decreases i,
{
    if i <= 0 {
        (subs, Seq::<Seq<char>>::empty())
    } else {
        let prev = run_updates(subs, ups, i - 1);
        let st = step_update(prev.0, ups[i - 1]);
        (st.0, prev.1 + st.1)
    }
}

/// The update rounds seen as key and status pairs; meaningful when every
/// round succeeded.
pub open spec fn ups_v(u: Seq<(Hash32, Result<Status, String>)>) -> Seq<(Seq<u8>, StatusV)> {
    u.map_values(|p: (Hash32, Result<Status, String>)| (p.0@, match p.1 {
        Ok(st) => st@,
        Err(_) => arbitrary(),
    }))
}

/// Whether some update round failed.
pub open spec fn ups_failed(u: Seq<(Hash32, Result<Status, String>)>) -> bool {
    exists|k: int| 0 <= k < u.len() && u[k].1 is Err
}


/// The requested protocol version, as the refusal shows it.
pub open spec fn version_req_text(v: VersionReqV) -> Seq<char> {
    match v {
        VersionReqV::Single(s) => s,
        VersionReqV::Range(a, b) => a + "-"@ + b,
    }
}

/// The words a refused version request is answered with: they name the
/// client, what it asked for, and what the server speaks.
pub open spec fn version_err_text(client_id: Seq<char>, v: VersionReqV) -> Seq<char> {
    client_id + " requested "@ + version_req_text(v) + ", server speaks 1.4"@
}

/// The Electrum RPC handler: the configuration its answers are built from.
pub struct Rpc {
    pub banner: String,
    pub port: u16,
    pub server_version: String,
}

impl Rpc {
    /// A handler over a banner, a port to advertise, and the version text
    /// the server announces as `electrs/<version>`.
    pub fn new(banner: String, port: u16, server_version: String) -> (r: Rpc)
        ensures
            r.banner@ == banner@,
            r.port == port,
            r.server_version@ == server_version@,
    {
        Rpc { banner, port, server_version }
    }

    /// The server's identity string.
    pub fn server_id(&self) -> (r: String)
        ensures
            r@ == "electrs/"@ + self.server_version@,
    {
        let mut out: Vec<char> = Vec::new();
        push_str_chars("electrs/", &mut out);
        push_str_chars(self.server_version.as_str(), &mut out);
        chars_to_string(&out)
    }

    /// Negotiates the protocol version: exactly 1.4, or a range around it.
    pub fn version(&self, client_id: &String, req: &VersionReq) -> (r: Result<Jv, ErrKind>)
        ensures
            match r {
                Ok(j) => version_ok(req@) && (j matches Jv::Arr(a) && a@.len() == 2 && (a@[0]
                    matches Jv::Str(sid) && sid@ == "electrs/"@ + self.server_version@) && (a@[1]
                    matches Jv::Str(p) && p@ == "1.4"@)),
                Err(e) => !version_ok(req@) && (e matches ErrKind::Bad(m) && m@
                    == version_err_text(client_id@, req@)),
            },
{
        let ok: bool = match req {
            VersionReq::Single(s) => crate::wire::text_eq(s, "1.4"),
            VersionReq::Range(a, b) => {
                let low = parse_ver(a);
                let high = parse_ver(b);
                match (low, high) {
                    (Some(x), Some(y)) => {
                        let lo_ok = x.0 < 1 || (x.0 == 1 && x.1 <= 4);
                        let hi_ok = y.0 > 1 || (y.0 == 1 && y.1 >= 4);
                        lo_ok && hi_ok
                    },
                    _ => false,
                }
            },
        };
        if ok {
            let mut a: Vec<Jv> = Vec::new();
            a.push(Jv::Str(self.server_id()));
            a.push(Jv::Str(String::from_str("1.4")));
            Ok(Jv::Arr(a))
        } else {
            let mut m: Vec<char> = Vec::new();
            push_str_chars(client_id.as_str(), &mut m);
            push_str_chars(" requested ", &mut m);
            match req {
                VersionReq::Single(v) => push_str_chars(v.as_str(), &mut m),
                VersionReq::Range(a, b) => {
                    push_str_chars(a.as_str(), &mut m);
                    push_str_chars("-", &mut m);
                    push_str_chars(b.as_str(), &mut m);
                },
            }
            push_str_chars(", server speaks 1.4", &mut m);
            Err(ErrKind::Bad(chars_to_string(&m)))
        }
    }

    /// Remembers the tip the client was told and describes it.
    pub fn headers_subscribe(&self, client: &mut Client, tip: &ChainTip) -> (r: Jv)
        requires
            old(client).wf(),
        ensures
            final(client).wf(),
            final(client)@.subs == old(client)@.subs,
            final(client)@.tip == Some(tip.hash@),
            tip_shows(r, tip.height, tip.header_hex@),
    {
        client.tip = Some(tip.hash.dup());
        let mut o: Vec<(String, Jv)> = Vec::new();
        o.push((String::from_str("height"), Jv::Uint(tip.height)));
        o.push((String::from_str("hex"), Jv::Str(tip.header_hex.clone())));
        Jv::Obj(o)
    }

    /// Runs one update round and reports what changed, the tip last.
    ///
    /// A notification for a script-hash goes out exactly when the freshly
    /// computed status hash differs from the stored one; the headers
    /// notification goes out at most once, and never to a client that has
    /// not subscribed to headers. A failed round fails the whole call and
    /// leaves the client untouched.
    #[verifier::loop_isolation(false)]
    pub fn update_client(
        &self,
        client: &mut Client,
        updates: &Vec<(Hash32, Result<Status, String>)>,
        tip: &ChainTip,
    ) -> (r: Result<Vec<String>, String>)
        requires
            old(client).wf(),
        ensures
            final(client).wf(),
            match r {
                Err(m) => final(client)@ == old(client)@ && ups_failed(updates@) && m@
                    == "failed to update status"@,
                Ok(lines) => !ups_failed(updates@) && ({
                    let ran = run_updates(old(client)@.subs, ups_v(updates@), updates@.len() as int);
                    &&& final(client)@.subs == ran.0
                    &&& match old(client)@.tip {
                        None => final(client)@.tip == old(client)@.tip && lines@.map_values(
                            |s: String| s@,
                        ) == ran.1,
                        Some(t) => if t != tip.hash@ {
                            final(client)@.tip == Some(tip.hash@) && lines@.map_values(
                                |s: String| s@,
                            ) == ran.1 + seq![headers_note(tip.height, tip.header_hex@)]
                        } else {
                            final(client)@.tip == old(client)@.tip && lines@.map_values(
                                |s: String| s@,
                            ) == ran.1
                        },
                    }
                }),
            },
    {
        let mut i: usize = 0;
        while i < updates.len()
            invariant
                i <= updates.len(),
                forall|k: int| 0 <= k < i ==> updates@[k].1 is Ok,
            decreases updates.len() - i,
        {
            if updates[i].1.is_err() {
                return Err(String::from_str("failed to update status"));
            }
            i = i + 1;
        }
        let ghost subs0 = old(client)@.subs;
        let ghost upsv = ups_v(updates@);
        let mut lines: Vec<String> = Vec::new();
        let mut u: usize = 0;
        while u < updates.len()
            invariant
                u <= updates.len(),
                client.wf(),
                client@.tip == old(client)@.tip,
                client@.subs == run_updates(subs0, upsv, u as int).0,
                lines@.map_values(|s: String| s@) == run_updates(subs0, upsv, u as int).1,
                forall|k: int| 0 <= k < updates@.len() ==> updates@[k].1 is Ok,
            decreases updates.len() - u,
        {
            let ghost pre = client@.subs;
            let sh = &updates[u].0;
            let st = match &updates[u].1 {
                Ok(st) => st,
                Err(_) => {
                    proof {
                        assert(updates@[u as int].1 is Ok);
                    }
                    return Err(String::from_str("failed to update status"));
                },
            };
            proof {
                assert(upsv[u as int] == (sh@, st@));
            }
            match client.find(sh) {
                Some(ix) => {
                    let stored_hash_same = opt_hash_eq(
                        &client.scripthashes[ix].1.statushash,
                        &st.statushash,
                    );
                    if !stored_hash_same {
                        lines.push(sub_note_line(sh, &st.statushash));
                    }
                    proof {
                        assert(val_of(pre, sh@) == pre[ix as int].1);
                        assert(val_of(pre, sh@).hash == (match client.scripthashes@[ix as int].1.statushash {
                            Some(x) => Some(x@),
                            None => None::<Seq<u8>>,
                        }));
                        assert(st@.hash == (match st.statushash {
                            Some(x) => Some(x@),
                            None => None::<Seq<u8>>,
                        }));
                    }
                    let pair = (sh.dup(), st.dup());
                    client.scripthashes[ix] = pair;
                    proof {
                        assert(client@.subs =~= crate::client::set_val(pre, sh@, st@));
                        assert forall|a: int, b: int|
                            0 <= a < b < client@.subs.len() implies client@.subs[a].0
                            != client@.subs[b].0 by {
                            assert(client@.subs[a].0 == pre[a].0 && client@.subs[b].0 == pre[b].0);
                        }
                        assert(lines@.map_values(|s: String| s@) =~= run_updates(
                            subs0,
                            upsv,
                            u + 1 as int,
                        ).1);
                    }
                },
                None => {
                    proof {
                        assert(client@.subs == run_updates(subs0, upsv, u + 1 as int).0);
                        assert(lines@.map_values(|s: String| s@) =~= run_updates(
                            subs0,
                            upsv,
                            u + 1 as int,
                        ).1);
                    }
                },
            }
            u = u + 1;
        }
        match &client.tip {
            Some(t) => {
                if !t.same(&tip.hash) {
                    client.tip = Some(tip.hash.dup());
                    lines.push(headers_note_line(tip.height, &tip.header_hex));
                    proof {
                        assert(lines@.map_values(|s: String| s@) =~= run_updates(
                            subs0,
                            upsv,
                            updates@.len() as int,
                        ).1 + seq![headers_note(tip.height, tip.header_hex@)]);
                    }
                }
            },
            None => {},
        }
        Ok(lines)
    }
}

/// A chain tip as a response value: its height and its serialized header.
pub open spec fn tip_shows(j: Jv, height: u64, hex: Seq<char>) -> bool {
    &&& j matches Jv::Obj(o)
    &&& o@.len() == 2
    &&& o@[0].0@ == "height"@
    &&& o@[0].1 == Jv::Uint(height)
    &&& o@[1].0@ == "hex"@
    &&& o@[1].1 matches Jv::Str(s) && s@ == hex
}


/// The call finished with exactly this line.
pub open spec fn done_text(r: Step, t: Seq<char>) -> bool {
    r matches Step::Done(s) && s@ == t
}

/// A status hash as a result value's text.
pub open spec fn hash_text(h: Option<Seq<u8>>) -> Seq<char> {
    match h {
        Some(x) => seq!['"'] + spec_hex(x) + seq!['"'],
        None => "null"@,
    }
}

pub open spec fn no_header_msg(h: u64) -> Seq<char> {
    "no header at "@ + spec_dec(h as nat)
}

pub open spec fn missing_block_msg(h: u64) -> Seq<char> {
    "missing block at "@ + spec_dec(h as nat)
}

pub open spec fn missing_txid_msg(tx: Seq<u8>, bh: Seq<u8>) -> Seq<char> {
    "missing txid "@ + spec_hex(tx) + " in block "@ + spec_hex(bh)
}

pub open spec fn bad_pos_msg(pos: u64, h: u64) -> Seq<char> {
    "invalid tx_pos "@ + spec_dec(pos as nat) + " in block at height "@ + spec_dec(h as nat)
}

/// Clamped to the range of a 64-bit count.
pub open spec fn sat64(x: int) -> int {
    if x > u64::MAX {
        u64::MAX as int
    } else {
        x
    }
}

/// Where the served header range ends: the tip bounds it, and so does the
/// requested count, itself capped at 2016.
pub open spec fn spec_headers_end(start: u64, count: u64, tip: u64) -> int {
    let cap: int = if count > 2016 {
        2016
    } else {
        count as int
    };
    let by_count = sat64(start + cap);
    let by_tip = sat64(tip + 1);
    if by_tip < by_count {
        by_tip
    } else {
        by_count
    }
}

/// The texts joined, in order.
pub open spec fn concat_texts(hs: Seq<Seq<char>>) -> Seq<char>
    decreases hs.len(),
{
    if hs.len() == 0 {
        Seq::empty()
    } else {
        concat_texts(hs.drop_last()) + hs.last()
    }
}

/// The block-headers answer: how many heights the range covers, their
/// serialized headers joined, and the count cap.
pub open spec fn headers_shows(j: Jv, count: u64, hexes: Seq<Seq<char>>) -> bool {
    &&& j matches Jv::Obj(o)
    &&& o@.len() == 3
    &&& o@[0].0@ == "count"@
    &&& o@[0].1 == Jv::Uint(count)
    &&& o@[1].0@ == "hex"@
    &&& o@[1].1 matches Jv::Str(s) && s@ == concat_texts(hexes)
    &&& o@[2].0@ == "max"@
    &&& o@[2].1 == Jv::Uint(2016u64)
}

/// The server.features answer.
pub open spec fn features_shows(j: Jv, genesis: Option<Seq<u8>>, port: u16, sid: Seq<char>) -> bool {
    &&& j matches Jv::Obj(o)
    &&& o@.len() == 7
    &&& o@[0].0@ == "genesis_hash"@
    &&& statushash_shows(o@[0].1, genesis)
    &&& o@[1].0@ == "hash_function"@
    &&& o@[1].1 matches Jv::Str(hf) && hf@ == "sha256"@
    &&& o@[2].0@ == "hosts"@
    &&& (o@[2].1 matches Jv::Obj(hosts) && hosts@.len() == 1 && hosts@[0].0@ == "tcp_port"@
        && hosts@[0].1 == Jv::Uint(port as u64))
    &&& o@[3].0@ == "protocol_max"@
    &&& o@[3].1 matches Jv::Str(pmax) && pmax@ == "1.4"@
    &&& o@[4].0@ == "protocol_min"@
    &&& o@[4].1 matches Jv::Str(pmin) && pmin@ == "1.4"@
    &&& o@[5].0@ == "pruning"@
    &&& o@[5].1 == Jv::Null
    &&& o@[6].0@ == "server_version"@
    &&& o@[6].1 matches Jv::Str(sv) && sv@ == sid
}

/// A list of hex node texts as a JSON value.
pub open spec fn nodes_show(j: Jv, nodes: Seq<Seq<char>>) -> bool {
    j matches Jv::Arr(ns) && ns@.len() == nodes.len() && forall|k: int|
        0 <= k < ns@.len() ==> (#[trigger] ns@[k] matches Jv::Str(s) && s@ == nodes[k])
}

/// The merkle-proof answer for a confirmed transaction.
pub open spec fn merkle_shows(j: Jv, height: u64, pos: u64, nodes: Seq<Seq<char>>) -> bool {
    &&& j matches Jv::Obj(o)
    &&& o@.len() == 3
    &&& o@[0].0@ == "block_height"@
    &&& o@[0].1 == Jv::Uint(height)
    &&& o@[1].0@ == "merkle"@
    &&& nodes_show(o@[1].1, nodes)
    &&& o@[2].0@ == "pos"@
    &&& o@[2].1 == Jv::Uint(pos)
}

/// The id-from-position answer, with the proof when asked for.
pub open spec fn idpos_shows(j: Jv, tx: Seq<u8>, nodes: Option<Seq<Seq<char>>>) -> bool {
    match nodes {
        Some(ns) => {
            &&& j matches Jv::Obj(o)
            &&& o@.len() == 2
            &&& o@[0].0@ == "merkle"@
            &&& nodes_show(o@[0].1, ns)
            &&& o@[1].0@ == "tx_id"@
            &&& o@[1].1 matches Jv::Str(s) && s@ == spec_hex(tx)
        },
        None => {
            &&& j matches Jv::Obj(o)
            &&& o@.len() == 1
            &&& o@[0].0@ == "tx_id"@
            &&& o@[0].1 matches Jv::Str(s) && s@ == spec_hex(tx)
        },
    }
}

/// The position of a transaction in a block's id list, from `i` on.
pub open spec fn tx_pos_from(ts: Seq<Seq<u8>>, tx: Seq<u8>, i: int) -> Option<int>
    decreases ts.len() - i,
{
    if i < 0 || i >= ts.len() {
        None
    } else if ts[i] == tx {
        Some(i)
    } else {
        tx_pos_from(ts, tx, i + 1)
    }
}

/// Views of a list of digests.
pub open spec fn hashes_v(ts: Seq<Hash32>) -> Seq<Seq<u8>> {
    ts.map_values(|t: Hash32| t@)
}

/// How a reader method finds its status: the stored one, a fresh one from
/// the first answer, or not at all.
pub ghost enum ReaderCase {
    Use(StatusV),
    Ask,
    Fail(String),
}

pub open spec fn reader_step(
    subs: Seq<(Seq<u8>, StatusV)>,
    sh: Seq<u8>,
    answers: Seq<Answer>,
) -> ReaderCase {
    if has_key(subs, sh) {
        ReaderCase::Use(val_of(subs, sh))
    } else if answers.len() == 0 {
        ReaderCase::Ask
    } else {
        match answers[0] {
            Answer::Status(Ok(st)) => ReaderCase::Use(st@),
            Answer::Status(Err(m)) => ReaderCase::Fail(m),
            _ => ReaderCase::Ask,
        }
    }
}

/// A fresh status is being asked for.
pub open spec fn asks_build(r: Step, sh: Seq<u8>) -> bool {
    r matches Step::Need(Query::BuildStatus(h)) && h@ == sh
}

enum Resolved<'a> {
    Use(&'a Status),
    Ask,
    Fail(String),
}

/// Picks the status a reader method works on.
fn resolve_status<'a>(client: &'a Client, sh: &Hash32, answers: &'a Vec<Answer>) -> (r: Resolved<
    'a,
>)
    requires
        client.wf(),
    ensures
        match r {
            Resolved::Use(st) => reader_step(client@.subs, sh@, answers@) == ReaderCase::Use(st@),
            Resolved::Ask => reader_step(client@.subs, sh@, answers@) is Ask,
            Resolved::Fail(m) => reader_step(client@.subs, sh@, answers@) == ReaderCase::Fail(m),
        },
{
    match client.find(sh) {
        Some(i) => Resolved::Use(&client.scripthashes[i].1),
        None => {
            if answers.len() == 0 {
                Resolved::Ask
            } else {
                match &answers[0] {
                    Answer::Status(Ok(st)) => Resolved::Use(st),
                    Answer::Status(Err(m)) => Resolved::Fail(m.clone()),
                    _ => Resolved::Ask,
                }
            }
        },
    }
}


/// The protocol answer of an accepted version request.
pub open spec fn version_shows(j: Jv, server_version: Seq<char>) -> bool {
    &&& j matches Jv::Arr(a)
    &&& a@.len() == 2
    &&& a@[0] matches Jv::Str(sid) && sid@ == "electrs/"@ + server_version
    &&& a@[1] matches Jv::Str(p) && p@ == "1.4"@
}

/// The headers-subscribe call answered with this tip.
pub open spec fn tip_done(r: Step, id: Seq<char>, height: u64, hex: Seq<char>) -> bool {
    exists|j: Jv| tip_shows(j, height, hex) && done_text(
        r,
        crate::wire::spec_result_line(id, jtext(j)),
    )
}

/// The version call answered.
pub open spec fn version_done(r: Step, id: Seq<char>, server_version: Seq<char>) -> bool {
    exists|j: Jv| version_shows(j, server_version) && done_text(
        r,
        crate::wire::spec_result_line(id, jtext(j)),
    )
}

/// The reader answered with this balance object.
pub open spec fn balance_done(r: Step, id: Seq<char>, unspent: Seq<EntryV>) -> bool {
    exists|j: Jv| crate::status::balance_shows(j, unspent) && done_text(
        r,
        crate::wire::spec_result_line(id, jtext(j)),
    )
}

/// The reader answered with this history slice.
pub open spec fn history_done(
    r: Step,
    id: Seq<char>,
    hist: Seq<crate::types::HistV>,
    from: Option<u64>,
    to: Option<u64>,
) -> bool {
    exists|j: Jv| crate::status::history_shows(j, hist, from, to) && done_text(
        r,
        crate::wire::spec_result_line(id, jtext(j)),
    )
}

/// The reader answered with this unspent list.
pub open spec fn unspent_done(r: Step, id: Seq<char>, unspent: Seq<EntryV>) -> bool {
    exists|j: Jv| crate::status::unspent_shows(j, unspent) && done_text(
        r,
        crate::wire::spec_result_line(id, jtext(j)),
    )
}

/// The selector answered over this unspent set.
pub open spec fn select_done(
    r: Step,
    id: Seq<char>,
    unspent: Seq<EntryV>,
    amounts: Seq<u64>,
    min_amount: u64,
    confirmed: bool,
) -> bool {
    exists|j: Jv| crate::status::select_shows(j, unspent, amounts, min_amount, confirmed)
        && done_text(r, crate::wire::spec_result_line(id, jtext(j)))
}

/// The block-headers call answered for this range.
pub open spec fn headers_done(r: Step, id: Seq<char>, count: u64, hexes: Seq<Seq<char>>) -> bool {
    exists|j: Jv| headers_shows(j, count, hexes) && done_text(
        r,
        crate::wire::spec_result_line(id, jtext(j)),
    )
}

/// The features call answered.
pub open spec fn features_done(
    r: Step,
    id: Seq<char>,
    genesis: Option<Seq<u8>>,
    port: u16,
    sid: Seq<char>,
) -> bool {
    exists|j: Jv| features_shows(j, genesis, port, sid) && done_text(
        r,
        crate::wire::spec_result_line(id, jtext(j)),
    )
}

/// The merkle call answered.
pub open spec fn merkle_done(
    r: Step,
    id: Seq<char>,
    height: u64,
    pos: u64,
    nodes: Seq<Seq<char>>,
) -> bool {
    exists|j: Jv| merkle_shows(j, height, pos, nodes) && done_text(
        r,
        crate::wire::spec_result_line(id, jtext(j)),
    )
}

/// The id-from-position call answered.
pub open spec fn idpos_done(r: Step, id: Seq<char>, tx: Seq<u8>, nodes: Option<Seq<Seq<char>>>) -> bool {
    exists|j: Jv| idpos_shows(j, tx, nodes) && done_text(
        r,
        crate::wire::spec_result_line(id, jtext(j)),
    )
}

/// What serving `blockchain.block.headers` does with the answers so far.
pub open spec fn headers_clause(
    r: Step,
    id: Seq<char>,
    start: u64,
    count: u64,
    answers: Seq<Answer>,
) -> bool {
    if answers.len() == 0 {
        r is Need && r matches Step::Need(Query::ChainTip)
    } else {
        match answers[0] {
            Answer::ChainTip(t) => {
                let end = spec_headers_end(start, count, t.height);
                let served: int = if end > start {
                    end - start
                } else {
                    0
                };
                if answers.len() == 1 {
                    r matches Step::Need(Query::HeaderRange(a, b)) && a == start && b == end
                } else {
                    match answers[1] {
                        Answer::HeaderRange(hexes) => headers_done(
                            r,
                            id,
                            served as u64,
                            hexes@.map_values(|s: String| s@),
                        ),
                        _ => r matches Step::Need(Query::HeaderRange(a, b)) && a == start && b
                            == end,
                    }
                }
            },
            _ => r matches Step::Need(Query::ChainTip),
        }
    }
}

/// What serving `blockchain.transaction.get_merkle` does.
pub open spec fn merkle_clause(
    r: Step,
    id: Seq<char>,
    tx: Seq<u8>,
    h: u64,
    answers: Seq<Answer>,
) -> bool {
    if answers.len() == 0 {
        r matches Step::Need(Query::BlockHash(x)) && x == h
    } else {
        match answers[0] {
            Answer::BlockHash(None) => done_text(
                r,
                crate::wire::spec_error_text(id, 1, missing_block_msg(h)),
            ),
            Answer::BlockHash(Some(bh)) => {
                if answers.len() == 1 {
                    r matches Step::Need(Query::BlockTxids(b)) && b@ == bh@
                } else {
                    match answers[1] {
                        Answer::BlockTxids(Err(e)) => done_text(
                            r,
                            crate::wire::spec_error_line(id, remote_err(e)),
                        ),
                        Answer::BlockTxids(Ok(ts)) => match tx_pos_from(hashes_v(ts@), tx, 0) {
                            None => done_text(
                                r,
                                crate::wire::spec_error_text(id, 1, missing_txid_msg(tx, bh@)),
                            ),
                            Some(p) => if answers.len() == 2 {
                                r matches Step::Need(Query::MerkleProof(qs, qp)) && hashes_v(qs@)
                                    == hashes_v(ts@) && qp == p
                            } else {
                                match answers[2] {
                                    Answer::MerkleProof(nodes) => merkle_done(
                                        r,
                                        id,
                                        h,
                                        p as u64,
                                        nodes@.map_values(|s: String| s@),
                                    ),
                                    _ => r matches Step::Need(Query::MerkleProof(qs, qp))
                                        && hashes_v(qs@) == hashes_v(ts@) && qp == p,
                                }
                            },
                        },
                        _ => r matches Step::Need(Query::BlockTxids(b)) && b@ == bh@,
                    }
                }
            },
            _ => r matches Step::Need(Query::BlockHash(x)) && x == h,
        }
    }
}

/// What serving `blockchain.transaction.id_from_pos` does.
pub open spec fn idpos_clause(
    r: Step,
    id: Seq<char>,
    h: u64,
    pos: u64,
    want: bool,
    answers: Seq<Answer>,
) -> bool {
    if answers.len() == 0 {
        r matches Step::Need(Query::BlockHash(x)) && x == h
    } else {
        match answers[0] {
            Answer::BlockHash(None) => done_text(
                r,
                crate::wire::spec_error_text(id, 1, missing_block_msg(h)),
            ),
            Answer::BlockHash(Some(bh)) => {
                if answers.len() == 1 {
                    r matches Step::Need(Query::BlockTxids(b)) && b@ == bh@
                } else {
                    match answers[1] {
                        Answer::BlockTxids(Err(e)) => done_text(
                            r,
                            crate::wire::spec_error_line(id, remote_err(e)),
                        ),
                        Answer::BlockTxids(Ok(ts)) => if pos >= ts@.len() {
                            done_text(r, crate::wire::spec_error_text(id, 1, bad_pos_msg(pos, h)))
                        } else if !want {
                            idpos_done(r, id, ts@[pos as int]@, None)
                        } else if answers.len() == 2 {
                            r matches Step::Need(Query::MerkleProof(qs, qp)) && hashes_v(qs@)
                                == hashes_v(ts@) && qp == pos
                        } else {
                            match answers[2] {
                                Answer::MerkleProof(nodes) => idpos_done(
                                    r,
                                    id,
                                    ts@[pos as int]@,
                                    Some(nodes@.map_values(|s: String| s@)),
                                ),
                                _ => r matches Step::Need(Query::MerkleProof(qs, qp)) && hashes_v(
                                    qs@,
                                ) == hashes_v(ts@) && qp == pos,
                            }
                        },
                        _ => r matches Step::Need(Query::BlockTxids(b)) && b@ == bh@,
                    }
                }
            },
            _ => r matches Step::Need(Query::BlockHash(x)) && x == h,
        }
    }
}

/// What serving `blockchain.transaction.get` does.
pub open spec fn txget_clause(
    r: Step,
    id: Seq<char>,
    tx: Seq<u8>,
    verbose: bool,
    answers: Seq<Answer>,
) -> bool {
    if verbose {
        if answers.len() == 0 {
            r matches Step::Need(Query::IndexTx(t)) && t@ == tx
        } else {
            match answers[0] {
                Answer::IndexTx(Err(e)) => done_text(
                    r,
                    crate::wire::spec_error_line(id, remote_err(e)),
                ),
                Answer::IndexTx(Ok(found)) => {
                    let bh = match found {
                        Some(p) => Some(p.0@),
                        None => None,
                    };
                    if answers.len() == 1 {
                        r matches Step::Need(Query::DaemonTxInfo(t, b)) && t@ == tx && (match b {
                            Some(x) => Some(x@),
                            None => None,
                        }) == bh
                    } else {
                        match answers[1] {
                            Answer::DaemonTxInfo(Ok(raw)) => done_text(
                                r,
                                crate::wire::spec_result_line(id, raw@),
                            ),
                            Answer::DaemonTxInfo(Err(e)) => done_text(
                                r,
                                crate::wire::spec_error_line(id, remote_err(e)),
                            ),
                            _ => r matches Step::Need(Query::DaemonTxInfo(t, _)) && t@ == tx,
                        }
                    }
                },
                _ => r matches Step::Need(Query::IndexTx(t)) && t@ == tx,
            }
        }
    } else {
        if answers.len() == 0 {
            r matches Step::Need(Query::CachedTx(t)) && t@ == tx
        } else {
            match answers[0] {
                Answer::CachedTx(Some(hex)) => done_text(
                    r,
                    crate::wire::spec_result_line(
                        id,
                        seq!['"'] + crate::jsonval::spec_esc(hex@) + seq!['"'],
                    ),
                ),
                Answer::CachedTx(None) => {
                    if answers.len() == 1 {
                        r matches Step::Need(Query::IndexTx(t)) && t@ == tx
                    } else {
                        match answers[1] {
                            Answer::IndexTx(Err(e)) => done_text(
                                r,
                                crate::wire::spec_error_line(id, remote_err(e)),
                            ),
                            Answer::IndexTx(Ok(Some(p))) => done_text(
                                r,
                                crate::wire::spec_result_line(
                                    id,
                                    seq!['"'] + crate::jsonval::spec_esc(p.1@) + seq!['"'],
                                ),
                            ),
                            Answer::IndexTx(Ok(None)) => {
                                if answers.len() == 2 {
                                    r matches Step::Need(Query::DaemonTxHex(t)) && t@ == tx
                                } else {
                                    match answers[2] {
                                        Answer::DaemonTxHex(Ok(hex)) => done_text(
                                            r,
                                            crate::wire::spec_result_line(
                                                id,
                                                seq!['"'] + crate::jsonval::spec_esc(hex@)
                                                    + seq!['"'],
                                            ),
                                        ),
                                        Answer::DaemonTxHex(Err(e)) => done_text(
                                            r,
                                            crate::wire::spec_error_line(id, remote_err(e)),
                                        ),
                                        _ => r matches Step::Need(Query::DaemonTxHex(t)) && t@
                                            == tx,
                                    }
                                }
                            },
                            _ => r matches Step::Need(Query::IndexTx(t)) && t@ == tx,
                        }
                    }
                },
                _ => r matches Step::Need(Query::CachedTx(t)) && t@ == tx,
            }
        }
    }
}


/// Wraps a handler outcome as the response for this id.
fn respond(id: &String, res: Result<Jv, ErrKind>) -> (r: String)
    ensures
        match res {
            Ok(j) => r@ == crate::wire::spec_result_line(id@, jtext(j)),
            Err(e) => r@ == crate::wire::spec_error_line(id@, e),
        },
{
    match res {
        Ok(j) => crate::wire::result_line(id, &j),
        Err(e) => crate::wire::error_line(id, &e),
    }
}

fn msg_no_header(h: u64) -> (r: String)
    ensures
        r@ == no_header_msg(h),
{
    let mut m: Vec<char> = Vec::new();
    push_str_chars("no header at ", &mut m);
    push_dec(h, &mut m);
    chars_to_string(&m)
}

fn msg_missing_block(h: u64) -> (r: String)
    ensures
        r@ == missing_block_msg(h),
{
    let mut m: Vec<char> = Vec::new();
    push_str_chars("missing block at ", &mut m);
    push_dec(h, &mut m);
    chars_to_string(&m)
}

fn msg_missing_txid(tx: &Hash32, bh: &Hash32) -> (r: String)
    ensures
        r@ == missing_txid_msg(tx@, bh@),
{
    let mut m: Vec<char> = Vec::new();
    push_str_chars("missing txid ", &mut m);
    crate::hexs::push_hex(&tx.bytes, &mut m);
    push_str_chars(" in block ", &mut m);
    crate::hexs::push_hex(&bh.bytes, &mut m);
    chars_to_string(&m)
}

fn msg_bad_pos(pos: u64, h: u64) -> (r: String)
    ensures
        r@ == bad_pos_msg(pos, h),
{
    let mut m: Vec<char> = Vec::new();
    push_str_chars("invalid tx_pos ", &mut m);
    push_dec(pos, &mut m);
    push_str_chars(" in block at height ", &mut m);
    push_dec(h, &mut m);
    chars_to_string(&m)
}

/// Joins serialized headers.
#[verifier::loop_isolation(false)]
fn concat_strs(v: &Vec<String>) -> (r: String)
    ensures
        r@ == concat_texts(v@.map_values(|s: String| s@)),
{
    let mut out: Vec<char> = Vec::new();
    let mut i: usize = 0;
    while i < v.len()
        invariant
            i <= v.len(),
            out@ == concat_texts(v@.map_values(|s: String| s@).take(i as int)),
        decreases v.len() - i,
    {
        push_str_chars(v[i].as_str(), &mut out);
        proof {
            let m = v@.map_values(|s: String| s@);
            assert(m.take(i + 1 as int).drop_last() =~= m.take(i as int));
            assert(m.take(i + 1 as int).last() == m[i as int]);
        }
        i = i + 1;
    }
    proof {
        let m = v@.map_values(|s: String| s@);
        assert(m.take(m.len() as int) =~= m);
    }
    chars_to_string(&out)
}

/// A list of hex node texts as a JSON array value.
#[verifier::loop_isolation(false)]
fn str_arr_jv(v: &Vec<String>) -> (r: Jv)
    ensures
        nodes_show(r, v@.map_values(|s: String| s@)),
{
    let mut items: Vec<Jv> = Vec::new();
    let mut i: usize = 0;
    while i < v.len()
        invariant
            i <= v.len(),
            items@.len() == i,
            forall|k: int|
                0 <= k < i ==> (#[trigger] items@[k] matches Jv::Str(x) && x@ == v@[k]@),
        decreases v.len() - i,
    {
        items.push(Jv::Str(v[i].clone()));
        i = i + 1;
    }
    Jv::Arr(items)
}

/// Duplicates a list of digests.
#[verifier::loop_isolation(false)]
fn dup_hashes(v: &Vec<Hash32>) -> (r: Vec<Hash32>)
    ensures
        hashes_v(r@) == hashes_v(v@),
{
    let mut out: Vec<Hash32> = Vec::new();
    let mut i: usize = 0;
    while i < v.len()
        invariant
            i <= v.len(),
            hashes_v(out@) =~= hashes_v(v@).take(i as int),
        decreases v.len() - i,
    {
        out.push(v[i].dup());
        proof {
            assert(hashes_v(out@) =~= hashes_v(v@).take(i + 1 as int));
        }
        i = i + 1;
    }
    proof {
        assert(hashes_v(v@).take(v@.len() as int) =~= hashes_v(v@));
    }
    out
}

/// The first position of a transaction among a block's ids.
#[verifier::loop_isolation(false)]
fn find_tx_pos(ts: &Vec<Hash32>, tx: &Hash32) -> (r: Option<usize>)
    ensures
        match r {
            Some(p) => tx_pos_from(hashes_v(ts@), tx@, 0) == Some(p as int),
            None => tx_pos_from(hashes_v(ts@), tx@, 0) is None,
        },
{
    let ghost hv = hashes_v(ts@);
    let mut i: usize = 0;
    while i < ts.len()
        invariant
            i <= ts.len(),
            tx_pos_from(hv, tx@, 0) == tx_pos_from(hv, tx@, i as int),
        decreases ts.len() - i,
    {
        if ts[i].same(tx) {
            proof {
                assert(hv[i as int] == tx@);
            }
            return Some(i);
        }
        proof {
            assert(hv[i as int] != tx@);
        }
        i = i + 1;
    }
    None
}

/// The end of the served header range, computed against the tip.
fn headers_end(start: u64, count: u64, tip: u64) -> (r: u64)
    ensures
        r as int == spec_headers_end(start, count, tip),
{
    let cap: u64 = if count > 2016 {
        2016
    } else {
        count
    };
    let by_count: u64 = if start > u64::MAX - cap {
        u64::MAX
    } else {
        start + cap
    };
    let by_tip: u64 = if tip == u64::MAX {
        u64::MAX
    } else {
        tip + 1
    };
    if by_tip < by_count {
        by_tip
    } else {
        by_count
    }
}


impl Rpc {
    /// Serves one parsed call, consuming the collaborator answers gathered
    /// so far; asks for the next one where they do not suffice. The client
    /// state changes only when the call completes, never on `Need`, so the
    /// caller may simply run the call again with one more answer. While the
    /// index is not ready, only the header, headers-subscribe and version
    /// calls are served; everything else is refused with the index error.
    #[verifier::rlimit(100)]
    pub fn single_call(
        &self,
        client: &mut Client,
        call: &CallMsg,
        ready: bool,
        answers: &Vec<Answer>,
    ) -> (r: Step)
        requires
            old(client).wf(),
        ensures
            final(client).wf(),
            r is Need ==> final(client)@ == old(client)@,
            !(call.params is ScriptHashSubscribe || call.params is ScriptHashUnsubscribe
                || call.params is HeadersSubscribe) ==> final(client)@ == old(client)@,
            ({
                let id = call.id_text@;
                let subs0 = old(client)@.subs;
                if !ready && !gate_allows(call.params@) {
                    done_text(r, crate::wire::spec_error_line(id, ErrKind::Unavailable)) && final(client)@ == old(client)@
                } else {
                    match call.params {
                        Params::Ping => done_text(r, crate::wire::spec_result_line(id, "null"@)),
                        Params::Donation => done_text(
                            r,
                            crate::wire::spec_result_line(id, "null"@),
                        ),
                        Params::Banner => done_text(
                            r,
                            crate::wire::spec_result_line(
                                id,
                                seq!['"'] + crate::jsonval::spec_esc(self.banner@) + seq!['"'],
                            ),
                        ),
                        Params::PeersSubscribe => done_text(
                            r,
                            crate::wire::spec_result_line(id, seq!['[', ']']),
                        ),
                        Params::Version(cid, vreq) => if version_ok(vreq@) {
                            version_done(r, id, self.server_version@)
                        } else {
                            done_text(
                                r,
                                crate::wire::spec_error_text(id, 1, version_err_text(cid@, vreq@)),
                            )
                        },
                        Params::Features => if answers@.len() == 0 {
                            r matches Step::Need(Query::GenesisHash)
                        } else {
                            match answers@[0] {
                                Answer::GenesisHash(g) => features_done(
                                    r,
                                    id,
                                    match g {
                                        Some(x) => Some(x@),
                                        None => None,
                                    },
                                    self.port,
                                    "electrs/"@ + self.server_version@,
                                ),
                                _ => r matches Step::Need(Query::GenesisHash),
                            }
                        },
                        Params::HeadersSubscribe => if answers@.len() == 0 {
                            r matches Step::Need(Query::ChainTip)
                        } else {
                            match answers@[0] {
                                Answer::ChainTip(t) => final(client)@.tip == Some(t.hash@)
                                    && final(client)@.subs == subs0 && tip_done(
                                    r,
                                    id,
                                    t.height,
                                    t.header_hex@,
                                ),
                                _ => r matches Step::Need(Query::ChainTip),
                            }
                        },
                        Params::BlockHeader(h) => if answers@.len() == 0 {
                            r matches Step::Need(Query::Header(x)) && x == h
                        } else {
                            match answers@[0] {
                                Answer::Header(Some(hex)) => done_text(
                                    r,
                                    crate::wire::spec_result_line(
                                        id,
                                        seq!['"'] + crate::jsonval::spec_esc(hex@) + seq!['"'],
                                    ),
                                ),
                                Answer::Header(None) => done_text(
                                    r,
                                    crate::wire::spec_error_text(id, 1, no_header_msg(h)),
                                ),
                                _ => r matches Step::Need(Query::Header(x)) && x == h,
                            }
                        },
                        Params::BlockHeaders(start, count) => headers_clause(
                            r,
                            id,
                            start,
                            count,
                            answers@,
                        ),
                        Params::EstimateFee(n) => if answers@.len() == 0 {
                            r matches Step::Need(Query::EstimateFee(x)) && x == n
                        } else {
                            match answers@[0] {
                                Answer::EstimateFee(Ok(Some(sats))) => done_text(
                                    r,
                                    crate::wire::spec_result_line(id, spec_btc(sats)),
                                ),
                                Answer::EstimateFee(Ok(None)) => done_text(
                                    r,
                                    crate::wire::spec_result_line(id, seq!['-', '1']),
                                ),
                                Answer::EstimateFee(Err(e)) => done_text(
                                    r,
                                    crate::wire::spec_error_line(id, remote_err(e)),
                                ),
                                _ => r matches Step::Need(Query::EstimateFee(x)) && x == n,
                            }
                        },
                        Params::RelayFee => if answers@.len() == 0 {
                            r matches Step::Need(Query::RelayFee)
                        } else {
                            match answers@[0] {
                                Answer::RelayFee(Ok(sats)) => done_text(
                                    r,
                                    crate::wire::spec_result_line(id, spec_btc(sats)),
                                ),
                                Answer::RelayFee(Err(e)) => done_text(
                                    r,
                                    crate::wire::spec_error_line(id, remote_err(e)),
                                ),
                                _ => r matches Step::Need(Query::RelayFee),
                            }
                        },
                        Params::MempoolFeeHistogram => if answers@.len() == 0 {
                            r matches Step::Need(Query::FeeHistogram)
                        } else {
                            match answers@[0] {
                                Answer::FeeHistogram(Ok(raw)) => done_text(
                                    r,
                                    crate::wire::spec_result_line(id, raw@),
                                ),
                                Answer::FeeHistogram(Err(e)) => done_text(
                                    r,
                                    crate::wire::spec_error_line(id, remote_err(e)),
                                ),
                                _ => r matches Step::Need(Query::FeeHistogram),
                            }
                        },
                        Params::ScriptHashGetBalance(sh) => match reader_step(
                            subs0,
                            sh@,
                            answers@,
                        ) {
                            ReaderCase::Use(st) => balance_done(r, id, st.unspent),
                            ReaderCase::Ask => asks_build(r, sh@),
                            ReaderCase::Fail(m) => done_text(
                                r,
                                crate::wire::spec_error_text(id, 1, m@),
                            ),
                        },
                        Params::ScriptHashGetHistory(sh) => match reader_step(
                            subs0,
                            sh@,
                            answers@,
                        ) {
                            ReaderCase::Use(st) => history_done(r, id, st.history, None, None),
                            ReaderCase::Ask => asks_build(r, sh@),
                            ReaderCase::Fail(m) => done_text(
                                r,
                                crate::wire::spec_error_text(id, 1, m@),
                            ),
                        },
                        Params::ScriptHashGetHistoryFilter(sh, from, to) => match reader_step(
                            subs0,
                            sh@,
                            answers@,
                        ) {
                            ReaderCase::Use(st) => history_done(r, id, st.history, from, to),
                            ReaderCase::Ask => asks_build(r, sh@),
                            ReaderCase::Fail(m) => done_text(
                                r,
                                crate::wire::spec_error_text(id, 1, m@),
                            ),
                        },
                        Params::ScriptHashListUnspent(sh) => match reader_step(
                            subs0,
                            sh@,
                            answers@,
                        ) {
                            ReaderCase::Use(st) => unspent_done(r, id, st.unspent),
                            ReaderCase::Ask => asks_build(r, sh@),
                            ReaderCase::Fail(m) => done_text(
                                r,
                                crate::wire::spec_error_text(id, 1, m@),
                            ),
                        },
                        Params::ScriptHashSelectUnspent(sh, amounts, min_amount, confirmed) => match reader_step(
                            subs0,
                            sh@,
                            answers@,
                        ) {
                            ReaderCase::Use(st) => select_done(
                                r,
                                id,
                                st.unspent,
                                amounts@,
                                min_amount,
                                confirmed,
                            ),
                            ReaderCase::Ask => asks_build(r, sh@),
                            ReaderCase::Fail(m) => done_text(
                                r,
                                crate::wire::spec_error_text(id, 1, m@),
                            ),
                        },
                        Params::ScriptHashUnspentExist(sh, tx) => match reader_step(
                            subs0,
                            sh@,
                            answers@,
                        ) {
                            ReaderCase::Use(st) => done_text(
                                r,
                                crate::wire::spec_result_line(
                                    id,
                                    if exists|k: int|
                                        0 <= k < st.unspent.len() && st.unspent[k].tx == tx@ {
                                        "true"@
                                    } else {
                                        "false"@
                                    },
                                ),
                            ),
                            ReaderCase::Ask => asks_build(r, sh@),
                            ReaderCase::Fail(m) => done_text(
                                r,
                                crate::wire::spec_error_text(id, 1, m@),
                            ),
                        },
                        Params::ScriptHashSubscribe(sh) => {
                            if has_key(subs0, sh@) {
                                final(client)@ == old(client)@ && done_text(
                                    r,
                                    crate::wire::spec_result_line(
                                        id,
                                        hash_text(val_of(subs0, sh@).hash),
                                    ),
                                )
                            } else if answers@.len() == 0 {
                                asks_build(r, sh@)
                            } else {
                                match answers@[0] {
                                    Answer::Status(Ok(st)) => final(client)@.subs
                                        == spec_subscribe(subs0, sh@, st@).0 && final(client)@.tip
                                        == old(client)@.tip && done_text(
                                        r,
                                        crate::wire::spec_result_line(id, hash_text(st@.hash)),
                                    ),
                                    Answer::Status(Err(m)) => final(client)@ == old(client)@
                                        && done_text(
                                        r,
                                        crate::wire::spec_error_text(id, 1, m@),
                                    ),
                                    _ => asks_build(r, sh@),
                                }
                            }
                        },
                        Params::ScriptHashUnsubscribe(sh) => final(client)@.subs
                            == crate::client::remove_key(subs0, sh@) && final(client)@.tip == old(client)@.tip && done_text(
                            r,
                            crate::wire::spec_result_line(
                                id,
                                if has_key(subs0, sh@) {
                                    "true"@
                                } else {
                                    "false"@
                                },
                            ),
                        ),
                        Params::TransactionBroadcast(hex) => {
                            match crate::hexs::spec_unhex(hex@) {
                                None => done_text(
                                    r,
                                    crate::wire::spec_error_text(id, 1, "non-hex transaction"@),
                                ),
                                Some(bytes) => if !tx_decodes(bytes) {
                                    done_text(
                                        r,
                                        crate::wire::spec_error_text(id, 1, "invalid transaction"@),
                                    )
                                } else if answers@.len() == 0 {
                                    r matches Step::Need(Query::Broadcast(t)) && tx_bytes_of(t)
                                        == bytes
                                } else {
                                    match answers@[0] {
                                        Answer::Broadcast(Ok(txid)) => done_text(
                                            r,
                                            crate::wire::spec_result_line(
                                                id,
                                                seq!['"'] + spec_hex(txid@) + seq!['"'],
                                            ),
                                        ),
                                        Answer::Broadcast(Err(e)) => done_text(
                                            r,
                                            crate::wire::spec_error_line(id, remote_err(e)),
                                        ),
                                        _ => r matches Step::Need(Query::Broadcast(t))
                                            && tx_bytes_of(t) == bytes,
                                    }
                                },
                            }
                        },
                        Params::TransactionGet(tx, verbose) => txget_clause(
                            r,
                            id,
                            tx@,
                            verbose,
                            answers@,
                        ),
                        Params::TransactionGetMerkle(tx, h) => merkle_clause(
                            r,
                            id,
                            tx@,
                            h,
                            answers@,
                        ),
                        Params::TransactionFromPosition(h, pos, want) => idpos_clause(
                            r,
                            id,
                            h,
                            pos,
                            want,
                            answers@,
                        ),
                    }
                }
            }),
    {
        let gate_ok: bool = match &call.params {
            Params::BlockHeader(_) => true,
            Params::BlockHeaders(_, _) => true,
            Params::HeadersSubscribe => true,
            Params::Version(_, _) => true,
            _ => false,
        };
        if !ready && !gate_ok {
            return Step::Done(crate::wire::error_line(&call.id_text, &ErrKind::Unavailable));
        }
        match &call.params {
            Params::Ping => Step::Done(respond(&call.id_text, Ok(Jv::Null))),
            Params::Donation => Step::Done(respond(&call.id_text, Ok(Jv::Null))),
            Params::Banner => Step::Done(
                respond(&call.id_text, Ok(Jv::Str(self.banner.clone()))),
            ),
            Params::PeersSubscribe => {
                let empty: Vec<Jv> = Vec::new();
                proof {
                    assert(crate::jsonval::jtext_items(empty, 0) =~= Seq::<char>::empty());
                    assert(jtext(Jv::Arr(empty)) =~= seq!['[', ']']);
                }
                Step::Done(respond(&call.id_text, Ok(Jv::Arr(empty))))
            },
            Params::Version(cid, req) => {
                match self.version(cid, req) {
                    Ok(j) => {
                        let r = Step::Done(respond(&call.id_text, Ok(j)));
                        proof {
                            assert(version_shows(j, self.server_version@) && done_text(
                                r,
                                crate::wire::spec_result_line(call.id_text@, jtext(j)),
                            ));
                            assert(version_done(r, call.id_text@, self.server_version@));
                        }
                        r
                    },
                    Err(e) => Step::Done(respond(&call.id_text, Err(e))),
                }
            },
            Params::Features => {
                if answers.len() == 0 {
                    return Step::Need(Query::GenesisHash);
                }
                match &answers[0] {
                    Answer::GenesisHash(g) => {
                        let gjv: Jv = match g {
                            Some(h) => h.hex_jv(),
                            None => Jv::Null,
                        };
                        let mut hosts: Vec<(String, Jv)> = Vec::new();
                        hosts.push((String::from_str("tcp_port"), Jv::Uint(self.port as u64)));
                        let mut o: Vec<(String, Jv)> = Vec::new();
                        o.push((String::from_str("genesis_hash"), gjv));
                        o.push((String::from_str("hash_function"), Jv::Str(String::from_str("sha256"))));
                        o.push((String::from_str("hosts"), Jv::Obj(hosts)));
                        o.push((String::from_str("protocol_max"), Jv::Str(String::from_str("1.4"))));
                        o.push((String::from_str("protocol_min"), Jv::Str(String::from_str("1.4"))));
                        o.push((String::from_str("pruning"), Jv::Null));
                        o.push((String::from_str("server_version"), Jv::Str(self.server_id())));
                        let j = Jv::Obj(o);
                        let r = Step::Done(respond(&call.id_text, Ok(j)));
                        proof {
                            let gv = match g {
                                Some(x) => Some(x@),
                                None => None,
                            };
                            assert(features_shows(j, gv, self.port, "electrs/"@
                                + self.server_version@) && done_text(
                                r,
                                crate::wire::spec_result_line(call.id_text@, jtext(j)),
                            ));
                            assert(features_done(r, call.id_text@, gv, self.port, "electrs/"@
                                + self.server_version@));
                        }
                        r
                    },
                    _ => Step::Need(Query::GenesisHash),
                }
            },
            Params::HeadersSubscribe => {
                if answers.len() == 0 {
                    return Step::Need(Query::ChainTip);
                }
                match &answers[0] {
                    Answer::ChainTip(t) => {
                        let j = self.headers_subscribe(client, t);
                        let r = Step::Done(respond(&call.id_text, Ok(j)));
                        proof {
                            assert(tip_shows(j, t.height, t.header_hex@) && done_text(
                                r,
                                crate::wire::spec_result_line(call.id_text@, jtext(j)),
                            ));
                            assert(tip_done(r, call.id_text@, t.height, t.header_hex@));
                        }
                        r
                    },
                    _ => Step::Need(Query::ChainTip),
                }
            },
            Params::BlockHeader(h) => {
                if answers.len() == 0 {
                    return Step::Need(Query::Header(*h));
                }
                match &answers[0] {
                    Answer::Header(Some(hex)) => Step::Done(
                        respond(&call.id_text, Ok(Jv::Str(hex.clone()))),
                    ),
                    Answer::Header(None) => Step::Done(
                        respond(&call.id_text, Err(ErrKind::Bad(msg_no_header(*h)))),
                    ),
                    _ => Step::Need(Query::Header(*h)),
                }
            },
            Params::BlockHeaders(start, count) => {
                if answers.len() == 0 {
                    return Step::Need(Query::ChainTip);
                }
                match &answers[0] {
                    Answer::ChainTip(t) => {
                        let end = headers_end(*start, *count, t.height);
                        if answers.len() == 1 {
                            return Step::Need(Query::HeaderRange(*start, end));
                        }
                        match &answers[1] {
                            Answer::HeaderRange(hexes) => {
                                let served: u64 = if end > *start {
                                    end - *start
                                } else {
                                    0
                                };
                                let joined = concat_strs(hexes);
                                let mut o: Vec<(String, Jv)> = Vec::new();
                                o.push((String::from_str("count"), Jv::Uint(served)));
                                o.push((String::from_str("hex"), Jv::Str(joined)));
                                o.push((String::from_str("max"), Jv::Uint(2016)));
                                let j = Jv::Obj(o);
                                let r = Step::Done(respond(&call.id_text, Ok(j)));
                                proof {
                                    assert(headers_shows(
                                        j,
                                        served,
                                        hexes@.map_values(|x: String| x@),
                                    ) && done_text(
                                        r,
                                        crate::wire::spec_result_line(call.id_text@, jtext(j)),
                                    ));
                                    assert(headers_done(
                                        r,
                                        call.id_text@,
                                        served,
                                        hexes@.map_values(|x: String| x@),
                                    ));
                                }
                                r
                            },
                            _ => Step::Need(Query::HeaderRange(*start, end)),
                        }
                    },
                    _ => Step::Need(Query::ChainTip),
                }
            },
            Params::EstimateFee(n) => {
                if answers.len() == 0 {
                    return Step::Need(Query::EstimateFee(*n));
                }
                match &answers[0] {
                    Answer::EstimateFee(Ok(Some(sats))) => Step::Done(
                        respond(&call.id_text, Ok(Jv::Raw(btc_text(*sats)))),
                    ),
                    Answer::EstimateFee(Ok(None)) => {
                        let r = Step::Done(respond(&call.id_text, Ok(Jv::Int(-1))));
                        proof {
                            assert(spec_digit(1) == '1');
                            assert(jtext(Jv::Int(-1i64)) =~= seq!['-', '1']);
                        }
                        r
                    },
                    Answer::EstimateFee(Err(e)) => Step::Done(
                        respond(&call.id_text, Err(remote_to_err(e))),
                    ),
                    _ => Step::Need(Query::EstimateFee(*n)),
                }
            },
            Params::RelayFee => {
                if answers.len() == 0 {
                    return Step::Need(Query::RelayFee);
                }
                match &answers[0] {
                    Answer::RelayFee(Ok(sats)) => Step::Done(
                        respond(&call.id_text, Ok(Jv::Raw(btc_text(*sats)))),
                    ),
                    Answer::RelayFee(Err(e)) => Step::Done(
                        respond(&call.id_text, Err(remote_to_err(e))),
                    ),
                    _ => Step::Need(Query::RelayFee),
                }
            },
            Params::MempoolFeeHistogram => {
                if answers.len() == 0 {
                    return Step::Need(Query::FeeHistogram);
                }
                match &answers[0] {
                    Answer::FeeHistogram(Ok(raw)) => Step::Done(
                        respond(&call.id_text, Ok(Jv::Raw(raw.clone()))),
                    ),
                    Answer::FeeHistogram(Err(e)) => Step::Done(
                        respond(&call.id_text, Err(remote_to_err(e))),
                    ),
                    _ => Step::Need(Query::FeeHistogram),
                }
            },
            Params::ScriptHashGetBalance(sh) => {
                match resolve_status(client, sh, answers) {
                    Resolved::Use(st) => {
                        let j = st.balance_jv();
                        let r = Step::Done(respond(&call.id_text, Ok(j)));
                        proof {
                            assert(crate::status::balance_shows(j, st@.unspent) && done_text(
                                r,
                                crate::wire::spec_result_line(call.id_text@, jtext(j)),
                            ));
                            assert(balance_done(r, call.id_text@, st@.unspent));
                        }
                        r
                    },
                    Resolved::Ask => Step::Need(Query::BuildStatus(sh.dup())),
                    Resolved::Fail(m) => Step::Done(
                        respond(&call.id_text, Err(ErrKind::Bad(m))),
                    ),
                }
            },
            Params::ScriptHashGetHistory(sh) => {
                match resolve_status(client, sh, answers) {
                    Resolved::Use(st) => {
                        let j = st.history_jv(None, None);
                        let r = Step::Done(respond(&call.id_text, Ok(j)));
                        proof {
                            assert(crate::status::history_shows(j, st@.history, None, None)
                                && done_text(
                                r,
                                crate::wire::spec_result_line(call.id_text@, jtext(j)),
                            ));
                            assert(history_done(r, call.id_text@, st@.history, None, None));
                        }
                        r
                    },
                    Resolved::Ask => Step::Need(Query::BuildStatus(sh.dup())),
                    Resolved::Fail(m) => Step::Done(
                        respond(&call.id_text, Err(ErrKind::Bad(m))),
                    ),
                }
            },
            Params::ScriptHashGetHistoryFilter(sh, from, to) => {
                match resolve_status(client, sh, answers) {
                    Resolved::Use(st) => {
                        let j = st.history_jv(*from, *to);
                        let r = Step::Done(respond(&call.id_text, Ok(j)));
                        proof {
                            assert(crate::status::history_shows(j, st@.history, *from, *to)
                                && done_text(
                                r,
                                crate::wire::spec_result_line(call.id_text@, jtext(j)),
                            ));
                            assert(history_done(r, call.id_text@, st@.history, *from, *to));
                        }
                        r
                    },
                    Resolved::Ask => Step::Need(Query::BuildStatus(sh.dup())),
                    Resolved::Fail(m) => Step::Done(
                        respond(&call.id_text, Err(ErrKind::Bad(m))),
                    ),
                }
            },
            Params::ScriptHashListUnspent(sh) => {
                match resolve_status(client, sh, answers) {
                    Resolved::Use(st) => {
                        let j = st.unspent_jv();
                        let r = Step::Done(respond(&call.id_text, Ok(j)));
                        proof {
                            assert(crate::status::unspent_shows(j, st@.unspent) && done_text(
                                r,
                                crate::wire::spec_result_line(call.id_text@, jtext(j)),
                            ));
                            assert(unspent_done(r, call.id_text@, st@.unspent));
                        }
                        r
                    },
                    Resolved::Ask => Step::Need(Query::BuildStatus(sh.dup())),
                    Resolved::Fail(m) => Step::Done(
                        respond(&call.id_text, Err(ErrKind::Bad(m))),
                    ),
                }
            },
            Params::ScriptHashSelectUnspent(sh, amounts, min_amount, confirmed) => {
                match resolve_status(client, sh, answers) {
                    Resolved::Use(st) => {
                        let j = st.select_unspent_jv(amounts, *min_amount, *confirmed);
                        let r = Step::Done(respond(&call.id_text, Ok(j)));
                        proof {
                            assert(crate::status::select_shows(
                                j,
                                st@.unspent,
                                amounts@,
                                *min_amount,
                                *confirmed,
                            ) && done_text(
                                r,
                                crate::wire::spec_result_line(call.id_text@, jtext(j)),
                            ));
                            assert(select_done(
                                r,
                                call.id_text@,
                                st@.unspent,
                                amounts@,
                                *min_amount,
                                *confirmed,
                            ));
                        }
                        r
                    },
                    Resolved::Ask => Step::Need(Query::BuildStatus(sh.dup())),
                    Resolved::Fail(m) => Step::Done(
                        respond(&call.id_text, Err(ErrKind::Bad(m))),
                    ),
                }
            },
            Params::ScriptHashUnspentExist(sh, tx) => {
                match resolve_status(client, sh, answers) {
                    Resolved::Use(st) => {
                        let found = st.unspent_exist(tx);
                        Step::Done(respond(&call.id_text, Ok(Jv::Bool(found))))
                    },
                    Resolved::Ask => Step::Need(Query::BuildStatus(sh.dup())),
                    Resolved::Fail(m) => Step::Done(
                        respond(&call.id_text, Err(ErrKind::Bad(m))),
                    ),
                }
            },
            Params::ScriptHashSubscribe(sh) => {
                match client.find(sh) {
                    Some(i) => {
                        let j = client.scripthashes[i].1.statushash_jv();
                        let r = Step::Done(respond(&call.id_text, Ok(j)));
                        proof {
                            assert(val_of(old(client)@.subs, sh@) == old(client)@.subs[i as int].1);
                            lemma_hash_jtext(j, val_of(old(client)@.subs, sh@).hash);
                        }
                        r
                    },
                    None => {
                        if answers.len() == 0 {
                            return Step::Need(Query::BuildStatus(sh.dup()));
                        }
                        match &answers[0] {
                            Answer::Status(Ok(st)) => {
                                let j = client.subscribe_with(sh, st);
                                let r = Step::Done(respond(&call.id_text, Ok(j)));
                                proof {
                                    lemma_hash_jtext(j, st@.hash);
                                }
                                r
                            },
                            Answer::Status(Err(m)) => Step::Done(
                                respond(&call.id_text, Err(ErrKind::Bad(m.clone()))),
                            ),
                            _ => Step::Need(Query::BuildStatus(sh.dup())),
                        }
                    },
                }
            },
            Params::ScriptHashUnsubscribe(sh) => {
                let removed = client.unsubscribe(sh);
                Step::Done(respond(&call.id_text, Ok(Jv::Bool(removed))))
            },
            Params::TransactionBroadcast(hex) => {
                let cs = crate::catalog::str_chars(hex.as_str());
                match unhex(&cs) {
                    None => Step::Done(
                        respond(
                            &call.id_text,
                            Err(ErrKind::Bad(String::from_str("non-hex transaction"))),
                        ),
                    ),
                    Some(bytes) => {
                        match parse_tx(&bytes) {
                            Err(_) => Step::Done(
                                respond(
                                    &call.id_text,
                                    Err(ErrKind::Bad(String::from_str("invalid transaction"))),
                                ),
                            ),
                            Ok(tx) => {
                                if answers.len() == 0 {
                                    return Step::Need(Query::Broadcast(tx));
                                }
                                match &answers[0] {
                                    Answer::Broadcast(Ok(txid)) => {
                                        let j = txid.hex_jv();
                                        let r = Step::Done(respond(&call.id_text, Ok(j)));
                                        proof {
                                            lemma_hash_jtext(j, Some(txid@));
                                        }
                                        r
                                    },
                                    Answer::Broadcast(Err(e)) => Step::Done(
                                        respond(&call.id_text, Err(remote_to_err(e))),
                                    ),
                                    _ => Step::Need(Query::Broadcast(tx)),
                                }
                            },
                        }
                    },
                }
            },
            Params::TransactionGet(tx, verbose) => {
                if *verbose {
                    if answers.len() == 0 {
                        return Step::Need(Query::IndexTx(tx.dup()));
                    }
                    match &answers[0] {
                        Answer::IndexTx(Err(e)) => Step::Done(
                            respond(&call.id_text, Err(remote_to_err(e))),
                        ),
                        Answer::IndexTx(Ok(found)) => {
                            let bh: Option<Hash32> = match found {
                                Some(p) => Some(p.0.dup()),
                                None => None,
                            };
                            if answers.len() == 1 {
                                return Step::Need(Query::DaemonTxInfo(tx.dup(), bh));
                            }
                            match &answers[1] {
                                Answer::DaemonTxInfo(Ok(raw)) => Step::Done(
                                    respond(&call.id_text, Ok(Jv::Raw(raw.clone()))),
                                ),
                                Answer::DaemonTxInfo(Err(e)) => Step::Done(
                                    respond(&call.id_text, Err(remote_to_err(e))),
                                ),
                                _ => Step::Need(Query::DaemonTxInfo(tx.dup(), bh)),
                            }
                        },
                        _ => Step::Need(Query::IndexTx(tx.dup())),
                    }
                } else {
                    if answers.len() == 0 {
                        return Step::Need(Query::CachedTx(tx.dup()));
                    }
                    match &answers[0] {
                        Answer::CachedTx(Some(hex)) => Step::Done(
                            respond(&call.id_text, Ok(Jv::Str(hex.clone()))),
                        ),
                        Answer::CachedTx(None) => {
                            if answers.len() == 1 {
                                return Step::Need(Query::IndexTx(tx.dup()));
                            }
                            match &answers[1] {
                                Answer::IndexTx(Err(e)) => Step::Done(
                                    respond(&call.id_text, Err(remote_to_err(e))),
                                ),
                                Answer::IndexTx(Ok(Some(p))) => Step::Done(
                                    respond(&call.id_text, Ok(Jv::Str(p.1.clone()))),
                                ),
                                Answer::IndexTx(Ok(None)) => {
                                    if answers.len() == 2 {
                                        return Step::Need(Query::DaemonTxHex(tx.dup()));
                                    }
                                    match &answers[2] {
                                        Answer::DaemonTxHex(Ok(hex)) => Step::Done(
                                            respond(&call.id_text, Ok(Jv::Str(hex.clone()))),
                                        ),
                                        Answer::DaemonTxHex(Err(e)) => Step::Done(
                                            respond(&call.id_text, Err(remote_to_err(e))),
                                        ),
                                        _ => Step::Need(Query::DaemonTxHex(tx.dup())),
                                    }
                                },
                                _ => Step::Need(Query::IndexTx(tx.dup())),
                            }
                        },
                        _ => Step::Need(Query::CachedTx(tx.dup())),
                    }
                }
            },
            Params::TransactionGetMerkle(tx, h) => {
                if answers.len() == 0 {
                    return Step::Need(Query::BlockHash(*h));
                }
                match &answers[0] {
                    Answer::BlockHash(None) => Step::Done(
                        respond(&call.id_text, Err(ErrKind::Bad(msg_missing_block(*h)))),
                    ),
                    Answer::BlockHash(Some(bh)) => {
                        if answers.len() == 1 {
                            return Step::Need(Query::BlockTxids(bh.dup()));
                        }
                        match &answers[1] {
                            Answer::BlockTxids(Err(e)) => Step::Done(
                                respond(&call.id_text, Err(remote_to_err(e))),
                            ),
                            Answer::BlockTxids(Ok(ts)) => {
                                match find_tx_pos(ts, tx) {
                                    None => Step::Done(
                                        respond(
                                            &call.id_text,
                                            Err(ErrKind::Bad(msg_missing_txid(tx, bh))),
                                        ),
                                    ),
                                    Some(p) => {
                                        if answers.len() == 2 {
                                            return Step::Need(
                                                Query::MerkleProof(dup_hashes(ts), p as u64),
                                            );
                                        }
                                        match &answers[2] {
                                            Answer::MerkleProof(nodes) => {
                                                let mut o: Vec<(String, Jv)> = Vec::new();
                                                o.push((
                                                    String::from_str("block_height"),
                                                    Jv::Uint(*h),
                                                ));
                                                o.push((
                                                    String::from_str("merkle"),
                                                    str_arr_jv(nodes),
                                                ));
                                                o.push((String::from_str("pos"), Jv::Uint(p as u64)));
                                                let j = Jv::Obj(o);
                                                let r = Step::Done(
                                                    respond(&call.id_text, Ok(j)),
                                                );
                                                proof {
                                                    assert(merkle_shows(
                                                        j,
                                                        *h,
                                                        p as u64,
                                                        nodes@.map_values(|x: String| x@),
                                                    ) && done_text(
                                                        r,
                                                        crate::wire::spec_result_line(
                                                            call.id_text@,
                                                            jtext(j),
                                                        ),
                                                    ));
                                                    assert(merkle_done(
                                                        r,
                                                        call.id_text@,
                                                        *h,
                                                        p as u64,
                                                        nodes@.map_values(|x: String| x@),
                                                    ));
                                                }
                                                r
                                            },
                                            _ => Step::Need(
                                                Query::MerkleProof(dup_hashes(ts), p as u64),
                                            ),
                                        }
                                    },
                                }
                            },
                            _ => Step::Need(Query::BlockTxids(bh.dup())),
                        }
                    },
                    _ => Step::Need(Query::BlockHash(*h)),
                }
            },
            Params::TransactionFromPosition(h, pos, want) => {
                if answers.len() == 0 {
                    return Step::Need(Query::BlockHash(*h));
                }
                match &answers[0] {
                    Answer::BlockHash(None) => Step::Done(
                        respond(&call.id_text, Err(ErrKind::Bad(msg_missing_block(*h)))),
                    ),
                    Answer::BlockHash(Some(bh)) => {
                        if answers.len() == 1 {
                            return Step::Need(Query::BlockTxids(bh.dup()));
                        }
                        match &answers[1] {
                            Answer::BlockTxids(Err(e)) => Step::Done(
                                respond(&call.id_text, Err(remote_to_err(e))),
                            ),
                            Answer::BlockTxids(Ok(ts)) => {
                                if *pos >= ts.len() as u64 {
                                    return Step::Done(
                                        respond(
                                            &call.id_text,
                                            Err(ErrKind::Bad(msg_bad_pos(*pos, *h))),
                                        ),
                                    );
                                }
                                let txid = &ts[*pos as usize];
                                if !*want {
                                    let mut o: Vec<(String, Jv)> = Vec::new();
                                    o.push((String::from_str("tx_id"), txid.hex_jv()));
                                    let j = Jv::Obj(o);
                                    let r = Step::Done(respond(&call.id_text, Ok(j)));
                                    proof {
                                        assert(idpos_shows(j, ts@[*pos as int]@, None));
                                        assert(idpos_done(
                                            r,
                                            call.id_text@,
                                            ts@[*pos as int]@,
                                            None,
                                        ));
                                    }
                                    return r;
                                }
                                if answers.len() == 2 {
                                    return Step::Need(
                                        Query::MerkleProof(dup_hashes(ts), *pos),
                                    );
                                }
                                match &answers[2] {
                                    Answer::MerkleProof(nodes) => {
                                        let mut o: Vec<(String, Jv)> = Vec::new();
                                        o.push((String::from_str("merkle"), str_arr_jv(nodes)));
                                        o.push((String::from_str("tx_id"), txid.hex_jv()));
                                        let j = Jv::Obj(o);
                                        let r = Step::Done(respond(&call.id_text, Ok(j)));
                                        proof {
                                            assert(idpos_shows(
                                                j,
                                                ts@[*pos as int]@,
                                                Some(nodes@.map_values(|x: String| x@)),
                                            ));
                                            assert(idpos_done(
                                                r,
                                                call.id_text@,
                                                ts@[*pos as int]@,
                                                Some(nodes@.map_values(|x: String| x@)),
                                            ));
                                        }
                                        r
                                    },
                                    _ => Step::Need(Query::MerkleProof(dup_hashes(ts), *pos)),
                                }
                            },
                            _ => Step::Need(Query::BlockTxids(bh.dup())),
                        }
                    },
                    _ => Step::Need(Query::BlockHash(*h)),
                }
            },
        }
    }
}

/// The wire text of a status-hash value.
proof fn lemma_hash_jtext(j: Jv, h: Option<Seq<u8>>)
    requires
        statushash_shows(j, h),
    ensures
        jtext(j) == hash_text(h),
{
    match h {
        Some(x) => {
            crate::hexs::lemma_hex_chars(x);
            assert forall|i: int| 0 <= i < spec_hex(x).len() implies crate::jsonval::esc_plain(
                #[trigger] spec_hex(x)[i],
            ) by {
                assert(48 <= spec_hex(x)[i] as u32 <= 57 || 97 <= spec_hex(x)[i] as u32 <= 102);
                assert(spec_hex(x)[i] as u32 != 34 && spec_hex(x)[i] as u32 != 92);
                assert('"' as u32 == 34 && '\\' as u32 == 92);
            }
            crate::jsonval::lemma_esc_plain(spec_hex(x));
        },
        None => {},
    }
}


/// The freshly built status a batch carries for a hash, if any.
pub open spec fn built_of(built: Seq<(Hash32, Result<Status, String>)>, h: Seq<u8>) -> Option<
    Result<StatusV, Seq<char>>,
>
    decreases built.len(),
{
    if built.len() == 0 {
        None
    } else if built[0].0@ == h {
        Some(
            match built[0].1 {
                Ok(st) => Ok(st@),
                Err(m) => Err(m@),
            },
        )
    } else {
        built_of(built.drop_first(), h)
    }
}

/// One position of a batched subscribe: exactly a single subscribe, served
/// from the carried statuses.
pub open spec fn multi_step(
    subs: Seq<(Seq<u8>, StatusV)>,
    id: Seq<char>,
    h: Seq<u8>,
    built: Seq<(Hash32, Result<Status, String>)>,
) -> (Seq<(Seq<u8>, StatusV)>, Seq<char>) {
    if has_key(subs, h) {
        (subs, crate::wire::spec_result_line(id, hash_text(val_of(subs, h).hash)))
    } else {
        match built_of(built, h) {
            Some(Ok(st)) => (
                subs.push((h, st)),
                crate::wire::spec_result_line(id, hash_text(st.hash)),
            ),
            Some(Err(m)) => (subs, crate::wire::spec_error_text(id, 1, m)),
            None => (subs, crate::wire::spec_error_text(id, 1, "missing scripthash status"@)),
        }
    }
}

/// The first `i` positions of a batched subscribe, in order.
pub open spec fn multi_run(
    subs: Seq<(Seq<u8>, StatusV)>,
    items: Seq<(Seq<char>, Seq<u8>)>,
    built: Seq<(Hash32, Result<Status, String>)>,
    i: int,
) -> (Seq<(Seq<u8>, StatusV)>, Seq<Seq<char>>)
    decreases i,
{
    if i <= 0 {
        (subs, Seq::<Seq<char>>::empty())
    } else {
        let prev = multi_run(subs, items, built, i - 1);
        let st = multi_step(prev.0, items[i - 1].0, items[i - 1].1, built);
        (st.0, prev.1.push(st.1))
    }
}

/// Every position of a batched subscribe gets exactly one response, at its
/// own index: the response list grows in input order, one line per item.
pub proof fn lemma_multi_run_len(
    subs: Seq<(Seq<u8>, StatusV)>,
    items: Seq<(Seq<char>, Seq<u8>)>,
    built: Seq<(Hash32, Result<Status, String>)>,
    i: int,
)
    requires
        0 <= i <= items.len(),
    ensures
        multi_run(subs, items, built, i).1.len() == i,
    decreases i,
{
    if i > 0 {
        lemma_multi_run_len(subs, items, built, i - 1);
    }
}

/// One update round emits a notification for a subscribed script-hash
/// exactly when the freshly computed status hash differs from the stored
/// one, and emits nothing for an unknown one.
pub proof fn lemma_update_emits_iff(subs: Seq<(Seq<u8>, StatusV)>, up: (Seq<u8>, StatusV))
    ensures
        has_key(subs, up.0) && val_of(subs, up.0).hash != up.1.hash ==> step_update(subs, up).1
            =~= seq![sub_note(up.0, up.1.hash)],
        has_key(subs, up.0) && val_of(subs, up.0).hash == up.1.hash ==> step_update(subs, up).1
            =~= Seq::<Seq<char>>::empty(),
        !has_key(subs, up.0) ==> step_update(subs, up) == (subs, Seq::<Seq<char>>::empty()),
{
}

/// A batched subscribe answers each position with the very bytes a single
/// subscribe would produce against the state the earlier positions left:
/// both are the same fold of `spec_subscribe`, so a batch of subscribes and
/// the same calls served one by one give byte-equal responses in the same
/// order.
pub proof fn lemma_multi_step_is_single(
    subs: Seq<(Seq<u8>, StatusV)>,
    id: Seq<char>,
    h: Seq<u8>,
    built: Seq<(Hash32, Result<Status, String>)>,
    st: StatusV,
)
    requires
        !has_key(subs, h) ==> built_of(built, h) == Some(Ok::<StatusV, Seq<char>>(st)),
    ensures
        multi_step(subs, id, h, built).0 == spec_subscribe(subs, h, st).0,
        multi_step(subs, id, h, built).1 == crate::wire::spec_result_line(
            id,
            hash_text(spec_subscribe(subs, h, st).1),
        ),
{
}

/// The item hashes the client is not yet subscribed to, in order, kept as
/// they come.
pub open spec fn spec_new_hashes(subs: Seq<(Seq<u8>, StatusV)>, hs: Seq<Seq<u8>>) -> Seq<Seq<u8>>
    decreases hs.len(),
{
    if hs.len() == 0 {
        Seq::empty()
    } else {
        spec_new_hashes(subs, hs.drop_last()) + if has_key(subs, hs.last()) {
            Seq::empty()
        } else {
            seq![hs.last()]
        }
    }
}

impl Rpc {
    /// The batched-subscribe fast path applies when every call in the batch
    /// parsed as a subscribe; it then yields the id and hash of each.
    pub fn try_multi_call(&self, calls: &Vec<Result<CallMsg, String>>) -> (r: Option<
        Vec<(String, Hash32)>,
    >)
        ensures
            match r {
                Some(v) => v@.len() == calls@.len() && forall|k: int|
                    0 <= k < calls@.len() ==> (#[trigger] calls@[k] matches Ok(c) && (c.params
                        matches Params::ScriptHashSubscribe(sh) && v@[k].0@ == c.id_text@
                        && v@[k].1@ == sh@)),
                None => exists|k: int|
                    0 <= k < calls@.len() && !(#[trigger] calls@[k] matches Ok(c)
                        && c.params is ScriptHashSubscribe),
            },
    {
        let mut out: Vec<(String, Hash32)> = Vec::new();
        let mut i: usize = 0;
        while i < calls.len()
            invariant
                i <= calls.len(),
                out@.len() == i,
                forall|k: int|
                    0 <= k < i ==> (#[trigger] calls@[k] matches Ok(c) && (c.params
                        matches Params::ScriptHashSubscribe(sh) && out@[k].0@ == c.id_text@
                        && out@[k].1@ == sh@)),
            decreases calls.len() - i,
        {
            match &calls[i] {
                Ok(c) => match &c.params {
                    Params::ScriptHashSubscribe(sh) => {
                        out.push((c.id_text.clone(), sh.dup()));
                    },
                    _ => {
                        return None;
                    },
                },
                Err(_) => {
                    return None;
                },
            }
            i = i + 1;
        }
        Some(out)
    }

    /// The hashes of a batch that still need a fresh status.
    #[verifier::loop_isolation(false)]
    pub fn new_scripthashes(&self, client: &Client, items: &Vec<(String, Hash32)>) -> (r: Vec<
        Hash32,
    >)
        requires
            client.wf(),
        ensures
            hashes_v(r@) == spec_new_hashes(
                client@.subs,
                items@.map_values(|p: (String, Hash32)| p.1@),
            ),
    {
        let ghost hs = items@.map_values(|p: (String, Hash32)| p.1@);
        let mut out: Vec<Hash32> = Vec::new();
        let mut i: usize = 0;
        while i < items.len()
            invariant
                i <= items.len(),
                hashes_v(out@) =~= spec_new_hashes(client@.subs, hs.take(i as int)),
            decreases items.len() - i,
        {
            let sh = &items[i].1;
            proof {
                assert(hs.take(i + 1 as int).drop_last() =~= hs.take(i as int));
                assert(hs.take(i + 1 as int).last() == sh@);
            }
            match client.find(sh) {
                Some(_) => {},
                None => {
                    out.push(sh.dup());
                },
            }
            proof {
                assert(hashes_v(out@) =~= spec_new_hashes(client@.subs, hs.take(i + 1 as int)));
            }
            i = i + 1;
        }
        proof {
            assert(hs.take(hs.len() as int) =~= hs);
        }
        out
    }

    /// Subscribes a whole batch in input order, serving each position from
    /// the stored status or the carried fresh one; a build failure answers
    /// only its own position.
    #[verifier::loop_isolation(false)]
    pub fn scripthashes_subscribe(
        &self,
        client: &mut Client,
        items: &Vec<(String, Hash32)>,
        built: &Vec<(Hash32, Result<Status, String>)>,
    ) -> (r: Vec<String>)
        requires
            old(client).wf(),
        ensures
            final(client).wf(),
            final(client)@.tip == old(client)@.tip,
            final(client)@.subs == multi_run(
                old(client)@.subs,
                items@.map_values(|p: (String, Hash32)| (p.0@, p.1@)),
                built@,
                items@.len() as int,
            ).0,
            r@.map_values(|s: String| s@) == multi_run(
                old(client)@.subs,
                items@.map_values(|p: (String, Hash32)| (p.0@, p.1@)),
                built@,
                items@.len() as int,
            ).1,
    {
        let ghost iv = items@.map_values(|p: (String, Hash32)| (p.0@, p.1@));
        let ghost subs0 = old(client)@.subs;
        let mut out: Vec<String> = Vec::new();
        let mut i: usize = 0;
        while i < items.len()
            invariant
                i <= items.len(),
                client.wf(),
                client@.tip == old(client)@.tip,
                client@.subs == multi_run(subs0, iv, built@, i as int).0,
                out@.map_values(|s: String| s@) == multi_run(subs0, iv, built@, i as int).1,
            decreases items.len() - i,
        {
            let ghost pre = client@.subs;
            let id = &items[i].0;
            let sh = &items[i].1;
            proof {
                assert(iv[i as int] == (id@, sh@));
            }
            let line: String = match client.find(sh) {
                Some(ix) => {
                    let j = client.scripthashes[ix].1.statushash_jv();
                    proof {
                        assert(val_of(pre, sh@) == pre[ix as int].1);
                        lemma_hash_jtext(j, val_of(pre, sh@).hash);
                    }
                    crate::wire::result_line(id, &j)
                },
                None => {
                    match find_built(built, sh) {
                        FoundBuilt::Good(st) => {
                            let j = client.subscribe_with(sh, st);
                            proof {
                                lemma_hash_jtext(j, st@.hash);
                            }
                            crate::wire::result_line(id, &j)
                        },
                        FoundBuilt::Bad(m) => {
                            crate::wire::error_line(id, &ErrKind::Bad(m))
                        },
                        FoundBuilt::Missing => {
                            crate::wire::error_line(
                                id,
                                &ErrKind::Bad(String::from_str("missing scripthash status")),
                            )
                        },
                    }
                },
            };
            out.push(line);
            proof {
                assert(out@.map_values(|s: String| s@) =~= multi_run(
                    subs0,
                    iv,
                    built@,
                    i + 1 as int,
                ).1);
            }
            i = i + 1;
        }
        out
    }
}

enum FoundBuilt<'a> {
    Good(&'a Status),
    Bad(String),
    Missing,
}

/// Looks a hash up among the carried fresh statuses.
fn find_built<'a>(built: &'a Vec<(Hash32, Result<Status, String>)>, sh: &Hash32) -> (r: FoundBuilt<
    'a,
>)
    ensures
        match r {
            FoundBuilt::Good(st) => built_of(built@, sh@) == Some(
                Ok::<StatusV, Seq<char>>(st@),
            ),
            FoundBuilt::Bad(m) => built_of(built@, sh@) == Some(
                Err::<StatusV, Seq<char>>(m@),
            ),
            FoundBuilt::Missing => built_of(built@, sh@) is None,
        },
{
    let mut i: usize = 0;
    proof {
        assert(built@.skip(0) =~= built@);
    }
    while i < built.len()
        invariant
            i <= built.len(),
            built_of(built@, sh@) == built_of(built@.skip(i as int), sh@),
        decreases built.len() - i,
    {
        proof {
            assert(built@.skip(i as int)[0] == built@[i as int]);
            assert(built@.skip(i as int).drop_first() =~= built@.skip(i + 1 as int));
        }
        if built[i].0.same(sh) {
            match &built[i].1 {
                Ok(st) => {
                    return FoundBuilt::Good(st);
                },
                Err(m) => {
                    return FoundBuilt::Bad(m.clone());
                },
            }
        }
        i = i + 1;
    }
    proof {
        assert(built@.skip(built@.len() as int) =~= Seq::<(Hash32, Result<Status, String>)>::empty());
    }
    FoundBuilt::Missing
}


/// Parses one request into a call; a refused name or parameter set becomes
/// the finished error response for that position.
pub fn parse_call(req: crate::decode::ReqIn) -> (r: Result<CallMsg, String>)
    ensures
        match r {
            Ok(c) => crate::catalog::catalog(req.method@, req.params) == Ok::<
                crate::catalog::ParamsV,
                crate::catalog::CatErr,
            >(c.params@) && c.id_text@ == req.id_text@ && c.method@ == req.method@,
            Err(line) => match crate::catalog::catalog(req.method@, req.params) {
                Err(crate::catalog::CatErr::NotFound) => line@ == crate::wire::spec_error_line(
                    req.id_text@,
                    ErrKind::MethodNotFound,
                ),
                Err(crate::catalog::CatErr::BadParams) => line@ == crate::wire::spec_error_line(
                    req.id_text@,
                    ErrKind::InvalidParams,
                ),
                Ok(_) => false,
            },
        },
{
    match crate::catalog::parse_params(&req.method, &req.params) {
        Ok(params) => Ok(CallMsg { id_text: req.id_text, method: req.method, params }),
        Err(crate::catalog::CatErr::NotFound) => Err(
            crate::wire::error_line(&req.id_text, &ErrKind::MethodNotFound),
        ),
        Err(crate::catalog::CatErr::BadParams) => Err(
            crate::wire::error_line(&req.id_text, &ErrKind::InvalidParams),
        ),
    }
}


/// The notes one round owes, read off the table as it stood before the
/// round: one per update whose key is subscribed and whose fresh hash
/// differs from the stored one, in update order.
pub open spec fn expected_notes(
    subs: Seq<(Seq<u8>, StatusV)>,
    ups: Seq<(Seq<u8>, StatusV)>,
    i: int,
) -> Seq<Seq<char>>
    decreases i,
{
    if i <= 0 {
        Seq::<Seq<char>>::empty()
    } else {
        expected_notes(subs, ups, i - 1) + (if has_key(subs, ups[i - 1].0) && val_of(
            subs,
            ups[i - 1].0,
        ).hash != ups[i - 1].1.hash {
            seq![sub_note(ups[i - 1].0, ups[i - 1].1.hash)]
        } else {
            Seq::<Seq<char>>::empty()
        })
    }
}

/// One whole update round over distinct keys emits exactly the notes that
/// the initially stored hashes call for: a notification for a key stands in
/// the output, at its update's relative position, precisely when that key
/// is subscribed and its freshly computed status hash differs from the one
/// stored at the start of the round.
pub proof fn lemma_round_emits(
    subs: Seq<(Seq<u8>, StatusV)>,
    ups: Seq<(Seq<u8>, StatusV)>,
    i: int,
)
    requires
        crate::client::uniq(subs),
        forall|k1: int, k2: int| 0 <= k1 < k2 < ups.len() ==> ups[k1].0 != ups[k2].0,
        0 <= i <= ups.len(),
    ensures
        run_updates(subs, ups, i).1 == expected_notes(subs, ups, i),
        crate::client::uniq(run_updates(subs, ups, i).0),
        forall|x: Seq<u8>| has_key(#[trigger] run_updates(subs, ups, i).0, x) <==> has_key(
            subs,
            x,
        ),
        forall|k: int|
            i <= k < ups.len() && has_key(subs, #[trigger] ups[k].0) ==> val_of(
                run_updates(subs, ups, i).0,
                ups[k].0,
            ) == val_of(subs, ups[k].0),
    decreases i,
{
    if i > 0 {
        lemma_round_emits(subs, ups, i - 1);
        let prev = run_updates(subs, ups, i - 1);
        let up = ups[i - 1];
        if has_key(subs, up.0) {
            assert(has_key(prev.0, up.0));
            assert(val_of(prev.0, up.0) == val_of(subs, up.0));
            assert forall|x: Seq<u8>| has_key(
                #[trigger] run_updates(subs, ups, i).0,
                x,
            ) <==> has_key(subs, x) by {
                crate::client::lemma_set_val(prev.0, up.0, up.1, x);
            }
            assert(crate::client::uniq(run_updates(subs, ups, i).0)) by {
                crate::client::lemma_set_val(prev.0, up.0, up.1, up.0);
            }
            assert forall|k: int|
                i <= k < ups.len() && has_key(subs, #[trigger] ups[k].0) implies val_of(
                run_updates(subs, ups, i).0,
                ups[k].0,
            ) == val_of(subs, ups[k].0) by {
                crate::client::lemma_set_val(prev.0, up.0, up.1, ups[k].0);
                assert(ups[k].0 != up.0);
            }
            assert(run_updates(subs, ups, i).1 =~= expected_notes(subs, ups, i));
        } else {
            assert(!has_key(prev.0, up.0));
            assert(run_updates(subs, ups, i).0 == prev.0);
            assert(run_updates(subs, ups, i).1 =~= expected_notes(subs, ups, i));
        }
    }
}

/// Every line an update round emits is a script-hash notification.
pub proof fn lemma_round_lines_kind(
    subs: Seq<(Seq<u8>, StatusV)>,
    ups: Seq<(Seq<u8>, StatusV)>,
    i: int,
)
    ensures
        forall|m: int| 0 <= m < run_updates(subs, ups, i).1.len() ==> exists|sh: Seq<u8>, h: Option<Seq<u8>>|
            #[trigger] run_updates(subs, ups, i).1[m] == sub_note(sh, h),
    decreases i,
{
    if i > 0 {
        lemma_round_lines_kind(subs, ups, i - 1);
        let prev = run_updates(subs, ups, i - 1);
        let st = step_update(prev.0, ups[i - 1]);
        assert forall|m: int| 0 <= m < run_updates(subs, ups, i).1.len() implies exists|sh: Seq<u8>, h: Option<Seq<u8>>|
            #[trigger] run_updates(subs, ups, i).1[m] == sub_note(sh, h) by {
            if m < prev.1.len() {
                assert(run_updates(subs, ups, i).1[m] == prev.1[m]);
            } else {
                assert(run_updates(subs, ups, i).1[m] == sub_note(
                    ups[i - 1].0,
                    ups[i - 1].1.hash,
                ));
            }
        }
    }
}

/// A script-hash notification never reads as a headers notification: the
/// two embed different method names at the same offset. With the round's
/// lines all script-hash notifications, the headers line a tip change
/// appends is therefore the only one of its kind in the whole output — at
/// most one per round, and none for a client without a headers
/// subscription.
pub proof fn lemma_note_kinds_differ(
    sh: Seq<u8>,
    h: Option<Seq<u8>>,
    height: u64,
    hex: Seq<char>,
)
    ensures
        sub_note(sh, h) != headers_note(height, hex),
{
    reveal_strlit("blockchain.scripthash.subscribe");
    reveal_strlit("blockchain.headers.subscribe");
    let a = "{\"jsonrpc\":\"2.0\",\"method\":\""@;
    let m1 = "blockchain.scripthash.subscribe"@;
    let m2 = "blockchain.headers.subscribe"@;
    assert(sub_note(sh, h)[a.len() as int + 11] == m1[11]);
    assert(headers_note(height, hex)[a.len() as int + 11] == m2[11]);
    assert(m1[11] != m2[11]);
}


/// What the one-by-one path does with the same carried statuses: each
/// position is one `spec_subscribe` step, its response the stored or fresh
/// status hash under that position's id.
pub open spec fn single_run(
    subs: Seq<(Seq<u8>, StatusV)>,
    items: Seq<(Seq<char>, Seq<u8>)>,
    built: Seq<(Hash32, Result<Status, String>)>,
    i: int,
) -> (Seq<(Seq<u8>, StatusV)>, Seq<Seq<char>>)
    decreases i,
{
    if i <= 0 {
        (subs, Seq::<Seq<char>>::empty())
    } else {
        let prev = single_run(subs, items, built, i - 1);
        let h = items[i - 1].1;
        let stv = match built_of(built, h) {
            Some(Ok(st)) => st,
            _ => arbitrary(),
        };
        let step = spec_subscribe(prev.0, h, stv);
        (
            step.0,
            prev.1.push(crate::wire::spec_result_line(items[i - 1].0, hash_text(step.1))),
        )
    }
}

/// A subscribe never forgets a key.
pub proof fn lemma_subscribe_keys_grow(
    subs: Seq<(Seq<u8>, StatusV)>,
    k: Seq<u8>,
    v: StatusV,
    x: Seq<u8>,
)
    requires
        has_key(subs, x),
    ensures
        has_key(spec_subscribe(subs, k, v).0, x),
{
    let w = choose|w: int| 0 <= w < subs.len() && subs[w].0 == x;
    assert(spec_subscribe(subs, k, v).0[w].0 == x);
}

/// Neither does a batch position.
pub proof fn lemma_multi_keys_grow(
    subs: Seq<(Seq<u8>, StatusV)>,
    items: Seq<(Seq<char>, Seq<u8>)>,
    built: Seq<(Hash32, Result<Status, String>)>,
    i: int,
    x: Seq<u8>,
)
    requires
        has_key(subs, x),
        i <= items.len(),
    ensures
        has_key(multi_run(subs, items, built, i).0, x),
    decreases i,
{
    if i > 0 {
        lemma_multi_keys_grow(subs, items, built, i - 1, x);
        let prev = multi_run(subs, items, built, i - 1);
        let h = items[i - 1].1;
        if !has_key(prev.0, h) {
            match built_of(built, h) {
                Some(Ok(st)) => {
                    let w = choose|w: int| 0 <= w < prev.0.len() && prev.0[w].0 == x;
                    assert(multi_run(subs, items, built, i).0[w].0 == x);
                },
                _ => {},
            }
        }
    }
}

/// A batch made purely of subscribes and the same calls served one by one
/// produce byte-equal responses at every position, in the same order, and
/// leave the same table — both are the same fold of `spec_subscribe`, as
/// long as every key is either already subscribed or carries a freshly
/// built status.
pub proof fn lemma_multi_run_equiv(
    subs: Seq<(Seq<u8>, StatusV)>,
    items: Seq<(Seq<char>, Seq<u8>)>,
    built: Seq<(Hash32, Result<Status, String>)>,
    i: int,
)
    requires
        0 <= i <= items.len(),
        forall|k: int|
            0 <= k < i ==> has_key(subs, #[trigger] items[k].1) || built_of(built, items[k].1)
                matches Some(Ok(_)),
    ensures
        multi_run(subs, items, built, i) == single_run(subs, items, built, i),
    decreases i,
{
    if i > 0 {
        lemma_multi_run_equiv(subs, items, built, i - 1);
        let prev = multi_run(subs, items, built, i - 1);
        let id = items[i - 1].0;
        let h = items[i - 1].1;
        let stv = match built_of(built, h) {
            Some(Ok(st)) => st,
            _ => arbitrary(),
        };
        if !has_key(prev.0, h) {
            if has_key(subs, h) {
                lemma_multi_keys_grow(subs, items, built, i - 1, h);
                assert(false);
            }
            assert(built_of(built, h) matches Some(Ok(_)));
            assert(built_of(built, h) == Some(Ok::<StatusV, Seq<char>>(stv)));
        }
        lemma_multi_step_is_single(prev.0, id, h, built, stv);
        assert(multi_run(subs, items, built, i).1 =~= single_run(subs, items, built, i).1);
    }
}


/// A round whose fresh hashes all match the stored ones emits no
/// script-hash notification at all — so after a tip change the headers
/// notification is the round's only line.
pub proof fn lemma_unchanged_round_is_silent(
    subs: Seq<(Seq<u8>, StatusV)>,
    ups: Seq<(Seq<u8>, StatusV)>,
    i: int,
)
    requires
        crate::client::uniq(subs),
        forall|k1: int, k2: int| 0 <= k1 < k2 < ups.len() ==> ups[k1].0 != ups[k2].0,
        0 <= i <= ups.len(),
        forall|k: int|
            0 <= k < i && has_key(subs, #[trigger] ups[k].0) ==> val_of(subs, ups[k].0).hash
                == ups[k].1.hash,
    ensures
        run_updates(subs, ups, i).1 == Seq::<Seq<char>>::empty(),
    decreases i,
{
    lemma_round_emits(subs, ups, i);
    assert(expected_notes(subs, ups, i) =~= Seq::<Seq<char>>::empty()) by {
        lemma_expected_empty(subs, ups, i);
    }
}

/// Helper: the expected notes of an all-unchanged round are none.
proof fn lemma_expected_empty(
    subs: Seq<(Seq<u8>, StatusV)>,
    ups: Seq<(Seq<u8>, StatusV)>,
    i: int,
)
    requires
        forall|k: int|
            0 <= k < i && has_key(subs, #[trigger] ups[k].0) ==> val_of(subs, ups[k].0).hash
                == ups[k].1.hash,
    ensures
        expected_notes(subs, ups, i) =~= Seq::<Seq<char>>::empty(),
    decreases i,
{
    if i > 0 {
        lemma_expected_empty(subs, ups, i - 1);
    }
}

} // verus!
