use electrs::catalog::{Params, VersionReq};
use electrs::client::Client;
use electrs::decode::{parse_line, Frame};
use electrs::catalog::CallMsg;
use electrs::dispatch::{Answer, ChainTip, Query, Rpc, Step};
use electrs::jsonval::{jv_chars, Jv};
use electrs::selector::{select_unspent, select_utxos};
use electrs::types::{Hash32, HistoryEntry, RemoteErr, Status, UnspentEntry};
use electrs::wire::{batch_line, chars_to_string, error_line, result_line, ErrKind};

fn h32(b: u8) -> Hash32 {
    Hash32 { bytes: vec![b; 32] }
}

fn hex64(b: u8) -> String {
    let mut s = String::new();
    for _ in 0..32 {
        s.push_str(&format!("{:02x}", b));
    }
    s
}

fn entry(v: u64, height: i64) -> UnspentEntry {
    UnspentEntry { tx_hash: h32(9), vout: 0, value: v, height }
}

fn status_with(hash: Option<u8>, unspent: Vec<UnspentEntry>, history: Vec<HistoryEntry>) -> Status {
    Status {
        statushash: hash.map(h32),
        history,
        unspent,
    }
}

fn rpc() -> Rpc {
    Rpc::new("hello banner".to_string(), 50001, "0.0.0".to_string())
}

fn text(j: &Jv) -> String {
    chars_to_string(&jv_chars(j))
}

#[test]
fn parse_error_line() {
    match parse_line("{bad json") {
        Frame::Bad(ErrKind::Parse) => {}
        _ => panic!("expected a parse error"),
    }
    let line = error_line(&"null".to_string(), &ErrKind::Parse);
    assert_eq!(
        line,
        "{\"jsonrpc\":\"2.0\",\"id\":null,\"error\":{\"code\":-32700,\"message\":\"parse error\"}}"
    );
}

#[test]
fn unknown_method() {
    match parse_line("{\"jsonrpc\":\"2.0\",\"id\":7,\"method\":\"x\",\"params\":[]}") {
        Frame::Single(req) => {
            assert_eq!(req.id_text, "7");
            assert_eq!(req.method, "x");
            match electrs::dispatch::parse_call(req) {
                Err(line) => {
                    assert!(line.contains("\"code\":-32601"));
                    assert!(line.contains("\"id\":7"));
                    assert!(line.contains("method not found"));
                }
                Ok(_) => panic!("method x must be unknown"),
            }
        }
        _ => panic!("expected a single request"),
    }
}

#[test]
fn invalid_request_shapes() {
    match parse_line("42") {
        Frame::Bad(ErrKind::InvalidRequest) => {}
        _ => panic!("a bare number is no request"),
    }
    match parse_line("[]") {
        Frame::Bad(ErrKind::InvalidRequest) => {}
        _ => panic!("an empty batch is invalid"),
    }
    match parse_line("{\"id\":1}") {
        Frame::Bad(ErrKind::InvalidRequest) => {}
        _ => panic!("a request needs a method"),
    }
}

#[test]
fn version_accept_and_reject() {
    let r = rpc();
    match r.version(&"wallet".to_string(), &VersionReq::Single("1.4".to_string())) {
        Ok(j) => assert_eq!(text(&j), "[\"electrs/0.0.0\",\"1.4\"]"),
        Err(_) => panic!("1.4 must be accepted"),
    }
    match r.version(&"wallet".to_string(), &VersionReq::Single("1.5".to_string())) {
        Ok(_) => panic!("1.5 must be refused"),
        Err(ErrKind::Bad(m)) => assert_eq!(m, "wallet requested 1.5, server speaks 1.4"),
        Err(_) => panic!("a version failure answers with code 1"),
    }
    match r.version(
        &"w".to_string(),
        &VersionReq::Range("1.1".to_string(), "2.0".to_string()),
    ) {
        Ok(_) => {}
        Err(_) => panic!("a range around 1.4 must be accepted"),
    }
    match r.version(
        &"w".to_string(),
        &VersionReq::Range("1.5".to_string(), "2.0".to_string()),
    ) {
        Ok(_) => panic!("a range above 1.4 must be refused"),
        Err(_) => {}
    }
}

#[test]
fn readiness_gate() {
    let r = rpc();
    let mut c = Client::new();
    let call = CallMsg {
        id_text: "3".to_string(),
        method: "server.ping".to_string(),
        params: Params::Ping,
    };
    match r.single_call(&mut c, &call, false, &vec![]) {
        Step::Done(line) => assert_eq!(
            line,
            "{\"jsonrpc\":\"2.0\",\"id\":3,\"error\":{\"code\":-32603,\"message\":\"unavailable index\"}}"
        ),
        _ => panic!("an index failure answers at once"),
    }
    match r.single_call(&mut c, &call, true, &vec![]) {
        Step::Done(line) => assert_eq!(line, "{\"jsonrpc\":\"2.0\",\"id\":3,\"result\":null}"),
        _ => panic!("ping needs no collaborator"),
    }
}

#[test]
fn headers_subscribe_and_tip_change() {
    let r = rpc();
    let mut c = Client::new();
    let call = CallMsg {
        id_text: "1".to_string(),
        method: "blockchain.headers.subscribe".to_string(),
        params: Params::HeadersSubscribe,
    };
    let tip100 = ChainTip { hash: h32(1), height: 100, header_hex: "aa01".to_string() };
    match r.single_call(&mut c, &call, true, &vec![Answer::ChainTip(tip100)]) {
        Step::Done(line) => assert_eq!(
            line,
            "{\"jsonrpc\":\"2.0\",\"id\":1,\"result\":{\"height\":100,\"hex\":\"aa01\"}}"
        ),
        _ => panic!("one tip answer suffices"),
    }
    let tip101 = ChainTip { hash: h32(2), height: 101, header_hex: "bb02".to_string() };
    let lines = r.update_client(&mut c, &vec![], &tip101).unwrap();
    assert_eq!(lines.len(), 1);
    assert_eq!(
        lines[0],
        "{\"jsonrpc\":\"2.0\",\"method\":\"blockchain.headers.subscribe\",\"params\":[{\"height\":101,\"hex\":\"bb02\"}]}"
    );
    // the same tip again: nothing to tell
    let tip_same = ChainTip { hash: h32(2), height: 101, header_hex: "bb02".to_string() };
    let lines2 = r.update_client(&mut c, &vec![], &tip_same).unwrap();
    assert_eq!(lines2.len(), 0);
}

#[test]
fn no_tip_notification_without_subscription() {
    let r = rpc();
    let mut c = Client::new();
    let tip = ChainTip { hash: h32(5), height: 7, header_hex: "cc".to_string() };
    let lines = r.update_client(&mut c, &vec![], &tip).unwrap();
    assert_eq!(lines.len(), 0);
}

#[test]
fn subscribe_and_status_mutation() {
    let r = rpc();
    let mut c = Client::new();
    let sh = h32(0xab);
    let call = CallMsg {
        id_text: "5".to_string(),
        method: "blockchain.scripthash.subscribe".to_string(),
        params: Params::ScriptHashSubscribe(h32(0xab)),
    };
    let st = status_with(Some(0x11), vec![], vec![]);
    let ans = vec![Answer::Status(Ok(st))];
    match r.single_call(&mut c, &call, true, &ans) {
        Step::Done(line) => {
            assert!(line.contains(&hex64(0x11)));
        }
        _ => panic!("a built status completes the subscribe"),
    }
    assert_eq!(c.scripthashes.len(), 1);
    // a new transaction changes the status hash; the update announces it
    let st2 = status_with(Some(0x22), vec![], vec![]);
    let tip = ChainTip { hash: h32(1), height: 1, header_hex: "00".to_string() };
    let lines = r.update_client(&mut c, &vec![(sh, Ok(st2))], &tip).unwrap();
    assert_eq!(lines.len(), 1);
    assert!(lines[0].contains("blockchain.scripthash.subscribe"));
    assert!(lines[0].contains(&hex64(0xab)));
    assert!(lines[0].contains(&hex64(0x22)));
    // an unchanged hash stays silent
    let st3 = status_with(Some(0x22), vec![], vec![]);
    let lines2 = r
        .update_client(&mut c, &vec![(h32(0xab), Ok(st3))], &tip)
        .unwrap();
    assert_eq!(lines2.len(), 0);
}

#[test]
fn subscribe_is_idempotent() {
    let r = rpc();
    let mut c = Client::new();
    let call = CallMsg {
        id_text: "9".to_string(),
        method: "blockchain.scripthash.subscribe".to_string(),
        params: Params::ScriptHashSubscribe(h32(0xcd)),
    };
    let first = match r.single_call(
        &mut c,
        &call,
        true,
        &vec![Answer::Status(Ok(status_with(Some(0x33), vec![], vec![])))],
    ) {
        Step::Done(line) => line,
        _ => panic!(),
    };
    // the second subscribe needs no fresh status and answers the same bytes
    let second = match r.single_call(&mut c, &call, true, &vec![]) {
        Step::Done(line) => line,
        _ => panic!("a stored status answers at once"),
    };
    assert_eq!(first, second);
    assert_eq!(c.scripthashes.len(), 1);
}

#[test]
fn unsubscribe_roundtrip() {
    let r = rpc();
    let mut c = Client::new();
    let sub = CallMsg {
        id_text: "1".to_string(),
        method: "blockchain.scripthash.subscribe".to_string(),
        params: Params::ScriptHashSubscribe(h32(0x44)),
    };
    r.single_call(
        &mut c,
        &sub,
        true,
        &vec![Answer::Status(Ok(status_with(None, vec![], vec![])))],
    );
    let unsub = CallMsg {
        id_text: "2".to_string(),
        method: "blockchain.scripthash.unsubscribe".to_string(),
        params: Params::ScriptHashUnsubscribe(h32(0x44)),
    };
    match r.single_call(&mut c, &unsub, true, &vec![]) {
        Step::Done(line) => assert_eq!(line, "{\"jsonrpc\":\"2.0\",\"id\":2,\"result\":true}"),
        _ => panic!(),
    }
    match r.single_call(&mut c, &unsub, true, &vec![]) {
        Step::Done(line) => assert_eq!(line, "{\"jsonrpc\":\"2.0\",\"id\":2,\"result\":false}"),
        _ => panic!(),
    }
    assert_eq!(c.scripthashes.len(), 0);
}

#[test]
fn selector_all_small() {
    // three small entries: one target takes them all, the next sees nothing
    let u = vec![entry(1, 5), entry(2, 6), entry(3, 7)];
    let got = select_unspent(&u, &vec![10], 0, true);
    assert_eq!(got.len(), 3);
    let got2 = select_unspent(&u, &vec![10, 10], 0, true);
    let values: Vec<u64> = got2.iter().map(|e| e.value).collect();
    assert_eq!(values, vec![1, 2, 3]);
}

#[test]
fn selector_middle_fit() {
    let u: Vec<UnspentEntry> = (1..=10).map(|v| entry(v, v as i64)).collect();
    let got = select_unspent(&u, &vec![5], 0, true);
    let values: Vec<u64> = got.iter().map(|e| e.value).collect();
    assert_eq!(values, vec![1, 5, 6]);
}

#[test]
fn selector_first_and_last_fit() {
    let u: Vec<UnspentEntry> = (1..=10).map(|v| entry(v, v as i64)).collect();
    // the smallest already covers the target: take the three smallest
    let (list, idx) = select_utxos(&u, 1);
    assert_eq!(idx, vec![0, 1, 2]);
    assert_eq!(list.len(), 3);
    // only the largest covers it: take the ends
    let (_, idx2) = select_utxos(&u, 10);
    assert_eq!(idx2, vec![0, 8, 9]);
}

#[test]
fn selector_greedy_padding() {
    // nothing reaches the target: walk down from the large end and pad
    let u = vec![entry(5, 1), entry(6, 2), entry(7, 3), entry(8, 4)];
    let (list, idx) = select_utxos(&u, 9);
    assert_eq!(idx, vec![3, 2, 0]);
    let values: Vec<u64> = list.iter().map(|e| e.value).collect();
    assert_eq!(values, vec![8, 7, 5]);
}

#[test]
fn selector_filters() {
    let u = vec![entry(100, 0), entry(200, 3), entry(50, 4)];
    // confirmed only, and at least 60 sats
    let got = select_unspent(&u, &vec![1000], 60, true);
    let values: Vec<u64> = got.iter().map(|e| e.value).collect();
    assert_eq!(values, vec![200]);
}

#[test]
fn history_filter_bounds() {
    let hist: Vec<HistoryEntry> = (0..5)
        .map(|i| HistoryEntry { tx_hash: h32(i as u8), height: i })
        .collect();
    let st = status_with(Some(1), vec![], hist);
    let all = st.history_jv(None, None);
    let slice = st.history_jv(Some(1), Some(3));
    let crossed = st.history_jv(Some(4), Some(2));
    let clamped = st.history_jv(Some(3), Some(99));
    match (&all, &slice, &crossed, &clamped) {
        (Jv::Arr(a), Jv::Arr(s), Jv::Arr(x), Jv::Arr(c)) => {
            assert_eq!(a.len(), 5);
            assert_eq!(s.len(), 2);
            assert_eq!(x.len(), 0);
            assert_eq!(c.len(), 2);
        }
        _ => panic!("history answers are arrays"),
    }
    assert!(text(&slice).contains(&hex64(1)));
    assert!(text(&slice).contains(&hex64(2)));
    assert!(!text(&slice).contains(&hex64(3)));
}

#[test]
fn balance_and_unspent_exist() {
    let st = status_with(
        Some(1),
        vec![entry(100, 5), entry(40, 0), entry(7, 9)],
        vec![],
    );
    assert_eq!(
        text(&st.balance_jv()),
        "{\"confirmed\":107,\"unconfirmed\":40}"
    );
    assert!(st.unspent_exist(&h32(9)));
    assert!(!st.unspent_exist(&h32(1)));
}

#[test]
fn batch_order_is_kept() {
    let parts = vec!["{\"a\":1}".to_string(), "{\"b\":2}".to_string(), "3".to_string()];
    assert_eq!(batch_line(&parts), "[{\"a\":1},{\"b\":2},3]");
    match parse_line("[{\"id\":1,\"method\":\"server.ping\"},{\"id\":2,\"method\":\"server.ping\"}]") {
        Frame::Batch(reqs) => {
            assert_eq!(reqs.len(), 2);
            assert_eq!(reqs[0].id_text, "1");
            assert_eq!(reqs[1].id_text, "2");
        }
        _ => panic!("expected a batch"),
    }
}

#[test]
fn multi_call_fast_path_equivalence() {
    let r = rpc();
    let sh1 = h32(0x01);
    let sh2 = h32(0x02);
    let built = vec![
        (h32(0x01), Ok(status_with(Some(0xa1), vec![], vec![]))),
        (h32(0x02), Ok(status_with(Some(0xa2), vec![], vec![]))),
    ];
    let calls: Vec<Result<CallMsg, String>> = vec![
        Ok(CallMsg {
            id_text: "1".to_string(),
            method: "blockchain.scripthash.subscribe".to_string(),
            params: Params::ScriptHashSubscribe(h32(0x01)),
        }),
        Ok(CallMsg {
            id_text: "2".to_string(),
            method: "blockchain.scripthash.subscribe".to_string(),
            params: Params::ScriptHashSubscribe(h32(0x02)),
        }),
    ];
    let items = r.try_multi_call(&calls).expect("all calls are subscribes");
    let mut c_multi = Client::new();
    let multi = r.scripthashes_subscribe(&mut c_multi, &items, &built);

    let mut c_single = Client::new();
    let mut single: Vec<String> = Vec::new();
    for call in [&calls[0], &calls[1]] {
        let call = call.as_ref().unwrap();
        let sh = match &call.params {
            Params::ScriptHashSubscribe(sh) => sh,
            _ => unreachable!(),
        };
        let st = built
            .iter()
            .find(|(h, _)| h.bytes == sh.bytes)
            .and_then(|(_, s)| s.as_ref().ok())
            .unwrap();
        let dup = Status {
            statushash: st.statushash.as_ref().map(|h| Hash32 { bytes: h.bytes.clone() }),
            history: vec![],
            unspent: vec![],
        };
        match r.single_call(&mut c_single, call, true, &vec![Answer::Status(Ok(dup))]) {
            Step::Done(line) => single.push(line),
            _ => panic!(),
        }
    }
    assert_eq!(multi, single);
    assert_eq!(c_multi.scripthashes.len(), 2);
    assert_eq!(c_single.scripthashes.len(), 2);
    let _ = (sh1, sh2);
}

#[test]
fn multi_call_detection() {
    let r = rpc();
    let mixed: Vec<Result<CallMsg, String>> = vec![
        Ok(CallMsg {
            id_text: "1".to_string(),
            method: "blockchain.scripthash.subscribe".to_string(),
            params: Params::ScriptHashSubscribe(h32(0x01)),
        }),
        Ok(CallMsg {
            id_text: "2".to_string(),
            method: "server.ping".to_string(),
            params: Params::Ping,
        }),
    ];
    assert!(r.try_multi_call(&mixed).is_none());
}

#[test]
fn multi_call_failure_is_isolated() {
    let r = rpc();
    let mut c = Client::new();
    let items = vec![
        ("1".to_string(), h32(0x01)),
        ("2".to_string(), h32(0x02)),
    ];
    let built = vec![
        (h32(0x01), Err::<Status, String>("index busy".to_string())),
        (h32(0x02), Ok(status_with(None, vec![], vec![]))),
    ];
    let lines = r.scripthashes_subscribe(&mut c, &items, &built);
    assert_eq!(lines.len(), 2);
    assert!(lines[0].contains("\"code\":1"));
    assert!(lines[0].contains("index busy"));
    assert_eq!(lines[1], "{\"jsonrpc\":\"2.0\",\"id\":2,\"result\":null}");
    assert_eq!(c.scripthashes.len(), 1);
}

#[test]
fn block_header_and_headers() {
    let r = rpc();
    let mut c = Client::new();
    let call = CallMsg {
        id_text: "1".to_string(),
        method: "blockchain.block.header".to_string(),
        params: Params::BlockHeader(12),
    };
    match r.single_call(&mut c, &call, true, &vec![]) {
        Step::Need(Query::Header(12)) => {}
        _ => panic!("the header must be asked for"),
    }
    match r.single_call(&mut c, &call, true, &vec![Answer::Header(None)]) {
        Step::Done(line) => assert!(line.contains("no header at 12")),
        _ => panic!(),
    }
    let hs = CallMsg {
        id_text: "2".to_string(),
        method: "blockchain.block.headers".to_string(),
        params: Params::BlockHeaders(98, 5000),
    };
    let tip = ChainTip { hash: h32(0), height: 100, header_hex: "00".to_string() };
    match r.single_call(&mut c, &hs, true, &vec![Answer::ChainTip(tip)]) {
        Step::Need(Query::HeaderRange(98, 101)) => {}
        s => panic!("the range must be capped at the tip: {:?}", discriminant_name(&s)),
    }
    let tip = ChainTip { hash: h32(0), height: 100, header_hex: "00".to_string() };
    match r.single_call(
        &mut c,
        &hs,
        true,
        &vec![
            Answer::ChainTip(tip),
            Answer::HeaderRange(vec!["aa".to_string(), "bb".to_string(), "cc".to_string()]),
        ],
    ) {
        Step::Done(line) => assert_eq!(
            line,
            "{\"jsonrpc\":\"2.0\",\"id\":2,\"result\":{\"count\":3,\"hex\":\"aabbcc\",\"max\":2016}}"
        ),
        _ => panic!(),
    }
}

fn discriminant_name(s: &Step) -> &'static str {
    match s {
        Step::Done(_) => "done",
        Step::Need(_) => "need",
    }
}

#[test]
fn estimate_fee_texts() {
    let r = rpc();
    let mut c = Client::new();
    let call = CallMsg {
        id_text: "1".to_string(),
        method: "blockchain.estimatefee".to_string(),
        params: Params::EstimateFee(6),
    };
    match r.single_call(&mut c, &call, true, &vec![Answer::EstimateFee(Ok(Some(1234)))]) {
        Step::Done(line) => assert_eq!(line, "{\"jsonrpc\":\"2.0\",\"id\":1,\"result\":0.00001234}"),
        _ => panic!(),
    }
    match r.single_call(&mut c, &call, true, &vec![Answer::EstimateFee(Ok(None))]) {
        Step::Done(line) => assert_eq!(line, "{\"jsonrpc\":\"2.0\",\"id\":1,\"result\":-1}"),
        _ => panic!(),
    }
    match r.single_call(
        &mut c,
        &call,
        true,
        &vec![Answer::EstimateFee(Err(RemoteErr::Daemon("overloaded".to_string())))],
    ) {
        Step::Done(line) => {
            assert!(line.contains("\"code\":2"));
            assert!(line.contains("overloaded"));
        }
        _ => panic!(),
    }
}

#[test]
fn broadcast_validation() {
    let r = rpc();
    let mut c = Client::new();
    let bad_hex = CallMsg {
        id_text: "1".to_string(),
        method: "blockchain.transaction.broadcast".to_string(),
        params: Params::TransactionBroadcast("zz".to_string()),
    };
    match r.single_call(&mut c, &bad_hex, true, &vec![]) {
        Step::Done(line) => assert!(line.contains("non-hex transaction")),
        _ => panic!(),
    }
    let bad_tx = CallMsg {
        id_text: "2".to_string(),
        method: "blockchain.transaction.broadcast".to_string(),
        params: Params::TransactionBroadcast("deadbeef".to_string()),
    };
    match r.single_call(&mut c, &bad_tx, true, &vec![]) {
        Step::Done(line) => assert!(line.contains("invalid transaction")),
        _ => panic!(),
    }
    // a minimal consensus-valid transaction reaches the node
    let raw = format!(
        "0100000001{}ffffffff00ffffffff01{}0000000000",
        "00".repeat(32),
        "00".repeat(8)
    );
    let good = CallMsg {
        id_text: "3".to_string(),
        method: "blockchain.transaction.broadcast".to_string(),
        params: Params::TransactionBroadcast(raw),
    };
    match r.single_call(&mut c, &good, true, &vec![]) {
        Step::Need(Query::Broadcast(_)) => {}
        Step::Done(line) => panic!("a valid transaction must be handed on: {}", line),
        _ => panic!(),
    }
    match r.single_call(&mut c, &good, true, &vec![Answer::Broadcast(Ok(h32(0x77)))]) {
        Step::Done(line) => assert!(line.contains(&hex64(0x77))),
        _ => panic!(),
    }
}

#[test]
fn catalog_parses_methods() {
    let line = format!(
        "{{\"id\":4,\"method\":\"blockchain.scripthash.select_unspent\",\"params\":[\"{}\",[5,6],2,true]}}",
        hex64(0xee)
    );
    match parse_line(&line) {
        Frame::Single(req) => match electrs::dispatch::parse_call(req) {
            Ok(call) => match call.params {
                Params::ScriptHashSelectUnspent(sh, amounts, min, conf) => {
                    assert_eq!(sh.bytes, vec![0xee; 32]);
                    assert_eq!(amounts, vec![5, 6]);
                    assert_eq!(min, 2);
                    assert!(conf);
                }
                _ => panic!("wrong variant"),
            },
            Err(e) => panic!("select_unspent params must parse: {}", e),
        },
        _ => panic!("expected a single request"),
    }
    // a malformed script-hash is an invalid-params error
    match parse_line("{\"id\":4,\"method\":\"blockchain.scripthash.get_balance\",\"params\":[\"xy\"]}") {
        Frame::Single(req) => match electrs::dispatch::parse_call(req) {
            Err(l) => assert!(l.contains("-32602")),
            Ok(_) => panic!("a two-character hash must be refused"),
        },
        _ => panic!(),
    }
}

#[test]
fn id_shapes_are_echoed() {
    match parse_line("{\"id\":\"abc\",\"method\":\"server.ping\"}") {
        Frame::Single(req) => assert_eq!(req.id_text, "\"abc\""),
        _ => panic!(),
    }
    match parse_line("{\"id\":null,\"method\":\"server.ping\"}") {
        Frame::Single(req) => assert_eq!(req.id_text, "null"),
        _ => panic!(),
    }
    match parse_line("{\"id\":-7,\"method\":\"server.ping\"}") {
        Frame::Single(req) => assert_eq!(req.id_text, "-7"),
        _ => panic!(),
    }
}

#[test]
fn escaped_strings_round_trip() {
    let j = Jv::Str("a\"b\\c\nd".to_string());
    assert_eq!(text(&j), "\"a\\\"b\\\\c\\nd\"");
    let line = result_line(&"1".to_string(), &j);
    let parsed: serde_json::Value = serde_json::from_str(&line).expect("the line is valid JSON");
    assert_eq!(parsed["result"], serde_json::Value::String("a\"b\\c\nd".to_string()));
}

#[test]
fn features_and_banner() {
    let r = rpc();
    let mut c = Client::new();
    let banner = CallMsg {
        id_text: "1".to_string(),
        method: "server.banner".to_string(),
        params: Params::Banner,
    };
    match r.single_call(&mut c, &banner, true, &vec![]) {
        Step::Done(line) => assert_eq!(line, "{\"jsonrpc\":\"2.0\",\"id\":1,\"result\":\"hello banner\"}"),
        _ => panic!(),
    }
    let features = CallMsg {
        id_text: "2".to_string(),
        method: "server.features".to_string(),
        params: Params::Features,
    };
    match r.single_call(&mut c, &features, true, &vec![Answer::GenesisHash(Some(h32(0x0f)))]) {
        Step::Done(line) => {
            assert!(line.contains("\"hosts\":{\"tcp_port\":50001}"));
            assert!(line.contains("\"protocol_max\":\"1.4\""));
            assert!(line.contains(&hex64(0x0f)));
            assert!(line.contains("\"server_version\":\"electrs/0.0.0\""));
        }
        _ => panic!(),
    }
}

#[test]
fn transaction_get_fallback_order() {
    let r = rpc();
    let mut c = Client::new();
    let call = CallMsg {
        id_text: "1".to_string(),
        method: "blockchain.transaction.get".to_string(),
        params: Params::TransactionGet(h32(0x10), false),
    };
    match r.single_call(&mut c, &call, true, &vec![]) {
        Step::Need(Query::CachedTx(_)) => {}
        _ => panic!("the cache is consulted first"),
    }
    match r.single_call(&mut c, &call, true, &vec![Answer::CachedTx(Some("cafe".to_string()))]) {
        Step::Done(line) => assert_eq!(line, "{\"jsonrpc\":\"2.0\",\"id\":1,\"result\":\"cafe\"}"),
        _ => panic!(),
    }
    match r.single_call(&mut c, &call, true, &vec![Answer::CachedTx(None)]) {
        Step::Need(Query::IndexTx(_)) => {}
        _ => panic!("a cache miss falls back to the index"),
    }
    match r.single_call(
        &mut c,
        &call,
        true,
        &vec![Answer::CachedTx(None), Answer::IndexTx(Ok(None)), Answer::DaemonTxHex(Ok("beef".to_string()))],
    ) {
        Step::Done(line) => assert_eq!(line, "{\"jsonrpc\":\"2.0\",\"id\":1,\"result\":\"beef\"}"),
        _ => panic!(),
    }
}

#[test]
fn merkle_position_and_proof() {
    let r = rpc();
    let mut c = Client::new();
    let call = CallMsg {
        id_text: "1".to_string(),
        method: "blockchain.transaction.get_merkle".to_string(),
        params: Params::TransactionGetMerkle(h32(0x02), 55),
    };
    let txids = vec![h32(0x01), h32(0x02), h32(0x03)];
    match r.single_call(
        &mut c,
        &call,
        true,
        &vec![
            Answer::BlockHash(Some(h32(0xbb))),
            Answer::BlockTxids(Ok(txids)),
            Answer::MerkleProof(vec!["n1".to_string(), "n2".to_string()]),
        ],
    ) {
        Step::Done(line) => assert_eq!(
            line,
            "{\"jsonrpc\":\"2.0\",\"id\":1,\"result\":{\"block_height\":55,\"merkle\":[\"n1\",\"n2\"],\"pos\":1}}"
        ),
        _ => panic!(),
    }
    match r.single_call(
        &mut c,
        &call,
        true,
        &vec![Answer::BlockHash(Some(h32(0xbb))), Answer::BlockTxids(Ok(vec![h32(0x09)]))],
    ) {
        Step::Done(line) => assert!(line.contains("missing txid")),
        _ => panic!(),
    }
}

#[test]
fn id_from_pos_bounds() {
    let r = rpc();
    let mut c = Client::new();
    let call = CallMsg {
        id_text: "1".to_string(),
        method: "blockchain.transaction.id_from_pos".to_string(),
        params: Params::TransactionFromPosition(8, 5, false),
    };
    match r.single_call(
        &mut c,
        &call,
        true,
        &vec![Answer::BlockHash(Some(h32(0xbb))), Answer::BlockTxids(Ok(vec![h32(0x01)]))],
    ) {
        Step::Done(line) => assert!(line.contains("invalid tx_pos 5 in block at height 8")),
        _ => panic!(),
    }
}

#[test]
fn update_failure_is_fatal() {
    let r = rpc();
    let mut c = Client::new();
    let sub = CallMsg {
        id_text: "1".to_string(),
        method: "blockchain.scripthash.subscribe".to_string(),
        params: Params::ScriptHashSubscribe(h32(0x60)),
    };
    r.single_call(
        &mut c,
        &sub,
        true,
        &vec![Answer::Status(Ok(status_with(Some(1), vec![], vec![])))],
    );
    let tip = ChainTip { hash: h32(0), height: 0, header_hex: "00".to_string() };
    let res = r.update_client(
        &mut c,
        &vec![(h32(0x60), Err("index gone".to_string()))],
        &tip,
    );
    assert!(res.is_err());
    // the stored status is untouched by the failed round
    assert_eq!(c.scripthashes.len(), 1);
}

#[test]
fn gate_allows_header_calls() {
    let r = rpc();
    let mut c = Client::new();
    let call = CallMsg {
        id_text: "1".to_string(),
        method: "blockchain.block.header".to_string(),
        params: Params::BlockHeader(0),
    };
    match r.single_call(&mut c, &call, false, &vec![]) {
        Step::Need(Query::Header(0)) => {}
        _ => panic!("header calls pass the index check"),
    }
}

#[test]
fn list_unspent_shapes() {
    let st = status_with(Some(1), vec![entry(12, 3)], vec![]);
    let line = text(&st.unspent_jv());
    assert_eq!(
        line,
        format!(
            "[{{\"height\":3,\"tx_hash\":\"{}\",\"tx_pos\":0,\"value\":12}}]",
            hex64(9)
        )
    );
}

#[test]
fn balance_of_unsubscribed_hash_uses_fresh_status() {
    let r = rpc();
    let mut c = Client::new();
    let call = CallMsg {
        id_text: "1".to_string(),
        method: "blockchain.scripthash.get_balance".to_string(),
        params: Params::ScriptHashGetBalance(h32(0x70)),
    };
    match r.single_call(&mut c, &call, true, &vec![]) {
        Step::Need(Query::BuildStatus(sh)) => assert_eq!(sh.bytes, vec![0x70; 32]),
        _ => panic!("an unsubscribed hash asks for a fresh status"),
    }
    let fresh = status_with(Some(1), vec![entry(30, 2)], vec![]);
    match r.single_call(&mut c, &call, true, &vec![Answer::Status(Ok(fresh))]) {
        Step::Done(line) => assert_eq!(
            line,
            "{\"jsonrpc\":\"2.0\",\"id\":1,\"result\":{\"confirmed\":30,\"unconfirmed\":0}}"
        ),
        _ => panic!(),
    }
    // the on-demand read does not subscribe
    assert_eq!(c.scripthashes.len(), 0);
}
