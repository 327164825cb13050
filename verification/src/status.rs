//! Readers over a stored script-hash status: balance, history slices and
//! unspent queries.
use vstd::prelude::*;

use crate::hexs::spec_hex;
use crate::jsonval::Jv;
use crate::selector;
use crate::types::{Status, HistoryEntry, HistV, EntryV, UnspentEntry, Hash32, entries_v};

verus! {

/// Addition that sticks at the top of the range.
pub open spec fn sat_add(a: u64, b: u64) -> u64 {
    if a + b > u64::MAX {
        u64::MAX
    } else {
        (a + b) as u64
    }
}

/// Total value of the entries on one side of the confirmation line,
/// saturating instead of wrapping.
pub open spec fn spec_balance(s: Seq<EntryV>, conf: bool) -> u64
    decreases s.len(),
{
    if s.len() == 0 {
        0u64
    } else {
        sat_add(
            spec_balance(s.drop_last(), conf),
            if conf == (s.last().height > 0) {
                s.last().value
            } else {
                0u64
            },
        )
    }
}

/// The JSON object one history entry shows as.
pub open spec fn hist_item(j: Jv, e: HistV) -> bool {
    &&& j matches Jv::Obj(o)
    &&& o@.len() == 2
    &&& o@[0].0@ == "tx_hash"@
    &&& o@[0].1 matches Jv::Str(h) && h@ == spec_hex(e.tx)
    &&& o@[1].0@ == "height"@
    &&& o@[1].1 == Jv::Int(e.height)
}

/// The JSON object one unspent entry shows as.
pub open spec fn unspent_item(j: Jv, e: EntryV) -> bool {
    &&& j matches Jv::Obj(o)
    &&& o@.len() == 4
    &&& o@[0].0@ == "height"@
    &&& o@[0].1 == Jv::Int(e.height)
    &&& o@[1].0@ == "tx_hash"@
    &&& o@[1].1 matches Jv::Str(h) && h@ == spec_hex(e.tx)
    &&& o@[2].0@ == "tx_pos"@
    &&& o@[2].1 == Jv::Uint(e.vout as u64)
    &&& o@[3].0@ == "value"@
    &&& o@[3].1 == Jv::Uint(e.value)
}

/// Start of the served history range.
pub open spec fn hist_lo(len: int, from: Option<u64>) -> int {
    match from {
        Some(f) => if f as int <= len {
            f as int
        } else {
            len
        },
        None => 0,
    }
}

/// End of the served history range.
pub open spec fn hist_hi(len: int, to: Option<u64>) -> int {
    match to {
        Some(t) => if t as int <= len {
            t as int
        } else {
            len
        },
        None => len,
    }
}

fn hist_entry_jv(e: &HistoryEntry) -> (r: Jv)
    ensures
        hist_item(r, e@),
{
    let mut o: Vec<(String, Jv)> = Vec::new();
    o.push((String::from_str("tx_hash"), e.tx_hash.hex_jv()));
    o.push((String::from_str("height"), Jv::Int(e.height)));
    Jv::Obj(o)
}

fn unspent_entry_jv(e: &UnspentEntry) -> (r: Jv)
    ensures
        unspent_item(r, e@),
{
    let mut o: Vec<(String, Jv)> = Vec::new();
    o.push((String::from_str("height"), Jv::Int(e.height)));
    o.push((String::from_str("tx_hash"), e.tx_hash.hex_jv()));
    o.push((String::from_str("tx_pos"), Jv::Uint(e.vout as u64)));
    o.push((String::from_str("value"), Jv::Uint(e.value)));
    Jv::Obj(o)
}

/// The balance object a status answers with.
pub open spec fn balance_shows(j: Jv, unspent: Seq<EntryV>) -> bool {
    &&& j matches Jv::Obj(o)
    &&& o@.len() == 2
    &&& o@[0].0@ == "confirmed"@
    &&& o@[0].1 == Jv::Uint(spec_balance(unspent, true))
    &&& o@[1].0@ == "unconfirmed"@
    &&& o@[1].1 == Jv::Uint(spec_balance(unspent, false))
}

/// The history slice a status answers with.
pub open spec fn history_shows(j: Jv, hist: Seq<HistV>, from: Option<u64>, to: Option<u64>) -> bool {
    j matches Jv::Arr(items) && {
        let lo = hist_lo(hist.len() as int, from);
        let hi = hist_hi(hist.len() as int, to);
        let count = if lo <= hi {
            hi - lo
        } else {
            0
        };
        &&& items@.len() == count
        &&& forall|k: int| 0 <= k < count ==> hist_item(#[trigger] items@[k], hist[lo + k])
    }
}

/// The unspent list a status answers with.
pub open spec fn unspent_shows(j: Jv, unspent: Seq<EntryV>) -> bool {
    j matches Jv::Arr(items) && items@.len() == unspent.len() && forall|k: int|
        0 <= k < items@.len() ==> unspent_item(#[trigger] items@[k], unspent[k])
}

/// Some entry passing the pre-filter shows as this wire object.
pub open spec fn kept_item(j: Jv, min_amount: u64, confirmed: bool) -> bool {
    exists|e: EntryV| selector::keeps(e, min_amount, confirmed) && unspent_item(j, e)
}

/// The selector's answer: the fold of the per-target choice over some
/// ascending arrangement of the kept entries, shown entry for entry; every
/// entry passes the pre-filter, and at least `min(3 k, m)` come back for
/// `k` targets over `m` kept entries.
pub open spec fn select_shows(
    j: Jv,
    unspent: Seq<EntryV>,
    amounts: Seq<u64>,
    min_amount: u64,
    confirmed: bool,
) -> bool {
    j matches Jv::Arr(items) && (forall|k: int|
        0 <= k < items@.len() ==> kept_item(#[trigger] items@[k], min_amount, confirmed))
        && (amounts.len() > 0 ==> items@.len() >= vstd::math::min(
        3 * amounts.len() as int,
        selector::spec_filter(unspent, min_amount, confirmed).len() as int,
    )) && exists|s: Seq<EntryV>|
        selector::sorted_by_value(s) && s.to_multiset() == selector::spec_filter(
            unspent,
            min_amount,
            confirmed,
        ).to_multiset() && ({
            let chosen = #[trigger] selector::select_loop(s, amounts, amounts.len() as int).0;
            items@.len() == chosen.len() && forall|k: int|
                0 <= k < chosen.len() ==> unspent_item(#[trigger] items@[k], chosen[k])
        })
}

impl Status {
    /// Deep copy.
    #[verifier::loop_isolation(false)]
    pub fn dup(&self) -> (r: Status)
        ensures
            r@ == self@,
    {
        let statushash = match &self.statushash {
            Some(h) => Some(h.dup()),
            None => None,
        };
        let mut history: Vec<HistoryEntry> = Vec::new();
        let mut i: usize = 0;
        while i < self.history.len()
            invariant
                i <= self.history.len(),
                history@.map_values(|e: HistoryEntry| e@) =~= self.history@.map_values(
                    |e: HistoryEntry| e@,
                ).take(i as int),
            decreases self.history.len() - i,
        {
            let e = &self.history[i];
            history.push(HistoryEntry { tx_hash: e.tx_hash.dup(), height: e.height });
            proof {
                let f = |x: HistoryEntry| x@;
                assert(history@.map_values(f)[i as int] == self.history@[i as int]@);
                assert(history@.map_values(f) =~= self.history@.map_values(f).take(i + 1 as int));
            }
            i = i + 1;
        }
        let mut unspent: Vec<UnspentEntry> = Vec::new();
        let mut j: usize = 0;
        while j < self.unspent.len()
            invariant
                j <= self.unspent.len(),
                entries_v(unspent@) =~= entries_v(self.unspent@).take(j as int),
            decreases self.unspent.len() - j,
        {
            unspent.push(self.unspent[j].dup());
            proof {
                assert(entries_v(unspent@)[j as int] == self.unspent@[j as int]@);
                assert(entries_v(unspent@) =~= entries_v(self.unspent@).take(j + 1 as int));
            }
            j = j + 1;
        }
        let r = Status { statushash, history, unspent };
        proof {
            assert(history@.map_values(|e: HistoryEntry| e@) =~= self.history@.map_values(
                |e: HistoryEntry| e@,
            ));
            assert(entries_v(unspent@) =~= entries_v(self.unspent@));
            assert(r@ =~= self@);
        }
        r
    }

    /// Balance of the unspent set, split into the confirmed part and the
    /// mempool part, in satoshis.
    pub fn balance_jv(&self) -> (r: Jv)
        ensures
            r matches Jv::Obj(o) && o@.len() == 2 && o@[0].0@ == "confirmed"@ && o@[0].1
                == Jv::Uint(spec_balance(self@.unspent, true)) && o@[1].0@ == "unconfirmed"@
                && o@[1].1 == Jv::Uint(spec_balance(self@.unspent, false)),
    {
        let mut conf: u64 = 0;
        let mut memp: u64 = 0;
        let mut i: usize = 0;
        while i < self.unspent.len()
            invariant
                i <= self.unspent.len(),
                conf == spec_balance(entries_v(self.unspent@).take(i as int), true),
                memp == spec_balance(entries_v(self.unspent@).take(i as int), false),
            decreases self.unspent.len() - i,
        {
            let e = &self.unspent[i];
            proof {
                let t = entries_v(self.unspent@).take(i + 1 as int);
                assert(t.drop_last() =~= entries_v(self.unspent@).take(i as int));
                assert(t.last() == self.unspent@[i as int]@);
            }
            if e.height > 0 {
                conf = if conf > u64::MAX - e.value {
                    u64::MAX
                } else {
                    conf + e.value
                };
            } else {
                memp = if memp > u64::MAX - e.value {
                    u64::MAX
                } else {
                    memp + e.value
                };
            }
            i = i + 1;
        }
        proof {
            assert(entries_v(self.unspent@).take(self.unspent@.len() as int) =~= entries_v(
                self.unspent@,
            ));
        }
        let mut o: Vec<(String, Jv)> = Vec::new();
        o.push((String::from_str("confirmed"), Jv::Uint(conf)));
        o.push((String::from_str("unconfirmed"), Jv::Uint(memp)));
        Jv::Obj(o)
    }

    /// The history entries at indices `[lo, hi)`, each as its wire object;
    /// open ends reach the matching end of the history, and a crossed range
    /// is empty.
    pub fn history_jv(&self, from: Option<u64>, to: Option<u64>) -> (r: Jv)
        ensures
            r matches Jv::Arr(items) && {
                let lo = hist_lo(self@.history.len() as int, from);
                let hi = hist_hi(self@.history.len() as int, to);
                let count = if lo <= hi {
                    hi - lo
                } else {
                    0
                };
                &&& items@.len() == count
                &&& forall|k: int|
                    0 <= k < count ==> hist_item(#[trigger] items@[k], self@.history[lo + k])
            },
    {
        let len = self.history.len();
        let lo: usize = match from {
            Some(f) => if f <= len as u64 {
                f as usize
            } else {
                len
            },
            None => 0,
        };
        let hi: usize = match to {
            Some(t) => if t <= len as u64 {
                t as usize
            } else {
                len
            },
            None => len,
        };
        let mut items: Vec<Jv> = Vec::new();
        if lo < hi {
            let mut i: usize = lo;
            while i < hi
                invariant
                    lo <= i <= hi <= self.history@.len(),
                    items@.len() == i - lo,
                    forall|k: int|
                        0 <= k < i - lo ==> hist_item(
                            #[trigger] items@[k],
                            self@.history[lo + k],
                        ),
                decreases hi - i,
            {
                items.push(hist_entry_jv(&self.history[i]));
                i = i + 1;
            }
        }
        Jv::Arr(items)
    }

    /// The unspent set, each entry as its wire object.
    pub fn unspent_jv(&self) -> (r: Jv)
        ensures
            r matches Jv::Arr(items) && items@.len() == self@.unspent.len() && forall|k: int|
                0 <= k < items@.len() ==> unspent_item(#[trigger] items@[k], self@.unspent[k]),
    {
        let mut items: Vec<Jv> = Vec::new();
        let mut i: usize = 0;
        while i < self.unspent.len()
            invariant
                i <= self.unspent.len(),
                items@.len() == i,
                forall|k: int|
                    0 <= k < i ==> unspent_item(#[trigger] items@[k], self@.unspent[k]),
            decreases self.unspent.len() - i,
        {
            items.push(unspent_entry_jv(&self.unspent[i]));
            i = i + 1;
        }
        Jv::Arr(items)
    }

    /// Whether some unspent entry spends from the given transaction.
    pub fn unspent_exist(&self, txid: &Hash32) -> (r: bool)
        ensures
            r == exists|k: int| 0 <= k < self@.unspent.len() && self@.unspent[k].tx == txid@,
    {
        let mut i: usize = 0;
        while i < self.unspent.len()
            invariant
                i <= self.unspent.len(),
                forall|k: int| 0 <= k < i ==> self@.unspent[k].tx != txid@,
            decreases self.unspent.len() - i,
        {
            if self.unspent[i].tx_hash.same(txid) {
                proof {
                    assert(self@.unspent[i as int].tx == txid@);
                }
                return true;
            }
            i = i + 1;
        }
        false
    }

    /// The selector's pick over this status's unspent set, each entry as its
    /// wire object.
    pub fn select_unspent_jv(&self, amounts: &Vec<u64>, min_amount: u64, confirmed: bool) -> (r:
        Jv)
        ensures
            select_shows(r, entries_v(self.unspent@), amounts@, min_amount, confirmed),
    {
        let picked = selector::select_unspent(&self.unspent, amounts, min_amount, confirmed);
        let mut items: Vec<Jv> = Vec::new();
        let mut i: usize = 0;
        while i < picked.len()
            invariant
                i <= picked.len(),
                items@.len() == i,
                forall|k: int|
                    0 <= k < picked@.len() ==> selector::keeps(
                        #[trigger] picked@[k]@,
                        min_amount,
                        confirmed,
                    ),
                forall|k: int|
                    0 <= k < i ==> unspent_item(#[trigger] items@[k], picked@[k]@),
            decreases picked.len() - i,
        {
            items.push(unspent_entry_jv(&picked[i]));
            i = i + 1;
        }
        proof {
            assert forall|k: int| 0 <= k < items@.len() implies kept_item(
                #[trigger] items@[k],
                min_amount,
                confirmed,
            ) by {
                let w = picked@[k]@;
                assert(selector::keeps(w, min_amount, confirmed) && unspent_item(items@[k], w));
            }
            let uv = entries_v(self.unspent@);
            let s = choose|s: Seq<EntryV>|
                selector::sorted_by_value(s) && s.to_multiset() == selector::spec_filter(
                    uv,
                    min_amount,
                    confirmed,
                ).to_multiset() && entries_v(picked@) == #[trigger] selector::select_loop(
                    s,
                    amounts@,
                    amounts@.len() as int,
                ).0;
            let chosen = selector::select_loop(s, amounts@, amounts@.len() as int).0;
            assert(entries_v(picked@) == chosen);
            assert forall|k: int| 0 <= k < chosen.len() implies unspent_item(
                #[trigger] items@[k],
                chosen[k],
            ) by {
                assert(chosen[k] == entries_v(picked@)[k]);
                assert(entries_v(picked@)[k] == picked@[k]@);
            }
            assert(select_shows(Jv::Arr(items), uv, amounts@, min_amount, confirmed));
        }
        Jv::Arr(items)
    }
}

} // verus!
