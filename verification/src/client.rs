//! Per-client protocol state: the subscribed script-hashes with their stored
//! statuses, and the last chain tip this client was told about.
use vstd::prelude::*;

use crate::hexs::spec_hex;
use crate::jsonval::{Jv, jtext, write_jv};
use crate::types::{Hash32, Status, StatusV};
use crate::wire::{notification_line, spec_notification_line};

verus! {

/// Per-client Electrum protocol state.
pub struct Client {
    pub tip: Option<Hash32>,
    pub scripthashes: Vec<(Hash32, Status)>,
}

pub ghost struct ClientV {
    pub tip: Option<Seq<u8>>,
    pub subs: Seq<(Seq<u8>, StatusV)>,
}

impl View for Client {
    type V = ClientV;

    open spec fn view(&self) -> ClientV {
        ClientV {
            tip: match self.tip {
                Some(t) => Some(t@),
                None => None,
            },
            subs: self.scripthashes@.map_values(|p: (Hash32, Status)| (p.0@, p.1@)),
        }
    }
}

/// A key appears in the subscription table.
pub open spec fn has_key(subs: Seq<(Seq<u8>, StatusV)>, k: Seq<u8>) -> bool {
    exists|i: int| 0 <= i < subs.len() && subs[i].0 == k
}

/// Where a key sits.
pub open spec fn key_at(subs: Seq<(Seq<u8>, StatusV)>, k: Seq<u8>) -> int {
    choose|i: int| 0 <= i < subs.len() && subs[i].0 == k
}

/// The status stored under a key.
pub open spec fn val_of(subs: Seq<(Seq<u8>, StatusV)>, k: Seq<u8>) -> StatusV {
    subs[key_at(subs, k)].1
}

/// No key twice.
pub open spec fn uniq(subs: Seq<(Seq<u8>, StatusV)>) -> bool {
    forall|i: int, j: int| 0 <= i < j < subs.len() ==> subs[i].0 != subs[j].0
}

/// The table without a key.
pub open spec fn remove_key(subs: Seq<(Seq<u8>, StatusV)>, k: Seq<u8>) -> Seq<
    (Seq<u8>, StatusV),
>
    decreases subs.len(),
{
    if subs.len() == 0 {
        Seq::empty()
    } else if subs[0].0 == k {
        subs.drop_first()
    } else {
        seq![subs[0]] + remove_key(subs.drop_first(), k)
    }
}

/// The table with the value under a present key replaced.
pub open spec fn set_val(subs: Seq<(Seq<u8>, StatusV)>, k: Seq<u8>, v: StatusV) -> Seq<
    (Seq<u8>, StatusV),
> {
    subs.update(key_at(subs, k), (k, v))
}

/// Replacing one key's value leaves the keys, every other value, and
/// uniqueness untouched, and stores exactly the new value under the key.
pub proof fn lemma_set_val(subs: Seq<(Seq<u8>, StatusV)>, k: Seq<u8>, v: StatusV, x: Seq<u8>)
    requires
        uniq(subs),
        has_key(subs, k),
    ensures
        set_val(subs, k, v).len() == subs.len(),
        forall|m: int| 0 <= m < subs.len() ==> set_val(subs, k, v)[m].0 == subs[m].0,
        uniq(set_val(subs, k, v)),
        has_key(set_val(subs, k, v), x) <==> has_key(subs, x),
        x != k && has_key(subs, x) ==> val_of(set_val(subs, k, v), x) == val_of(subs, x),
        val_of(set_val(subs, k, v), k) == v,
{
    let idx = key_at(subs, k);
    let subs2 = set_val(subs, k, v);
    assert(0 <= idx < subs.len() && subs[idx].0 == k);
    assert(forall|m: int| 0 <= m < subs.len() ==> subs2[m].0 == subs[m].0);
    if has_key(subs, x) {
        let w = choose|w: int| 0 <= w < subs.len() && subs[w].0 == x;
        assert(subs2[w].0 == x);
        assert(has_key(subs2, x));
    }
    if has_key(subs2, x) {
        let w = choose|w: int| 0 <= w < subs2.len() && subs2[w].0 == x;
        assert(subs[w].0 == x);
        assert(has_key(subs, x));
    }
    lemma_key_at(subs2, k, idx);
    if x != k && has_key(subs, x) {
        let w = key_at(subs, x);
        assert(0 <= w < subs.len() && subs[w].0 == x);
        assert(subs2[w].0 == x);
        lemma_key_at(subs2, x, w);
        assert(w != idx);
    }
}

/// With unique keys, any position holding the key is the position.
pub proof fn lemma_key_at(subs: Seq<(Seq<u8>, StatusV)>, k: Seq<u8>, i: int)
    requires
        uniq(subs),
        0 <= i < subs.len(),
        subs[i].0 == k,
    ensures
        key_at(subs, k) == i,
        has_key(subs, k),
{
    assert(has_key(subs, k));
    let j = key_at(subs, k);
    if i < j {
        assert(subs[i].0 != subs[j].0);
    } else if j < i {
        assert(subs[j].0 != subs[i].0);
    }
}

/// After a removal the key is gone and the others still appear once.
pub proof fn lemma_remove_key(subs: Seq<(Seq<u8>, StatusV)>, k: Seq<u8>)
    requires
        uniq(subs),
    ensures
        !has_key(remove_key(subs, k), k),
        uniq(remove_key(subs, k)),
        has_key(subs, k) ==> remove_key(subs, k).len() == subs.len() - 1,
        !has_key(subs, k) ==> remove_key(subs, k) == subs,
    decreases subs.len(),
{
    if subs.len() > 0 {
        let rest = subs.drop_first();
        assert(uniq(rest)) by {
            assert(forall|i: int, j: int|
                0 <= i < j < rest.len() ==> rest[i].0 == subs[i + 1].0 && rest[j].0 == subs[j
                    + 1].0);
        }
        lemma_remove_key(rest, k);
        if subs[0].0 == k {
            assert(!has_key(rest, k)) by {
                if has_key(rest, k) {
                    let w = choose|w: int| 0 <= w < rest.len() && rest[w].0 == k;
                    assert(subs[w + 1].0 == subs[0].0);
                }
            }
            assert(remove_key(subs, k) == rest);
        } else {
            let r = seq![subs[0]] + remove_key(rest, k);
            assert(remove_key(subs, k) == r);
            assert(!has_key(r, k)) by {
                if has_key(r, k) {
                    let w = choose|w: int| 0 <= w < r.len() && r[w].0 == k;
                    if w > 0 {
                        assert(remove_key(rest, k)[w - 1].0 == k);
                        assert(has_key(remove_key(rest, k), k));
                    }
                }
            }
            assert(uniq(r)) by {
                assert forall|i: int, j: int| 0 <= i < j < r.len() implies r[i].0 != r[j].0 by {
                    if i == 0 {
                        assert(r[j].0 == remove_key(rest, k)[j - 1].0);
                        lemma_remove_member(rest, k, j - 1);
                    } else {
                        lemma_remove_member(rest, k, i - 1);
                        lemma_remove_member(rest, k, j - 1);
                        let wi = choose|w: int|
                            0 <= w < rest.len() && rest[w] == remove_key(rest, k)[i - 1];
                        let wj = choose|w: int|
                            0 <= w < rest.len() && rest[w] == remove_key(rest, k)[j - 1];
                        lemma_remove_order(rest, k, i - 1, j - 1);
                    }
                }
            }
            if has_key(subs, k) {
                let w = choose|w: int| 0 <= w < subs.len() && subs[w].0 == k;
                assert(rest[w - 1].0 == k);
                assert(has_key(rest, k));
            }
            if !has_key(subs, k) {
                assert(!has_key(rest, k)) by {
                    if has_key(rest, k) {
                        let w = choose|w: int| 0 <= w < rest.len() && rest[w].0 == k;
                        assert(subs[w + 1].0 == k);
                    }
                }
                assert(remove_key(subs, k) =~= subs);
            }
        }
    }
}

/// Each survivor of a removal is one of the original entries.
pub proof fn lemma_remove_member(subs: Seq<(Seq<u8>, StatusV)>, k: Seq<u8>, m: int)
    requires
        0 <= m < remove_key(subs, k).len(),
    ensures
        exists|w: int| 0 <= w < subs.len() && subs[w] == remove_key(subs, k)[m],
    decreases subs.len(),
{
    if subs.len() > 0 {
        if subs[0].0 == k {
            assert(subs[m + 1] == remove_key(subs, k)[m]);
        } else if m > 0 {
            lemma_remove_member(subs.drop_first(), k, m - 1);
            let w = choose|w: int|
                0 <= w < subs.drop_first().len() && subs.drop_first()[w] == remove_key(
                    subs.drop_first(),
                    k,
                )[m - 1];
            assert(subs[w + 1] == remove_key(subs, k)[m]);
        } else {
            assert(subs[0] == remove_key(subs, k)[0]);
        }
    }
}

/// Survivors keep their relative order as distinct original positions.
pub proof fn lemma_remove_order(subs: Seq<(Seq<u8>, StatusV)>, k: Seq<u8>, m1: int, m2: int)
    requires
        uniq(subs),
        0 <= m1 < m2 < remove_key(subs, k).len(),
    ensures
        remove_key(subs, k)[m1].0 != remove_key(subs, k)[m2].0,
    decreases subs.len(),
{
    let r = remove_key(subs, k);
    if subs.len() > 0 {
        let rest = subs.drop_first();
        assert(uniq(rest)) by {
            assert(forall|i: int, j: int|
                0 <= i < j < rest.len() ==> rest[i].0 == subs[i + 1].0 && rest[j].0 == subs[j
                    + 1].0);
        }
        if subs[0].0 == k {
            assert(r[m1] == subs[m1 + 1] && r[m2] == subs[m2 + 1]);
        } else {
            if m1 == 0 {
                lemma_remove_member(rest, k, m2 - 1);
                let w = choose|w: int| 0 <= w < rest.len() && rest[w] == remove_key(rest, k)[m2 - 1];
                assert(subs[0].0 != subs[w + 1].0);
            } else {
                lemma_remove_order(rest, k, m1 - 1, m2 - 1);
            }
        }
    }
}

/// What one subscribe does: an already subscribed key keeps its stored
/// status and answers with its hash; a new key is added with the freshly
/// built status and answers with that one's hash.
pub open spec fn spec_subscribe(
    subs: Seq<(Seq<u8>, StatusV)>,
    k: Seq<u8>,
    v: StatusV,
) -> (Seq<(Seq<u8>, StatusV)>, Option<Seq<u8>>) {
    if has_key(subs, k) {
        (subs, val_of(subs, k).hash)
    } else {
        (subs.push((k, v)), v.hash)
    }
}

/// A status hash on the wire: its hex text, or null while absent.
pub open spec fn statushash_shows(j: Jv, h: Option<Seq<u8>>) -> bool {
    match h {
        Some(x) => j matches Jv::Str(s) && s@ == spec_hex(x),
        None => j == Jv::Null,
    }
}

impl Client {
    pub open spec fn wf(&self) -> bool {
        uniq(self@.subs)
    }

    /// A fresh state: no tip seen, nothing subscribed.
    pub fn new() -> (r: Client)
        ensures
            r@.tip is None,
            r@.subs == Seq::<(Seq<u8>, StatusV)>::empty(),
            r.wf(),
    {
        let r = Client { tip: None, scripthashes: Vec::new() };
        proof {
            assert(r@.subs =~= Seq::<(Seq<u8>, StatusV)>::empty());
        }
        r
    }

    /// Where a script-hash sits in the table.
    pub fn find(&self, sh: &Hash32) -> (r: Option<usize>)
        requires
            self.wf(),
        ensures
            match r {
                Some(i) => i < self@.subs.len() && self@.subs[i as int].0 == sh@ && key_at(
                    self@.subs,
                    sh@,
                ) == i && has_key(self@.subs, sh@),
                None => !has_key(self@.subs, sh@),
            },
    {
        let mut i: usize = 0;
        while i < self.scripthashes.len()
            invariant
                i <= self.scripthashes.len(),
                self.wf(),
                forall|m: int| 0 <= m < i ==> self@.subs[m].0 != sh@,
            decreases self.scripthashes.len() - i,
        {
            if self.scripthashes[i].0.same(sh) {
                proof {
                    assert(self@.subs[i as int].0 == sh@);
                    lemma_key_at(self@.subs, sh@, i as int);
                }
                return Some(i);
            }
            proof {
                assert(self@.subs[i as int].0 == self.scripthashes@[i as int].0@);
            }
            i = i + 1;
        }
        proof {
            if has_key(self@.subs, sh@) {
                let w = choose|w: int| 0 <= w < self@.subs.len() && self@.subs[w].0 == sh@;
            }
        }
        None
    }

    /// One subscribe, the freshly built status supplied by the caller.
    pub fn subscribe_with(&mut self, sh: &Hash32, built: &Status) -> (r: Jv)
        requires
            old(self).wf(),
        ensures
            final(self).wf(),
            final(self)@.tip == old(self)@.tip,
            final(self)@.subs == spec_subscribe(old(self)@.subs, sh@, built@).0,
            statushash_shows(r, spec_subscribe(old(self)@.subs, sh@, built@).1),
    {
        match self.find(sh) {
            Some(i) => {
                let r = self.scripthashes[i].1.statushash_jv();
                proof {
                    assert(val_of(self@.subs, sh@) == self@.subs[i as int].1);
                }
                r
            },
            None => {
                let st = built.dup();
                let r = st.statushash_jv();
                self.scripthashes.push((sh.dup(), st));
                proof {
                    let subs0 = old(self)@.subs;
                    assert(self@.subs =~= subs0.push((sh@, built@)));
                    assert forall|i: int, j: int|
                        0 <= i < j < self@.subs.len() implies self@.subs[i].0 != self@.subs[j].0 by {
                        if j == subs0.len() {
                            assert(self@.subs[i].0 == subs0[i].0);
                            if subs0[i].0 == sh@ {
                                assert(has_key(subs0, sh@));
                            }
                        }
                    }
                }
                r
            },
        }
    }

    /// Forgets a subscription; tells whether it existed.
    pub fn unsubscribe(&mut self, sh: &Hash32) -> (r: bool)
        requires
            old(self).wf(),
        ensures
            final(self).wf(),
            final(self)@.tip == old(self)@.tip,
            r == has_key(old(self)@.subs, sh@),
            final(self)@.subs == remove_key(old(self)@.subs, sh@),
            !has_key(final(self)@.subs, sh@),
    {
        proof {
            lemma_remove_key(old(self)@.subs, sh@);
        }
        match self.find(sh) {
            Some(i) => {
                self.scripthashes.remove(i);
                proof {
                    lemma_remove_at(old(self)@.subs, sh@, i as int);
                    assert(self@.subs =~= old(self)@.subs.remove(i as int));
                }
                true
            },
            None => {
                false
            },
        }
    }
}

/// Removing a present key strikes exactly its position.
pub proof fn lemma_remove_at(subs: Seq<(Seq<u8>, StatusV)>, k: Seq<u8>, i: int)
    requires
        uniq(subs),
        0 <= i < subs.len(),
        subs[i].0 == k,
    ensures
        remove_key(subs, k) == subs.remove(i),
    decreases subs.len(),
{
    if i == 0 {
        assert(remove_key(subs, k) == subs.drop_first());
        assert(subs.remove(0) =~= subs.drop_first());
    } else {
        let rest = subs.drop_first();
        assert(uniq(rest)) by {
            assert(forall|a: int, b: int|
                0 <= a < b < rest.len() ==> rest[a].0 == subs[a + 1].0 && rest[b].0 == subs[b
                    + 1].0);
        }
        assert(subs[0].0 != k);
        assert(rest[i - 1].0 == k);
        lemma_remove_at(rest, k, i - 1);
        assert(remove_key(subs, k) =~= subs.remove(i)) by {
            assert(remove_key(subs, k) == seq![subs[0]] + rest.remove(i - 1));
            assert(subs.remove(i) =~= seq![subs[0]] + rest.remove(i - 1));
        }
    }
}

/// Subscribing a second time answers with the same status hash and leaves
/// the table exactly as the first subscribe left it.
pub proof fn lemma_subscribe_idempotent(
    subs: Seq<(Seq<u8>, StatusV)>,
    k: Seq<u8>,
    v1: StatusV,
    v2: StatusV,
)
    ensures
        ({
            let first = spec_subscribe(subs, k, v1);
            let second = spec_subscribe(first.0, k, v2);
            second.0 == first.0 && second.1 == first.1 && second.0.len() == first.0.len()
        }),
{
    let first = spec_subscribe(subs, k, v1);
    if !has_key(subs, k) {
        let s1 = subs.push((k, v1));
        assert(s1[subs.len() as int].0 == k);
        assert(has_key(s1, k));
        let j = key_at(s1, k);
        if j < subs.len() {
            assert(subs[j].0 == k);
            assert(has_key(subs, k));
        }
        assert(val_of(s1, k) == v1);
    }
}

/// Unsubscribing answers true exactly when a subscribe is outstanding, and
/// afterwards the key is gone; in particular a subscribe followed by an
/// unsubscribe answers true.
pub proof fn lemma_unsubscribe_roundtrip(subs: Seq<(Seq<u8>, StatusV)>, k: Seq<u8>, v: StatusV)
    requires
        uniq(subs),
    ensures
        !has_key(remove_key(subs, k), k),
        has_key(spec_subscribe(subs, k, v).0, k),
{
    lemma_remove_key(subs, k);
    if !has_key(subs, k) {
        let s1 = subs.push((k, v));
        assert(s1[subs.len() as int].0 == k);
    }
}

} // verus!
