//! Data model: digests, unspent and history entries, per-script-hash status.
use vstd::prelude::*;

use crate::hexs::{push_hex, spec_hex, unhex, spec_unhex};
use crate::jsonval::{Jv, jtext};
use crate::wire::chars_to_string;

verus! {

/// A 32-byte digest kept in wire order: script hashes, transaction ids,
/// block hashes and status hashes.
pub struct Hash32 {
    pub bytes: Vec<u8>,
}

impl View for Hash32 {
    type V = Seq<u8>;

    open spec fn view(&self) -> Seq<u8> {
        self.bytes@
    }
}

/// Compares two byte vectors by contents.
pub fn bytes_eq(a: &Vec<u8>, b: &Vec<u8>) -> (r: bool)
    ensures
        r == (a@ == b@),
{
    if a.len() != b.len() {
        return false;
    }
    let mut i: usize = 0;
    while i < a.len()
        invariant
            i <= a.len(),
            a@.len() == b@.len(),
            forall|k: int| 0 <= k < i ==> a@[k] == b@[k],
        decreases a.len() - i,
    {
        if a[i] != b[i] {
            return false;
        }
        i = i + 1;
    }
    proof {
        assert(a@ =~= b@);
    }
    true
}

impl Hash32 {
    pub open spec fn wf(&self) -> bool {
        self.bytes@.len() == 32
    }

    /// The digest whose hex text is `s`, for a 64-digit hex text.
    pub fn from_hex(s: &Vec<char>) -> (r: Option<Hash32>)
        ensures
            match r {
                Some(h) => spec_unhex(s@) == Some(h@) && s@.len() == 64 && h.wf(),
                None => s@.len() != 64 || spec_unhex(s@) is None,
            },
    {
        if s.len() != 64 {
            return None;
        }
        match unhex(s) {
            Some(b) => {
                proof {
                    lemma_unhex_len(s@);
                }
                Some(Hash32 { bytes: b })
            },
            None => None,
        }
    }

    pub fn same(&self, other: &Hash32) -> (r: bool)
        ensures
            r == (self@ == other@),
    {
        bytes_eq(&self.bytes, &other.bytes)
    }

    pub fn dup(&self) -> (r: Hash32)
        ensures
            r@ == self@,
    {
        let mut b: Vec<u8> = Vec::new();
        let mut i: usize = 0;
        while i < self.bytes.len()
            invariant
                i <= self.bytes.len(),
                b@ =~= self.bytes@.take(i as int),
            decreases self.bytes.len() - i,
        {
            b.push(self.bytes[i]);
            i = i + 1;
        }
        proof {
            assert(self.bytes@.take(self.bytes@.len() as int) =~= self.bytes@);
        }
        Hash32 { bytes: b }
    }

    /// Hex text of the digest as a JSON string value.
    pub fn hex_jv(&self) -> (r: Jv)
        ensures
            r matches Jv::Str(s) && s@ == spec_hex(self@),
    {
        let mut out: Vec<char> = Vec::new();
        push_hex(&self.bytes, &mut out);
        Jv::Str(chars_to_string(&out))
    }
}

/// Each decoded hex pair makes one byte.
pub proof fn lemma_unhex_len(s: Seq<char>)
    requires
        spec_unhex(s) is Some,
    ensures
        spec_unhex(s)->Some_0.len() * 2 == s.len(),
    decreases s.len(),
{
    if s.len() != 0 {
        lemma_unhex_len(s.drop_last().drop_last());
    }
}

/// One confirmed or mempool transaction in a script-hash history.
pub struct HistoryEntry {
    pub tx_hash: Hash32,
    pub height: i64,
}

pub ghost struct HistV {
    pub tx: Seq<u8>,
    pub height: i64,
}

impl View for HistoryEntry {
    type V = HistV;

    open spec fn view(&self) -> HistV {
        HistV { tx: self.tx_hash@, height: self.height }
    }
}

/// One unspent output of a script-hash; `height` 0 means mempool.
pub struct UnspentEntry {
    pub tx_hash: Hash32,
    pub vout: u32,
    pub value: u64,
    pub height: i64,
}

pub ghost struct EntryV {
    pub tx: Seq<u8>,
    pub vout: u32,
    pub value: u64,
    pub height: i64,
}

impl View for UnspentEntry {
    type V = EntryV;

    open spec fn view(&self) -> EntryV {
        EntryV { tx: self.tx_hash@, vout: self.vout, value: self.value, height: self.height }
    }
}

impl UnspentEntry {
    pub fn dup(&self) -> (r: UnspentEntry)
        ensures
            r@ == self@,
    {
        UnspentEntry {
            tx_hash: self.tx_hash.dup(),
            vout: self.vout,
            value: self.value,
            height: self.height,
        }
    }
}

/// View of a sequence of unspent entries.
pub open spec fn entries_v(s: Seq<UnspentEntry>) -> Seq<EntryV> {
    s.map_values(|e: UnspentEntry| e@)
}

/// Summary of one script-hash as the tracker reports it: the digest over its
/// history (absent while the history is empty), the history itself, and the
/// current unspent set.
pub struct Status {
    pub statushash: Option<Hash32>,
    pub history: Vec<HistoryEntry>,
    pub unspent: Vec<UnspentEntry>,
}

pub ghost struct StatusV {
    pub hash: Option<Seq<u8>>,
    pub history: Seq<HistV>,
    pub unspent: Seq<EntryV>,
}

impl View for Status {
    type V = StatusV;

    open spec fn view(&self) -> StatusV {
        StatusV {
            hash: match self.statushash {
                Some(h) => Some(h@),
                None => None,
            },
            history: self.history@.map_values(|e: HistoryEntry| e@),
            unspent: entries_v(self.unspent@),
        }
    }
}

impl Status {
    /// The status hash as the wire shows it: a hex string, or null while the
    /// history is empty.
    pub fn statushash_jv(&self) -> (r: Jv)
        ensures
            match self@.hash {
                Some(h) => r matches Jv::Str(s) && s@ == spec_hex(h),
                None => r == Jv::Null,
            },
    {
        match &self.statushash {
            Some(h) => h.hex_jv(),
            None => Jv::Null,
        }
    }
}

/// Reasons a handler fails: a plain failure answered with code 1, or a
/// failure the daemon reported, answered with code 2 and its own words.
pub enum CallErr {
    Bad(String),
    Daemon(String),
}

/// A collaborator outcome: either the plain value, or the failure to relay.
pub enum RemoteErr {
    Daemon(String),
    Other(String),
}

} // verus!
