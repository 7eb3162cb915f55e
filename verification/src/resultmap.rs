//! The ordered result mapping: string keys to scalar strings or to a
//! nested mapping of decoded query pairs.  Keys are unique; insertion
//! keeps first-occurrence order and ignores a repeated key.

use vstd::prelude::*;
use crate::text::str_eq;

verus! {

/// A value of one result entry: a scalar string, or the nested mapping
/// of decoded query key/value pairs.
pub enum EntryValue {
    Text(String),
    Pairs(Vec<(String, String)>),
}

/// The mathematical value of one entry value.
pub enum ValView {
    Text(Seq<char>),
    Pairs(Seq<(Seq<char>, Seq<char>)>),
}

impl View for EntryValue {
    type V = ValView;

    open spec fn view(&self) -> ValView {
        match self {
            EntryValue::Text(s) => ValView::Text(s@),
            EntryValue::Pairs(p) => ValView::Pairs(p.deep_view()),
        }
    }
}

/// An ordered mapping from string keys to entry values.
pub struct ResultMap {
    pub entries: Vec<(String, EntryValue)>,
}

/// `ks` holds the key `k`.
pub open spec fn seq_has_key(s: Seq<(Seq<char>, ValView)>, k: Seq<char>) -> bool {
    exists|i: int| 0 <= i < s.len() && s[i].0 == k
}

/// All keys of `s` are distinct.
pub open spec fn keys_unique(s: Seq<(Seq<char>, ValView)>) -> bool {
    forall|i: int, j: int| 0 <= i < j < s.len() ==> s[i].0 != s[j].0
}

/// Inserting under a present key is a no-op; otherwise the entry is
/// appended.
pub open spec fn spec_insert(
    s: Seq<(Seq<char>, ValView)>,
    k: Seq<char>,
    v: ValView,
) -> Seq<(Seq<char>, ValView)> {
    if seq_has_key(s, k) {
        s
    } else {
        s.push((k, v))
    }
}

impl View for ResultMap {
    type V = Seq<(Seq<char>, ValView)>;

    open spec fn view(&self) -> Seq<(Seq<char>, ValView)> {
        Seq::new(self.entries@.len(), |i: int| (self.entries@[i].0@, self.entries@[i].1@))
    }
}

impl ResultMap {
    /// Keys are pairwise distinct.
    pub open spec fn wf(self) -> bool {
        keys_unique(self@)
    }

    /// The empty mapping.
    pub fn empty() -> (r: ResultMap)
        ensures
            r@ =~= Seq::<(Seq<char>, ValView)>::empty(),
            r.wf(),
    {
        ResultMap { entries: Vec::new() }
    }

    /// Whether some entry already has the key `k`.
    pub fn has_key(&self, k: &str) -> (r: bool)
        ensures
            r == seq_has_key(self@, k@),
    {
        let n = self.entries.len();
        let mut i: usize = 0;
        while i < n
            invariant
                n == self.entries.len(),
                i <= n,
                forall|j: int| 0 <= j < i ==> self@[j].0 != k@,
            decreases n - i,
        {
            if str_eq(self.entries[i].0.as_str(), k) {
                proof {
                    assert(self@[i as int].0 == k@);
                }
                return true;
            }
            i = i + 1;
        }
        false
    }

    /// Appends `(k, v)` unless the key is already present.
    pub fn insert_if_absent(&mut self, k: String, v: EntryValue)
        ensures
            final(self)@ == spec_insert(old(self)@, k@, v@),
            old(self).wf() ==> final(self).wf(),
    {
        let present = self.has_key(k.as_str());
        if !present {
            let ghost pre = self@;
            self.entries.push((k, v));
            proof {
                assert(self@ =~= pre.push((k@, v@)));
                if keys_unique(pre) {
                    assert forall|i: int, j: int| 0 <= i < j < self@.len()
                        implies self@[i].0 != self@[j].0 by {
                        if j < pre.len() {
                            assert(pre[i].0 != pre[j].0);
                        } else {
                            assert(!seq_has_key(pre, k@));
                            assert(self@[i].0 == pre[i].0);
                        }
                    }
                }
            }
        }
    }

    /// The number of entries.
    pub fn len(&self) -> (r: usize)
        ensures
            r == self@.len(),
    {
        self.entries.len()
    }
}

} // verus!
