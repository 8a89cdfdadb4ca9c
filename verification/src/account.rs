//! Account identities and maps keyed by them.
use vstd::prelude::*;

verus! {

/// The identity of an account or a contract: the bytes of its address in
/// text form. Two identities denote the same address exactly when their
/// bytes are equal.
#[derive(Debug, PartialEq, Eq)]
pub struct AccountId {
    bytes: Vec<u8>,
}

impl View for AccountId {
    type V = Seq<u8>;

    closed spec fn view(&self) -> Seq<u8> {
        self.bytes@
    }
}

impl AccountId {
    /// The identity whose address text is `bytes`.
    pub fn new(bytes: Vec<u8>) -> (id: AccountId)
        ensures
            id@ == bytes@,
    {
        AccountId { bytes }
    }

    /// The address text of this identity.
    pub fn as_bytes(&self) -> (bytes: &[u8])
        ensures
            bytes@ == self@,
    {
        self.bytes.as_slice()
    }

    /// Whether `self` and `other` denote the same address.
    pub fn same_as(&self, other: &AccountId) -> (same: bool)
        ensures
            same == (self@ == other@),
    {
        let n = self.bytes.len();
        if n != other.bytes.len() {
            return false;
        }
        let mut i: usize = 0;
        while i < n
            invariant
                n == self.bytes.len(),
                n == other.bytes.len(),
                0 <= i <= n,
                forall|j: int| 0 <= j < i ==> self.bytes@[j] == other.bytes@[j],
            decreases n - i,
        {
            if self.bytes[i] != other.bytes[i] {
                return false;
            }
            i = i + 1;
        }
        assert(self.bytes@ =~= other.bytes@);
        true
    }

    /// A second identity for the same address.
    pub fn duplicate(&self) -> (copy: AccountId)
        ensures
            copy@ == self@,
    {
        let mut bytes: Vec<u8> = Vec::new();
        let n = self.bytes.len();
        let mut i: usize = 0;
        while i < n
            invariant
                n == self.bytes.len(),
                0 <= i <= n,
                bytes@ =~= self.bytes@.subrange(0, i as int),
            decreases n - i,
        {
            bytes.push(self.bytes[i]);
            i = i + 1;
        }
        AccountId { bytes }
    }
}

impl Clone for AccountId {
    fn clone(&self) -> (copy: AccountId)
        ensures
            copy@ == self@,
    {
        self.duplicate()
    }
}

/// A finite map from addresses to values. Entries are kept in the order
/// they were written; a later entry for an address overrides earlier ones.
pub struct AccountMap<V> {
    entries: Vec<(AccountId, V)>,
}

/// The map that a sequence of entries stands for, later entries overriding
/// earlier ones.
pub open spec fn entries_map<V: View>(s: Seq<(AccountId, V)>) -> Map<Seq<u8>, V::V>
    decreases s.len(),
{
    if s.len() == 0 {
        Map::empty()
    } else {
        entries_map(s.drop_last()).insert(s.last().0@, s.last().1@)
    }
}

/// The map of a sequence holds `k` exactly when some entry has address `k`;
/// if the last such entry is at `i`, the map holds its value.
proof fn lemma_entries_lookup<V: View>(s: Seq<(AccountId, V)>, k: Seq<u8>)
    ensures
        entries_map(s).contains_key(k) <==> exists|i: int| 0 <= i < s.len() && (#[trigger] s[i]).0@ == k,
        forall|i: int|
            0 <= i < s.len() && (#[trigger] s[i]).0@ == k && (forall|j: int| i < j < s.len() ==> s[j].0@ != k)
                ==> entries_map(s)[k] == s[i].1@,
    decreases s.len(),
{
    if s.len() > 0 {
        let t = s.drop_last();
        lemma_entries_lookup(t, k);
        let n = s.len() - 1;
        if entries_map(s).contains_key(k) {
            if s.last().0@ == k {
                assert(s[n].0@ == k);
            } else {
                let i = choose|i: int| 0 <= i < t.len() && (#[trigger] t[i]).0@ == k;
                assert(s[i] == t[i]);
            }
        }
        assert forall|i: int| 0 <= i < s.len() && (#[trigger] s[i]).0@ == k implies entries_map(s).contains_key(k) by {
            if i < n {
                assert(t[i] == s[i]);
            }
        }
        assert forall|i: int|
            0 <= i < s.len() && (#[trigger] s[i]).0@ == k && (forall|j: int| i < j < s.len() ==> s[j].0@ != k)
            implies entries_map(s)[k] == s[i].1@ by {
            if i < n {
                assert(s[n].0@ != k);
                assert(t[i] == s[i]);
                assert forall|j: int| i < j < t.len() implies t[j].0@ != k by {
                    assert(t[j] == s[j]);
                }
            }
        }
    }
}

impl<V: View> View for AccountMap<V> {
    type V = Map<Seq<u8>, V::V>;

    closed spec fn view(&self) -> Map<Seq<u8>, V::V> {
        entries_map(self.entries@)
    }
}

impl<V: View> AccountMap<V> {
    /// The empty map.
    pub fn new() -> (m: AccountMap<V>)
        ensures
            m@ == Map::<Seq<u8>, V::V>::empty(),
    {
        AccountMap { entries: Vec::new() }
    }

    /// The map holds finitely many entries.
    pub proof fn lemma_finite(&self)
        ensures
            self@.dom().finite(),
    {
        lemma_entries_finite(self.entries@);
    }

    /// The value held for `key`, if any.
    pub fn get(&self, key: &AccountId) -> (value: Option<&V>)
        ensures
            match value {
                Some(v) => self@.contains_key(key@) && v@ == self@[key@],
                None => !self@.contains_key(key@),
            },
    {
        proof {
            lemma_entries_lookup(self.entries@, key@);
        }
        let mut i: usize = self.entries.len();
        while i > 0
            invariant
                i <= self.entries@.len(),
                forall|j: int| i <= j < self.entries@.len() ==> (#[trigger] self.entries@[j]).0@ != key@,
            decreases i,
        {
            i = i - 1;
            if self.entries[i].0.same_as(key) {
                proof {
                    let k = i as int;
                    assert(self.entries@[k].0@ == key@);
                    assert(forall|j: int| k < j < self.entries@.len() ==> self.entries@[j].0@ != key@);
                    lemma_entries_lookup(self.entries@, key@);
                    assert(entries_map(self.entries@)[key@] == self.entries@[k].1@);
                }
                return Some(&self.entries[i].1);
            }
        }
        None
    }

    /// Sets the value held for `key` to `value`.
    pub fn insert(&mut self, key: AccountId, value: V)
        ensures
            final(self)@ == old(self)@.insert(key@, value@),
    {
        self.entries.push((key, value));
        proof {
            assert(self.entries@.drop_last() =~= old(self).entries@);
        }
    }
}

/// The addresses of a sequence of entries form a finite set.
proof fn lemma_entries_finite<V: View>(s: Seq<(AccountId, V)>)
    ensures
        entries_map(s).dom().finite(),
    decreases s.len(),
{
    if s.len() > 0 {
        lemma_entries_finite(s.drop_last());
    }
}

} // verus!
