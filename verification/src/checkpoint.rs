//! Balance checkpoints: the history of one account's balance, kept in ledger
//! order and searched by binary search.
use vstd::prelude::*;

verus! {

/// The balance an account held from a ledger on.
#[derive(Debug, Clone, Copy, PartialEq, Eq, Structural)]
pub struct Checkpoint {
    pub ledger: u32,
    pub votes: i128,
}

/// No checkpoint of `s` comes after a checkpoint of a later ledger.
pub open spec fn in_ledger_order(s: Seq<Checkpoint>) -> bool {
    forall|i: int, j: int| 0 <= i <= j < s.len() ==> (#[trigger] s[i]).ledger <= (#[trigger] s[j]).ledger
}

/// Whether a checkpoint for `ledger` may follow the checkpoints `s`.
pub open spec fn accepts_ledger(s: Seq<Checkpoint>, ledger: u32) -> bool {
    s.len() == 0 || s.last().ledger <= ledger
}

/// The balance recorded by the last checkpoint of `s` at or before `ledger`,
/// and zero where there is none.
pub open spec fn past_votes(s: Seq<Checkpoint>, ledger: u32) -> i128
    decreases s.len(),
{
    if s.len() == 0 {
        0
    } else if s.last().ledger <= ledger {
        s.last().votes
    } else {
        past_votes(s.drop_last(), ledger)
    }
}

/// The latest recorded balance, zero where nothing is recorded.
pub open spec fn latest_votes(s: Seq<Checkpoint>) -> i128 {
    if s.len() == 0 {
        0
    } else {
        s.last().votes
    }
}

/// Where every checkpoint from `k` on is later than `ledger` and the one
/// before `k` is not, the lookup gives the one before `k`.
proof fn lemma_past_votes_at(s: Seq<Checkpoint>, ledger: u32, k: int)
    requires
        0 <= k <= s.len(),
        forall|i: int| k <= i < s.len() ==> (#[trigger] s[i]).ledger > ledger,
        k > 0 ==> s[k - 1].ledger <= ledger,
    ensures
        past_votes(s, ledger) == (if k == 0 {
            0
        } else {
            s[k - 1].votes
        }),
    decreases s.len(),
{
    if s.len() > k {
        let t = s.drop_last();
        assert(s.last().ledger > ledger) by {
            assert(s[s.len() - 1].ledger > ledger);
        }
        assert forall|i: int| k <= i < t.len() implies (#[trigger] t[i]).ledger > ledger by {
            assert(t[i] == s[i]);
        }
        if k > 0 {
            assert(t[k - 1] == s[k - 1]);
        }
        lemma_past_votes_at(t, ledger, k);
    } else if s.len() > 0 {
        assert(s.last() == s[k - 1]);
    }
}

/// A checkpoint for a later ledger leaves every earlier lookup as it was,
/// and a lookup at or after its ledger gives its balance.
pub proof fn lemma_past_votes_push(s: Seq<Checkpoint>, cp: Checkpoint, ledger: u32)
    ensures
        ledger < cp.ledger ==> past_votes(s.push(cp), ledger) == past_votes(s, ledger),
        ledger >= cp.ledger ==> past_votes(s.push(cp), ledger) == cp.votes,
{
    assert(s.push(cp).drop_last() =~= s);
}

/// The checkpoints of one account, in ledger order.
pub struct CheckpointList {
    items: Vec<Checkpoint>,
}

impl View for CheckpointList {
    type V = Seq<Checkpoint>;

    closed spec fn view(&self) -> Seq<Checkpoint> {
        self.items@
    }
}

impl CheckpointList {
    #[verifier::type_invariant]
    spec fn ordered(&self) -> bool {
        in_ledger_order(self.items@)
    }

    /// The list with no checkpoint.
    pub fn new() -> (l: CheckpointList)
        ensures
            l@ == Seq::<Checkpoint>::empty(),
    {
        CheckpointList { items: Vec::new() }
    }

    /// The list holding `items`, when they are in ledger order.
    pub fn from_checkpoints(items: Vec<Checkpoint>) -> (l: Option<CheckpointList>)
        ensures
            match l {
                Some(l) => in_ledger_order(items@) && l@ == items@,
                None => !in_ledger_order(items@),
            },
    {
        let n = items.len();
        let mut k: usize = 1;
        while k < n
            invariant
                n == items@.len(),
                1 <= k,
                forall|i: int, j: int| 0 <= i <= j < k && j < n ==> (#[trigger] items@[i]).ledger <= (#[trigger] items@[j]).ledger,
            decreases n - k,
        {
            if items[k - 1].ledger > items[k].ledger {
                return None;
            }
            proof {
                assert forall|i: int, j: int| 0 <= i <= j < k + 1 && j < n implies (#[trigger] items@[i]).ledger
                    <= (#[trigger] items@[j]).ledger by {
                    if j == k as int && i < j {
                        assert(items@[i].ledger <= items@[k - 1].ledger);
                    }
                }
            }
            k = k + 1;
        }
        Some(CheckpointList { items })
    }

    /// The checkpoints, oldest first.
    pub fn as_slice(&self) -> (s: &[Checkpoint])
        ensures
            s@ == self@,
    {
        self.items.as_slice()
    }

    /// Whether a checkpoint for `ledger` may be appended.
    pub fn accepts(&self, ledger: u32) -> (ok: bool)
        ensures
            ok == accepts_ledger(self@, ledger),
    {
        let n = self.items.len();
        n == 0 || self.items[n - 1].ledger <= ledger
    }

    /// The list with `cp` appended.
    pub fn appended(&self, cp: Checkpoint) -> (l: CheckpointList)
        requires
            accepts_ledger(self@, cp.ledger),
        ensures
            l@ == self@.push(cp),
    {
        proof {
            use_type_invariant(self);
        }
        let mut items: Vec<Checkpoint> = Vec::new();
        let n = self.items.len();
        let mut i: usize = 0;
        while i < n
            invariant
                n == self.items@.len(),
                0 <= i <= n,
                items@ =~= self.items@.subrange(0, i as int),
            decreases n - i,
        {
            items.push(self.items[i]);
            i = i + 1;
        }
        items.push(cp);
        proof {
            assert(items@ =~= self.items@.push(cp));
            assert forall|a: int, b: int| 0 <= a <= b < items@.len() implies (#[trigger] items@[a]).ledger
                <= (#[trigger] items@[b]).ledger by {
                if b == n as int && a < b {
                    assert(self.items@[a].ledger <= self.items@[n - 1].ledger);
                }
            }
        }
        CheckpointList { items }
    }

    /// The balance recorded at or before `ledger`, found by binary search.
    pub fn lookup(&self, ledger: u32) -> (v: i128)
        ensures
            v == past_votes(self@, ledger),
    {
        proof {
            use_type_invariant(self);
        }
        let mut lo: usize = 0;
        let mut hi: usize = self.items.len();
        while lo < hi
            invariant
                0 <= lo <= hi <= self.items@.len(),
                in_ledger_order(self.items@),
                forall|i: int| 0 <= i < lo ==> (#[trigger] self.items@[i]).ledger <= ledger,
                forall|i: int| hi <= i < self.items@.len() ==> (#[trigger] self.items@[i]).ledger > ledger,
            decreases hi - lo,
        {
            let mid = lo + (hi - lo) / 2;
            if self.items[mid].ledger <= ledger {
                proof {
                    assert forall|i: int| 0 <= i < mid + 1 implies (#[trigger] self.items@[i]).ledger <= ledger by {
                        assert(self.items@[i].ledger <= self.items@[mid as int].ledger);
                    }
                }
                lo = mid + 1;
            } else {
                proof {
                    assert forall|i: int| mid <= i < self.items@.len() implies (#[trigger] self.items@[i]).ledger > ledger by {
                        assert(self.items@[mid as int].ledger <= self.items@[i].ledger);
                    }
                }
                hi = mid;
            }
        }
        proof {
            lemma_past_votes_at(self.items@, ledger, lo as int);
        }
        if lo == 0 {
            0
        } else {
            self.items[lo - 1].votes
        }
    }
}

} // verus!
