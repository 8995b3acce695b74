use vstd::prelude::*;

use crate::account::{AccountId, Balance};

verus! {

/// A key of a [`Table`]: a copyable value with a decidable equality.
pub trait TableKey: Copy {
    fn key_eq(&self, other: &Self) -> (r: bool)
        ensures
            r == (*self == *other),
    ;
}

impl TableKey for AccountId {
    fn key_eq(&self, other: &AccountId) -> (r: bool) {
        self.same_as(other)
    }
}

/// The key of an allowance: the owner of the tokens and the account allowed
/// to spend them.
#[derive(Clone, Copy, Debug)]
pub struct AllowanceKey {
    pub owner: AccountId,
    pub spender: AccountId,
}

impl TableKey for AllowanceKey {
    fn key_eq(&self, other: &AllowanceKey) -> (r: bool) {
        self.owner.same_as(&other.owner) && self.spender.same_as(&other.spender)
    }
}

/// No key occurs twice in `s`.
pub open spec fn keys_unique<K>(s: Seq<(K, Balance)>) -> bool {
    forall|i: int, j: int|
        0 <= i < s.len() && 0 <= j < s.len() && i != j ==> #[trigger] s[i].0 != #[trigger] s[j].0
}

/// Whether some entry of `s` has the key `k`.
pub open spec fn has_key<K>(s: Seq<(K, Balance)>, k: K) -> bool {
    exists|i: int| 0 <= i < s.len() && #[trigger] s[i].0 == k
}

/// The amount that `s` records for `k`; zero where `k` has no entry.
pub open spec fn value_in<K>(s: Seq<(K, Balance)>, k: K) -> Balance {
    if has_key(s, k) {
        s[choose|i: int| 0 <= i < s.len() && #[trigger] s[i].0 == k].1
    } else {
        0
    }
}

/// The sum of the amounts of all entries of `s`.
pub open spec fn sum_of<K>(s: Seq<(K, Balance)>) -> int
    decreases s.len(),
{
    if s.len() == 0 {
        0
    } else {
        sum_of(s.drop_last()) + s.last().1
    }
}

/// The sum of the amounts that `m` gives to the keys of `ks`.
pub open spec fn sum_over<K>(m: Map<K, Balance>, ks: Seq<K>) -> int
    decreases ks.len(),
{
    if ks.len() == 0 {
        0
    } else {
        sum_over(m, ks.drop_last()) + m[ks.last()]
    }
}

proof fn lemma_sum_over_insert_absent<K>(m: Map<K, Balance>, ks: Seq<K>, k: K, v: Balance)
    requires
        !ks.contains(k),
    ensures
        sum_over(m.insert(k, v), ks) == sum_over(m, ks),
    decreases ks.len(),
{
    if ks.len() > 0 {
        let p = ks.drop_last();
        assert(ks.last() != k) by {
            assert(ks[ks.len() - 1] == ks.last());
        }
        assert(!p.contains(k)) by {
            if p.contains(k) {
                let i = choose|i: int| 0 <= i < p.len() && p[i] == k;
                assert(ks[i] == k);
            }
        }
        lemma_sum_over_insert_absent(m, p, k, v);
    }
}

proof fn lemma_sum_over_insert<K>(m: Map<K, Balance>, ks: Seq<K>, k: K, v: Balance)
    requires
        ks.no_duplicates(),
        ks.contains(k),
    ensures
        sum_over(m.insert(k, v), ks) == sum_over(m, ks) - m[k] + v,
    decreases ks.len(),
{
    let p = ks.drop_last();
    let n = ks.len() - 1;
    assert(p.no_duplicates()) by {
        assert forall|i: int, j: int| 0 <= i < p.len() && 0 <= j < p.len() && i != j implies p[i]
            != p[j] by {
            assert(p[i] == ks[i] && p[j] == ks[j]);
        }
    }
    if ks.last() == k {
        assert(!p.contains(k)) by {
            if p.contains(k) {
                let i = choose|i: int| 0 <= i < p.len() && p[i] == k;
                assert(ks[i] == ks[n]);
            }
        }
        lemma_sum_over_insert_absent(m, p, k, v);
    } else {
        assert(p.contains(k)) by {
            let i = choose|i: int| 0 <= i < ks.len() && ks[i] == k;
            assert(i != n);
            assert(p[i] == k);
        }
        lemma_sum_over_insert(m, p, k, v);
    }
}

proof fn lemma_sum_over_zero<K>(m: Map<K, Balance>, ks: Seq<K>)
    requires
        forall|k: K| m[k] == 0,
    ensures
        sum_over(m, ks) == 0,
    decreases ks.len(),
{
    if ks.len() > 0 {
        lemma_sum_over_zero(m, ks.drop_last());
    }
}

/// The amount of every key, as `s` records them.
pub open spec fn values_of<K>(s: Seq<(K, Balance)>) -> Map<K, Balance> {
    Map::new(|k: K| true, |k: K| value_in(s, k))
}

proof fn lemma_value_at<K>(s: Seq<(K, Balance)>, i: int)
    requires
        keys_unique(s),
        0 <= i < s.len(),
    ensures
        value_in(s, s[i].0) == s[i].1,
{
    assert(has_key(s, s[i].0));
}

proof fn lemma_push<K>(s0: Seq<(K, Balance)>, k: K, v: Balance)
    requires
        keys_unique(s0),
        !has_key(s0, k),
    ensures
        keys_unique(s0.push((k, v))),
        values_of(s0.push((k, v))) == values_of(s0).insert(k, v),
{
    let s1 = s0.push((k, v));
    let n = s0.len() as int;
    assert forall|a: int, b: int|
        0 <= a < s1.len() && 0 <= b < s1.len() && a != b implies #[trigger] s1[a].0
        != #[trigger] s1[b].0 by {
        if a == n {
            assert(s1[b] == s0[b]);
        } else if b == n {
            assert(s1[a] == s0[a]);
        } else {
            assert(s1[a] == s0[a] && s1[b] == s0[b]);
        }
    }
    assert forall|x: K| #[trigger] value_in(s1, x) == values_of(s0).insert(k, v)[x] by {
        if x == k {
            lemma_value_at(s1, n);
        } else if has_key(s0, x) {
            let a = choose|a: int| 0 <= a < s0.len() && #[trigger] s0[a].0 == x;
            lemma_value_at(s0, a);
            assert(s1[a] == s0[a]);
            lemma_value_at(s1, a);
        } else {
            if has_key(s1, x) {
                let a = choose|a: int| 0 <= a < s1.len() && #[trigger] s1[a].0 == x;
                assert(s0[a].0 == x);
            }
        }
    }
    assert(values_of(s1) =~= values_of(s0).insert(k, v));
}

/// Where `ks` lists, without repetition, every key of `s`, the amounts that
/// `s` gives to the keys of `ks` sum to the sum of its entries.
proof fn lemma_sum_over_covering<K>(s: Seq<(K, Balance)>, ks: Seq<K>)
    requires
        keys_unique(s),
        ks.no_duplicates(),
        forall|i: int| 0 <= i < s.len() ==> ks.contains(#[trigger] s[i].0),
    ensures
        sum_over(values_of(s), ks) == sum_of(s),
    decreases s.len(),
{
    if s.len() == 0 {
        lemma_sum_over_zero(values_of(s), ks);
    } else {
        let p = s.drop_last();
        let (k, v) = s.last();
        assert(keys_unique(p)) by {
            assert forall|a: int, b: int|
                0 <= a < p.len() && 0 <= b < p.len() && a != b implies #[trigger] p[a].0
                != #[trigger] p[b].0 by {
                assert(p[a] == s[a] && p[b] == s[b]);
            }
        }
        assert(!has_key(p, k)) by {
            if has_key(p, k) {
                let a = choose|a: int| 0 <= a < p.len() && #[trigger] p[a].0 == k;
                assert(s[a].0 == s[s.len() - 1].0);
            }
        }
        assert(forall|i: int| 0 <= i < p.len() ==> ks.contains(#[trigger] p[i].0)) by {
            assert forall|i: int| 0 <= i < p.len() implies ks.contains(#[trigger] p[i].0) by {
                assert(p[i] == s[i]);
            }
        }
        lemma_sum_over_covering(p, ks);
        lemma_push(p, k, v);
        assert(p.push((k, v)) =~= s);
        assert(ks.contains(k)) by {
            assert(s[s.len() - 1].0 == k);
        }
        lemma_sum_over_insert(values_of(p), ks, k, v);
        assert(value_in(p, k) == 0);
    }
}

proof fn lemma_sum_update<K>(s: Seq<(K, Balance)>, i: int, e: (K, Balance))
    requires
        0 <= i < s.len(),
    ensures
        sum_of(s.update(i, e)) == sum_of(s) - s[i].1 + e.1,
    decreases s.len(),
{
    let u = s.update(i, e);
    if i == s.len() - 1 {
        assert(u.drop_last() =~= s.drop_last());
    } else {
        lemma_sum_update(s.drop_last(), i, e);
        assert(u.drop_last() =~= s.drop_last().update(i, e));
    }
}

proof fn lemma_sum_remove<K>(s: Seq<(K, Balance)>, i: int)
    requires
        0 <= i < s.len(),
    ensures
        sum_of(s.remove(i)) == sum_of(s) - s[i].1,
    decreases s.len(),
{
    let r = s.remove(i);
    if i == s.len() - 1 {
        assert(r =~= s.drop_last());
    } else {
        lemma_sum_remove(s.drop_last(), i);
        assert(r.drop_last() =~= s.drop_last().remove(i));
    }
}

proof fn lemma_sum_push<K>(s: Seq<(K, Balance)>, e: (K, Balance))
    ensures
        sum_of(s.push(e)) == sum_of(s) + e.1,
{
    assert(s.push(e).drop_last() =~= s);
}

proof fn lemma_sum_nonneg<K>(s: Seq<(K, Balance)>)
    ensures
        sum_of(s) >= 0,
    decreases s.len(),
{
    if s.len() > 0 {
        lemma_sum_nonneg(s.drop_last());
    }
}

proof fn lemma_sum_ge_one<K>(s: Seq<(K, Balance)>, i: int)
    requires
        0 <= i < s.len(),
    ensures
        sum_of(s) >= s[i].1,
    decreases s.len(),
{
    if i == s.len() - 1 {
        lemma_sum_nonneg(s.drop_last());
    } else {
        lemma_sum_ge_one(s.drop_last(), i);
    }
}

proof fn lemma_sum_ge_two<K>(s: Seq<(K, Balance)>, i: int, j: int)
    requires
        0 <= i < s.len(),
        0 <= j < s.len(),
        i != j,
    ensures
        sum_of(s) >= s[i].1 + s[j].1,
    decreases s.len(),
{
    let n = s.len() - 1;
    if i == n {
        lemma_sum_ge_one(s.drop_last(), j);
    } else if j == n {
        lemma_sum_ge_one(s.drop_last(), i);
    } else {
        lemma_sum_ge_two(s.drop_last(), i, j);
    }
}

/// A point-access map from keys to amounts, in memory.
///
/// A key that is absent stands for the amount zero; writing zero deletes the
/// key, so storage holds no entry for an empty account.
pub struct Table<K> {
    entries: Vec<(K, Balance)>,
}

impl<K: TableKey> View for Table<K> {
    type V = Map<K, Balance>;

    /// The amount of every key, zero for those without an entry.
    closed spec fn view(&self) -> Map<K, Balance> {
        values_of(self.entries@)
    }
}

impl<K: TableKey> Table<K> {
    /// Keys are unique and no entry holds zero.
    pub closed spec fn wf(&self) -> bool {
        &&& keys_unique(self.entries@)
        &&& forall|i: int| 0 <= i < self.entries@.len() ==> #[trigger] self.entries@[i].1 != 0
    }

    /// The sum of the amounts of all keys.
    pub closed spec fn total(&self) -> int {
        sum_of(self.entries@)
    }

    /// The amounts of any keys listed without repetition, among them every
    /// key with a non-zero amount, sum to the total.
    pub proof fn lemma_total_is_sum(&self, ks: Seq<K>)
        requires
            self.wf(),
            ks.no_duplicates(),
            forall|k: K| #[trigger] self@[k] != 0 ==> ks.contains(k),
        ensures
            sum_over(self@, ks) == self.total(),
    {
        let s = self.entries@;
        assert forall|i: int| 0 <= i < s.len() implies ks.contains(#[trigger] s[i].0) by {
            lemma_value_at(s, i);
            assert(self@[s[i].0] != 0);
        }
        lemma_sum_over_covering(s, ks);
    }

    /// Every key has an amount, zero for those without an entry.
    pub proof fn lemma_view_total(&self)
        ensures
            forall|k: K| #[trigger] self@.dom().contains(k),
    {
    }

    /// The amounts of two different keys together never exceed the total.
    pub proof fn lemma_pair_within_total(&self, a: K, b: K)
        requires
            self.wf(),
            a != b,
        ensures
            self@[a] + self@[b] <= self.total(),
    {
        let s = self.entries@;
        lemma_sum_nonneg(s);
        if has_key(s, a) {
            let i = choose|i: int| 0 <= i < s.len() && #[trigger] s[i].0 == a;
            lemma_value_at(s, i);
            if has_key(s, b) {
                let j = choose|j: int| 0 <= j < s.len() && #[trigger] s[j].0 == b;
                lemma_value_at(s, j);
                lemma_sum_ge_two(s, i, j);
            } else {
                lemma_sum_ge_one(s, i);
            }
        } else if has_key(s, b) {
            let j = choose|j: int| 0 <= j < s.len() && #[trigger] s[j].0 == b;
            lemma_value_at(s, j);
            lemma_sum_ge_one(s, j);
        }
    }

    /// The table in which every key has the amount zero.
    pub fn new() -> (r: Table<K>)
        ensures
            r.wf(),
            r@ == Map::new(|k: K| true, |k: K| 0u128),
            r.total() == 0,
    {
        let r = Table { entries: Vec::new() };
        assert(r@ =~= Map::new(|k: K| true, |k: K| 0u128));
        r
    }

    fn find(&self, k: &K) -> (r: Option<usize>)
        ensures
            r matches Some(i) ==> i < self.entries@.len() && self.entries@[i as int].0 == *k,
            r is None ==> !has_key(self.entries@, *k),
    {
        let mut i: usize = 0;
        while i < self.entries.len()
            invariant
                i <= self.entries@.len(),
                forall|j: int| 0 <= j < i ==> #[trigger] self.entries@[j].0 != *k,
            decreases self.entries@.len() - i,
        {
            if self.entries[i].0.key_eq(k) {
                return Some(i);
            }
            i = i + 1;
        }
        None
    }

    /// The amount recorded for `k`, zero if it has none.
    pub fn get(&self, k: &K) -> (r: Balance)
        requires
            self.wf(),
        ensures
            r == self@[*k],
    {
        match self.find(k) {
            Some(i) => {
                proof {
                    lemma_value_at(self.entries@, i as int);
                }
                self.entries[i].1
            },
            None => 0,
        }
    }

    /// Records `v` for `k`; an amount of zero deletes the entry.
    pub fn set(&mut self, k: K, v: Balance)
        requires
            old(self).wf(),
        ensures
            final(self).wf(),
            final(self)@ == old(self)@.insert(k, v),
            final(self).total() == old(self).total() - old(self)@[k] + v,
    {
        let ghost s0 = self.entries@;
        match self.find(&k) {
            Some(i) => {
                proof {
                    lemma_value_at(s0, i as int);
                }
                if v == 0 {
                    self.entries.remove(i);
                    proof {
                        lemma_sum_remove(s0, i as int);
                        let s1 = self.entries@;
                        assert forall|a: int, b: int|
                            0 <= a < s1.len() && 0 <= b < s1.len() && a != b implies
                            #[trigger] s1[a].0 != #[trigger] s1[b].0 by {
                            let a0 = if a < i { a } else { a + 1 };
                            let b0 = if b < i { b } else { b + 1 };
                            assert(s1[a] == s0[a0] && s1[b] == s0[b0]);
                        }
                        assert forall|x: K| #[trigger] value_in(s1, x) == old(self)@.insert(k, v)[x] by {
                            if x == k {
                                if has_key(s1, x) {
                                    let a = choose|a: int| 0 <= a < s1.len() && #[trigger] s1[a].0 == x;
                                    let a0 = if a < i { a } else { a + 1 };
                                    assert(s0[a0].0 == s0[i as int].0);
                                }
                            } else if has_key(s0, x) {
                                let a0 = choose|a: int| 0 <= a < s0.len() && #[trigger] s0[a].0 == x;
                                lemma_value_at(s0, a0);
                                let a = if a0 < i { a0 } else { a0 - 1 };
                                assert(s1[a] == s0[a0]);
                                lemma_value_at(s1, a);
                            } else {
                                if has_key(s1, x) {
                                    let a = choose|a: int| 0 <= a < s1.len() && #[trigger] s1[a].0 == x;
                                    let a0 = if a < i { a } else { a + 1 };
                                    assert(s0[a0].0 == x);
                                }
                            }
                        }
                        assert(self@ =~= old(self)@.insert(k, v));
                    }
                } else {
                    self.entries.set(i, (k, v));
                    proof {
                        lemma_sum_update(s0, i as int, (k, v));
                        let s1 = self.entries@;
                        assert forall|a: int, b: int|
                            0 <= a < s1.len() && 0 <= b < s1.len() && a != b implies
                            #[trigger] s1[a].0 != #[trigger] s1[b].0 by {
                            assert(s1[a].0 == s0[a].0 && s1[b].0 == s0[b].0);
                        }
                        assert forall|x: K| #[trigger] value_in(s1, x) == old(self)@.insert(k, v)[x] by {
                            if x == k {
                                lemma_value_at(s1, i as int);
                            } else if has_key(s0, x) {
                                let a = choose|a: int| 0 <= a < s0.len() && #[trigger] s0[a].0 == x;
                                lemma_value_at(s0, a);
                                assert(s1[a] == s0[a]);
                                lemma_value_at(s1, a);
                            } else {
                                if has_key(s1, x) {
                                    let a = choose|a: int| 0 <= a < s1.len() && #[trigger] s1[a].0 == x;
                                    assert(s0[a].0 == x);
                                }
                            }
                        }
                        assert(self@ =~= old(self)@.insert(k, v));
                    }
                }
            },
            None => {
                proof {
                    assert(value_in(s0, k) == 0);
                }
                if v != 0 {
                    self.entries.push((k, v));
                    proof {
                        lemma_sum_push(s0, (k, v));
                        lemma_push(s0, k, v);
                    }
                } else {
                    proof {
                        assert(self@ =~= old(self)@.insert(k, v));
                    }
                }
            },
        }
    }
}

} // verus!
