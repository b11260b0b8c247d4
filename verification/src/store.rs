//! The four persisted mapping tables, each an association list with
//! distinct keys, abstracted as a `Map` view. Absent keys read as the
//! table's default (null account, zero balance, not approved), which the
//! ledger layer supplies.

use vstd::prelude::*;
use crate::account::Account;
use crate::token::TokenId;

verus! {

// ------------------------------------------------------------------
// token -> account (used for both the owner table and the per-token
// approval table)
// ------------------------------------------------------------------

/// The abstraction of an association list as a map: later entries would
/// win, though the tables below keep their keys distinct.
pub open spec fn token_map_of(s: Seq<(TokenId, Account)>) -> Map<TokenId, Account>
    decreases s.len(),
{
    if s.len() == 0 {
        Map::empty()
    } else {
        token_map_of(s.drop_last()).insert(s.last().0, s.last().1)
    }
}

pub open spec fn token_keys_unique(s: Seq<(TokenId, Account)>) -> bool {
    forall|i: int, j: int|
        #![trigger s[i], s[j]]
        0 <= i < j < s.len() ==> s[i].0 != s[j].0
}

proof fn lemma_token_map_contains(s: Seq<(TokenId, Account)>, k: TokenId)
    ensures
        token_map_of(s).contains_key(k) <==> exists|j: int| 0 <= j < s.len() && (#[trigger] s[j]).0
            == k,
    decreases s.len(),
{
    if s.len() == 0 {
    } else {
        lemma_token_map_contains(s.drop_last(), k);
        if s.last().0 == k {
            assert((s[s.len() - 1]).0 == k);
        } else {
            if exists|j: int| 0 <= j < s.len() && (#[trigger] s[j]).0 == k {
                let j = choose|j: int| 0 <= j < s.len() && (#[trigger] s[j]).0 == k;
                assert(s.drop_last()[j].0 == k);
            }
            if exists|j: int| 0 <= j < s.drop_last().len() && (#[trigger] s.drop_last()[j]).0
                == k {
                let j = choose|j: int|
                    0 <= j < s.drop_last().len() && (#[trigger] s.drop_last()[j]).0 == k;
                assert(s[j].0 == k);
            }
        }
    }
}

proof fn lemma_token_map_value(s: Seq<(TokenId, Account)>, i: int)
    requires
        token_keys_unique(s),
        0 <= i < s.len(),
    ensures
        token_map_of(s).contains_key(s[i].0),
        token_map_of(s)[s[i].0] == s[i].1,
    decreases s.len(),
{
    if i == s.len() - 1 {
    } else {
        assert(token_keys_unique(s.drop_last()));
        lemma_token_map_value(s.drop_last(), i);
        assert(s[i].0 != s[s.len() - 1].0);
    }
}

proof fn lemma_token_map_dom(s: Seq<(TokenId, Account)>)
    ensures
        token_map_of(s).dom().finite(),
        token_map_of(s).dom().len() <= s.len(),
    decreases s.len(),
{
    if s.len() == 0 {
    } else {
        lemma_token_map_dom(s.drop_last());
    }
}

proof fn lemma_token_map_update(s: Seq<(TokenId, Account)>, i: int, k: TokenId, v: Account)
    requires
        token_keys_unique(s),
        0 <= i < s.len(),
        s[i].0 == k,
    ensures
        token_keys_unique(s.update(i, (k, v))),
        token_map_of(s.update(i, (k, v))) == token_map_of(s).insert(k, v),
{
    let s2 = s.update(i, (k, v));
    assert(forall|j: int| 0 <= j < s2.len() ==> (#[trigger] s2[j]).0 == s[j].0);
    let m1 = token_map_of(s2);
    let m2 = token_map_of(s).insert(k, v);
    assert forall|k2: TokenId| m1.contains_key(k2) <==> m2.contains_key(k2) by {
        lemma_token_map_contains(s, k2);
        lemma_token_map_contains(s2, k2);
        if exists|j: int| 0 <= j < s.len() && (#[trigger] s[j]).0 == k2 {
            let j = choose|j: int| 0 <= j < s.len() && (#[trigger] s[j]).0 == k2;
            assert(s2[j].0 == k2);
        }
        if exists|j: int| 0 <= j < s2.len() && (#[trigger] s2[j]).0 == k2 {
            let j = choose|j: int| 0 <= j < s2.len() && (#[trigger] s2[j]).0 == k2;
            assert(s[j].0 == k2);
        }
    }
    assert forall|k2: TokenId| m1.contains_key(k2) implies m1[k2] == m2[k2] by {
        if k2 == k {
            lemma_token_map_value(s2, i);
        } else {
            lemma_token_map_contains(s2, k2);
            let j = choose|j: int| 0 <= j < s2.len() && (#[trigger] s2[j]).0 == k2;
            assert(j != i);
            lemma_token_map_value(s2, j);
            lemma_token_map_value(s, j);
        }
    }
    assert(m1 =~= m2);
}

/// An association list from token identifiers to accounts with distinct
/// keys, viewed as a `Map<TokenId, Account>`.
pub struct TokenMap {
    pairs: Vec<(TokenId, Account)>,
}

impl View for TokenMap {
    type V = Map<TokenId, Account>;

    closed spec fn view(&self) -> Map<TokenId, Account> {
        token_map_of(self.pairs@)
    }
}

impl TokenMap {
    pub closed spec fn wf(self) -> bool {
        token_keys_unique(self.pairs@)
    }

    pub fn new() -> (r: TokenMap)
        ensures
            r.wf(),
            r@ == Map::<TokenId, Account>::empty(),
    {
        TokenMap { pairs: Vec::new() }
    }

    pub fn get(&self, k: TokenId) -> (r: Option<Account>)
        requires
            self.wf(),
        ensures
            match r {
                Some(v) => self@.contains_key(k) && self@[k] == v,
                None => !self@.contains_key(k),
            },
    {
        let n: usize = self.pairs.len();
        let mut i: usize = 0;
        while i < n
            invariant
                self.wf(),
                n == self.pairs.len(),
                0 <= i <= n,
                forall|j: int| 0 <= j < i ==> (#[trigger] self.pairs@[j]).0 != k,
            decreases n - i,
        {
            let (pk, pv) = self.pairs[i];
            if pk == k {
                proof {
                    lemma_token_map_value(self.pairs@, i as int);
                }
                return Some(pv);
            }
            i = i + 1;
        }
        proof {
            lemma_token_map_contains(self.pairs@, k);
        }
        None
    }

    pub fn set(&mut self, k: TokenId, v: Account)
        requires
            old(self).wf(),
        ensures
            final(self).wf(),
            final(self)@ == old(self)@.insert(k, v),
    {
        let n: usize = self.pairs.len();
        let mut i: usize = 0;
        while i < n
            invariant
                *self == *old(self),
                old(self).wf(),
                n == self.pairs.len(),
                0 <= i <= n,
                forall|j: int| 0 <= j < i ==> (#[trigger] self.pairs@[j]).0 != k,
            decreases n - i,
        {
            let pk = self.pairs[i].0;
            if pk == k {
                proof {
                    lemma_token_map_update(self.pairs@, i as int, k, v);
                }
                self.pairs.set(i, (k, v));
                return ;
            }
            i = i + 1;
        }
        self.pairs.push((k, v));
        proof {
            assert(self.pairs@.drop_last() =~= old(self).pairs@);
            assert(self.pairs@.last() == (k, v));
            assert forall|i2: int, j2: int|
                #![trigger self.pairs@[i2], self.pairs@[j2]]
                0 <= i2 < j2 < self.pairs@.len() implies self.pairs@[i2].0 != self.pairs@[j2].0 by {
                if j2 < self.pairs@.len() - 1 {
                    assert(old(self).pairs@[i2].0 != old(self).pairs@[j2].0);
                } else {
                    assert(old(self).pairs@[i2].0 != k);
                }
            }
        }
    }

    /// An executable bound on the table's size, anchoring the abstract
    /// domain's cardinality to a machine integer.
    pub fn entry_count(&self) -> (n: usize)
        ensures
            self@.dom().finite(),
            self@.dom().len() <= n as nat,
    {
        proof {
            lemma_token_map_dom(self.pairs@);
        }
        self.pairs.len()
    }
}

// ------------------------------------------------------------------
// account -> balance
// ------------------------------------------------------------------

/// The abstraction of the balance table; stored machine words are read
/// as unbounded naturals.
pub open spec fn balance_map_of(s: Seq<(Account, u128)>) -> Map<Account, nat>
    decreases s.len(),
{
    if s.len() == 0 {
        Map::empty()
    } else {
        balance_map_of(s.drop_last()).insert(s.last().0, s.last().1 as nat)
    }
}

pub open spec fn balance_keys_unique(s: Seq<(Account, u128)>) -> bool {
    forall|i: int, j: int|
        #![trigger s[i], s[j]]
        0 <= i < j < s.len() ==> s[i].0 != s[j].0
}

proof fn lemma_balance_map_contains(s: Seq<(Account, u128)>, k: Account)
    ensures
        balance_map_of(s).contains_key(k) <==> exists|j: int| 0 <= j < s.len() && (#[trigger] s[j]).0
            == k,
    decreases s.len(),
{
    if s.len() == 0 {
    } else {
        lemma_balance_map_contains(s.drop_last(), k);
        if s.last().0 == k {
            assert((s[s.len() - 1]).0 == k);
        } else {
            if exists|j: int| 0 <= j < s.len() && (#[trigger] s[j]).0 == k {
                let j = choose|j: int| 0 <= j < s.len() && (#[trigger] s[j]).0 == k;
                assert(s.drop_last()[j].0 == k);
            }
            if exists|j: int| 0 <= j < s.drop_last().len() && (#[trigger] s.drop_last()[j]).0
                == k {
                let j = choose|j: int|
                    0 <= j < s.drop_last().len() && (#[trigger] s.drop_last()[j]).0 == k;
                assert(s[j].0 == k);
            }
        }
    }
}

proof fn lemma_balance_map_value(s: Seq<(Account, u128)>, i: int)
    requires
        balance_keys_unique(s),
        0 <= i < s.len(),
    ensures
        balance_map_of(s).contains_key(s[i].0),
        balance_map_of(s)[s[i].0] == s[i].1 as nat,
    decreases s.len(),
{
    if i == s.len() - 1 {
    } else {
        assert(balance_keys_unique(s.drop_last()));
        lemma_balance_map_value(s.drop_last(), i);
        assert(s[i].0 != s[s.len() - 1].0);
    }
}

proof fn lemma_balance_map_update(s: Seq<(Account, u128)>, i: int, k: Account, v: u128)
    requires
        balance_keys_unique(s),
        0 <= i < s.len(),
        s[i].0 == k,
    ensures
        balance_keys_unique(s.update(i, (k, v))),
        balance_map_of(s.update(i, (k, v))) == balance_map_of(s).insert(k, v as nat),
{
    let s2 = s.update(i, (k, v));
    assert(forall|j: int| 0 <= j < s2.len() ==> (#[trigger] s2[j]).0 == s[j].0);
    let m1 = balance_map_of(s2);
    let m2 = balance_map_of(s).insert(k, v as nat);
    assert forall|k2: Account| m1.contains_key(k2) <==> m2.contains_key(k2) by {
        lemma_balance_map_contains(s, k2);
        lemma_balance_map_contains(s2, k2);
        if exists|j: int| 0 <= j < s.len() && (#[trigger] s[j]).0 == k2 {
            let j = choose|j: int| 0 <= j < s.len() && (#[trigger] s[j]).0 == k2;
            assert(s2[j].0 == k2);
        }
        if exists|j: int| 0 <= j < s2.len() && (#[trigger] s2[j]).0 == k2 {
            let j = choose|j: int| 0 <= j < s2.len() && (#[trigger] s2[j]).0 == k2;
            assert(s[j].0 == k2);
        }
    }
    assert forall|k2: Account| m1.contains_key(k2) implies m1[k2] == m2[k2] by {
        if k2 == k {
            lemma_balance_map_value(s2, i);
        } else {
            lemma_balance_map_contains(s2, k2);
            let j = choose|j: int| 0 <= j < s2.len() && (#[trigger] s2[j]).0 == k2;
            assert(j != i);
            lemma_balance_map_value(s2, j);
            lemma_balance_map_value(s, j);
        }
    }
    assert(m1 =~= m2);
}

/// An association list from accounts to owned-token counts with distinct
/// keys, viewed as a `Map<Account, nat>`.
pub struct BalanceMap {
    pairs: Vec<(Account, u128)>,
}

impl View for BalanceMap {
    type V = Map<Account, nat>;

    closed spec fn view(&self) -> Map<Account, nat> {
        balance_map_of(self.pairs@)
    }
}

impl BalanceMap {
    pub closed spec fn wf(self) -> bool {
        balance_keys_unique(self.pairs@)
    }

    pub fn new() -> (r: BalanceMap)
        ensures
            r.wf(),
            r@ == Map::<Account, nat>::empty(),
    {
        BalanceMap { pairs: Vec::new() }
    }

    pub fn get(&self, k: Account) -> (r: Option<u128>)
        requires
            self.wf(),
        ensures
            match r {
                Some(v) => self@.contains_key(k) && self@[k] == v as nat,
                None => !self@.contains_key(k),
            },
    {
        let n: usize = self.pairs.len();
        let mut i: usize = 0;
        while i < n
            invariant
                self.wf(),
                n == self.pairs.len(),
                0 <= i <= n,
                forall|j: int| 0 <= j < i ==> (#[trigger] self.pairs@[j]).0 != k,
            decreases n - i,
        {
            let (pk, pv) = self.pairs[i];
            if pk == k {
                proof {
                    lemma_balance_map_value(self.pairs@, i as int);
                }
                return Some(pv);
            }
            i = i + 1;
        }
        proof {
            lemma_balance_map_contains(self.pairs@, k);
        }
        None
    }

    pub fn set(&mut self, k: Account, v: u128)
        requires
            old(self).wf(),
        ensures
            final(self).wf(),
            final(self)@ == old(self)@.insert(k, v as nat),
    {
        let n: usize = self.pairs.len();
        let mut i: usize = 0;
        while i < n
            invariant
                *self == *old(self),
                old(self).wf(),
                n == self.pairs.len(),
                0 <= i <= n,
                forall|j: int| 0 <= j < i ==> (#[trigger] self.pairs@[j]).0 != k,
            decreases n - i,
        {
            let pk = self.pairs[i].0;
            if pk == k {
                proof {
                    lemma_balance_map_update(self.pairs@, i as int, k, v);
                }
                self.pairs.set(i, (k, v));
                return ;
            }
            i = i + 1;
        }
        self.pairs.push((k, v));
        proof {
            assert(self.pairs@.drop_last() =~= old(self).pairs@);
            assert(self.pairs@.last() == (k, v));
            assert forall|i2: int, j2: int|
                #![trigger self.pairs@[i2], self.pairs@[j2]]
                0 <= i2 < j2 < self.pairs@.len() implies self.pairs@[i2].0 != self.pairs@[j2].0 by {
                if j2 < self.pairs@.len() - 1 {
                    assert(old(self).pairs@[i2].0 != old(self).pairs@[j2].0);
                } else {
                    assert(old(self).pairs@[i2].0 != k);
                }
            }
        }
    }
}

// ------------------------------------------------------------------
// (owner, operator) -> approved
// ------------------------------------------------------------------

/// The abstraction of the blanket-operator table, keyed by the owner and
/// the operator together.
pub open spec fn operator_map_of(s: Seq<(Account, Account, bool)>) -> Map<
    (Account, Account),
    bool,
>
    decreases s.len(),
{
    if s.len() == 0 {
        Map::empty()
    } else {
        operator_map_of(s.drop_last()).insert((s.last().0, s.last().1), s.last().2)
    }
}

pub open spec fn operator_keys_unique(s: Seq<(Account, Account, bool)>) -> bool {
    forall|i: int, j: int|
        #![trigger s[i], s[j]]
        0 <= i < j < s.len() ==> !(s[i].0 == s[j].0 && s[i].1 == s[j].1)
}

proof fn lemma_operator_map_contains(s: Seq<(Account, Account, bool)>, k: (Account, Account))
    ensures
        operator_map_of(s).contains_key(k) <==> exists|j: int|
            0 <= j < s.len() && ((#[trigger] s[j]).0, s[j].1) == k,
    decreases s.len(),
{
    if s.len() == 0 {
    } else {
        lemma_operator_map_contains(s.drop_last(), k);
        if (s.last().0, s.last().1) == k {
            assert(((s[s.len() - 1]).0, s[s.len() - 1].1) == k);
        } else {
            if exists|j: int| 0 <= j < s.len() && ((#[trigger] s[j]).0, s[j].1) == k {
                let j = choose|j: int| 0 <= j < s.len() && ((#[trigger] s[j]).0, s[j].1) == k;
                assert((s.drop_last()[j].0, s.drop_last()[j].1) == k);
            }
            if exists|j: int|
                0 <= j < s.drop_last().len() && ((#[trigger] s.drop_last()[j]).0,
                s.drop_last()[j].1) == k {
                let j = choose|j: int|
                    0 <= j < s.drop_last().len() && ((#[trigger] s.drop_last()[j]).0,
                    s.drop_last()[j].1) == k;
                assert((s[j].0, s[j].1) == k);
            }
        }
    }
}

proof fn lemma_operator_map_value(s: Seq<(Account, Account, bool)>, i: int)
    requires
        operator_keys_unique(s),
        0 <= i < s.len(),
    ensures
        operator_map_of(s).contains_key((s[i].0, s[i].1)),
        operator_map_of(s)[(s[i].0, s[i].1)] == s[i].2,
    decreases s.len(),
{
    if i == s.len() - 1 {
    } else {
        assert(operator_keys_unique(s.drop_last()));
        lemma_operator_map_value(s.drop_last(), i);
        assert(!(s[i].0 == s[s.len() - 1].0 && s[i].1 == s[s.len() - 1].1));
    }
}

proof fn lemma_operator_map_update(
    s: Seq<(Account, Account, bool)>,
    i: int,
    k: (Account, Account),
    v: bool,
)
    requires
        operator_keys_unique(s),
        0 <= i < s.len(),
        (s[i].0, s[i].1) == k,
    ensures
        operator_keys_unique(s.update(i, (k.0, k.1, v))),
        operator_map_of(s.update(i, (k.0, k.1, v))) == operator_map_of(s).insert(k, v),
{
    let s2 = s.update(i, (k.0, k.1, v));
    assert(forall|j: int|
        0 <= j < s2.len() ==> (#[trigger] s2[j]).0 == s[j].0 && s2[j].1 == s[j].1);
    let m1 = operator_map_of(s2);
    let m2 = operator_map_of(s).insert(k, v);
    assert forall|k2: (Account, Account)| m1.contains_key(k2) <==> m2.contains_key(k2) by {
        lemma_operator_map_contains(s, k2);
        lemma_operator_map_contains(s2, k2);
        if exists|j: int| 0 <= j < s.len() && ((#[trigger] s[j]).0, s[j].1) == k2 {
            let j = choose|j: int| 0 <= j < s.len() && ((#[trigger] s[j]).0, s[j].1) == k2;
            assert((s2[j].0, s2[j].1) == k2);
        }
        if exists|j: int| 0 <= j < s2.len() && ((#[trigger] s2[j]).0, s2[j].1) == k2 {
            let j = choose|j: int| 0 <= j < s2.len() && ((#[trigger] s2[j]).0, s2[j].1) == k2;
            assert((s[j].0, s[j].1) == k2);
        }
    }
    assert forall|k2: (Account, Account)| m1.contains_key(k2) implies m1[k2] == m2[k2] by {
        if k2 == k {
            lemma_operator_map_value(s2, i);
        } else {
            lemma_operator_map_contains(s2, k2);
            let j = choose|j: int| 0 <= j < s2.len() && ((#[trigger] s2[j]).0, s2[j].1) == k2;
            assert(j != i);
            lemma_operator_map_value(s2, j);
            lemma_operator_map_value(s, j);
        }
    }
    assert(m1 =~= m2);
}

/// An association list of blanket delegations, keyed by owner and
/// operator together, viewed as a `Map<(Account, Account), bool>`.
pub struct OperatorMap {
    entries: Vec<(Account, Account, bool)>,
}

impl View for OperatorMap {
    type V = Map<(Account, Account), bool>;

    closed spec fn view(&self) -> Map<(Account, Account), bool> {
        operator_map_of(self.entries@)
    }
}

impl OperatorMap {
    pub closed spec fn wf(self) -> bool {
        operator_keys_unique(self.entries@)
    }

    pub fn new() -> (r: OperatorMap)
        ensures
            r.wf(),
            r@ == Map::<(Account, Account), bool>::empty(),
    {
        OperatorMap { entries: Vec::new() }
    }

    pub fn get(&self, owner: Account, operator: Account) -> (r: Option<bool>)
        requires
            self.wf(),
        ensures
            match r {
                Some(v) => self@.contains_key((owner, operator)) && self@[(owner, operator)] == v,
                None => !self@.contains_key((owner, operator)),
            },
    {
        let n: usize = self.entries.len();
        let mut i: usize = 0;
        while i < n
            invariant
                self.wf(),
                n == self.entries.len(),
                0 <= i <= n,
                forall|j: int|
                    0 <= j < i ==> !((#[trigger] self.entries@[j]).0 == owner
                        && self.entries@[j].1 == operator),
            decreases n - i,
        {
            let (pk0, pk1, pv) = self.entries[i];
            if pk0 == owner && pk1 == operator {
                proof {
                    lemma_operator_map_value(self.entries@, i as int);
                }
                return Some(pv);
            }
            i = i + 1;
        }
        proof {
            lemma_operator_map_contains(self.entries@, (owner, operator));
        }
        None
    }

    pub fn set(&mut self, owner: Account, operator: Account, v: bool)
        requires
            old(self).wf(),
        ensures
            final(self).wf(),
            final(self)@ == old(self)@.insert((owner, operator), v),
    {
        let n: usize = self.entries.len();
        let mut i: usize = 0;
        while i < n
            invariant
                *self == *old(self),
                old(self).wf(),
                n == self.entries.len(),
                0 <= i <= n,
                forall|j: int|
                    0 <= j < i ==> !((#[trigger] self.entries@[j]).0 == owner
                        && self.entries@[j].1 == operator),
            decreases n - i,
        {
            let pk0 = self.entries[i].0;
            let pk1 = self.entries[i].1;
            if pk0 == owner && pk1 == operator {
                proof {
                    lemma_operator_map_update(self.entries@, i as int, (owner, operator), v);
                }
                self.entries.set(i, (owner, operator, v));
                return ;
            }
            i = i + 1;
        }
        self.entries.push((owner, operator, v));
        proof {
            assert(self.entries@.drop_last() =~= old(self).entries@);
            assert(self.entries@.last() == (owner, operator, v));
            assert forall|i2: int, j2: int|
                #![trigger self.entries@[i2], self.entries@[j2]]
                0 <= i2 < j2 < self.entries@.len() implies !(self.entries@[i2].0
                == self.entries@[j2].0 && self.entries@[i2].1 == self.entries@[j2].1) by {
                if j2 < self.entries@.len() - 1 {
                    assert(!(old(self).entries@[i2].0 == old(self).entries@[j2].0 && old(
                        self,
                    ).entries@[i2].1 == old(self).entries@[j2].1));
                } else {
                    assert(!(old(self).entries@[i2].0 == owner && old(self).entries@[i2].1
                        == operator));
                }
            }
        }
    }
}

} // verus!
