use vstd::prelude::*;
use crate::types::Address;

verus! {

/// Balance of one holder in one fungible token.
struct LedgerEntry {
    token: Address,
    holder: Address,
    balance: i128,
}

/// The token-transfer collaborator: fungible balances held per token and
/// holder, moved atomically between two identities.
///
/// A transfer fails, and changes nothing, when the sender lacks sufficient
/// balance; the escrow operations surface that failure as a whole-operation
/// abort.
pub struct TokenLedger {
    entries: Vec<LedgerEntry>,
}

impl TokenLedger {
    /// One entry per (token, holder) pair, and no negative balances.
    pub closed spec fn wf(self) -> bool {
        &&& forall|i: int, j: int|
            0 <= i < self.entries@.len() && 0 <= j < self.entries@.len() && i != j
                ==> !(#[trigger] self.entries@[i].token == #[trigger] self.entries@[j].token
                    && self.entries@[i].holder == self.entries@[j].holder)
        &&& forall|i: int| 0 <= i < self.entries@.len() ==> #[trigger] self.entries@[i].balance >= 0
    }

    spec fn has_entry(self, token: Address, holder: Address) -> bool {
        exists|i: int|
            0 <= i < self.entries@.len() && #[trigger] self.entries@[i].token == token
                && self.entries@[i].holder == holder
    }

    spec fn entry_index(self, token: Address, holder: Address) -> int {
        choose|i: int|
            0 <= i < self.entries@.len() && #[trigger] self.entries@[i].token == token
                && self.entries@[i].holder == holder
    }

    /// The balance a holder has in a token; zero when never touched.
    pub closed spec fn bal(self, token: Address, holder: Address) -> int {
        if self.has_entry(token, holder) {
            self.entries@[self.entry_index(token, holder)].balance as int
        } else {
            0
        }
    }

    /// The total of a token across all holders.
    pub closed spec fn total(self, token: Address) -> int {
        sum_entries(self.entries@, token)
    }

    proof fn lemma_bal_at(self, i: int)
        requires
            self.wf(),
            0 <= i < self.entries@.len(),
        ensures
            self.bal(self.entries@[i].token, self.entries@[i].holder)
                == self.entries@[i].balance as int,
    {
        let token = self.entries@[i].token;
        let holder = self.entries@[i].holder;
        assert(self.has_entry(token, holder));
        let j = self.entry_index(token, holder);
        if i != j {
            assert(!(self.entries@[i].token == self.entries@[j].token
                && self.entries@[i].holder == self.entries@[j].holder));
            assert(false);
        }
    }

    /// An empty ledger: every balance is zero.
    pub fn new() -> (r: TokenLedger)
        ensures
            r.wf(),
            forall|t: Address, h: Address| #[trigger] r.bal(t, h) == 0,
    {
        TokenLedger { entries: Vec::new() }
    }

    fn find_entry(&self, token: Address, holder: Address) -> (r: Option<usize>)
        ensures
            match r {
                Some(i) => i < self.entries@.len() && self.entries@[i as int].token == token
                    && self.entries@[i as int].holder == holder,
                None => !self.has_entry(token, holder),
            },
    {
        let mut i: usize = 0;
        while i < self.entries.len()
            invariant
                i <= self.entries@.len(),
                forall|j: int|
                    0 <= j < i ==> !(#[trigger] self.entries@[j].token == token
                        && self.entries@[j].holder == holder),
            decreases self.entries@.len() - i,
        {
            if self.entries[i].token == token && self.entries[i].holder == holder {
                return Some(i);
            }
            i = i + 1;
        }
        None
    }

    /// The balance a holder has in a token.
    pub fn balance_of(&self, token: Address, holder: Address) -> (r: i128)
        requires
            self.wf(),
        ensures
            r as int == self.bal(token, holder),
            r >= 0,
    {
        match self.find_entry(token, holder) {
            Some(i) => {
                proof {
                    self.lemma_bal_at(i as int);
                }
                self.entries[i].balance
            },
            None => 0,
        }
    }

    fn set_entry(&mut self, token: Address, holder: Address, value: i128)
        requires
            old(self).wf(),
            value >= 0,
        ensures
            final(self).wf(),
            final(self).bal(token, holder) == value as int,
            forall|t: Address, h: Address|
                !(t == token && h == holder) ==> #[trigger] final(self).bal(t, h)
                    == old(self).bal(t, h),
            final(self).total(token) == old(self).total(token) - old(self).bal(token, holder)
                + value,
            forall|t: Address|
                t != token ==> #[trigger] final(self).total(t) == old(self).total(t),
    {
        let found = self.find_entry(token, holder);
        match found {
            Some(i) => {
                self.entries.set(i, LedgerEntry { token, holder, balance: value });
            },
            None => {
                self.entries.push(LedgerEntry { token, holder, balance: value });
            },
        }
        proof {
            self.lemma_set_entry_post(*old(self), found, token, holder, value);
        }
    }

    proof fn lemma_set_entry_post(
        self,
        pre: Self,
        found: Option<usize>,
        token: Address,
        holder: Address,
        value: i128,
    )
        requires
            pre.wf(),
            value >= 0,
            match found {
                Some(i) => i < pre.entries@.len() && pre.entries@[i as int].token == token
                    && pre.entries@[i as int].holder == holder
                    && self.entries@ == pre.entries@.update(
                    i as int,
                    (LedgerEntry { token, holder, balance: value }),
                ),
                None => !pre.has_entry(token, holder) && self.entries@ == pre.entries@.push(
                    (LedgerEntry { token, holder, balance: value }),
                ),
            },
        ensures
            self.wf(),
            self.bal(token, holder) == value as int,
            forall|t: Address, h: Address|
                !(t == token && h == holder) ==> #[trigger] self.bal(t, h) == pre.bal(t, h),
            self.total(token) == pre.total(token) - pre.bal(token, holder) + value,
            forall|t: Address| t != token ==> #[trigger] self.total(t) == pre.total(t),
    {
        let entry = (LedgerEntry { token, holder, balance: value });
        match found {
            Some(i) => {
                pre.lemma_bal_at(i as int);
                lemma_sum_update(pre.entries@, i as int, entry, token);
                assert forall|t: Address| t != token implies #[trigger] self.total(t)
                    == pre.total(t) by {
                    lemma_sum_update(pre.entries@, i as int, entry, t);
                }
            },
            None => {
                lemma_sum_push(pre.entries@, entry, token);
                assert forall|t: Address| t != token implies #[trigger] self.total(t)
                    == pre.total(t) by {
                    lemma_sum_push(pre.entries@, entry, t);
                }
            },
        }
        let n = pre.entries@.len() as int;
        match found {
            Some(i) => {
                let i = i as int;
                assert(self.wf());
                self.lemma_bal_at(i);
                assert forall|t: Address, h: Address| !(t == token && h == holder) implies
                    #[trigger] self.bal(t, h) == pre.bal(t, h) by {
                    if self.has_entry(t, h) {
                        let j = self.entry_index(t, h);
                        assert(j != i);
                        assert(self.entries@[j] == pre.entries@[j]);
                        self.lemma_bal_at(j);
                        pre.lemma_bal_at(j);
                    } else {
                        assert forall|j: int| 0 <= j < n implies
                            !(#[trigger] pre.entries@[j].token == t
                                && pre.entries@[j].holder == h) by {
                            if j != i {
                                assert(self.entries@[j] == pre.entries@[j]);
                            }
                        }
                        assert(!pre.has_entry(t, h));
                    }
                }
            },
            None => {
                assert forall|i: int, j: int|
                    0 <= i < self.entries@.len() && 0 <= j < self.entries@.len() && i != j implies
                    !(#[trigger] self.entries@[i].token == #[trigger] self.entries@[j].token
                        && self.entries@[i].holder == self.entries@[j].holder) by {
                    if i < n && j < n {
                        assert(pre.entries@[i] == self.entries@[i]);
                        assert(pre.entries@[j] == self.entries@[j]);
                    } else if i == n {
                        assert(self.entries@[j] == pre.entries@[j]);
                        assert(!(pre.entries@[j].token == token
                            && pre.entries@[j].holder == holder));
                    } else {
                        assert(self.entries@[i] == pre.entries@[i]);
                        assert(!(pre.entries@[i].token == token
                            && pre.entries@[i].holder == holder));
                    }
                }
                assert(self.wf());
                self.lemma_bal_at(n);
                assert forall|t: Address, h: Address| !(t == token && h == holder) implies
                    #[trigger] self.bal(t, h) == pre.bal(t, h) by {
                    if self.has_entry(t, h) {
                        let j = self.entry_index(t, h);
                        assert(j != n);
                        assert(self.entries@[j] == pre.entries@[j]);
                        self.lemma_bal_at(j);
                        pre.lemma_bal_at(j);
                    } else {
                        assert forall|j: int| 0 <= j < n implies
                            !(#[trigger] pre.entries@[j].token == t
                                && pre.entries@[j].holder == h) by {
                            assert(self.entries@[j] == pre.entries@[j]);
                        }
                        assert(!pre.has_entry(t, h));
                    }
                }
            },
        }
    }

    /// Adds to a holder's balance, seeding the ledger before escrows run.
    pub fn mint(&mut self, token: Address, holder: Address, amount: i128)
        requires
            old(self).wf(),
            amount >= 0,
            old(self).bal(token, holder) + amount <= i128::MAX,
        ensures
            final(self).wf(),
            final(self).bal(token, holder) == old(self).bal(token, holder) + amount,
            forall|t: Address, h: Address|
                !(t == token && h == holder) ==> #[trigger] final(self).bal(t, h)
                    == old(self).bal(t, h),
            final(self).total(token) == old(self).total(token) + amount,
            forall|t: Address|
                t != token ==> #[trigger] final(self).total(t) == old(self).total(t),
    {
        let current = self.balance_of(token, holder);
        self.set_entry(token, holder, current + amount);
    }

    /// Moves `amount` of `token` from `from` to `to`, atomically: either the
    /// whole movement happens, or nothing changes and the call reports false.
    /// Either way every token's total across all holders is conserved.
    pub fn transfer(
        &mut self,
        token: Address,
        from: Address,
        to: Address,
        amount: i128,
    ) -> (r: bool)
        requires
            old(self).wf(),
        ensures
            final(self).wf(),
            r == can_transfer(*old(self), token, from, to, amount),
            r ==> transfer_applied(*old(self), *final(self), token, from, to, amount as int),
            r ==> forall|t: Address| #[trigger] final(self).total(t) == old(self).total(t),
            !r ==> *final(self) == *old(self),
    {
        let bal_from = self.balance_of(token, from);
        if amount < 0 || amount > bal_from {
            return false;
        }
        if from == to {
            return true;
        }
        let bal_to = self.balance_of(token, to);
        if bal_to > i128::MAX - amount {
            return false;
        }
        self.set_entry(token, from, bal_from - amount);
        self.set_entry(token, to, bal_to + amount);
        true
    }
}

/// What one entry contributes to a token's total.
spec fn entry_contrib(e: LedgerEntry, token: Address) -> int {
    if e.token == token {
        e.balance as int
    } else {
        0
    }
}

spec fn sum_entries(s: Seq<LedgerEntry>, token: Address) -> int
    decreases s.len(),
{
    if s.len() == 0 {
        0
    } else {
        sum_entries(s.drop_last(), token) + entry_contrib(s.last(), token)
    }
}

proof fn lemma_sum_update(s: Seq<LedgerEntry>, i: int, e2: LedgerEntry, token: Address)
    requires
        0 <= i < s.len(),
    ensures
        sum_entries(s.update(i, e2), token) == sum_entries(s, token) - entry_contrib(s[i], token)
            + entry_contrib(e2, token),
    decreases s.len(),
{
    if i == s.len() - 1 {
        assert(s.update(i, e2).drop_last() =~= s.drop_last());
        assert(s.update(i, e2).last() == e2);
    } else {
        lemma_sum_update(s.drop_last(), i, e2, token);
        assert(s.update(i, e2).drop_last() =~= s.drop_last().update(i, e2));
        assert(s.update(i, e2).last() == s.last());
    }
}

proof fn lemma_sum_push(s: Seq<LedgerEntry>, e: LedgerEntry, token: Address)
    ensures
        sum_entries(s.push(e), token) == sum_entries(s, token) + entry_contrib(e, token),
{
    assert(s.push(e).drop_last() =~= s);
    assert(s.push(e).last() == e);
}

impl TokenLedger {
    /// Law: a well-formed ledger never holds a negative balance, so custody
    /// can never be overdrawn.
    pub proof fn lemma_balances_nonnegative(self)
        requires
            self.wf(),
        ensures
            forall|t: Address, h: Address| #[trigger] self.bal(t, h) >= 0,
    {
        assert forall|t: Address, h: Address| #[trigger] self.bal(t, h) >= 0 by {
            if self.has_entry(t, h) {
                let i = self.entry_index(t, h);
                assert(self.entries@[i].balance >= 0);
            }
        }
    }
}

/// When a transfer goes through: a non-negative amount covered by the
/// sender's balance, and no overflow of the recipient's balance.
pub open spec fn can_transfer(
    l: TokenLedger,
    token: Address,
    from: Address,
    to: Address,
    amount: i128,
) -> bool {
    &&& 0 <= amount
    &&& amount as int <= l.bal(token, from)
    &&& from == to || l.bal(token, to) + amount <= i128::MAX
}

/// Exactly `amount` moved from `from` to `to` in `token`, every other
/// balance untouched. Moving a balance to oneself changes nothing.
pub open spec fn transfer_applied(
    pre: TokenLedger,
    post: TokenLedger,
    token: Address,
    from: Address,
    to: Address,
    amount: int,
) -> bool {
    &&& post.bal(token, from) == pre.bal(token, from) - (if from == to {
        0int
    } else {
        amount
    })
    &&& post.bal(token, to) == pre.bal(token, to) + (if from == to {
        0int
    } else {
        amount
    })
    &&& forall|t: Address, h: Address|
        !(t == token && (h == from || h == to)) ==> #[trigger] post.bal(t, h) == pre.bal(t, h)
}

} // verus!
