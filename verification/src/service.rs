use vstd::prelude::*;
use crate::ledger::{TokenLedger, can_transfer, transfer_applied};
use crate::types::{Address, Escrow, EscrowError, Event};

verus! {

/// The escrow service: the keyed store of escrow entities, the count of
/// escrows ever created, and the service's own custody address, under which
/// funded amounts sit until release or resolution.
pub struct EscrowContract {
    escrows: Vec<Escrow>,
    count: u32,
    custody: Address,
}

impl EscrowContract {
    /// Ids are unique, the counter equals the number of stored escrows, and
    /// every stored escrow carries lawful flags.
    pub closed spec fn wf(self) -> bool {
        &&& self.count as int == self.escrows@.len()
        &&& forall|i: int, j: int|
            0 <= i < self.escrows@.len() && 0 <= j < self.escrows@.len() && i != j
                ==> #[trigger] self.escrows@[i].escrow_id@ != #[trigger] self.escrows@[j].escrow_id@
        &&& forall|i: int|
            0 <= i < self.escrows@.len() ==> flags_lawful(#[trigger] self.escrows@[i])
    }

    spec fn has_id(self, id: Seq<char>) -> bool {
        exists|i: int| 0 <= i < self.escrows@.len() && #[trigger] self.escrows@[i].escrow_id@ == id
    }

    spec fn index_of(self, id: Seq<char>) -> int {
        choose|i: int| 0 <= i < self.escrows@.len() && #[trigger] self.escrows@[i].escrow_id@ == id
    }

    /// The entity stored under an id, if any.
    pub closed spec fn spec_get(self, id: Seq<char>) -> Option<Escrow> {
        if self.has_id(id) {
            Some(self.escrows@[self.index_of(id)])
        } else {
            None
        }
    }

    /// How many escrows were ever created.
    pub closed spec fn spec_count(self) -> nat {
        self.count as nat
    }

    /// The address under which the service holds funded amounts.
    pub closed spec fn spec_custody(self) -> Address {
        self.custody
    }

    proof fn lemma_get_at(self, i: int)
        requires
            self.wf(),
            0 <= i < self.escrows@.len(),
        ensures
            self.spec_get(self.escrows@[i].escrow_id@) == Some(self.escrows@[i]),
    {
        let id = self.escrows@[i].escrow_id@;
        assert(self.has_id(id));
        let j = self.index_of(id);
        if i != j {
            assert(self.escrows@[i].escrow_id@ != self.escrows@[j].escrow_id@);
            assert(false);
        }
    }

    proof fn lemma_update(pre: Self, post: Self, i: int, e2: Escrow)
        requires
            pre.wf(),
            0 <= i < pre.escrows@.len(),
            e2.escrow_id@ == pre.escrows@[i].escrow_id@,
            flags_lawful(e2),
            post.escrows@ == pre.escrows@.update(i, e2),
            post.count == pre.count,
            post.custody == pre.custody,
        ensures
            store_updated(pre, post, e2.escrow_id@, e2),
    {
        let n = pre.escrows@.len() as int;
        assert forall|k: int| 0 <= k < n implies flags_lawful(#[trigger] post.escrows@[k]) by {
            if k != i {
                assert(post.escrows@[k] == pre.escrows@[k]);
            }
        }
        assert forall|p: int, q: int|
            0 <= p < n && 0 <= q < n && p != q implies #[trigger] post.escrows@[p].escrow_id@
            != #[trigger] post.escrows@[q].escrow_id@ by {
            assert(post.escrows@[p].escrow_id@ == pre.escrows@[p].escrow_id@);
            assert(post.escrows@[q].escrow_id@ == pre.escrows@[q].escrow_id@);
        }
        assert(post.wf());
        post.lemma_get_at(i);
        assert forall|id2: Seq<char>| id2 != e2.escrow_id@ implies #[trigger] post.spec_get(id2)
            == pre.spec_get(id2) by {
            if post.has_id(id2) {
                let j = post.index_of(id2);
                assert(j != i);
                assert(post.escrows@[j] == pre.escrows@[j]);
                pre.lemma_get_at(j);
                post.lemma_get_at(j);
            } else {
                assert forall|j: int| 0 <= j < n implies #[trigger] pre.escrows@[j].escrow_id@
                    != id2 by {
                    if j == i {
                        assert(pre.escrows@[j].escrow_id@ == e2.escrow_id@);
                    } else {
                        assert(post.escrows@[j].escrow_id@ == pre.escrows@[j].escrow_id@);
                    }
                }
                assert(!pre.has_id(id2));
            }
        }
    }

    proof fn lemma_push(pre: Self, post: Self, e: Escrow)
        requires
            pre.wf(),
            !pre.has_id(e.escrow_id@),
            flags_lawful(e),
            post.escrows@ == pre.escrows@.push(e),
            post.count as int == pre.count as int + 1,
            post.custody == pre.custody,
        ensures
            post.wf(),
            post.spec_get(e.escrow_id@) == Some(e),
            forall|id2: Seq<char>|
                id2 != e.escrow_id@ ==> #[trigger] post.spec_get(id2) == pre.spec_get(id2),
            post.spec_count() == pre.spec_count() + 1,
            post.spec_custody() == pre.spec_custody(),
    {
        let n = pre.escrows@.len() as int;
        assert forall|k: int| 0 <= k < n + 1 implies flags_lawful(#[trigger] post.escrows@[k]) by {
            if k < n {
                assert(post.escrows@[k] == pre.escrows@[k]);
            }
        }
        assert forall|p: int, q: int|
            0 <= p < n + 1 && 0 <= q < n + 1 && p != q implies #[trigger] post.escrows@[p].escrow_id@
            != #[trigger] post.escrows@[q].escrow_id@ by {
            if p < n && q < n {
                assert(post.escrows@[p].escrow_id@ == pre.escrows@[p].escrow_id@);
                assert(post.escrows@[q].escrow_id@ == pre.escrows@[q].escrow_id@);
            } else if p == n {
                assert(post.escrows@[q].escrow_id@ == pre.escrows@[q].escrow_id@);
                assert(pre.escrows@[q].escrow_id@ != e.escrow_id@);
            } else {
                assert(post.escrows@[p].escrow_id@ == pre.escrows@[p].escrow_id@);
                assert(pre.escrows@[p].escrow_id@ != e.escrow_id@);
            }
        }
        assert(post.wf());
        post.lemma_get_at(n);
        assert forall|id2: Seq<char>| id2 != e.escrow_id@ implies #[trigger] post.spec_get(id2)
            == pre.spec_get(id2) by {
            if post.has_id(id2) {
                let j = post.index_of(id2);
                assert(j != n);
                assert(post.escrows@[j] == pre.escrows@[j]);
                pre.lemma_get_at(j);
                post.lemma_get_at(j);
            } else {
                assert forall|j: int| 0 <= j < n implies #[trigger] pre.escrows@[j].escrow_id@
                    != id2 by {
                    assert(post.escrows@[j].escrow_id@ == pre.escrows@[j].escrow_id@);
                }
                assert(!pre.has_id(id2));
            }
        }
    }

    /// Law: a well-formed store holds only lawful flag states: a stored
    /// escrow that is delivered, released or disputed is funded.
    pub proof fn lemma_stored_flags_lawful(self, id: Seq<char>)
        requires
            self.wf(),
        ensures
            self.spec_get(id) matches Some(e) ==> flags_lawful(e),
    {
        if self.has_id(id) {
            let i = self.index_of(id);
            assert(flags_lawful(self.escrows@[i]));
        }
    }

    fn find_index(&self, escrow_id: &String) -> (r: Option<usize>)
        ensures
            match r {
                Some(i) => i < self.escrows@.len() && self.escrows@[
                    i as int
                ].escrow_id@ == escrow_id@,
                None => !self.has_id(escrow_id@),
            },
    {
        let mut i: usize = 0;
        while i < self.escrows.len()
            invariant
                i <= self.escrows@.len(),
                forall|j: int| 0 <= j < i ==> #[trigger] self.escrows@[j].escrow_id@ != escrow_id@,
            decreases self.escrows@.len() - i,
        {
            if self.escrows[i].escrow_id == *escrow_id {
                return Some(i);
            }
            i = i + 1;
        }
        None
    }

    fn store_at(&mut self, idx: usize, e2: Escrow)
        requires
            old(self).wf(),
            idx < old(self).escrows@.len(),
            e2.escrow_id@ == old(self).escrows@[idx as int].escrow_id@,
            flags_lawful(e2),
        ensures
            store_updated(*old(self), *final(self), e2.escrow_id@, e2),
    {
        let ghost ge = e2;
        self.escrows.set(idx, e2);
        proof {
            Self::lemma_update(*old(self), *self, idx as int, ge);
        }
    }

    /// A fresh service with no escrows, holding custody funds under the
    /// given address.
    pub fn new(custody: Address) -> (r: EscrowContract)
        ensures
            r.wf(),
            r.spec_count() == 0,
            r.spec_custody() == custody,
            forall|id: Seq<char>| #[trigger] r.spec_get(id) == None::<Escrow>,
    {
        EscrowContract { escrows: Vec::new(), count: 0, custody }
    }

    /// The address under which funded amounts are held.
    pub fn custody_address(&self) -> (r: Address)
        ensures
            r == self.spec_custody(),
    {
        self.custody
    }

    /// Looks an escrow up by id.
    pub fn get_escrow(&self, escrow_id: &String) -> (r: Result<Escrow, EscrowError>)
        requires
            self.wf(),
        ensures
            r == (match self.spec_get(escrow_id@) {
                Some(e) => Ok::<Escrow, EscrowError>(e),
                None => Err::<Escrow, EscrowError>(EscrowError::NotFound),
            }),
    {
        match self.find_index(escrow_id) {
            Some(i) => {
                proof {
                    self.lemma_get_at(i as int);
                }
                Ok(self.escrows[i].clone())
            },
            None => Err(EscrowError::NotFound),
        }
    }

    /// How many escrows were ever created; zero before the first `create`.
    pub fn get_escrow_count(&self) -> (r: u32)
        ensures
            r as nat == self.spec_count(),
    {
        self.count
    }

    /// Creates a new escrow with all flags false and counts it.
    ///
    /// Only the client may create; a duplicate id is refused and leaves the
    /// counter unchanged. The amount's sign is not validated here: a
    /// negative amount is stored as given and only surfaces when `fund`
    /// asks the ledger to move it, which the ledger refuses.
    pub fn create(
        &mut self,
        caller: Address,
        escrow_id: String,
        client: Address,
        freelancer: Address,
        amount: i128,
        token: Address,
        arbiter: Address,
    ) -> (r: Result<Event, EscrowError>)
        requires
            old(self).wf(),
            old(self).spec_count() < u32::MAX as nat,
        ensures
            final(self).wf(),
            create_post(
                *old(self),
                *final(self),
                caller,
                escrow_id@,
                client,
                freelancer,
                amount,
                token,
                arbiter,
                r,
            ),
    {
        if caller != client {
            return Err(EscrowError::Unauthorized);
        }
        match self.find_index(&escrow_id) {
            Some(i) => {
                proof {
                    self.lemma_get_at(i as int);
                }
                Err(EscrowError::AlreadyExists)
            },
            None => {
                let e = Escrow {
                    escrow_id,
                    client,
                    freelancer,
                    amount,
                    token,
                    arbiter,
                    funded: false,
                    delivered: false,
                    released: false,
                    disputed: false,
                };
                let ghost ge = e;
                let ghost pre = *self;
                self.escrows.push(e);
                self.count = self.count + 1;
                proof {
                    Self::lemma_push(pre, *self, ge);
                }
                Ok(Event::Created { client })
            },
        }
    }

    /// Moves `amount` of the escrow's token from the client into custody and
    /// marks the escrow funded.
    ///
    /// Only the client may fund, only once, and a refused transfer aborts the
    /// call with nothing changed.
    pub fn fund(
        &mut self,
        ledger: &mut TokenLedger,
        caller: Address,
        escrow_id: &String,
    ) -> (r: Result<Event, EscrowError>)
        requires
            old(self).wf(),
            old(ledger).wf(),
        ensures
            final(self).wf(),
            final(ledger).wf(),
            fund_post(
                *old(self),
                *old(ledger),
                *final(self),
                *final(ledger),
                caller,
                escrow_id@,
                r,
            ),
    {
        let idx = match self.find_index(escrow_id) {
            Some(i) => i,
            None => {
                return Err(EscrowError::NotFound);
            },
        };
        proof {
            self.lemma_get_at(idx as int);
        }
        if caller != self.escrows[idx].client {
            return Err(EscrowError::Unauthorized);
        }
        if self.escrows[idx].funded {
            return Err(EscrowError::AlreadyFunded);
        }
        let token = self.escrows[idx].token;
        let from = self.escrows[idx].client;
        let amount = self.escrows[idx].amount;
        let ok = ledger.transfer(token, from, self.custody, amount);
        if !ok {
            return Err(EscrowError::TransferFailed);
        }
        let mut updated = self.escrows[idx].clone();
        updated.funded = true;
        self.store_at(idx, updated);
        Ok(Event::Funded { amount })
    }

    /// Marks a funded escrow as delivered.
    ///
    /// Only the freelancer may signal delivery, only once, and never on a
    /// released escrow: release is terminal, whichever path set it.
    pub fn deliver(&mut self, caller: Address, escrow_id: &String) -> (r: Result<
        Event,
        EscrowError,
    >)
        requires
            old(self).wf(),
        ensures
            final(self).wf(),
            deliver_post(*old(self), *final(self), caller, escrow_id@, r),
    {
        let idx = match self.find_index(escrow_id) {
            Some(i) => i,
            None => {
                return Err(EscrowError::NotFound);
            },
        };
        proof {
            self.lemma_get_at(idx as int);
        }
        if caller != self.escrows[idx].freelancer {
            return Err(EscrowError::Unauthorized);
        }
        if !self.escrows[idx].funded {
            return Err(EscrowError::NotFunded);
        }
        if self.escrows[idx].delivered {
            return Err(EscrowError::AlreadyDelivered);
        }
        if self.escrows[idx].released {
            return Err(EscrowError::AlreadyReleased);
        }
        let mut updated = self.escrows[idx].clone();
        updated.delivered = true;
        self.store_at(idx, updated);
        Ok(Event::Delivered { flag: true })
    }

    /// Pays `amount` of the escrow's token out of custody to the freelancer
    /// and marks the escrow released.
    ///
    /// Only the client may release, only after funding and delivery, and
    /// only once; a refused transfer aborts the call with nothing changed.
    pub fn release(
        &mut self,
        ledger: &mut TokenLedger,
        caller: Address,
        escrow_id: &String,
    ) -> (r: Result<Event, EscrowError>)
        requires
            old(self).wf(),
            old(ledger).wf(),
        ensures
            final(self).wf(),
            final(ledger).wf(),
            release_post(
                *old(self),
                *old(ledger),
                *final(self),
                *final(ledger),
                caller,
                escrow_id@,
                r,
            ),
    {
        let idx = match self.find_index(escrow_id) {
            Some(i) => i,
            None => {
                return Err(EscrowError::NotFound);
            },
        };
        proof {
            self.lemma_get_at(idx as int);
        }
        if caller != self.escrows[idx].client {
            return Err(EscrowError::Unauthorized);
        }
        if !self.escrows[idx].funded {
            return Err(EscrowError::NotFunded);
        }
        if !self.escrows[idx].delivered {
            return Err(EscrowError::NotDelivered);
        }
        if self.escrows[idx].released {
            return Err(EscrowError::AlreadyReleased);
        }
        let token = self.escrows[idx].token;
        let to = self.escrows[idx].freelancer;
        let amount = self.escrows[idx].amount;
        let ok = ledger.transfer(token, self.custody, to, amount);
        if !ok {
            return Err(EscrowError::TransferFailed);
        }
        let mut updated = self.escrows[idx].clone();
        updated.released = true;
        self.store_at(idx, updated);
        Ok(Event::Released { amount })
    }

    /// Opens a dispute on a funded, unreleased escrow.
    ///
    /// The caller must be the escrow's client or its freelancer.
    pub fn dispute(&mut self, caller: Address, escrow_id: &String) -> (r: Result<
        Event,
        EscrowError,
    >)
        requires
            old(self).wf(),
        ensures
            final(self).wf(),
            dispute_post(*old(self), *final(self), caller, escrow_id@, r),
    {
        let idx = match self.find_index(escrow_id) {
            Some(i) => i,
            None => {
                return Err(EscrowError::NotFound);
            },
        };
        proof {
            self.lemma_get_at(idx as int);
        }
        if caller != self.escrows[idx].client && caller != self.escrows[idx].freelancer {
            return Err(EscrowError::Unauthorized);
        }
        if !self.escrows[idx].funded {
            return Err(EscrowError::NotFunded);
        }
        if self.escrows[idx].released {
            return Err(EscrowError::AlreadyReleased);
        }
        let mut updated = self.escrows[idx].clone();
        updated.disputed = true;
        self.store_at(idx, updated);
        Ok(Event::Disputed { flag: true })
    }

    /// Settles a disputed escrow: pays `amount` out of custody to the
    /// freelancer when `pay_freelancer`, else back to the client, and marks
    /// the escrow released.
    ///
    /// Only the arbiter may resolve, only an open dispute, and only once; a
    /// refused transfer aborts the call with nothing changed.
    pub fn resolve(
        &mut self,
        ledger: &mut TokenLedger,
        caller: Address,
        escrow_id: &String,
        pay_freelancer: bool,
    ) -> (r: Result<Event, EscrowError>)
        requires
            old(self).wf(),
            old(ledger).wf(),
        ensures
            final(self).wf(),
            final(ledger).wf(),
            resolve_post(
                *old(self),
                *old(ledger),
                *final(self),
                *final(ledger),
                caller,
                escrow_id@,
                pay_freelancer,
                r,
            ),
    {
        let idx = match self.find_index(escrow_id) {
            Some(i) => i,
            None => {
                return Err(EscrowError::NotFound);
            },
        };
        proof {
            self.lemma_get_at(idx as int);
        }
        if caller != self.escrows[idx].arbiter {
            return Err(EscrowError::Unauthorized);
        }
        if !self.escrows[idx].disputed {
            return Err(EscrowError::NotDisputed);
        }
        if self.escrows[idx].released {
            return Err(EscrowError::AlreadyResolved);
        }
        let token = self.escrows[idx].token;
        let to = if pay_freelancer {
            self.escrows[idx].freelancer
        } else {
            self.escrows[idx].client
        };
        let amount = self.escrows[idx].amount;
        let ok = ledger.transfer(token, self.custody, to, amount);
        if !ok {
            return Err(EscrowError::TransferFailed);
        }
        let mut updated = self.escrows[idx].clone();
        updated.released = true;
        self.store_at(idx, updated);
        Ok(Event::Resolved { pay_freelancer })
    }
}

/// The flag states the lifecycle can reach: delivery, release and dispute
/// all presuppose funding.
pub open spec fn flags_lawful(e: Escrow) -> bool {
    &&& e.delivered ==> e.funded
    &&& e.released ==> e.funded
    &&& e.disputed ==> e.funded
}

/// The store after a successful mutation of one entity: the entity under
/// `id` is now `e`, every other id is untouched, and the counter and the
/// custody address are unchanged.
pub open spec fn store_updated(
    pre: EscrowContract,
    post: EscrowContract,
    id: Seq<char>,
    e: Escrow,
) -> bool {
    &&& post.wf()
    &&& post.spec_get(id) == Some(e)
    &&& forall|id2: Seq<char>| id2 != id ==> #[trigger] post.spec_get(id2) == pre.spec_get(id2)
    &&& post.spec_count() == pre.spec_count()
    &&& post.spec_custody() == pre.spec_custody()
}

/// The fields a newly created escrow must carry: the inputs, with all four
/// lifecycle flags false.
pub open spec fn fresh_escrow(
    e: Escrow,
    id: Seq<char>,
    client: Address,
    freelancer: Address,
    amount: i128,
    token: Address,
    arbiter: Address,
) -> bool {
    &&& e.escrow_id@ == id
    &&& e.client == client
    &&& e.freelancer == freelancer
    &&& e.amount == amount
    &&& e.token == token
    &&& e.arbiter == arbiter
    &&& !e.funded
    &&& !e.delivered
    &&& !e.released
    &&& !e.disputed
}

/// The escrow after a successful `fund`.
pub open spec fn with_funded(e: Escrow) -> Escrow {
    Escrow { funded: true, ..e }
}

/// The escrow after a successful `deliver`.
pub open spec fn with_delivered(e: Escrow) -> Escrow {
    Escrow { delivered: true, ..e }
}

/// The escrow after a successful `release` or `resolve`.
pub open spec fn with_released(e: Escrow) -> Escrow {
    Escrow { released: true, ..e }
}

/// The escrow after a successful `dispute`.
pub open spec fn with_disputed(e: Escrow) -> Escrow {
    Escrow { disputed: true, ..e }
}

/// Everything `create` does, for every input: who may call, exactly when
/// each error comes, and what a success stores, counts and emits.
pub open spec fn create_post(
    pre: EscrowContract,
    post: EscrowContract,
    caller: Address,
    id: Seq<char>,
    client: Address,
    freelancer: Address,
    amount: i128,
    token: Address,
    arbiter: Address,
    r: Result<Event, EscrowError>,
) -> bool {
    if caller != client {
        r == Err::<Event, EscrowError>(EscrowError::Unauthorized) && post == pre
    } else if pre.spec_get(id) is Some {
        r == Err::<Event, EscrowError>(EscrowError::AlreadyExists) && post == pre
    } else {
        &&& r == Ok::<Event, EscrowError>(Event::Created { client })
        &&& post.wf()
        &&& post.spec_get(id) matches Some(e) && fresh_escrow(
            e,
            id,
            client,
            freelancer,
            amount,
            token,
            arbiter,
        )
        &&& forall|id2: Seq<char>| id2 != id ==> #[trigger] post.spec_get(id2) == pre.spec_get(id2)
        &&& post.spec_count() == pre.spec_count() + 1
        &&& post.spec_custody() == pre.spec_custody()
    }
}

/// Everything `fund` does, for every input, over both the store and the
/// ledger.
pub open spec fn fund_post(
    pre: EscrowContract,
    lpre: TokenLedger,
    post: EscrowContract,
    lpost: TokenLedger,
    caller: Address,
    id: Seq<char>,
    r: Result<Event, EscrowError>,
) -> bool {
    match pre.spec_get(id) {
        None => r == Err::<Event, EscrowError>(EscrowError::NotFound) && post == pre && lpost
            == lpre,
        Some(e) => if caller != e.client {
            r == Err::<Event, EscrowError>(EscrowError::Unauthorized) && post == pre && lpost
                == lpre
        } else if e.funded {
            r == Err::<Event, EscrowError>(EscrowError::AlreadyFunded) && post == pre && lpost
                == lpre
        } else if !can_transfer(lpre, e.token, e.client, pre.spec_custody(), e.amount) {
            r == Err::<Event, EscrowError>(EscrowError::TransferFailed) && post == pre && lpost
                == lpre
        } else {
            &&& r == Ok::<Event, EscrowError>(Event::Funded { amount: e.amount })
            &&& transfer_applied(lpre, lpost, e.token, e.client, pre.spec_custody(), e.amount as int)
            &&& forall|t: Address| #[trigger] lpost.total(t) == lpre.total(t)
            &&& lpost.wf()
            &&& store_updated(pre, post, id, with_funded(e))
        },
    }
}

/// Everything `deliver` does, for every input. A released escrow is
/// terminal, so delivery on one fails even where the dispute path released
/// it without a delivery.
pub open spec fn deliver_post(
    pre: EscrowContract,
    post: EscrowContract,
    caller: Address,
    id: Seq<char>,
    r: Result<Event, EscrowError>,
) -> bool {
    match pre.spec_get(id) {
        None => r == Err::<Event, EscrowError>(EscrowError::NotFound) && post == pre,
        Some(e) => if caller != e.freelancer {
            r == Err::<Event, EscrowError>(EscrowError::Unauthorized) && post == pre
        } else if !e.funded {
            r == Err::<Event, EscrowError>(EscrowError::NotFunded) && post == pre
        } else if e.delivered {
            r == Err::<Event, EscrowError>(EscrowError::AlreadyDelivered) && post == pre
        } else if e.released {
            r == Err::<Event, EscrowError>(EscrowError::AlreadyReleased) && post == pre
        } else {
            &&& r == Ok::<Event, EscrowError>(Event::Delivered { flag: true })
            &&& store_updated(pre, post, id, with_delivered(e))
        },
    }
}

/// Everything `release` does, for every input, over both the store and the
/// ledger.
pub open spec fn release_post(
    pre: EscrowContract,
    lpre: TokenLedger,
    post: EscrowContract,
    lpost: TokenLedger,
    caller: Address,
    id: Seq<char>,
    r: Result<Event, EscrowError>,
) -> bool {
    match pre.spec_get(id) {
        None => r == Err::<Event, EscrowError>(EscrowError::NotFound) && post == pre && lpost
            == lpre,
        Some(e) => if caller != e.client {
            r == Err::<Event, EscrowError>(EscrowError::Unauthorized) && post == pre && lpost
                == lpre
        } else if !e.funded {
            r == Err::<Event, EscrowError>(EscrowError::NotFunded) && post == pre && lpost == lpre
        } else if !e.delivered {
            r == Err::<Event, EscrowError>(EscrowError::NotDelivered) && post == pre && lpost
                == lpre
        } else if e.released {
            r == Err::<Event, EscrowError>(EscrowError::AlreadyReleased) && post == pre && lpost
                == lpre
        } else if !can_transfer(lpre, e.token, pre.spec_custody(), e.freelancer, e.amount) {
            r == Err::<Event, EscrowError>(EscrowError::TransferFailed) && post == pre && lpost
                == lpre
        } else {
            &&& r == Ok::<Event, EscrowError>(Event::Released { amount: e.amount })
            &&& transfer_applied(
                lpre,
                lpost,
                e.token,
                pre.spec_custody(),
                e.freelancer,
                e.amount as int,
            )
            &&& forall|t: Address| #[trigger] lpost.total(t) == lpre.total(t)
            &&& lpost.wf()
            &&& store_updated(pre, post, id, with_released(e))
        },
    }
}

/// Everything `dispute` does, for every input. The caller must be the
/// escrow's client or its freelancer.
pub open spec fn dispute_post(
    pre: EscrowContract,
    post: EscrowContract,
    caller: Address,
    id: Seq<char>,
    r: Result<Event, EscrowError>,
) -> bool {
    match pre.spec_get(id) {
        None => r == Err::<Event, EscrowError>(EscrowError::NotFound) && post == pre,
        Some(e) => if caller != e.client && caller != e.freelancer {
            r == Err::<Event, EscrowError>(EscrowError::Unauthorized) && post == pre
        } else if !e.funded {
            r == Err::<Event, EscrowError>(EscrowError::NotFunded) && post == pre
        } else if e.released {
            r == Err::<Event, EscrowError>(EscrowError::AlreadyReleased) && post == pre
        } else {
            &&& r == Ok::<Event, EscrowError>(Event::Disputed { flag: true })
            &&& store_updated(pre, post, id, with_disputed(e))
        },
    }
}

/// Everything `resolve` does, for every input, over both the store and the
/// ledger: the arbiter settles a dispute, paying the freelancer or paying
/// the client back.
pub open spec fn resolve_post(
    pre: EscrowContract,
    lpre: TokenLedger,
    post: EscrowContract,
    lpost: TokenLedger,
    caller: Address,
    id: Seq<char>,
    pay_freelancer: bool,
    r: Result<Event, EscrowError>,
) -> bool {
    match pre.spec_get(id) {
        None => r == Err::<Event, EscrowError>(EscrowError::NotFound) && post == pre && lpost
            == lpre,
        Some(e) => {
            let recipient = if pay_freelancer {
                e.freelancer
            } else {
                e.client
            };
            if caller != e.arbiter {
                r == Err::<Event, EscrowError>(EscrowError::Unauthorized) && post == pre && lpost
                    == lpre
            } else if !e.disputed {
                r == Err::<Event, EscrowError>(EscrowError::NotDisputed) && post == pre && lpost
                    == lpre
            } else if e.released {
                r == Err::<Event, EscrowError>(EscrowError::AlreadyResolved) && post == pre
                    && lpost == lpre
            } else if !can_transfer(lpre, e.token, pre.spec_custody(), recipient, e.amount) {
                r == Err::<Event, EscrowError>(EscrowError::TransferFailed) && post == pre && lpost
                    == lpre
            } else {
                &&& r == Ok::<Event, EscrowError>(Event::Resolved { pay_freelancer })
                &&& transfer_applied(
                    lpre,
                    lpost,
                    e.token,
                    pre.spec_custody(),
                    recipient,
                    e.amount as int,
                )
                &&& forall|t: Address| #[trigger] lpost.total(t) == lpre.total(t)
                &&& lpost.wf()
                &&& store_updated(pre, post, id, with_released(e))
            }
        },
    }
}

} // verus!
