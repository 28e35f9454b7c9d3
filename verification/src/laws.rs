use vstd::prelude::*;
use crate::ledger::{TokenLedger, can_transfer};
use crate::service::{
    EscrowContract, create_post, deliver_post, dispute_post, fresh_escrow, fund_post,
    release_post, resolve_post,
};
use crate::types::{Address, Escrow, EscrowError, Event};

verus! {

/// Law: an escrow read back right after a successful `create` carries
/// exactly the inputs, with all four lifecycle flags false.
pub proof fn lemma_create_then_get(
    pre: EscrowContract,
    post: EscrowContract,
    caller: Address,
    id: Seq<char>,
    client: Address,
    freelancer: Address,
    amount: i128,
    token: Address,
    arbiter: Address,
    r: Result<Event, EscrowError>,
)
    requires
        create_post(pre, post, caller, id, client, freelancer, amount, token, arbiter, r),
        r is Ok,
    ensures
        post.spec_get(id) matches Some(e) && fresh_escrow(
            e,
            id,
            client,
            freelancer,
            amount,
            token,
            arbiter,
        ),
{
}

/// Law: the counter counts successful creations only: it grows by one on a
/// successful `create` and is untouched by a failed one. So after any run
/// of `create` calls, the counter equals how many of them succeeded.
pub proof fn lemma_create_counts(
    pre: EscrowContract,
    post: EscrowContract,
    caller: Address,
    id: Seq<char>,
    client: Address,
    freelancer: Address,
    amount: i128,
    token: Address,
    arbiter: Address,
    r: Result<Event, EscrowError>,
)
    requires
        create_post(pre, post, caller, id, client, freelancer, amount, token, arbiter, r),
    ensures
        r is Ok ==> post.spec_count() == pre.spec_count() + 1,
        r is Err ==> post.spec_count() == pre.spec_count(),
{
}

/// How many of a run of calls succeeded.
pub open spec fn count_true(s: Seq<bool>) -> nat
    decreases s.len(),
{
    if s.len() == 0 {
        0
    } else {
        count_true(s.drop_last()) + (if s.last() {
            1nat
        } else {
            0nat
        })
    }
}

/// Step `k` of a run of `create` calls, summarised by whether it
/// succeeded: the counter moves exactly with that outcome, as
/// `lemma_create_counts` proves of each call.
pub open spec fn counted_step(
    states: Seq<EscrowContract>,
    succeeded: Seq<bool>,
    k: int,
) -> bool {
    states[k + 1].spec_count() == states[k].spec_count() + (if succeeded[k] {
        1nat
    } else {
        0nat
    })
}

/// Law: over any run of `create` calls - N of them successful, the others
/// failed - the counter ends exactly N above where it began. With a fresh
/// service it begins at zero, so `get_escrow_count` then returns N.
pub proof fn lemma_count_over_run(states: Seq<EscrowContract>, succeeded: Seq<bool>)
    requires
        states.len() == succeeded.len() + 1,
        forall|k: int| 0 <= k < succeeded.len() ==> #[trigger] counted_step(states, succeeded, k),
    ensures
        states[states.len() - 1].spec_count() == states[0].spec_count() + count_true(succeeded),
    decreases succeeded.len(),
{
    if succeeded.len() == 0 {
    } else {
        let n = succeeded.len() as int;
        let prefix_states = states.drop_last();
        let prefix = succeeded.drop_last();
        assert forall|k: int| 0 <= k < prefix.len() implies #[trigger] counted_step(
            prefix_states,
            prefix,
            k,
        ) by {
            assert(counted_step(states, succeeded, k));
            assert(prefix_states[k] == states[k]);
            assert(prefix_states[k + 1] == states[k + 1]);
            assert(prefix[k] == succeeded[k]);
        }
        lemma_count_over_run(prefix_states, prefix);
        assert(prefix_states[0] == states[0]);
        assert(prefix_states[prefix_states.len() - 1] == states[n - 1]);
        assert(counted_step(states, succeeded, n - 1));
    }
}

/// Law: `fund` is idempotent-safe: once a `fund` of an id has succeeded, a
/// second `fund` of the same id by the same caller fails with
/// `AlreadyFunded` and changes neither the store nor any balance, custody's
/// included.
pub proof fn lemma_second_fund_fails(
    s0: EscrowContract,
    l0: TokenLedger,
    s1: EscrowContract,
    l1: TokenLedger,
    s2: EscrowContract,
    l2: TokenLedger,
    caller: Address,
    id: Seq<char>,
    r1: Result<Event, EscrowError>,
    r2: Result<Event, EscrowError>,
)
    requires
        fund_post(s0, l0, s1, l1, caller, id, r1),
        r1 is Ok,
        fund_post(s1, l1, s2, l2, caller, id, r2),
    ensures
        r2 == Err::<Event, EscrowError>(EscrowError::AlreadyFunded),
        s2 == s1,
        l2 == l1,
{
}

/// Law: `release` succeeds exactly when the escrow exists, its client
/// calls, it is funded and delivered and not yet released, and custody can
/// pay the amount out; success marks it released.
pub proof fn lemma_release_success(
    pre: EscrowContract,
    lpre: TokenLedger,
    post: EscrowContract,
    lpost: TokenLedger,
    caller: Address,
    id: Seq<char>,
    r: Result<Event, EscrowError>,
)
    requires
        release_post(pre, lpre, post, lpost, caller, id, r),
    ensures
        r is Ok <==> (pre.spec_get(id) matches Some(e) && caller == e.client && e.funded
            && e.delivered && !e.released && can_transfer(
            lpre,
            e.token,
            pre.spec_custody(),
            e.freelancer,
            e.amount,
        )),
        r is Ok ==> (post.spec_get(id) matches Some(e2) && e2.released),
{
}

/// Law: a released escrow is terminal for `create`: its id is taken, so the
/// call fails and changes nothing.
pub proof fn lemma_released_blocks_create(
    s: EscrowContract,
    s2: EscrowContract,
    caller: Address,
    id: Seq<char>,
    client: Address,
    freelancer: Address,
    amount: i128,
    token: Address,
    arbiter: Address,
    r: Result<Event, EscrowError>,
)
    requires
        s.spec_get(id) is Some,
        create_post(s, s2, caller, id, client, freelancer, amount, token, arbiter, r),
    ensures
        r is Err,
        s2 == s,
{
}

/// Law: a released escrow is terminal for `fund`: whoever calls, the call
/// fails and changes neither the store nor any balance. In a well-formed
/// store a released escrow is funded, so funding it again is refused.
pub proof fn lemma_released_blocks_fund(
    s: EscrowContract,
    l: TokenLedger,
    s2: EscrowContract,
    l2: TokenLedger,
    caller: Address,
    id: Seq<char>,
    r: Result<Event, EscrowError>,
)
    requires
        s.wf(),
        s.spec_get(id) matches Some(e) && e.released,
        fund_post(s, l, s2, l2, caller, id, r),
    ensures
        r is Err,
        s2 == s,
        l2 == l,
{
    s.lemma_stored_flags_lawful(id);
}

/// Law: a released escrow is terminal for `deliver`: whoever calls, the
/// call fails and changes nothing.
pub proof fn lemma_released_blocks_deliver(
    s: EscrowContract,
    s2: EscrowContract,
    caller: Address,
    id: Seq<char>,
    r: Result<Event, EscrowError>,
)
    requires
        s.spec_get(id) matches Some(e) && e.released,
        deliver_post(s, s2, caller, id, r),
    ensures
        r is Err,
        s2 == s,
{
}

/// Law: a released escrow is terminal for `release`: whoever calls, the
/// call fails and changes neither the store nor any balance.
pub proof fn lemma_released_blocks_release(
    s: EscrowContract,
    l: TokenLedger,
    s2: EscrowContract,
    l2: TokenLedger,
    caller: Address,
    id: Seq<char>,
    r: Result<Event, EscrowError>,
)
    requires
        s.spec_get(id) matches Some(e) && e.released,
        release_post(s, l, s2, l2, caller, id, r),
    ensures
        r is Err,
        s2 == s,
        l2 == l,
{
}

/// Law: a released escrow is terminal for `dispute`: whoever calls, the
/// call fails and changes nothing. So the dispute path cannot reopen a
/// released escrow, and no mutating operation succeeds on it at all.
pub proof fn lemma_released_blocks_dispute(
    s: EscrowContract,
    s2: EscrowContract,
    caller: Address,
    id: Seq<char>,
    r: Result<Event, EscrowError>,
)
    requires
        s.spec_get(id) matches Some(e) && e.released,
        dispute_post(s, s2, caller, id, r),
    ensures
        r is Err,
        s2 == s,
{
}

/// Law: a released escrow is terminal for `resolve`: whoever calls and
/// whichever way they would settle, the call fails and changes neither the
/// store nor any balance.
pub proof fn lemma_released_blocks_resolve(
    s: EscrowContract,
    l: TokenLedger,
    s2: EscrowContract,
    l2: TokenLedger,
    caller: Address,
    id: Seq<char>,
    pay_freelancer: bool,
    r: Result<Event, EscrowError>,
)
    requires
        s.spec_get(id) matches Some(e) && e.released,
        resolve_post(s, l, s2, l2, caller, id, pay_freelancer, r),
    ensures
        r is Err,
        s2 == s,
        l2 == l,
{
}

/// One entity evolving lawfully: the parties, the amount, the token and the
/// id never change, and each lifecycle flag, once true, stays true.
pub open spec fn escrow_evolves(e1: Escrow, e2: Escrow) -> bool {
    &&& e2.escrow_id@ == e1.escrow_id@
    &&& e2.client == e1.client
    &&& e2.freelancer == e1.freelancer
    &&& e2.amount == e1.amount
    &&& e2.token == e1.token
    &&& e2.arbiter == e1.arbiter
    &&& (e1.funded ==> e2.funded)
    &&& (e1.delivered ==> e2.delivered)
    &&& (e1.released ==> e2.released)
    &&& (e1.disputed ==> e2.disputed)
}

/// The whole store evolving lawfully: no escrow is ever deleted, and each
/// one evolves as `escrow_evolves` says.
pub open spec fn store_evolves(pre: EscrowContract, post: EscrowContract) -> bool {
    forall|id: Seq<char>|
        #![trigger pre.spec_get(id), post.spec_get(id)]
        pre.spec_get(id) matches Some(e1) ==> (post.spec_get(id) matches Some(e2)
            && escrow_evolves(e1, e2))
}

/// Law: `create` leaves every existing escrow exactly as it was.
pub proof fn lemma_create_evolves(
    pre: EscrowContract,
    post: EscrowContract,
    caller: Address,
    id: Seq<char>,
    client: Address,
    freelancer: Address,
    amount: i128,
    token: Address,
    arbiter: Address,
    r: Result<Event, EscrowError>,
)
    requires
        create_post(pre, post, caller, id, client, freelancer, amount, token, arbiter, r),
    ensures
        store_evolves(pre, post),
{
}

/// Law: `fund` deletes nothing, rewrites no field and resets no flag.
pub proof fn lemma_fund_evolves(
    pre: EscrowContract,
    lpre: TokenLedger,
    post: EscrowContract,
    lpost: TokenLedger,
    caller: Address,
    id: Seq<char>,
    r: Result<Event, EscrowError>,
)
    requires
        fund_post(pre, lpre, post, lpost, caller, id, r),
    ensures
        store_evolves(pre, post),
{
}

/// Law: `deliver` deletes nothing, rewrites no field and resets no flag.
pub proof fn lemma_deliver_evolves(
    pre: EscrowContract,
    post: EscrowContract,
    caller: Address,
    id: Seq<char>,
    r: Result<Event, EscrowError>,
)
    requires
        deliver_post(pre, post, caller, id, r),
    ensures
        store_evolves(pre, post),
{
}

/// Law: `release` deletes nothing, rewrites no field and resets no flag.
pub proof fn lemma_release_evolves(
    pre: EscrowContract,
    lpre: TokenLedger,
    post: EscrowContract,
    lpost: TokenLedger,
    caller: Address,
    id: Seq<char>,
    r: Result<Event, EscrowError>,
)
    requires
        release_post(pre, lpre, post, lpost, caller, id, r),
    ensures
        store_evolves(pre, post),
{
}

/// Law: `dispute` deletes nothing, rewrites no field and resets no flag.
pub proof fn lemma_dispute_evolves(
    pre: EscrowContract,
    post: EscrowContract,
    caller: Address,
    id: Seq<char>,
    r: Result<Event, EscrowError>,
)
    requires
        dispute_post(pre, post, caller, id, r),
    ensures
        store_evolves(pre, post),
{
}

/// Law: `resolve` deletes nothing, rewrites no field and resets no flag.
pub proof fn lemma_resolve_evolves(
    pre: EscrowContract,
    lpre: TokenLedger,
    post: EscrowContract,
    lpost: TokenLedger,
    caller: Address,
    id: Seq<char>,
    pay_freelancer: bool,
    r: Result<Event, EscrowError>,
)
    requires
        resolve_post(pre, lpre, post, lpost, caller, id, pay_freelancer, r),
    ensures
        store_evolves(pre, post),
{
}

/// Law: resolving a dispute settles exactly `amount`: when custody is a
/// party of its own, a successful `resolve` pays the amount to the
/// freelancer if `pay_freelancer`, back to the client otherwise, and either
/// way the escrow is then released.
pub proof fn lemma_resolve_pays(
    pre: EscrowContract,
    lpre: TokenLedger,
    post: EscrowContract,
    lpost: TokenLedger,
    caller: Address,
    id: Seq<char>,
    pay_freelancer: bool,
    r: Result<Event, EscrowError>,
)
    requires
        resolve_post(pre, lpre, post, lpost, caller, id, pay_freelancer, r),
        r is Ok,
        pre.spec_get(id) matches Some(e) && e.freelancer != pre.spec_custody() && e.client
            != pre.spec_custody(),
    ensures
        pay_freelancer ==> (pre.spec_get(id) matches Some(e) && lpost.bal(e.token, e.freelancer)
            == lpre.bal(e.token, e.freelancer) + e.amount),
        !pay_freelancer ==> (pre.spec_get(id) matches Some(e) && lpost.bal(e.token, e.client)
            == lpre.bal(e.token, e.client) + e.amount),
        post.spec_get(id) matches Some(e2) && e2.released,
{
}

} // verus!
