use vstd::prelude::*;

use crate::account::{AccountId, Balance};
use crate::ledger::{moved, Error, Event, Transfer, ERC20};

verus! {

/// Transferring nothing to a non-zero account succeeds, leaves every balance
/// as it was, and emits one transfer of zero.
pub proof fn lemma_transfer_zero_is_identity(
    pre: ERC20,
    caller: AccountId,
    to: AccountId,
    post: ERC20,
    r: Result<(), Error>,
)
    requires
        !to.spec_is_zero(),
        ERC20::transfer_step(pre, caller, to, 0, post, r),
    ensures
        r is Ok,
        post.balances() == pre.balances(),
        post.emitted() == pre.emitted().push(Event::Transfer(Transfer { from: caller, to, value: 0 })),
{
    let m = pre.balances();
    pre.lemma_maps_total();
    if caller != to {
        assert(moved(m, caller, to, 0) =~= m);
    }
}

/// A refused transfer leaves the balances of the caller and of the recipient
/// as they were, and emits nothing.
pub proof fn lemma_refused_transfer_changes_nothing(
    pre: ERC20,
    caller: AccountId,
    to: AccountId,
    value: Balance,
    post: ERC20,
    r: Result<(), Error>,
)
    requires
        ERC20::transfer_step(pre, caller, to, value, post, r),
        r is Err,
    ensures
        post.balances()[caller] == pre.balances()[caller],
        post.balances()[to] == pre.balances()[to],
        post.emitted() == pre.emitted(),
{
}

/// A second approval of the same spender replaces the first, whatever it was.
pub proof fn lemma_approve_overwrites(
    l0: ERC20,
    owner: AccountId,
    spender: AccountId,
    v1: Balance,
    l1: ERC20,
    r1: Result<(), Error>,
    v2: Balance,
    l2: ERC20,
    r2: Result<(), Error>,
)
    requires
        !spender.spec_is_zero(),
        ERC20::approve_step(l0, owner, spender, v1, l1, r1),
        ERC20::approve_step(l1, owner, spender, v2, l2, r2),
    ensures
        l2.allowance_spec(owner, spender) == v2,
{
}

/// A successful delegated transfer lowers the spender's allowance by exactly
/// the amount moved.
pub proof fn lemma_allowance_decrement(
    pre: ERC20,
    spender: AccountId,
    from: AccountId,
    to: AccountId,
    value: Balance,
    post: ERC20,
    r: Result<(), Error>,
)
    requires
        ERC20::transfer_from_step(pre, spender, from, to, value, post, r),
        r is Ok,
    ensures
        post.allowance_spec(from, spender) == pre.allowance_spec(from, spender) - value,
{
}

/// After an owner approves a spender for zero, a delegated transfer of a
/// positive amount by that spender between non-zero accounts is refused for
/// want of allowance.
pub proof fn lemma_zero_approval_blocks_spending(
    l0: ERC20,
    owner: AccountId,
    spender: AccountId,
    l1: ERC20,
    r1: Result<(), Error>,
    to: AccountId,
    value: Balance,
    l2: ERC20,
    r2: Result<(), Error>,
)
    requires
        !spender.spec_is_zero(),
        !owner.spec_is_zero(),
        !to.spec_is_zero(),
        value > 0,
        ERC20::approve_step(l0, owner, spender, 0, l1, r1),
        ERC20::transfer_from_step(l1, spender, owner, to, value, l2, r2),
    ensures
        r2 == Err::<(), Error>(Error::InsufficientAllowance),
{
}

/// A delegated transfer to the zero account is refused as such, even where the
/// allowance and the balance fall short too.
pub proof fn lemma_zero_recipient_checked_first(
    pre: ERC20,
    spender: AccountId,
    from: AccountId,
    to: AccountId,
    value: Balance,
    post: ERC20,
    r: Result<(), Error>,
)
    requires
        to.spec_is_zero(),
        pre.allowance_spec(from, spender) < value,
        pre.balances()[from] < value,
        ERC20::transfer_from_step(pre, spender, from, to, value, post, r),
    ensures
        r == Err::<(), Error>(Error::ZeroRecipient),
        post == pre,
{
}

} // verus!
