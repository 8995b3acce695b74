use vstd::prelude::*;

use crate::account::{AccountId, Balance};
use crate::table::{sum_over, AllowanceKey, Table};

verus! {

/// Tokens moved from one account to another; a mint comes from the zero
/// account.
#[derive(Clone, Copy, Debug, PartialEq)]
pub struct Transfer {
    pub from: AccountId,
    pub to: AccountId,
    pub value: Balance,
}

/// An owner set the amount that a spender may move on its behalf.
#[derive(Clone, Copy, Debug, PartialEq)]
pub struct Approval {
    pub owner: AccountId,
    pub spender: AccountId,
    pub value: Balance,
}

/// A record emitted by a successful operation.
#[derive(Clone, Copy, Debug, PartialEq)]
pub enum Event {
    Transfer(Transfer),
    Approval(Approval),
}

/// Why an operation was refused. A refused operation changes nothing.
#[derive(Clone, Copy, Debug, PartialEq, Eq, Structural)]
pub enum Error {
    /// The sending account holds less than the amount.
    InsufficientBalance,
    /// The spender is allowed less than the amount.
    InsufficientAllowance,
    /// The recipient is the zero account.
    ZeroRecipient,
    /// The sending account is the zero account.
    ZeroSender,
    /// The spender is the zero account.
    ZeroSpender,
    /// The recipient's balance would exceed the largest amount.
    Overflow,
}

/// The balances after `value` moved from `from` to `to`.
pub open spec fn moved(
    m: Map<AccountId, Balance>,
    from: AccountId,
    to: AccountId,
    value: Balance,
) -> Map<AccountId, Balance> {
    if from == to {
        m
    } else {
        m.insert(from, (m[from] - value) as Balance).insert(to, (m[to] + value) as Balance)
    }
}

/// The outcome of an operation as a value of the `Result` type.
pub open spec fn outcome(e: Option<Error>) -> Result<(), Error> {
    match e {
        Some(e) => Err(e),
        None => Ok(()),
    }
}

/// Why a transfer of `value` to `to`, out of an account holding
/// `from_balance`, is refused, if it is.
pub open spec fn transfer_refusal(to: AccountId, from_balance: Balance, value: Balance) -> Option<
    Error,
> {
    if to.spec_is_zero() {
        Some(Error::ZeroRecipient)
    } else if from_balance < value {
        Some(Error::InsufficientBalance)
    } else {
        None
    }
}

/// Why an approval of `spender` is refused, if it is.
pub open spec fn approve_refusal(spender: AccountId) -> Option<Error> {
    if spender.spec_is_zero() {
        Some(Error::ZeroSpender)
    } else {
        None
    }
}

/// Why a delegated transfer of `value` from `from` to `to` is refused, if it
/// is, where the spender is allowed `allowed` and `from` holds
/// `from_balance`. Zero accounts are checked first, then the allowance, then
/// the balance.
pub open spec fn transfer_from_refusal(
    from: AccountId,
    to: AccountId,
    allowed: Balance,
    from_balance: Balance,
    value: Balance,
) -> Option<Error> {
    if to.spec_is_zero() {
        Some(Error::ZeroRecipient)
    } else if from.spec_is_zero() {
        Some(Error::ZeroSender)
    } else if allowed < value {
        Some(Error::InsufficientAllowance)
    } else if from_balance < value {
        Some(Error::InsufficientBalance)
    } else {
        None
    }
}

/// Checks a transfer of `value` to `to` out of an account holding
/// `from_balance`.
pub fn check_transfer(to: &AccountId, from_balance: Balance, value: Balance) -> (r: Result<
    (),
    Error,
>)
    ensures
        r == outcome(transfer_refusal(*to, from_balance, value)),
{
    if to.is_zero() {
        Err(Error::ZeroRecipient)
    } else if from_balance < value {
        Err(Error::InsufficientBalance)
    } else {
        Ok(())
    }
}

/// Checks an approval of `spender`.
pub fn check_approve(spender: &AccountId) -> (r: Result<(), Error>)
    ensures
        r == outcome(approve_refusal(*spender)),
{
    if spender.is_zero() {
        Err(Error::ZeroSpender)
    } else {
        Ok(())
    }
}

/// Checks a delegated transfer of `value` from `from` to `to`, where the
/// spender is allowed `allowed` and `from` holds `from_balance`.
pub fn check_transfer_from(
    from: &AccountId,
    to: &AccountId,
    allowed: Balance,
    from_balance: Balance,
    value: Balance,
) -> (r: Result<(), Error>)
    ensures
        r == outcome(transfer_from_refusal(*from, *to, allowed, from_balance, value)),
{
    if to.is_zero() {
        Err(Error::ZeroRecipient)
    } else if from.is_zero() {
        Err(Error::ZeroSender)
    } else if allowed < value {
        Err(Error::InsufficientAllowance)
    } else if from_balance < value {
        Err(Error::InsufficientBalance)
    } else {
        Ok(())
    }
}

/// The balances of two different accounts after `value` moved from the first,
/// which holds `from_balance`, to the second, which holds `to_balance`; or
/// `Overflow` where the second would exceed the largest amount.
pub fn settle(from_balance: Balance, to_balance: Balance, value: Balance) -> (r: Result<
    (Balance, Balance),
    Error,
>)
    requires
        from_balance >= value,
    ensures
        to_balance + value <= Balance::MAX ==> r == Ok::<(Balance, Balance), Error>(
            ((from_balance - value) as Balance, (to_balance + value) as Balance),
        ),
        to_balance + value > Balance::MAX ==> r == Err::<(Balance, Balance), Error>(
            Error::Overflow,
        ),
{
    match to_balance.checked_add(value) {
        Some(t) => Ok((from_balance - value, t)),
        None => Err(Error::Overflow),
    }
}

/// A fixed-supply token ledger.
///
/// Balances and allowances are kept per account; an account without an entry
/// holds zero. Events of successful operations are buffered until taken.
pub struct ERC20 {
    total_supply: Balance,
    balances: Table<AccountId>,
    allowances: Table<AllowanceKey>,
    events: Vec<Event>,
}

impl ERC20 {
    /// The supply fixed at construction.
    pub closed spec fn supply(&self) -> Balance {
        self.total_supply
    }

    /// The balance of every account.
    pub closed spec fn balances(&self) -> Map<AccountId, Balance> {
        self.balances@
    }

    /// The allowance of every (owner, spender) pair.
    pub closed spec fn allowances(&self) -> Map<AllowanceKey, Balance> {
        self.allowances@
    }

    /// The events emitted and not yet taken, oldest first.
    pub closed spec fn emitted(&self) -> Seq<Event> {
        self.events@
    }

    /// The ledger's invariant: the balances sum to the supply.
    pub closed spec fn wf(&self) -> bool {
        &&& self.balances.wf()
        &&& self.allowances.wf()
        &&& self.balances.total() == self.total_supply as int
    }

    /// Conservation: in every well-formed ledger, and so after every sequence
    /// of operations from construction, the balances of all accounts sum to
    /// the total supply. The accounts are given as any list, without
    /// repetition, of every account whose balance is not zero.
    pub proof fn lemma_conservation(&self, accounts: Seq<AccountId>)
        requires
            self.wf(),
            accounts.no_duplicates(),
            forall|a: AccountId| #[trigger] self.balances()[a] != 0 ==> accounts.contains(a),
        ensures
            sum_over(self.balances(), accounts) == self.supply() as int,
    {
        assert forall|a: AccountId| #[trigger] self.balances@[a] != 0 implies accounts.contains(a) by {
            assert(self.balances()[a] != 0);
        }
        self.balances.lemma_total_is_sum(accounts);
    }

    /// Every account has a balance and every pair an allowance, zero unless
    /// set otherwise.
    pub proof fn lemma_maps_total(&self)
        ensures
            forall|a: AccountId| #[trigger] self.balances().dom().contains(a),
            forall|k: AllowanceKey| #[trigger] self.allowances().dom().contains(k),
    {
        self.balances.lemma_view_total();
        self.allowances.lemma_view_total();
    }

    /// The amount that `spender` may move out of `owner`'s account.
    pub open spec fn allowance_spec(&self, owner: AccountId, spender: AccountId) -> Balance {
        self.allowances()[AllowanceKey { owner, spender }]
    }

    /// Why `caller` may not transfer `value` to `to`, if it may not.
    pub open spec fn transfer_error(&self, caller: AccountId, to: AccountId, value: Balance) -> Option<
        Error,
    > {
        transfer_refusal(to, self.balances()[caller], value)
    }

    /// Why `spender` may not move `value` from `from` to `to`, if it may not.
    pub open spec fn transfer_from_error(
        &self,
        spender: AccountId,
        from: AccountId,
        to: AccountId,
        value: Balance,
    ) -> Option<Error> {
        transfer_from_refusal(from, to, self.allowance_spec(from, spender), self.balances()[from], value)
    }

    /// `post` and `r` are what `transfer(caller, to, value)` makes of `pre`.
    pub open spec fn transfer_step(
        pre: ERC20,
        caller: AccountId,
        to: AccountId,
        value: Balance,
        post: ERC20,
        r: Result<(), Error>,
    ) -> bool {
        &&& r == outcome(pre.transfer_error(caller, to, value))
        &&& r is Err ==> post == pre
        &&& r is Ok ==> {
            &&& post.supply() == pre.supply()
            &&& post.balances() == moved(pre.balances(), caller, to, value)
            &&& post.allowances() == pre.allowances()
            &&& post.emitted() == pre.emitted().push(
                Event::Transfer(Transfer { from: caller, to, value }),
            )
        }
    }

    /// `post` and `r` are what `approve(caller, spender, value)` makes of `pre`.
    pub open spec fn approve_step(
        pre: ERC20,
        caller: AccountId,
        spender: AccountId,
        value: Balance,
        post: ERC20,
        r: Result<(), Error>,
    ) -> bool {
        &&& r == outcome(approve_refusal(spender))
        &&& r is Err ==> post == pre
        &&& r is Ok ==> {
            &&& post.supply() == pre.supply()
            &&& post.balances() == pre.balances()
            &&& post.allowances() == pre.allowances().insert(
                AllowanceKey { owner: caller, spender },
                value,
            )
            &&& post.emitted() == pre.emitted().push(
                Event::Approval(Approval { owner: caller, spender, value }),
            )
        }
    }

    /// `post` and `r` are what `transfer_from(caller, from, to, value)` makes
    /// of `pre`.
    pub open spec fn transfer_from_step(
        pre: ERC20,
        caller: AccountId,
        from: AccountId,
        to: AccountId,
        value: Balance,
        post: ERC20,
        r: Result<(), Error>,
    ) -> bool {
        &&& r == outcome(pre.transfer_from_error(caller, from, to, value))
        &&& r is Err ==> post == pre
        &&& r is Ok ==> {
            &&& post.supply() == pre.supply()
            &&& post.balances() == moved(pre.balances(), from, to, value)
            &&& post.allowances() == pre.allowances().insert(
                AllowanceKey { owner: from, spender: caller },
                (pre.allowance_spec(from, caller) - value) as Balance,
            )
            &&& post.emitted() == pre.emitted().push(
                Event::Transfer(Transfer { from, to, value }),
            )
        }
    }

    /// A ledger whose whole supply belongs to `caller`, with no allowances,
    /// that has emitted the mint of the supply from the zero account.
    pub fn new(caller: AccountId, total_supply: Balance) -> (r: ERC20)
        ensures
            r.wf(),
            r.supply() == total_supply,
            r.balances() == Map::new(|a: AccountId| true, |a: AccountId| 0u128).insert(
                caller,
                total_supply,
            ),
            r.allowances() == Map::new(|k: AllowanceKey| true, |k: AllowanceKey| 0u128),
            r.emitted().len() == 1,
            r.emitted()[0] matches Event::Transfer(t) && t.from.spec_is_zero() && t.to == caller
                && t.value == total_supply,
    {
        let mut balances = Table::new();
        balances.set(caller, total_supply);
        let mut events = Vec::new();
        events.push(Event::Transfer(Transfer { from: AccountId::zero(), to: caller, value: total_supply }));
        ERC20 { total_supply, balances, allowances: Table::new(), events }
    }

    /// The supply fixed at construction.
    pub fn total_supply(&self) -> (r: Balance)
        ensures
            r == self.supply(),
    {
        self.total_supply
    }

    /// The balance of `who`, zero where it holds no tokens.
    pub fn balance_of(&self, who: AccountId) -> (r: Balance)
        requires
            self.wf(),
        ensures
            r == self.balances()[who],
    {
        self.balances.get(&who)
    }

    /// The amount that `spender` may move out of `owner`'s account.
    pub fn allowance(&self, owner: AccountId, spender: AccountId) -> (r: Balance)
        requires
            self.wf(),
        ensures
            r == self.allowance_spec(owner, spender),
    {
        self.allowances.get(&AllowanceKey { owner, spender })
    }

    /// Moves `value` from `from` to `to`, which `from` can afford.
    fn move_balance(&mut self, from: AccountId, to: AccountId, value: Balance) -> (r: Result<
        (),
        Error,
    >)
        requires
            old(self).wf(),
            old(self).balances()[from] >= value,
        ensures
            r is Ok,
            final(self).wf(),
            final(self).supply() == old(self).supply(),
            final(self).balances() == moved(old(self).balances(), from, to, value),
            final(self).allowances() == old(self).allowances(),
            final(self).emitted() == old(self).emitted(),
    {
        if from.same_as(&to) {
            return Ok(());
        }
        let from_balance = self.balances.get(&from);
        let to_balance = self.balances.get(&to);
        proof {
            self.balances.lemma_pair_within_total(from, to);
        }
        let (new_from, new_to) = match settle(from_balance, to_balance, value) {
            Ok(p) => p,
            Err(e) => {
                return Err(e);
            },
        };
        self.balances.set(from, new_from);
        self.balances.set(to, new_to);
        Ok(())
    }

    /// Moves `value` of the caller's tokens to `to`.
    pub fn transfer(&mut self, caller: AccountId, to: AccountId, value: Balance) -> (r: Result<
        (),
        Error,
    >)
        requires
            old(self).wf(),
        ensures
            final(self).wf(),
            Self::transfer_step(*old(self), caller, to, value, *final(self), r),
    {
        if let Err(e) = check_transfer(&to, self.balances.get(&caller), value) {
            return Err(e);
        }
        if let Err(e) = self.move_balance(caller, to, value) {
            return Err(e);
        }
        self.events.push(Event::Transfer(Transfer { from: caller, to, value }));
        Ok(())
    }

    /// Lets `spender` move up to `value` of the caller's tokens, replacing any
    /// earlier allowance.
    pub fn approve(&mut self, caller: AccountId, spender: AccountId, value: Balance) -> (r: Result<
        (),
        Error,
    >)
        requires
            old(self).wf(),
        ensures
            final(self).wf(),
            Self::approve_step(*old(self), caller, spender, value, *final(self), r),
    {
        if let Err(e) = check_approve(&spender) {
            return Err(e);
        }
        self.allowances.set(AllowanceKey { owner: caller, spender }, value);
        self.events.push(Event::Approval(Approval { owner: caller, spender, value }));
        Ok(())
    }

    /// Moves `value` from `from` to `to` on the strength of the allowance that
    /// `from` gave the caller, and lowers that allowance by `value`.
    pub fn transfer_from(
        &mut self,
        caller: AccountId,
        from: AccountId,
        to: AccountId,
        value: Balance,
    ) -> (r: Result<(), Error>)
        requires
            old(self).wf(),
        ensures
            final(self).wf(),
            Self::transfer_from_step(*old(self), caller, from, to, value, *final(self), r),
    {
        let key = AllowanceKey { owner: from, spender: caller };
        let allowed = self.allowances.get(&key);
        if let Err(e) = check_transfer_from(&from, &to, allowed, self.balances.get(&from), value) {
            return Err(e);
        }
        if let Err(e) = self.move_balance(from, to, value) {
            return Err(e);
        }
        self.allowances.set(key, allowed - value);
        self.events.push(Event::Transfer(Transfer { from, to, value }));
        Ok(())
    }

    /// Hands out the events emitted so far, oldest first, and forgets them.
    pub fn take_events(&mut self) -> (r: Vec<Event>)
        ensures
            r@ == old(self).emitted(),
            final(self).emitted() == Seq::<Event>::empty(),
            final(self).wf() == old(self).wf(),
            final(self).supply() == old(self).supply(),
            final(self).balances() == old(self).balances(),
            final(self).allowances() == old(self).allowances(),
    {
        let mut r = Vec::new();
        std::mem::swap(&mut r, &mut self.events);
        r
    }
}

} // verus!
