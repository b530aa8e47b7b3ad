//! The ledger: balances, allowances, the fixed total supply, and the log of
//! notifications that its operations emit.
use vstd::prelude::*;

use crate::account::AccountId;
use crate::table::Table;

verus! {

/// Notification that `value` units moved. `from` is absent for the units
/// credited at construction.
#[derive(Clone, Copy, Debug, PartialEq, Eq)]
pub struct Transfer {
    pub from: Option<AccountId>,
    pub to: Option<AccountId>,
    pub value: u128,
}

/// Notification that `spender` may now withdraw up to `value` units from
/// `owner`.
#[derive(Clone, Copy, Debug, PartialEq, Eq)]
pub struct Approval {
    pub owner: AccountId,
    pub spender: AccountId,
    pub value: u128,
}

/// A notification recorded by the ledger.
#[derive(Clone, Copy, Debug, PartialEq, Eq)]
pub enum Event {
    Transfer(Transfer),
    Approval(Approval),
}

/// Why an operation was refused.
#[derive(Clone, Copy, Debug, PartialEq, Eq, Structural)]
pub enum Error {
    /// The source of a move holds fewer units than requested.
    InsufficientBalance,
    /// A delegated transfer asks for more than the caller was allowed.
    InsufficientAllowance,
}

/// The notification of a move of `value` units from `from` to `to`.
pub open spec fn transfer_event(from: AccountId, to: AccountId, value: u128) -> Event {
    Event::Transfer(Transfer { from: Some(from), to: Some(to), value })
}

/// The notification of an allowance of `value` from `owner` to `spender`.
pub open spec fn approval_event(owner: AccountId, spender: AccountId, value: u128) -> Event {
    Event::Approval(Approval { owner, spender, value })
}

/// A token ledger with a fixed total supply.
pub struct Erc20 {
    total_supply: u128,
    balances: Table<AccountId>,
    allowances: Table<(AccountId, AccountId)>,
    events: Vec<Event>,
}

impl Erc20 {
    /// The tables are well formed and the balances add up to the total
    /// supply.
    pub closed spec fn wf(&self) -> bool {
        &&& self.balances.wf()
        &&& self.allowances.wf()
        &&& self.balances.total() == self.total_supply as int
    }

    /// The total supply.
    pub closed spec fn supply(&self) -> u128 {
        self.total_supply
    }

    /// The balance of `a`; zero for an account that never held units.
    pub closed spec fn balance(&self, a: AccountId) -> u128 {
        self.balances.amount(a)
    }

    /// What `spender` may still withdraw from `owner`; zero when never set.
    pub closed spec fn allowance_of(&self, owner: AccountId, spender: AccountId) -> u128 {
        self.allowances.amount((owner, spender))
    }

    /// The sum of the balances of all accounts.
    pub closed spec fn balance_sum(&self) -> int {
        self.balances.total()
    }

    /// The notifications emitted so far, oldest first.
    pub closed spec fn log(&self) -> Seq<Event> {
        self.events@
    }

    /// The balance of `a` once `value` units have moved from `from` to `to`.
    pub open spec fn moved_balance(
        &self,
        from: AccountId,
        to: AccountId,
        value: u128,
        a: AccountId,
    ) -> int {
        if from == to {
            self.balance(a) as int
        } else if a == from {
            self.balance(a) - value
        } else if a == to {
            self.balance(a) + value
        } else {
            self.balance(a) as int
        }
    }

    /// `next` has the balances of `prev` after a move of `value` units from
    /// `from` to `to`, the same supply, and the move's notification appended.
    pub open spec fn balances_moved(
        prev: Erc20,
        next: Erc20,
        from: AccountId,
        to: AccountId,
        value: u128,
    ) -> bool {
        &&& next.supply() == prev.supply()
        &&& forall|a: AccountId| #[trigger]
            next.balance(a) == prev.moved_balance(from, to, value, a)
        &&& next.log() == prev.log().push(transfer_event(from, to, value))
    }

    /// `next` is `prev` after a successful direct transfer: balances moved,
    /// allowances untouched.
    pub open spec fn transferred(
        prev: Erc20,
        next: Erc20,
        from: AccountId,
        to: AccountId,
        value: u128,
    ) -> bool {
        &&& Self::balances_moved(prev, next, from, to, value)
        &&& forall|o: AccountId, s: AccountId| #[trigger]
            next.allowance_of(o, s) == prev.allowance_of(o, s)
    }

    /// `next` is `prev` after a successful delegated transfer by `spender`:
    /// balances moved and the allowance of `from` to `spender` reduced by
    /// `value`, other allowances untouched.
    pub open spec fn spent(
        prev: Erc20,
        next: Erc20,
        spender: AccountId,
        from: AccountId,
        to: AccountId,
        value: u128,
    ) -> bool {
        &&& Self::balances_moved(prev, next, from, to, value)
        &&& next.allowance_of(from, spender) == prev.allowance_of(from, spender) - value
        &&& forall|o: AccountId, s: AccountId|
            (o, s) != (from, spender) ==> #[trigger] next.allowance_of(o, s)
                == prev.allowance_of(o, s)
    }

    /// `next` is `prev` after `owner` set the allowance of `spender` to
    /// `value`: balances untouched, that allowance overwritten, others kept.
    pub open spec fn approved(
        prev: Erc20,
        next: Erc20,
        owner: AccountId,
        spender: AccountId,
        value: u128,
    ) -> bool {
        &&& next.supply() == prev.supply()
        &&& forall|a: AccountId| #[trigger] next.balance(a) == prev.balance(a)
        &&& next.allowance_of(owner, spender) == value
        &&& forall|o: AccountId, s: AccountId|
            (o, s) != (owner, spender) ==> #[trigger] next.allowance_of(o, s)
                == prev.allowance_of(o, s)
        &&& next.log() == prev.log().push(approval_event(owner, spender, value))
    }

    /// Conservation: in every well-formed ledger (every ledger that `new`
    /// builds and the operations leave behind) the balances of all accounts
    /// add up to the total supply.
    pub proof fn lemma_conservation(l: Erc20)
        requires
            l.wf(),
        ensures
            l.balance_sum() == l.supply(),
    {
    }

    /// No balance is negative, and none exceeds the total supply.
    pub proof fn lemma_balance_within_supply(l: Erc20, a: AccountId)
        requires
            l.wf(),
        ensures
            0 <= l.balance(a) <= l.supply(),
    {
        l.balances.lemma_amount_le_total(a);
    }

    /// Two approvals in a row for the same owner and spender leave the second
    /// value, not the sum of both.
    pub proof fn lemma_approve_overwrites(
        l0: Erc20,
        l1: Erc20,
        l2: Erc20,
        owner: AccountId,
        spender: AccountId,
        v1: u128,
        v2: u128,
    )
        requires
            Self::approved(l0, l1, owner, spender, v1),
            Self::approved(l1, l2, owner, spender, v2),
        ensures
            l2.allowance_of(owner, spender) == v2,
    {
    }

    /// After `owner` allows `spender` to withdraw `granted` units and a
    /// delegated transfer of `value` units by `spender` from `owner`
    /// succeeds, `granted - value` remains allowed.
    pub proof fn lemma_allowance_consumed(
        l0: Erc20,
        l1: Erc20,
        l2: Erc20,
        owner: AccountId,
        spender: AccountId,
        to: AccountId,
        granted: u128,
        value: u128,
    )
        requires
            Self::approved(l0, l1, owner, spender, granted),
            Self::spent(l1, l2, spender, owner, to, value),
        ensures
            l2.allowance_of(owner, spender) == granted - value,
    {
    }

    /// A ledger whose whole supply belongs to `caller`, with no allowances.
    /// Records the creation of the supply as a transfer from no account.
    pub fn new(total_supply: u128, caller: AccountId) -> (r: Self)
        ensures
            r.wf(),
            r.supply() == total_supply,
            r.balance_sum() == total_supply,
            r.balance(caller) == total_supply,
            forall|a: AccountId| a != caller ==> #[trigger] r.balance(a) == 0,
            forall|o: AccountId, s: AccountId| #[trigger] r.allowance_of(o, s) == 0,
            r.log() == seq![Event::Transfer(Transfer { from: None, to: Some(caller), value: total_supply })],
    {
        let mut balances = Table::new();
        balances.insert(caller, total_supply);
        let mut events = Vec::new();
        events.push(Event::Transfer(Transfer { from: None, to: Some(caller), value: total_supply }));
        let r = Erc20 { total_supply, balances, allowances: Table::new(), events };
        proof {
            assert(r.events@ =~= seq![Event::Transfer(Transfer { from: None, to: Some(caller), value: total_supply })]);
        }
        r
    }

    /// The total supply.
    pub fn total_supply(&self) -> (r: u128)
        ensures
            r == self.supply(),
    {
        self.total_supply
    }

    /// The balance of `owner`; zero for an account that never held units.
    pub fn balance_of(&self, owner: AccountId) -> (r: u128)
        ensures
            r == self.balance(owner),
    {
        self.balance_of_impl(&owner)
    }

    fn balance_of_impl(&self, owner: &AccountId) -> (r: u128)
        ensures
            r == self.balance(*owner),
    {
        self.balances.get(owner)
    }

    /// What `spender` may still withdraw from `owner`; zero when never set.
    pub fn allowance(&self, owner: AccountId, spender: AccountId) -> (r: u128)
        ensures
            r == self.allowance_of(owner, spender),
    {
        self.allowance_impl(&owner, &spender)
    }

    fn allowance_impl(&self, owner: &AccountId, spender: &AccountId) -> (r: u128)
        ensures
            r == self.allowance_of(*owner, *spender),
    {
        self.allowances.get(&(*owner, *spender))
    }

    /// The notifications emitted so far, oldest first.
    pub fn recorded_events(&self) -> (r: &[Event])
        ensures
            r@ == self.log(),
    {
        self.events.as_slice()
    }

    /// Moves `value` units from `caller` to `to`. Fails, changing nothing,
    /// when `caller` holds fewer than `value` units.
    pub fn transfer(&mut self, caller: AccountId, to: AccountId, value: u128) -> (r: Result<
        (),
        Error,
    >)
        requires
            old(self).wf(),
        ensures
            final(self).wf(),
            final(self).balance_sum() == final(self).supply(),
            r is Ok <==> old(self).balance(caller) >= value,
            r is Ok ==> Self::transferred(*old(self), *final(self), caller, to, value),
            r is Err ==> r == Err::<(), Error>(Error::InsufficientBalance) && *final(self) == *old(self),
    {
        self.transfer_from_to(&caller, &to, value)
    }

    /// Sets the allowance of `spender` over the funds of `caller` to exactly
    /// `value`, replacing any earlier one. Always succeeds.
    pub fn approve(&mut self, caller: AccountId, spender: AccountId, value: u128) -> (r: Result<
        (),
        Error,
    >)
        requires
            old(self).wf(),
        ensures
            final(self).wf(),
            final(self).balance_sum() == final(self).supply(),
            r is Ok,
            Self::approved(*old(self), *final(self), caller, spender, value),
    {
        self.allowances.insert((caller, spender), value);
        self.events.push(Event::Approval(Approval { owner: caller, spender, value }));
        Ok(())
    }

    /// Moves `value` units from `from` to `to` on the strength of the
    /// allowance `from` gave to `caller`, and reduces that allowance by
    /// `value`. The allowance is checked first, then the balance of `from`;
    /// on either failure nothing changes.
    pub fn transfer_from(
        &mut self,
        caller: AccountId,
        from: AccountId,
        to: AccountId,
        value: u128,
    ) -> (r: Result<(), Error>)
        requires
            old(self).wf(),
        ensures
            final(self).wf(),
            final(self).balance_sum() == final(self).supply(),
            r == Err::<(), Error>(Error::InsufficientAllowance) <==> old(self).allowance_of(
                from,
                caller,
            ) < value,
            r == Err::<(), Error>(Error::InsufficientBalance) <==> old(self).allowance_of(
                from,
                caller,
            ) >= value && old(self).balance(from) < value,
            r is Ok <==> old(self).allowance_of(from, caller) >= value && old(self).balance(from)
                >= value,
            r is Ok ==> Self::spent(*old(self), *final(self), caller, from, to, value),
            r is Err ==> *final(self) == *old(self),
    {
        let allowance = self.allowance_impl(&from, &caller);
        if allowance < value {
            return Err(Error::InsufficientAllowance);
        }
        match self.transfer_from_to(&from, &to, value) {
            Ok(()) => {},
            Err(e) => {
                return Err(e);
            },
        }
        let ghost moved = *self;
        self.allowances.insert((from, caller), allowance - value);
        proof {
            assert forall|a: AccountId| #[trigger]
                self.balance(a) == old(self).moved_balance(from, to, value, a) by {
                assert(self.balance(a) == moved.balance(a));
            }
            assert forall|o: AccountId, s: AccountId|
                (o, s) != (from, caller) implies #[trigger] self.allowance_of(o, s)
                    == old(self).allowance_of(o, s) by {
                assert(moved.allowance_of(o, s) == old(self).allowance_of(o, s));
            }
        }
        Ok(())
    }

    /// The shared move: takes `value` units from `from` and credits them to
    /// `to`, then records the transfer. Fails, changing nothing, when `from`
    /// holds fewer than `value` units.
    fn transfer_from_to(&mut self, from: &AccountId, to: &AccountId, value: u128) -> (r: Result<
        (),
        Error,
    >)
        requires
            old(self).wf(),
        ensures
            final(self).wf(),
            r is Ok <==> old(self).balance(*from) >= value,
            r is Ok ==> Self::transferred(*old(self), *final(self), *from, *to, value),
            r is Err ==> r == Err::<(), Error>(Error::InsufficientBalance) && *final(self) == *old(self),
    {
        let ghost prev = *self;
        let from_balance = self.balance_of_impl(from);
        if from_balance < value {
            return Err(Error::InsufficientBalance);
        }
        proof {
            if *from != *to {
                prev.balances.lemma_two_amounts_le_total(*from, *to);
            }
        }
        self.balances.insert(*from, from_balance - value);
        let to_balance = self.balance_of_impl(to);
        self.balances.insert(*to, to_balance + value);
        self.events.push(Event::Transfer(Transfer { from: Some(*from), to: Some(*to), value }));
        Ok(())
    }
}

} // verus!
