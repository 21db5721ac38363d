use vstd::prelude::*;
use crate::amount::{fits_amount, amount_from_int, Amount};

verus! {

/// Per-client balance state. One account exists per client id, created
/// lazily with zero balances on the first event that references the client,
/// and never deleted.
///
/// The consistency invariant [`Account::inv`] — `total == available + held`
/// — is established by [`Account::new`] and preserved by every mutation.
#[derive(Clone, Copy, Debug, PartialEq, Eq, Structural)]
pub struct Account {
    /// Funds free to withdraw or dispute. May go negative, but only as a
    /// consequence of a dispute on insufficient funds.
    pub available: Amount,
    /// Funds frozen pending dispute resolution.
    pub held: Amount,
    /// Always `available + held`.
    pub total: Amount,
    /// Permanently true once a chargeback has been applied; a locked account
    /// ignores all further state-changing events.
    pub locked: bool,
}

impl Account {
    /// Consistency of the balance fields: `total == available + held`.
    pub open spec fn inv(self) -> bool {
        self.total@ == self.available@ + self.held@
    }

    /// A fresh account: zero balances, unlocked.
    pub open spec fn spec_new() -> Account {
        Account {
            available: Amount { units: 0 },
            held: Amount { units: 0 },
            total: Amount { units: 0 },
            locked: false,
        }
    }

    /// Creates the fresh account a client gets on first reference.
    pub fn new() -> (r: Account)
        ensures
            r == Self::spec_new(),
    {
        Account { available: Amount::zero(), held: Amount::zero(), total: Amount::zero(), locked: false }
    }

    /// The balance effect of a deposit: `available += a`. Applied only when
    /// both updated balances stay representable; otherwise the account is
    /// left untouched and `false` comes back.
    pub fn credit(&mut self, a: Amount) -> (applied: bool)
        requires
            old(self).inv(),
            !old(self).locked,
        ensures
            final(self).inv(),
            fits_amount(old(self).available@ + a@) && fits_amount(old(self).total@ + a@)
                ==> applied && *final(self) == (Account {
                    available: amount_from_int(old(self).available@ + a@),
                    held: old(self).held,
                    total: amount_from_int(old(self).total@ + a@),
                    locked: old(self).locked,
                }),
            !(fits_amount(old(self).available@ + a@) && fits_amount(old(self).total@ + a@))
                ==> !applied && *final(self) == *old(self),
    {
        match (self.available.checked_add(a), self.total.checked_add(a)) {
            (Some(av), Some(t)) => {
                self.available = av;
                self.total = t;
                true
            },
            _ => false,
        }
    }

    /// The balance effect of a withdrawal: `available -= a`. The caller has
    /// already checked that funds suffice; this only guards
    /// representability, leaving the account untouched on `false`.
    pub fn debit(&mut self, a: Amount) -> (applied: bool)
        requires
            old(self).inv(),
            !old(self).locked,
        ensures
            final(self).inv(),
            fits_amount(old(self).available@ - a@) && fits_amount(old(self).total@ - a@)
                ==> applied && *final(self) == (Account {
                    available: amount_from_int(old(self).available@ - a@),
                    held: old(self).held,
                    total: amount_from_int(old(self).total@ - a@),
                    locked: old(self).locked,
                }),
            !(fits_amount(old(self).available@ - a@) && fits_amount(old(self).total@ - a@))
                ==> !applied && *final(self) == *old(self),
    {
        match (self.available.checked_sub(a), self.total.checked_sub(a)) {
            (Some(av), Some(t)) => {
                self.available = av;
                self.total = t;
                true
            },
            _ => false,
        }
    }

    /// The balance effect of a dispute: moves `a` from `available` to
    /// `held`; `total` is unchanged. Overdraft is explicitly permitted:
    /// `available` may go negative here. Applied only when both updated
    /// balances stay representable.
    pub fn hold(&mut self, a: Amount) -> (applied: bool)
        requires
            old(self).inv(),
            !old(self).locked,
        ensures
            final(self).inv(),
            fits_amount(old(self).available@ - a@) && fits_amount(old(self).held@ + a@)
                ==> applied && *final(self) == (Account {
                    available: amount_from_int(old(self).available@ - a@),
                    held: amount_from_int(old(self).held@ + a@),
                    total: old(self).total,
                    locked: old(self).locked,
                }),
            !(fits_amount(old(self).available@ - a@) && fits_amount(old(self).held@ + a@))
                ==> !applied && *final(self) == *old(self),
    {
        match (self.available.checked_sub(a), self.held.checked_add(a)) {
            (Some(av), Some(h)) => {
                self.available = av;
                self.held = h;
                true
            },
            _ => false,
        }
    }

    /// The balance effect of a resolve: moves `a` back from `held` to
    /// `available`; `total` is unchanged.
    pub fn release(&mut self, a: Amount) -> (applied: bool)
        requires
            old(self).inv(),
            !old(self).locked,
        ensures
            final(self).inv(),
            fits_amount(old(self).available@ + a@) && fits_amount(old(self).held@ - a@)
                ==> applied && *final(self) == (Account {
                    available: amount_from_int(old(self).available@ + a@),
                    held: amount_from_int(old(self).held@ - a@),
                    total: old(self).total,
                    locked: old(self).locked,
                }),
            !(fits_amount(old(self).available@ + a@) && fits_amount(old(self).held@ - a@))
                ==> !applied && *final(self) == *old(self),
    {
        match (self.available.checked_add(a), self.held.checked_sub(a)) {
            (Some(av), Some(h)) => {
                self.available = av;
                self.held = h;
                true
            },
            _ => false,
        }
    }

    /// The balance effect of a chargeback: the disputed funds leave the
    /// account for good (`held -= a`, `total -= a`, `available` untouched)
    /// and the account locks.
    pub fn charge_off(&mut self, a: Amount) -> (applied: bool)
        requires
            old(self).inv(),
            !old(self).locked,
        ensures
            final(self).inv(),
            fits_amount(old(self).held@ - a@) && fits_amount(old(self).total@ - a@)
                ==> applied && *final(self) == (Account {
                    available: old(self).available,
                    held: amount_from_int(old(self).held@ - a@),
                    total: amount_from_int(old(self).total@ - a@),
                    locked: true,
                }),
            !(fits_amount(old(self).held@ - a@) && fits_amount(old(self).total@ - a@))
                ==> !applied && *final(self) == *old(self),
    {
        match (self.held.checked_sub(a), self.total.checked_sub(a)) {
            (Some(h), Some(t)) => {
                self.held = h;
                self.total = t;
                self.locked = true;
                true
            },
            _ => false,
        }
    }
}

} // verus!
