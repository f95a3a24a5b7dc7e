use vstd::prelude::*;

use crate::errors::ChannelError;
use crate::identity::Identity;

verus! {

/// The ledger-held view of an `Option<Identity>` credential slot.
pub open spec fn credential_view(o: Option<Identity>) -> Option<Seq<u8>> {
    match o {
        Some(id) => Some(id@),
        None => None,
    }
}

/// A fungible, ledger-tracked unit count: its identity, decimal precision,
/// total issued units, and the credentials permitted to issue further units
/// or to freeze transfers.
pub struct Counter {
    pub id: Identity,
    pub decimals: u8,
    pub supply: u64,
    pub issuance_authority: Option<Identity>,
    pub freeze_authority: Option<Identity>,
}

/// The mathematical model of a `Counter`.
pub ghost struct CounterView {
    pub id: Seq<u8>,
    pub decimals: u8,
    pub supply: u64,
    pub issuance_authority: Option<Seq<u8>>,
    pub freeze_authority: Option<Seq<u8>>,
}

impl CounterView {
    pub open spec fn wf(self) -> bool {
        &&& self.id.len() == 32
    }
}

impl View for Counter {
    type V = CounterView;

    open spec fn view(&self) -> CounterView {
        CounterView {
            id: self.id@,
            decimals: self.decimals,
            supply: self.supply,
            issuance_authority: credential_view(self.issuance_authority),
            freeze_authority: credential_view(self.freeze_authority),
        }
    }
}

impl Counter {
    pub open spec fn wf(&self) -> bool {
        self@.wf()
    }
}

/// A holder's balance record for one counter: who owns the record, which
/// counter it counts, and how many units it holds.
pub struct Balance {
    pub owner: Identity,
    pub counter: Identity,
    pub amount: u64,
}

/// The mathematical model of a `Balance`.
pub ghost struct BalanceView {
    pub owner: Seq<u8>,
    pub counter: Seq<u8>,
    pub amount: u64,
}

impl BalanceView {
    pub open spec fn wf(self) -> bool {
        &&& self.owner.len() == 32
        &&& self.counter.len() == 32
    }
}

impl View for Balance {
    type V = BalanceView;

    open spec fn view(&self) -> BalanceView {
        BalanceView { owner: self.owner@, counter: self.counter@, amount: self.amount }
    }
}

impl Balance {
    pub open spec fn wf(&self) -> bool {
        self@.wf()
    }
}

/// Issuance adapter: mints exactly one unit of `counter` into `to`, under the
/// presented authority proof. Fails with `AuthorityMismatch` if and only if
/// the proof does not match the counter's registered issuance authority; the
/// zero-decimals supply policy is the caller's to check before invoking.
pub fn mint_one(counter: &mut Counter, to: &mut Balance, authority: &Identity) -> (r: Result<
    (),
    ChannelError,
>)
    requires
        old(counter).wf(),
        old(to).wf(),
        old(counter)@.decimals == 0,
        old(to)@.counter == old(counter)@.id,
        old(counter)@.supply < u64::MAX,
        old(to)@.amount < u64::MAX,
    ensures
        r == if old(counter)@.issuance_authority == Some(authority@) {
            Result::<(), ChannelError>::Ok(())
        } else {
            Result::<(), ChannelError>::Err(ChannelError::AuthorityMismatch)
        },
        r is Ok ==> final(counter)@ == (CounterView {
            supply: (old(counter)@.supply + 1) as u64,
            ..old(counter)@
        }) && final(to)@ == (BalanceView { amount: (old(to)@.amount + 1) as u64, ..old(to)@ }),
        r is Err ==> *final(counter) == *old(counter) && *final(to) == *old(to),
{
    match &counter.issuance_authority {
        Some(a) => {
            if a == authority {
                counter.supply = counter.supply + 1;
                to.amount = to.amount + 1;
                Ok(())
            } else {
                Err(ChannelError::AuthorityMismatch)
            }
        },
        None => Err(ChannelError::AuthorityMismatch),
    }
}

/// Issuance adapter: permanently clears the counter's issuance authority,
/// converting it to a fixed supply. Not idempotent: once the authority is
/// cleared, a second call fails with `NoAuthorityToRevoke`.
pub fn revoke_issuance_authority(counter: &mut Counter, authority: &Identity) -> (r: Result<
    (),
    ChannelError,
>)
    requires
        old(counter).wf(),
    ensures
        r == (match old(counter)@.issuance_authority {
            Some(a) => if a == authority@ {
                Result::<(), ChannelError>::Ok(())
            } else {
                Result::<(), ChannelError>::Err(ChannelError::AuthorityMismatch)
            },
            None => Result::<(), ChannelError>::Err(ChannelError::NoAuthorityToRevoke),
        }),
        r is Ok ==> final(counter)@ == (CounterView {
            issuance_authority: None::<Seq<u8>>,
            ..old(counter)@
        }),
        r is Err ==> *final(counter) == *old(counter),
{
    match &counter.issuance_authority {
        Some(a) => {
            if a == authority {
                counter.issuance_authority = None;
                Ok(())
            } else {
                Err(ChannelError::AuthorityMismatch)
            }
        },
        None => Err(ChannelError::NoAuthorityToRevoke),
    }
}

} // verus!
