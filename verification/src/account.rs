use vstd::prelude::*;
use near_sdk::Balance;
use crate::error::PlaceError;

verus! {

/// Price of one pixel on a place created with `Place::new`.
pub const PIXEL_COST: Balance = 1_000_000_000_000_000_000;

/// The ledger record of one actor.
#[derive(Clone, Copy, Debug, PartialEq, Eq, Structural)]
pub struct Account {
    pub account_index: u32,
    pub balance: Balance,
    pub num_pixels: u32,
}

/// What `num_pixels` pixels cost at `pixel_cost` each.
pub open spec fn pixels_cost(num_pixels: nat, pixel_cost: Balance) -> nat {
    num_pixels * (pixel_cost as nat)
}

/// Whether `minted` is an amount that `policy` gives for `deposit`. An empty
/// deposit mints nothing, whatever the policy.
pub open spec fn is_minted<F: Fn(Balance) -> Balance>(
    policy: F,
    deposit: Balance,
    minted: Balance,
) -> bool {
    if deposit == 0 {
        minted == 0
    } else {
        call_ensures(policy, (deposit,), minted)
    }
}

/// Turns `deposit` into tokens by `policy`; the policy is not asked about an
/// empty deposit.
pub fn mint<F: Fn(Balance) -> Balance>(deposit: Balance, policy: F) -> (minted: Balance)
    requires
        deposit > 0 ==> call_requires(policy, (deposit,)),
    ensures
        is_minted(policy, deposit, minted),
{
    if deposit == 0 {
        0
    } else {
        policy(deposit)
    }
}

impl Account {
    /// The record of an actor seen for the first time: no tokens, no pixels.
    pub fn new(account_index: u32) -> (account: Account)
        ensures
            account == (Account { account_index, balance: 0, num_pixels: 0 }),
    {
        Account { account_index, balance: 0, num_pixels: 0 }
    }

    /// The record with `minted` more tokens.
    pub open spec fn credited(self, minted: Balance) -> Account {
        Account { balance: (self.balance + minted) as Balance, ..self }
    }

    /// The record with `cost` fewer tokens.
    pub open spec fn charged(self, cost: Balance) -> Account {
        Account { balance: (self.balance - cost) as Balance, ..self }
    }

    /// Adds `minted` tokens to the balance, unless the balance cannot hold them.
    pub fn credit(&mut self, minted: Balance) -> (res: Result<(), PlaceError>)
        ensures
            res is Ok <==> old(self).balance + minted <= Balance::MAX,
            res is Ok ==> *final(self) == old(self).credited(minted),
            res matches Err(e) ==> e == PlaceError::CapacityExceeded && *final(self) == *old(self),
    {
        match self.balance.checked_add(minted) {
            Some(balance) => {
                self.balance = balance;
                Ok(())
            },
            None => Err(PlaceError::CapacityExceeded),
        }
    }

    /// Buys tokens for `near_amount` at the rate of `policy` and returns how
    /// many were minted.
    pub fn buy_tokens<F: Fn(Balance) -> Balance>(&mut self, near_amount: Balance, policy: F) -> (res:
        Result<Balance, PlaceError>)
        requires
            near_amount > 0 ==> call_requires(policy, (near_amount,)),
        ensures
            res matches Ok(minted) ==> {
                &&& is_minted(policy, near_amount, minted)
                &&& old(self).balance + minted <= Balance::MAX
                &&& *final(self) == old(self).credited(minted)
            },
            res matches Err(e) ==> {
                &&& e == PlaceError::CapacityExceeded
                &&& *final(self) == *old(self)
                &&& exists|minted: Balance|
                    is_minted(policy, near_amount, minted) && old(self).balance + minted
                        > Balance::MAX
            },
    {
        let minted = mint(near_amount, policy);
        match self.credit(minted) {
            Ok(()) => Ok(minted),
            Err(e) => Err(e),
        }
    }

    /// Whether the balance pays for `num_pixels` pixels at `pixel_cost` each.
    pub fn can_afford(&self, num_pixels: usize, pixel_cost: Balance) -> (enough: bool)
        ensures
            enough == (pixels_cost(num_pixels as nat, pixel_cost) <= self.balance),
    {
        match (num_pixels as Balance).checked_mul(pixel_cost) {
            Some(cost) => cost <= self.balance,
            None => false,
        }
    }

    /// Takes the price of `num_pixels` pixels from the balance and returns it.
    /// An account that cannot pay is left as it was.
    pub fn charge(&mut self, num_pixels: u32, pixel_cost: Balance) -> (res: Result<
        Balance,
        PlaceError,
    >)
        ensures
            res is Ok <==> pixels_cost(num_pixels as nat, pixel_cost) <= old(self).balance,
            res matches Ok(cost) ==> cost == pixels_cost(num_pixels as nat, pixel_cost)
                && *final(self) == old(self).charged(cost),
            res matches Err(e) ==> e == PlaceError::InsufficientBalance && *final(self) == *old(
                self,
            ),
    {
        match (num_pixels as Balance).checked_mul(pixel_cost) {
            Some(cost) => {
                if cost > self.balance {
                    Err(PlaceError::InsufficientBalance)
                } else {
                    self.balance = self.balance - cost;
                    Ok(cost)
                }
            },
            None => Err(PlaceError::InsufficientBalance),
        }
    }
}

} // verus!
