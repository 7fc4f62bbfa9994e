use vstd::prelude::*;
use near_sdk::Balance;
use crate::account::{pixels_cost, Account};
use crate::board::{
    all_in_bounds, bumped_versions, can_bump, displaced, painted, Pixel, SetPixelRequest,
    DEFAULT_COLOR, GENESIS_OWNER,
};
use crate::error::PlaceError;
use crate::ownership::{owned_count, owners_below};

verus! {

/// The whole state of a place as mathematical values: the directory from
/// identity to account index, the identities and the accounts in the order
/// of their indices, the canvas and the running totals.
pub struct PlaceState {
    pub indices: Map<Seq<char>, u32>,
    pub identities: Seq<Seq<char>>,
    pub accounts: Seq<Account>,
    pub width: u32,
    pub height: u32,
    pub cells: Seq<Pixel>,
    pub versions: Seq<u32>,
    pub initialization_timestamp: u64,
    pub pixel_cost: Balance,
    pub minted_amount: Balance,
    pub burned_amount: Balance,
}

/// The tokens that the accounts hold, all together.
pub open spec fn total_balance(accounts: Seq<Account>) -> nat
    decreases accounts.len(),
{
    if accounts.len() == 0 {
        0
    } else {
        total_balance(accounts.drop_last()) + accounts.last().balance as nat
    }
}

/// The pixels that the accounts count as theirs, all together.
pub open spec fn total_num_pixels(accounts: Seq<Account>) -> nat
    decreases accounts.len(),
{
    if accounts.len() == 0 {
        0
    } else {
        total_num_pixels(accounts.drop_last()) + accounts.last().num_pixels as nat
    }
}

impl PlaceState {
    /// The accounts and the canvas agree: the canvas has the size it says,
    /// each account stands at its own index and has one identity, every cell
    /// belongs to an account, each account counts the cells that name it, and
    /// the tokens minted are those burned and those that the accounts hold.
    pub open spec fn coherent(self) -> bool {
        &&& self.cells.len() == self.width * self.height
        &&& self.cells.len() <= u32::MAX
        &&& self.versions.len() == self.height
        &&& self.accounts.len() <= u32::MAX
        &&& self.identities.len() == self.accounts.len()
        &&& forall|i: int|
            0 <= i < self.accounts.len() ==> (#[trigger] self.accounts[i]).account_index == i
        &&& owners_below(self.cells, self.accounts.len())
        &&& forall|i: int|
            0 <= i < self.accounts.len() ==> (#[trigger] self.accounts[i]).num_pixels
                == owned_count(self.cells, i as u32)
        &&& total_balance(self.accounts) + self.burned_amount == self.minted_amount
    }

    /// What holds of every state that the operations reach.
    pub open spec fn valid(self) -> bool {
        self.coherent() && self.directory_matches()
    }

    /// The directory and the list of identities say the same: the identity
    /// with index `i` is the one that the directory sends to `i`, so no two
    /// identities share an index and every account has one identity.
    pub open spec fn directory_matches(self) -> bool {
        &&& forall|i: int|
            0 <= i < self.identities.len() ==> self.indices.contains_key(
                #[trigger] self.identities[i],
            ) && self.indices[self.identities[i]] == i
        &&& forall|id: Seq<char>| #[trigger]
            self.indices.contains_key(id) ==> self.indices[id] < self.identities.len()
                && self.identities[self.indices[id] as int] == id
    }

    /// Whether the directory has an entry for `id`.
    pub open spec fn knows(self, id: Seq<char>) -> bool {
        self.indices.contains_key(id)
    }

    /// The record of `id`: the stored one, or that of a newcomer with the
    /// next free index.
    pub open spec fn account_of(self, id: Seq<char>) -> Account {
        if self.knows(id) {
            self.accounts[self.indices[id] as int]
        } else {
            Account { account_index: self.accounts.len() as u32, balance: 0, num_pixels: 0 }
        }
    }

    /// Whether a record for `id` can be stored: it has an entry already, or
    /// an index is left for it.
    pub open spec fn has_room_for(self, id: Seq<char>) -> bool {
        self.knows(id) || self.accounts.len() < u32::MAX
    }

    /// The state after `account` was stored as the record of `id`: in its
    /// place in the list, or at the end of it with a new directory entry.
    pub open spec fn saved(self, id: Seq<char>, account: Account) -> PlaceState {
        PlaceState {
            indices: self.indices.insert(id, account.account_index),
            identities: if account.account_index < self.accounts.len() {
                self.identities
            } else {
                self.identities.push(id)
            },
            accounts: if account.account_index < self.accounts.len() {
                self.accounts.update(account.account_index as int, account)
            } else {
                self.accounts.push(account)
            },
            ..self
        }
    }

    /// The state right after creation: `owner_id` is account 0 and owns every
    /// cell, every row is at version 0, nothing was minted or burned.
    pub open spec fn genesis(
        owner_id: Seq<char>,
        timestamp: u64,
        width: u32,
        height: u32,
        pixel_cost: Balance,
    ) -> PlaceState {
        PlaceState {
            indices: Map::empty().insert(owner_id, GENESIS_OWNER),
            identities: seq![owner_id],
            accounts: seq![
                Account {
                    account_index: GENESIS_OWNER,
                    balance: 0,
                    num_pixels: (width * height) as u32,
                },
            ],
            width,
            height,
            cells: Seq::new(
                (width * height) as nat,
                |i: int| Pixel { color: DEFAULT_COLOR, owner_id: GENESIS_OWNER },
            ),
            versions: Seq::new(height as nat, |i: int| 0u32),
            initialization_timestamp: timestamp,
            pixel_cost,
            minted_amount: 0,
            burned_amount: 0,
        }
    }

    /// Why a purchase of `minted` tokens by `id` is refused, if it is.
    pub open spec fn credit_refusal(self, id: Seq<char>, minted: Balance) -> Option<PlaceError> {
        if self.minted_amount + minted > Balance::MAX || !self.has_room_for(id) {
            Some(PlaceError::CapacityExceeded)
        } else {
            None
        }
    }

    /// The state after `id` bought `minted` tokens.
    pub open spec fn credited(self, id: Seq<char>, minted: Balance) -> PlaceState {
        PlaceState {
            minted_amount: (self.minted_amount + minted) as Balance,
            ..self.saved(id, self.account_of(id).credited(minted))
        }
    }

    /// Why a draw of `requests` by `id` is refused, if it is. The checks are
    /// made in this order: payment, positions, machine limits.
    pub open spec fn draw_refusal(self, id: Seq<char>, requests: Seq<SetPixelRequest>) -> Option<
        PlaceError,
    > {
        if pixels_cost(requests.len(), self.pixel_cost) > self.account_of(id).balance {
            Some(PlaceError::InsufficientBalance)
        } else if !all_in_bounds(self.width as int, self.height as int, requests) {
            Some(PlaceError::OutOfBounds)
        } else if requests.len() > u32::MAX || !can_bump(self.versions, requests)
            || !self.has_room_for(id) {
            Some(PlaceError::CapacityExceeded)
        } else {
            None
        }
    }

    /// How many cells `who` lost to the writes of `requests` made by `id`.
    pub open spec fn lost_by(self, id: Seq<char>, requests: Seq<SetPixelRequest>, who: u32) -> nat {
        displaced(self.cells, self.width as int, self.account_of(id).account_index, requests, who)
    }

    /// The record of the painter after the draw: charged, and with one pixel
    /// more for each write that did not land on a cell of their own.
    pub open spec fn painter_after(self, id: Seq<char>, requests: Seq<SetPixelRequest>) -> Account {
        let account = self.account_of(id);
        Account {
            account_index: account.account_index,
            balance: (account.balance - pixels_cost(requests.len(), self.pixel_cost)) as Balance,
            num_pixels: (account.num_pixels + requests.len() - self.lost_by(
                id,
                requests,
                account.account_index,
            )) as u32,
        }
    }

    /// The state after `id` drew `requests`.
    pub open spec fn drawn(self, id: Seq<char>, requests: Seq<SetPixelRequest>) -> PlaceState {
        let painter = self.account_of(id).account_index;
        let with_painter = self.saved(id, self.painter_after(id, requests));
        PlaceState {
            accounts: Seq::new(
                with_painter.accounts.len(),
                |i: int|
                    if i == painter {
                        with_painter.accounts[i]
                    } else {
                        Account {
                            num_pixels: (with_painter.accounts[i].num_pixels - self.lost_by(
                                id,
                                requests,
                                i as u32,
                            )) as u32,
                            ..with_painter.accounts[i]
                        }
                    },
            ),
            cells: painted(self.cells, self.width as int, painter, requests),
            versions: bumped_versions(self.versions, requests),
            burned_amount: (self.burned_amount + pixels_cost(requests.len(), self.pixel_cost)) as Balance,
            ..with_painter
        }
    }
}

} // verus!
