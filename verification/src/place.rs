use vstd::prelude::*;
use vstd::hash_map::StringHashMap;
use vstd::std_specs::iter::IteratorSpec;
use std::collections::HashMap;
use near_sdk::json_types::{U128, U64};
use near_sdk::{AccountId, Balance};
use crate::account::{is_minted, mint, Account, PIXEL_COST};
use crate::board::{PixelBoard, SetPixelRequest, BOARD_HEIGHT, BOARD_WIDTH, GENESIS_OWNER};
use crate::error::PlaceError;
use crate::invariants::{lemma_credited_valid, lemma_drawn_valid, lemma_genesis_valid};
use crate::state::PlaceState;

verus! {

broadcast use vstd::std_specs::hash::group_hash_axioms;

/// `near_sdk::json_types::U128`: a `u128` in a public field, written as a
/// decimal string where it is serialised.
#[verifier::external_type_specification]
pub struct ExU128(U128);

/// `near_sdk::json_types::U64`: a `u64` in a public field, written as a
/// decimal string where it is serialised.
#[verifier::external_type_specification]
pub struct ExU64(U64);

/// The root state: the directory of accounts, the accounts, the canvas and
/// the running totals of the token economy.
pub struct Place {
    pub account_indices: StringHashMap<u32>,
    pub account_ids: Vec<AccountId>,
    pub board: PixelBoard,
    pub accounts: Vec<Account>,
    pub initialization_timestamp: u64,
    pub pixel_cost: Balance,
    pub minted_amount: Balance,
    pub burned_amount: Balance,
}

impl View for Place {
    type V = PlaceState;

    open spec fn view(&self) -> PlaceState {
        PlaceState {
            indices: self.account_indices@,
            identities: self.account_ids@.map_values(|id: AccountId| id@),
            accounts: self.accounts@,
            width: self.board.width,
            height: self.board.height,
            cells: self.board.pixels@,
            versions: self.board.line_versions@,
            initialization_timestamp: self.initialization_timestamp,
            pixel_cost: self.pixel_cost,
            minted_amount: self.minted_amount,
            burned_amount: self.burned_amount,
        }
    }
}

/// The record of an account after it lost `lost` of its pixels.
pub open spec fn after_loss(account: Account, lost: u32) -> Account {
    Account { num_pixels: (account.num_pixels - lost) as u32, ..account }
}

/// Takes from each account the pixels that `lost` says it lost.
fn settle_losses(accounts: &mut Vec<Account>, lost: &HashMap<u32, u32>)
    requires
        forall|who: u32| #[trigger]
            lost@.contains_key(who) ==> who < old(accounts)@.len() && lost@[who] <= old(
                accounts,
            )@[who as int].num_pixels,
    ensures
        final(accounts)@.len() == old(accounts)@.len(),
        forall|who: u32|
            who < old(accounts)@.len() ==> #[trigger] final(accounts)@[who as int] == (
            if lost@.contains_key(who) {
                after_loss(old(accounts)@[who as int], lost@[who])
            } else {
                old(accounts)@[who as int]
            }),
{
    let ghost before = accounts@;
    let ghost all = lost.iter().remaining();
    for (account_index, num_pixels) in entries: lost.iter()
        invariant
            entries.seq() == all,
            all == lost.iter().remaining(),
            all.no_duplicates(),
            forall|j: int|
                0 <= j < all.len() ==> lost@.contains_key(*(#[trigger] all[j]).0)
                    && lost@[*all[j].0] == *all[j].1,
            accounts@.len() == before.len(),
            forall|who: u32| #[trigger]
                lost@.contains_key(who) ==> who < before.len() && lost@[who]
                    <= before[who as int].num_pixels,
            forall|j: int|
                0 <= j < entries.index() ==> accounts@[*(#[trigger] all[j]).0 as int]
                    == after_loss(before[*all[j].0 as int], *all[j].1),
            forall|j: int|
                entries.index() <= j < all.len() ==> accounts@[*(#[trigger] all[j]).0 as int]
                    == before[*all[j].0 as int],
            forall|who: u32|
                who < before.len() && !lost@.contains_key(who) ==> #[trigger] accounts@[who as int]
                    == before[who as int],
    {
        let ghost done = entries.index();
        proof {
            assert(all[done] == (account_index, num_pixels));
            assert forall|j: int| 0 <= j < all.len() && j != done implies *(#[trigger] all[j]).0
                != *account_index by {
                if *all[j].0 == *account_index {
                    assert(all[j] == all[done]);
                }
            }
        }
        let mut account = accounts[*account_index as usize];
        account.num_pixels = account.num_pixels - *num_pixels;
        accounts.set(*account_index as usize, account);
    }
    proof {
        assert forall|who: u32| who < before.len() implies #[trigger] accounts@[who as int] == (
        if lost@.contains_key(who) {
            after_loss(before[who as int], lost@[who])
        } else {
            before[who as int]
        }) by {
            if lost@.contains_key(who) {
                let pair = (&who, &lost@[who]);
                assert(all.contains(pair));
                let j = choose|j: int| 0 <= j < all.len() && all[j] == pair;
                assert(*all[j].0 == who);
            }
        }
    }
}

impl Place {
    /// The state is one that the operations can have reached.
    pub open spec fn wf(&self) -> bool {
        self@.valid()
    }

    /// Creates the root state with the canvas and the pixel price of the
    /// constants. `state_exists` says whether a root state is there already:
    /// then nothing is created.
    pub fn new(state_exists: bool, owner_id: AccountId, timestamp: u64) -> (res: Result<
        Place,
        PlaceError,
    >)
        ensures
            res is Err <==> state_exists,
            res matches Err(e) ==> e == PlaceError::AlreadyInitialized,
            res matches Ok(place) ==> {
                &&& place.wf()
                &&& place@ == PlaceState::genesis(
                    owner_id@,
                    timestamp,
                    BOARD_WIDTH,
                    BOARD_HEIGHT,
                    PIXEL_COST,
                )
                &&& place.board.line_versions@ == Seq::new(BOARD_HEIGHT as nat, |i: int| 0u32)
                &&& place.pixel_cost == PIXEL_COST
            },
    {
        Place::with_config(state_exists, owner_id, timestamp, BOARD_WIDTH, BOARD_HEIGHT, PIXEL_COST)
    }

    /// Creates the root state with a canvas of `width` by `height` cells and
    /// the given pixel price. The owner becomes account 0 and owns every
    /// cell. Refused when a root state exists already, and when the canvas
    /// has more cells than a pixel counter can hold.
    pub fn with_config(
        state_exists: bool,
        owner_id: AccountId,
        timestamp: u64,
        width: u32,
        height: u32,
        pixel_cost: Balance,
    ) -> (res: Result<Place, PlaceError>)
        ensures
            res is Err <==> state_exists || width * height > u32::MAX,
            res matches Err(e) ==> e == (if state_exists {
                PlaceError::AlreadyInitialized
            } else {
                PlaceError::CapacityExceeded
            }),
            res matches Ok(place) ==> {
                &&& place.wf()
                &&& place@ == PlaceState::genesis(owner_id@, timestamp, width, height, pixel_cost)
                &&& place.board.line_versions@ == Seq::new(height as nat, |i: int| 0u32)
                &&& place.pixel_cost == pixel_cost
            },
    {
        if state_exists {
            return Err(PlaceError::AlreadyInitialized);
        }
        let board = match PixelBoard::with_size(width, height) {
            Ok(board) => board,
            Err(e) => {
                return Err(e);
            },
        };
        let mut owner = Account::new(GENESIS_OWNER);
        owner.num_pixels = board.pixels.len() as u32;
        let mut account_indices: StringHashMap<u32> = StringHashMap::new();
        let ghost id = owner_id@;
        account_indices.insert(owner_id.clone(), GENESIS_OWNER);
        let mut account_ids: Vec<AccountId> = Vec::new();
        account_ids.push(owner_id);
        let mut accounts: Vec<Account> = Vec::new();
        accounts.push(owner);
        let place = Place {
            account_indices,
            account_ids,
            board,
            accounts,
            initialization_timestamp: timestamp,
            pixel_cost,
            minted_amount: 0,
            burned_amount: 0,
        };
        proof {
            lemma_genesis_valid(id, timestamp, width, height, pixel_cost);
            assert(place@.accounts =~= PlaceState::genesis(
                id,
                timestamp,
                width,
                height,
                pixel_cost,
            ).accounts);
            assert(place@.identities =~= PlaceState::genesis(
                id,
                timestamp,
                width,
                height,
                pixel_cost,
            ).identities);
        }
        Ok(place)
    }

    /// The record of `account_id`: the stored one, or that of a newcomer with
    /// the next free index. Nothing is stored by this.
    pub fn get_account_by_id(&self, account_id: &AccountId) -> (account: Account)
        requires
            self.wf(),
        ensures
            account == self@.account_of(account_id@),
    {
        match self.account_indices.get(account_id.as_str()) {
            Some(index) => {
                assert(self@.knows(account_id@));
                self.accounts[*index as usize]
            },
            None => Account::new(self.accounts.len() as u32),
        }
    }

    /// Stores `account` as the record of `account_id`: in its place in the
    /// list, or at the end of it with a new directory entry.
    fn save_account(&mut self, account_id: &AccountId, account: Account)
        requires
            old(self)@.knows(account_id@) ==> account.account_index == old(self)@.indices[account_id@],
        ensures
            final(self)@ == old(self)@.saved(account_id@, account),
            final(self).board == old(self).board,
    {
        if (account.account_index as usize) < self.accounts.len() {
            self.accounts.set(account.account_index as usize, account);
        } else {
            self.accounts.push(account);
            self.account_ids.push(account_id.clone());
        }
        if !self.account_indices.contains_key(account_id.as_str()) {
            self.account_indices.insert(account_id.clone(), account.account_index);
        }
        proof {
            assert(self@.indices =~= old(self)@.indices.insert(
                account_id@,
                account.account_index,
            ));
            assert(self@.identities =~= old(self)@.saved(account_id@, account).identities);
        }
    }

    /// Whether a record for `account_id` can be stored.
    fn has_room_for(&self, account_id: &AccountId) -> (room: bool)
        ensures
            room == self@.has_room_for(account_id@),
    {
        self.account_indices.contains_key(account_id.as_str()) || self.accounts.len()
            < u32::MAX as usize
    }

    /// Credits `minted` tokens to `account_id`, whose account is created if
    /// it is new, and adds them to the minted total.
    pub fn credit_tokens(&mut self, account_id: &AccountId, minted: Balance) -> (res: Result<
        (),
        PlaceError,
    >)
        requires
            old(self).wf(),
        ensures
            final(self).wf(),
            res is Err <==> old(self)@.credit_refusal(account_id@, minted) is Some,
            res matches Err(e) ==> old(self)@.credit_refusal(account_id@, minted) == Some(e)
                && *final(self) == *old(self),
            res is Ok ==> final(self)@ == old(self)@.credited(account_id@, minted),
    {
        let total = match self.minted_amount.checked_add(minted) {
            Some(total) => total,
            None => {
                return Err(PlaceError::CapacityExceeded);
            },
        };
        if !self.has_room_for(account_id) {
            return Err(PlaceError::CapacityExceeded);
        }
        proof {
            lemma_credited_valid(self@, account_id@, minted);
        }
        let mut account = self.get_account_by_id(account_id);
        account.balance = account.balance + minted;
        self.save_account(account_id, account);
        self.minted_amount = total;
        Ok(())
    }

    /// Buys tokens for `deposit` at the rate of `policy`, credits them to
    /// `account_id` and returns how many were minted.
    pub fn buy_tokens<F: Fn(Balance) -> Balance>(
        &mut self,
        account_id: &AccountId,
        deposit: Balance,
        policy: F,
    ) -> (res: Result<Balance, PlaceError>)
        requires
            old(self).wf(),
            deposit > 0 ==> call_requires(policy, (deposit,)),
        ensures
            final(self).wf(),
            res matches Ok(minted) ==> {
                &&& is_minted(policy, deposit, minted)
                &&& old(self)@.credit_refusal(account_id@, minted) is None
                &&& final(self)@ == old(self)@.credited(account_id@, minted)
            },
            res matches Err(e) ==> {
                &&& *final(self) == *old(self)
                &&& exists|minted: Balance|
                    is_minted(policy, deposit, minted) && old(self)@.credit_refusal(
                        account_id@,
                        minted,
                    ) == Some(e)
            },
    {
        let minted = mint(deposit, policy);
        match self.credit_tokens(account_id, minted) {
            Ok(()) => Ok(minted),
            Err(e) => Err(e),
        }
    }

    /// Paints `pixels` in order for `account_id`: charges the account, adds
    /// the cost to the burned total, rewrites the cells and brings the pixel
    /// count of every account concerned up to date. A refused draw changes
    /// nothing.
    pub fn draw(&mut self, account_id: &AccountId, pixels: Vec<SetPixelRequest>) -> (res: Result<
        (),
        PlaceError,
    >)
        requires
            old(self).wf(),
        ensures
            final(self).wf(),
            res is Err <==> old(self)@.draw_refusal(account_id@, pixels@) is Some,
            res matches Err(e) ==> old(self)@.draw_refusal(account_id@, pixels@) == Some(e)
                && *final(self) == *old(self),
            res is Ok ==> final(self)@ == old(self)@.drawn(account_id@, pixels@),
    {
        let ghost before = self@;
        let ghost id = account_id@;
        let mut account = self.get_account_by_id(account_id);
        if !account.can_afford(pixels.len(), self.pixel_cost) {
            return Err(PlaceError::InsufficientBalance);
        }
        match self.board.check(&pixels) {
            Ok(()) => {},
            Err(e) => {
                return Err(e);
            },
        }
        if !self.has_room_for(account_id) {
            return Err(PlaceError::CapacityExceeded);
        }
        proof {
            lemma_drawn_valid(before, id, pixels@);
        }
        let new_pixels = pixels.len() as u32;
        let cost = account.charge(new_pixels, self.pixel_cost).unwrap();
        self.burned_amount = self.burned_amount + cost;
        let mut old_owners = self.board.set_pixels(account.account_index, &pixels).unwrap();
        let ghost lost = old_owners@;
        proof {
            assert forall|who: u32| lost.contains_key(who) implies lost[who] == before.lost_by(
                id,
                pixels@,
                who,
            ) by {}
        }
        let replaced_pixels = match old_owners.remove(&account.account_index) {
            Some(replaced) => replaced,
            None => 0,
        };
        account.num_pixels = account.num_pixels + (new_pixels - replaced_pixels);
        self.save_account(account_id, account);
        settle_losses(&mut self.accounts, &old_owners);
        proof {
            assert(self@.accounts =~= before.drawn(id, pixels@).accounts);
            assert(self@ == before.drawn(id, pixels@));
        }
        Ok(())
    }

    /// The record with the given index, if there is one.
    pub fn get_account_by_index(&self, account_index: u32) -> (account: Option<Account>)
        ensures
            account == (if account_index < self.accounts@.len() {
                Some(self.accounts@[account_index as int])
            } else {
                None
            }),
    {
        if (account_index as usize) < self.accounts.len() {
            Some(self.accounts[account_index as usize])
        } else {
            None
        }
    }

    /// How many accounts there are.
    pub fn get_num_accounts(&self) -> (count: u64)
        ensures
            count == self.accounts@.len(),
    {
        self.accounts.len() as u64
    }

    /// All tokens ever bought.
    pub fn get_minted_amount(&self) -> (amount: U128)
        ensures
            amount.0 == self.minted_amount,
    {
        U128(self.minted_amount)
    }

    /// All tokens ever spent on pixels.
    pub fn get_burned_amount(&self) -> (amount: U128)
        ensures
            amount.0 == self.burned_amount,
    {
        U128(self.burned_amount)
    }

    /// The time that was handed to the creation of this state.
    pub fn get_initialization_timestamp(&self) -> (timestamp: U64)
        ensures
            timestamp.0 == self.initialization_timestamp,
    {
        U64(self.initialization_timestamp)
    }

    /// The price of one pixel.
    pub fn get_pixel_cost(&self) -> (cost: U128)
        ensures
            cost.0 == self.pixel_cost,
    {
        U128(self.pixel_cost)
    }

    /// A snapshot of the row versions, one per row, top row first.
    pub fn get_line_versions(&self) -> (versions: Vec<u32>)
        ensures
            versions@ == self.board.line_versions@,
    {
        self.board.get_line_versions()
    }
}

} // verus!
