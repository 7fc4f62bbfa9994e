use vstd::prelude::*;
use vstd::hash_map::StringHashMap;
use near_sdk::{AccountId, Balance};
use crate::account::Account;
use crate::board::{Pixel, PixelBoard};
use crate::error::PlaceError;
use crate::ownership::{lemma_owned_count_bound, owned_count, owners_below};
use crate::place::Place;
use crate::state::{total_balance, PlaceState};

verus! {

/// The identities of a list of account names.
pub open spec fn identities_of(account_ids: Seq<AccountId>) -> Seq<Seq<char>> {
    account_ids.map_values(|id: AccountId| id@)
}

/// The total of the balances of the first accounts is no more than that of all.
pub proof fn lemma_total_balance_prefix(accounts: Seq<Account>, n: int)
    requires
        0 <= n <= accounts.len(),
    ensures
        total_balance(accounts.take(n)) <= total_balance(accounts),
    decreases accounts.len(),
{
    if n == accounts.len() {
        assert(accounts.take(n) == accounts);
    } else {
        assert(accounts.drop_last().take(n) == accounts.take(n));
        lemma_total_balance_prefix(accounts.drop_last(), n);
    }
}

/// Whether each account stands at the index that it names.
fn indices_in_order(accounts: &Vec<Account>) -> (ok: bool)
    requires
        accounts@.len() <= u32::MAX,
    ensures
        ok == (forall|i: int|
            0 <= i < accounts@.len() ==> (#[trigger] accounts@[i]).account_index == i),
{
    let mut i: usize = 0;
    while i < accounts.len()
        invariant
            i <= accounts@.len(),
            forall|j: int| 0 <= j < i ==> (#[trigger] accounts@[j]).account_index == j,
        decreases accounts@.len() - i,
    {
        if accounts[i].account_index as usize != i {
            return false;
        }
        i = i + 1;
    }
    true
}

/// The total of the balances, unless it is more than a balance can hold.
fn balances_total(accounts: &Vec<Account>) -> (total: Option<Balance>)
    ensures
        total is Some <==> total_balance(accounts@) <= Balance::MAX,
        total matches Some(t) ==> t == total_balance(accounts@),
{
    let mut sum: Balance = 0;
    let mut i: usize = 0;
    while i < accounts.len()
        invariant
            i <= accounts@.len(),
            sum == total_balance(accounts@.take(i as int)),
        decreases accounts@.len() - i,
    {
        proof {
            assert(accounts@.take(i + 1).drop_last() == accounts@.take(i as int));
            assert(accounts@.take(i + 1).last() == accounts@[i as int]);
            lemma_total_balance_prefix(accounts@, i + 1);
        }
        match sum.checked_add(accounts[i].balance) {
            Some(next) => {
                sum = next;
            },
            None => {
                return None;
            },
        }
        i = i + 1;
    }
    proof {
        assert(accounts@.take(accounts@.len() as int) == accounts@);
    }
    Some(sum)
}

/// Whether every cell belongs to an account and each account counts the
/// cells that name it.
fn counts_match(accounts: &Vec<Account>, cells: &Vec<Pixel>) -> (ok: bool)
    requires
        accounts@.len() <= u32::MAX,
    ensures
        ok == (owners_below(cells@, accounts@.len()) && forall|i: int|
            0 <= i < accounts@.len() ==> (#[trigger] accounts@[i]).num_pixels == owned_count(
                cells@,
                i as u32,
            )),
{
    let mut counts: Vec<u64> = Vec::new();
    let mut i: usize = 0;
    while i < accounts.len()
        invariant
            i <= accounts@.len(),
            counts@ == Seq::new(i as nat, |j: int| 0u64),
        decreases accounts@.len() - i,
    {
        counts.push(0);
        i = i + 1;
    }
    let mut k: usize = 0;
    while k < cells.len()
        invariant
            k <= cells@.len(),
            accounts@.len() <= u32::MAX,
            counts@.len() == accounts@.len(),
            owners_below(cells@.take(k as int), accounts@.len()),
            forall|j: int|
                0 <= j < counts@.len() ==> #[trigger] counts@[j] == owned_count(
                    cells@.take(k as int),
                    j as u32,
                ),
        decreases cells@.len() - k,
    {
        let owner = cells[k].owner_id as usize;
        if owner >= accounts.len() {
            return false;
        }
        let ghost earlier = cells@.take(k as int);
        let ghost next = cells@.take(k + 1);
        proof {
            assert(next.drop_last() == earlier);
            assert(next.last() == cells@[k as int]);
            lemma_owned_count_bound(earlier, owner as u32);
            assert forall|j: int| 0 <= j < next.len() implies (#[trigger] next[j]).owner_id
                < accounts@.len() by {
                if j < k {
                    assert(next[j] == earlier[j]);
                }
            }
        }
        let count = counts[owner];
        counts.set(owner, count + 1);
        proof {
            assert forall|j: int| 0 <= j < counts@.len() implies #[trigger] counts@[j]
                == owned_count(next, j as u32) by {
                assert(owned_count(next, j as u32) == owned_count(earlier, j as u32) + (
                if next.last().owner_id == j as u32 {
                    1nat
                } else {
                    0nat
                }));
            }
        }
        k = k + 1;
    }
    proof {
        assert(cells@.take(cells@.len() as int) == cells@);
    }
    let mut i: usize = 0;
    while i < accounts.len()
        invariant
            i <= accounts@.len(),
            counts@.len() == accounts@.len(),
            forall|j: int|
                0 <= j < counts@.len() ==> #[trigger] counts@[j] == owned_count(cells@, j as u32),
            forall|j: int|
                0 <= j < i ==> (#[trigger] accounts@[j]).num_pixels == owned_count(
                    cells@,
                    j as u32,
                ),
        decreases accounts@.len() - i,
    {
        if accounts[i].num_pixels as u64 != counts[i] {
            return false;
        }
        i = i + 1;
    }
    true
}

/// The directory that sends each name of the list to its position, unless
/// a name stands in the list twice.
fn build_directory(account_ids: &Vec<AccountId>) -> (made: Option<StringHashMap<u32>>)
    requires
        account_ids@.len() <= u32::MAX,
    ensures
        made is Some <==> identities_of(account_ids@).no_duplicates(),
        made matches Some(directory) ==> {
            &&& forall|i: int|
                0 <= i < account_ids@.len() ==> directory@.contains_key(
                    #[trigger] identities_of(account_ids@)[i],
                ) && directory@[identities_of(account_ids@)[i]] == i
            &&& forall|id: Seq<char>| #[trigger]
                directory@.contains_key(id) ==> directory@[id] < account_ids@.len()
                    && identities_of(account_ids@)[directory@[id] as int] == id
        },
{
    let ghost names = identities_of(account_ids@);
    let mut directory: StringHashMap<u32> = StringHashMap::new();
    let mut i: usize = 0;
    while i < account_ids.len()
        invariant
            i <= account_ids@.len(),
            account_ids@.len() <= u32::MAX,
            names == identities_of(account_ids@),
            forall|a: int, b: int| 0 <= a < b < i ==> names[a] != names[b],
            forall|j: int|
                0 <= j < i ==> directory@.contains_key(#[trigger] names[j]) && directory@[names[j]]
                    == j,
            forall|id: Seq<char>| #[trigger]
                directory@.contains_key(id) ==> directory@[id] < i && names[directory@[id] as int]
                    == id,
        decreases account_ids@.len() - i,
    {
        let account_id = &account_ids[i];
        assert(names[i as int] == account_id@);
        if directory.contains_key(account_id.as_str()) {
            proof {
                let first = directory@[account_id@] as int;
                assert(names[first] == names[i as int] && first != i);
            }
            return None;
        }
        directory.insert(account_id.clone(), i as u32);
        i = i + 1;
    }
    Some(directory)
}

impl Place {
    /// Puts a state together again from the parts that were kept of it, and
    /// rebuilds the directory from the list of names. Parts that do not fit
    /// together are refused: a name that stands twice, an account at the wrong
    /// index, a cell whose owner has no account, a pixel count that is not the
    /// number of cells owned, totals that do not balance.
    pub fn restore(
        account_ids: Vec<AccountId>,
        accounts: Vec<Account>,
        board: PixelBoard,
        initialization_timestamp: u64,
        pixel_cost: Balance,
        minted_amount: Balance,
        burned_amount: Balance,
    ) -> (res: Result<Place, PlaceError>)
        ensures
            res is Ok <==> identities_of(account_ids@).no_duplicates() && (PlaceState {
                indices: Map::empty(),
                identities: identities_of(account_ids@),
                accounts: accounts@,
                width: board.width,
                height: board.height,
                cells: board.pixels@,
                versions: board.line_versions@,
                initialization_timestamp,
                pixel_cost,
                minted_amount,
                burned_amount,
            }).coherent(),
            res matches Err(e) ==> e == PlaceError::InconsistentReference,
            res matches Ok(place) ==> {
                &&& place.wf()
                &&& place.account_ids == account_ids
                &&& place.accounts == accounts
                &&& place.board == board
                &&& place.initialization_timestamp == initialization_timestamp
                &&& place.pixel_cost == pixel_cost
                &&& place.minted_amount == minted_amount
                &&& place.burned_amount == burned_amount
            },
    {
        if accounts.len() > u32::MAX as usize || account_ids.len() != accounts.len() {
            return Err(PlaceError::InconsistentReference);
        }
        assert(board.width * board.height <= 0xffff_ffff * 0xffff_ffff) by (nonlinear_arith)
            requires
                0 <= board.width <= 0xffff_ffff,
                0 <= board.height <= 0xffff_ffff,
        ;
        let total: u64 = (board.width as u64) * (board.height as u64);
        if total > u32::MAX as u64 || board.pixels.len() as u64 != total
            || board.line_versions.len() as u64 != board.height as u64 {
            return Err(PlaceError::InconsistentReference);
        }
        if !indices_in_order(&accounts) || !counts_match(&accounts, &board.pixels) {
            return Err(PlaceError::InconsistentReference);
        }
        let balanced = match balances_total(&accounts) {
            Some(held) => match held.checked_add(burned_amount) {
                Some(all) => all == minted_amount,
                None => false,
            },
            None => false,
        };
        if !balanced {
            return Err(PlaceError::InconsistentReference);
        }
        match build_directory(&account_ids) {
            Some(account_indices) => Ok(
                Place {
                    account_indices,
                    account_ids,
                    board,
                    accounts,
                    initialization_timestamp,
                    pixel_cost,
                    minted_amount,
                    burned_amount,
                },
            ),
            None => Err(PlaceError::InconsistentReference),
        }
    }
}

} // verus!
