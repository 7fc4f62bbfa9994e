use vstd::prelude::*;
use near_sdk::Balance;
use crate::account::{pixels_cost, Account};
use crate::board::{
    all_in_bounds, lemma_cell_index_in_range, lemma_displaced_bound, lemma_painted_len, painted,
    Pixel, SetPixelRequest,
};
use crate::ownership::{
    lemma_owned_all, lemma_owned_below_all, lemma_owned_below_none, lemma_owned_below_step,
    lemma_owned_count_absent, lemma_owned_count_bound, lemma_painted_counts, owned_below,
    owned_count, owners_below,
};
use crate::state::{total_balance, total_num_pixels, PlaceState};

verus! {

/// No account holds more than all accounts together.
pub proof fn lemma_balance_within_total(accounts: Seq<Account>, i: int)
    requires
        0 <= i < accounts.len(),
    ensures
        accounts[i].balance <= total_balance(accounts),
    decreases accounts.len(),
{
    if i < accounts.len() - 1 {
        lemma_balance_within_total(accounts.drop_last(), i);
    }
}

/// Replacing one record changes the total of the balances by the difference
/// of the two balances.
pub proof fn lemma_total_balance_update(accounts: Seq<Account>, i: int, account: Account)
    requires
        0 <= i < accounts.len(),
    ensures
        total_balance(accounts.update(i, account)) + accounts[i].balance == total_balance(accounts)
            + account.balance,
    decreases accounts.len(),
{
    let after = accounts.update(i, account);
    if i == accounts.len() - 1 {
        assert(after.drop_last() == accounts.drop_last());
    } else {
        assert(after.drop_last() == accounts.drop_last().update(i, account));
        lemma_total_balance_update(accounts.drop_last(), i, account);
    }
}

/// Two lists of records with the same balances have the same total.
pub proof fn lemma_total_balance_same(a: Seq<Account>, b: Seq<Account>)
    requires
        a.len() == b.len(),
        forall|i: int| 0 <= i < a.len() ==> (#[trigger] a[i]).balance == b[i].balance,
    ensures
        total_balance(a) == total_balance(b),
    decreases a.len(),
{
    if a.len() > 0 {
        assert(a.last().balance == b.last().balance);
        assert forall|i: int| 0 <= i < a.drop_last().len() implies (#[trigger] a.drop_last()[i]).balance
            == b.drop_last()[i].balance by {
            assert(a.drop_last()[i] == a[i]);
        }
        lemma_total_balance_same(a.drop_last(), b.drop_last());
    }
}

/// Where each account counts the cells that name it, the accounts together
/// count the cells of all owners below their number.
pub proof fn lemma_total_num_pixels(accounts: Seq<Account>, cells: Seq<Pixel>)
    requires
        accounts.len() <= u32::MAX,
        forall|i: int|
            0 <= i < accounts.len() ==> (#[trigger] accounts[i]).num_pixels == owned_count(
                cells,
                i as u32,
            ),
    ensures
        total_num_pixels(accounts) == owned_below(cells, accounts.len()),
    decreases accounts.len(),
{
    if accounts.len() == 0 {
        lemma_owned_below_none(cells);
    } else {
        let last = accounts.len() - 1;
        assert(accounts.last() == accounts[last]);
        assert forall|i: int| 0 <= i < accounts.drop_last().len() implies (
        #[trigger] accounts.drop_last()[i]).num_pixels == owned_count(cells, i as u32) by {
            assert(accounts.drop_last()[i] == accounts[i]);
        }
        lemma_total_num_pixels(accounts.drop_last(), cells);
        lemma_owned_below_step(cells, last as u32);
    }
}

/// A painted cell belongs to the painter or to whom it belonged before.
pub proof fn lemma_painted_owners(
    cells: Seq<Pixel>,
    width: int,
    height: int,
    owner: u32,
    requests: Seq<SetPixelRequest>,
    at: int,
)
    requires
        cells.len() == width * height,
        all_in_bounds(width, height, requests),
        0 <= at < cells.len(),
    ensures
        painted(cells, width, owner, requests)[at].owner_id == owner || painted(
            cells,
            width,
            owner,
            requests,
        )[at] == cells[at],
    decreases requests.len(),
{
    if requests.len() > 0 {
        lemma_painted_owners(cells, width, height, owner, requests.drop_last(), at);
        lemma_painted_len(cells, width, height, owner, requests.drop_last());
        lemma_cell_index_in_range(width, height, requests.last());
    }
}

/// In every valid state the pixel counts of the accounts add up to the
/// number of cells of the canvas.
pub proof fn lemma_conservation(state: PlaceState)
    requires
        state.valid(),
    ensures
        total_num_pixels(state.accounts) == state.width * state.height,
{
    lemma_total_num_pixels(state.accounts, state.cells);
    lemma_owned_below_all(state.cells, state.accounts.len());
}

/// The state right after creation is valid.
pub proof fn lemma_genesis_valid(
    owner_id: Seq<char>,
    timestamp: u64,
    width: u32,
    height: u32,
    pixel_cost: Balance,
)
    requires
        width * height <= u32::MAX,
    ensures
        PlaceState::genesis(owner_id, timestamp, width, height, pixel_cost).valid(),
{
    let state = PlaceState::genesis(owner_id, timestamp, width, height, pixel_cost);
    lemma_owned_all(state.cells, 0);
    assert(state.accounts.drop_last() == Seq::<Account>::empty());
    assert(total_balance(state.accounts) == 0) by {
        reveal_with_fuel(total_balance, 2);
    }
}

/// A purchase that is not refused leads from a valid state to a valid state.
pub proof fn lemma_credited_valid(state: PlaceState, id: Seq<char>, minted: Balance)
    requires
        state.valid(),
        state.credit_refusal(id, minted) is None,
    ensures
        state.credited(id, minted).valid(),
        state.account_of(id).balance + minted <= Balance::MAX,
{
    let account = state.account_of(id);
    let after = state.credited(id, minted);
    let index = account.account_index as int;
    if state.knows(id) {
        lemma_balance_within_total(state.accounts, index);
        lemma_total_balance_update(state.accounts, index, account.credited(minted));
        assert(state.indices.insert(id, account.account_index) =~= state.indices);
    } else {
        assert(after.accounts.drop_last() == state.accounts);
        lemma_owned_count_absent(state.cells, account.account_index);
    }
    assert(owners_below(after.cells, after.accounts.len()));
}

/// A draw that is not refused leads from a valid state to a valid state.
pub proof fn lemma_drawn_valid(state: PlaceState, id: Seq<char>, requests: Seq<SetPixelRequest>)
    requires
        state.valid(),
        state.draw_refusal(id, requests) is None,
    ensures
        state.drawn(id, requests).valid(),
        state.burned_amount + pixels_cost(requests.len(), state.pixel_cost) <= state.minted_amount,
        forall|who: u32|
            who < state.accounts.len() && who != state.account_of(id).account_index
                ==> #[trigger] state.lost_by(id, requests, who) <= state.accounts[who as int].num_pixels,
        forall|who: u32|
            who != state.account_of(id).account_index && #[trigger] state.lost_by(
                id,
                requests,
                who,
            ) > 0 ==> who < state.accounts.len(),
        state.lost_by(id, requests, state.account_of(id).account_index) <= requests.len(),
        state.account_of(id).num_pixels + requests.len() - state.lost_by(
            id,
            requests,
            state.account_of(id).account_index,
        ) <= u32::MAX,
{
    let account = state.account_of(id);
    let painter = account.account_index;
    let after = state.drawn(id, requests);
    let with_painter = state.saved(id, state.painter_after(id, requests));
    let w = state.width as int;
    let h = state.height as int;
    let cost = pixels_cost(requests.len(), state.pixel_cost);
    lemma_painted_len(state.cells, w, h, painter, requests);
    assert forall|who: u32| who < after.accounts.len() implies #[trigger] owned_count(
        after.cells,
        who,
    ) + state.lost_by(id, requests, who) == (if who < state.accounts.len() {
        state.accounts[who as int].num_pixels as nat
    } else {
        0nat
    }) + (if who == painter {
        requests.len()
    } else {
        0nat
    }) by {
        lemma_painted_counts(state.cells, w, h, painter, requests, who);
        if who >= state.accounts.len() {
            lemma_owned_count_absent(state.cells, who);
        }
    }
    assert forall|who: u32| who < after.accounts.len() implies #[trigger] owned_count(
        after.cells,
        who,
    ) <= u32::MAX by {
        lemma_owned_count_bound(after.cells, who);
    }
    if state.knows(id) {
        lemma_balance_within_total(state.accounts, painter as int);
        lemma_total_balance_update(state.accounts, painter as int, state.painter_after(id, requests));
        assert(state.indices.insert(id, painter) =~= state.indices);
    } else {
        assert(with_painter.accounts.drop_last() == state.accounts);
    }
    lemma_total_balance_same(after.accounts, with_painter.accounts);
    assert forall|i: int| 0 <= i < after.cells.len() implies (#[trigger] after.cells[i]).owner_id
        < after.accounts.len() by {
        lemma_painted_owners(state.cells, w, h, painter, requests, i);
    }
    assert forall|i: int| 0 <= i < after.accounts.len() implies (#[trigger] after.accounts[i]).num_pixels
        == owned_count(after.cells, i as u32) by {
        assert(owned_count(after.cells, i as u32) <= u32::MAX);
    }
    assert(owned_count(after.cells, painter) <= u32::MAX);
    assert forall|who: u32|
        who < state.accounts.len() && who != painter implies #[trigger] state.lost_by(
        id,
        requests,
        who,
    ) <= state.accounts[who as int].num_pixels by {
        assert(owned_count(after.cells, who) >= 0);
    }
    assert forall|who: u32|
        who != painter && #[trigger] state.lost_by(id, requests, who) > 0 implies who
        < state.accounts.len() by {
        if who >= state.accounts.len() {
            lemma_painted_counts(state.cells, w, h, painter, requests, who);
            lemma_owned_count_absent(state.cells, who);
        }
    }
    lemma_displaced_bound(state.cells, w, painter, requests, painter);
}

} // verus!
