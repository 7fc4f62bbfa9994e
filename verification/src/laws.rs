use vstd::prelude::*;
use near_sdk::Balance;
use crate::account::pixels_cost;
use crate::board::{
    all_in_bounds, cell_index, displaced, lemma_cell_index_in_range, lemma_painted_len, painted,
    painted_pixel, touches_row, Pixel, SetPixelRequest,
};
use crate::error::PlaceError;
use crate::invariants::{
    lemma_conservation, lemma_credited_valid, lemma_drawn_valid, lemma_genesis_valid,
};
use crate::state::{total_num_pixels, PlaceState};

verus! {

/// One request made to a place: a purchase of `minted` tokens, or a draw.
pub enum Operation {
    Purchase { account_id: Seq<char>, minted: Balance },
    Draw { account_id: Seq<char>, requests: Seq<SetPixelRequest> },
}

/// The state after `operation` was asked of `state`: a refused operation
/// leaves the state as it was.
pub open spec fn step(state: PlaceState, operation: Operation) -> PlaceState {
    match operation {
        Operation::Purchase { account_id, minted } => {
            if state.credit_refusal(account_id, minted) is None {
                state.credited(account_id, minted)
            } else {
                state
            }
        },
        Operation::Draw { account_id, requests } => {
            if state.draw_refusal(account_id, requests) is None {
                state.drawn(account_id, requests)
            } else {
                state
            }
        },
    }
}

/// The state after `operations` were asked of `state` one after the other.
pub open spec fn run(state: PlaceState, operations: Seq<Operation>) -> PlaceState
    decreases operations.len(),
{
    if operations.len() == 0 {
        state
    } else {
        step(run(state, operations.drop_last()), operations.last())
    }
}

/// Right after creation every row is at version 0, there is one version per
/// row, and the pixel price is the configured one.
pub proof fn law_genesis_versions_and_price(
    owner_id: Seq<char>,
    timestamp: u64,
    width: u32,
    height: u32,
    pixel_cost: Balance,
)
    ensures
        PlaceState::genesis(owner_id, timestamp, width, height, pixel_cost).versions.len()
            == height,
        forall|row: int|
            0 <= row < height ==> #[trigger] PlaceState::genesis(
                owner_id,
                timestamp,
                width,
                height,
                pixel_cost,
            ).versions[row] == 0,
        PlaceState::genesis(owner_id, timestamp, width, height, pixel_cost).pixel_cost
            == pixel_cost,
{
}

/// Every operation leads from a valid state to a valid state.
pub proof fn law_step_keeps_valid(state: PlaceState, operation: Operation)
    requires
        state.valid(),
    ensures
        step(state, operation).valid(),
{
    match operation {
        Operation::Purchase { account_id, minted } => {
            if state.credit_refusal(account_id, minted) is None {
                lemma_credited_valid(state, account_id, minted);
            }
        },
        Operation::Draw { account_id, requests } => {
            if state.draw_refusal(account_id, requests) is None {
                lemma_drawn_valid(state, account_id, requests);
            }
        },
    }
}

/// Whatever is asked of a place after its creation, and in whatever order,
/// the pixel counts of its accounts add up to the number of cells of its
/// canvas.
pub proof fn law_conservation(
    owner_id: Seq<char>,
    timestamp: u64,
    width: u32,
    height: u32,
    pixel_cost: Balance,
    operations: Seq<Operation>,
)
    requires
        width * height <= u32::MAX,
    ensures
        run(
            PlaceState::genesis(owner_id, timestamp, width, height, pixel_cost),
            operations,
        ).valid(),
        total_num_pixels(
            run(
                PlaceState::genesis(owner_id, timestamp, width, height, pixel_cost),
                operations,
            ).accounts,
        ) == width * height,
    decreases operations.len(),
{
    let genesis = PlaceState::genesis(owner_id, timestamp, width, height, pixel_cost);
    if operations.len() == 0 {
        lemma_genesis_valid(owner_id, timestamp, width, height, pixel_cost);
    } else {
        law_conservation(owner_id, timestamp, width, height, pixel_cost, operations.drop_last());
        law_step_keeps_valid(run(genesis, operations.drop_last()), operations.last());
    }
    lemma_run_keeps_size(genesis, operations);
    lemma_conservation(run(genesis, operations));
}

/// No operation changes the size of the canvas.
pub proof fn lemma_run_keeps_size(state: PlaceState, operations: Seq<Operation>)
    ensures
        run(state, operations).width == state.width,
        run(state, operations).height == state.height,
    decreases operations.len(),
{
    if operations.len() > 0 {
        lemma_run_keeps_size(state, operations.drop_last());
    }
}

/// The minted and the burned total never go down, and the time of creation
/// and the pixel price stay what they were.
pub proof fn law_totals_never_decrease(state: PlaceState, operation: Operation)
    requires
        state.valid(),
    ensures
        step(state, operation).minted_amount >= state.minted_amount,
        step(state, operation).burned_amount >= state.burned_amount,
        step(state, operation).initialization_timestamp == state.initialization_timestamp,
        step(state, operation).pixel_cost == state.pixel_cost,
{
    match operation {
        Operation::Purchase { account_id, minted } => {},
        Operation::Draw { account_id, requests } => {
            if state.draw_refusal(account_id, requests) is None {
                lemma_drawn_valid(state, account_id, requests);
            }
        },
    }
}

/// The directory only grows: every identity keeps its index, every account
/// keeps its identity, and no account goes away.
pub proof fn law_directory_only_grows(state: PlaceState, operation: Operation)
    requires
        state.valid(),
    ensures
        step(state, operation).accounts.len() >= state.accounts.len(),
        forall|id: Seq<char>| #[trigger]
            state.indices.contains_key(id) ==> step(state, operation).indices.contains_key(id)
                && step(state, operation).indices[id] == state.indices[id],
        forall|i: int|
            0 <= i < state.identities.len() ==> #[trigger] step(state, operation).identities[i]
                == state.identities[i],
{
    match operation {
        Operation::Purchase { account_id, minted } => {
            if state.credit_refusal(account_id, minted) is None {
                lemma_credited_valid(state, account_id, minted);
            }
        },
        Operation::Draw { account_id, requests } => {
            if state.draw_refusal(account_id, requests) is None {
                lemma_drawn_valid(state, account_id, requests);
            }
        },
    }
}

/// Whether request `i` is the last of the batch that names the cell at `at`.
pub open spec fn is_last_write_to(
    requests: Seq<SetPixelRequest>,
    width: int,
    at: int,
    i: int,
) -> bool {
    &&& 0 <= i < requests.len()
    &&& cell_index(width, requests[i]) == at
    &&& forall|j: int| i < j < requests.len() ==> cell_index(width, #[trigger] requests[j]) != at
}

/// After a batch, a cell that no request names is as it was, and a cell that
/// some request names belongs to the painter and has the color of the last
/// request that names it.
pub proof fn law_painted_cells(
    cells: Seq<Pixel>,
    width: int,
    height: int,
    owner: u32,
    requests: Seq<SetPixelRequest>,
    at: int,
)
    requires
        cells.len() == width * height,
        all_in_bounds(width, height, requests),
        0 <= at < cells.len(),
    ensures
        (forall|i: int| 0 <= i < requests.len() ==> cell_index(width, #[trigger] requests[i]) != at)
            ==> painted(cells, width, owner, requests)[at] == cells[at],
        forall|i: int| #[trigger]
            is_last_write_to(requests, width, at, i) ==> painted(cells, width, owner, requests)[at]
                == painted_pixel(owner, requests[i]),
    decreases requests.len(),
{
    if requests.len() > 0 {
        let earlier = requests.drop_last();
        let last = requests.len() - 1;
        law_painted_cells(cells, width, height, owner, earlier, at);
        lemma_painted_len(cells, width, height, owner, earlier);
        lemma_cell_index_in_range(width, height, requests.last());
        assert(requests.last() == requests[last]);
        if forall|i: int| 0 <= i < requests.len() ==> cell_index(width, #[trigger] requests[i]) != at {
            assert forall|i: int| 0 <= i < earlier.len() implies cell_index(
                width,
                #[trigger] earlier[i],
            ) != at by {
                assert(earlier[i] == requests[i]);
            }
        }
        assert forall|i: int| #[trigger] is_last_write_to(requests, width, at, i) implies painted(
            cells,
            width,
            owner,
            requests,
        )[at] == painted_pixel(owner, requests[i]) by {
            if i < last {
                assert(earlier[i] == requests[i]);
                assert forall|j: int| i < j < earlier.len() implies cell_index(
                    width,
                    #[trigger] earlier[j],
                ) != at by {
                    assert(earlier[j] == requests[j]);
                }
                assert(is_last_write_to(earlier, width, at, i));
            }
        }
    }
}

/// A draw that costs more than the painter holds is refused for want of
/// balance, and so changes nothing: no total, no pixel count, no cell.
pub proof fn law_no_free_draws(state: PlaceState, id: Seq<char>, requests: Seq<SetPixelRequest>)
    requires
        pixels_cost(requests.len(), state.pixel_cost) > state.account_of(id).balance,
    ensures
        state.draw_refusal(id, requests) == Some(PlaceError::InsufficientBalance),
        step(state, Operation::Draw { account_id: id, requests }) == state,
{
}

/// Whether every request names a cell that `owner` has already.
pub open spec fn all_owned_by(
    cells: Seq<Pixel>,
    width: int,
    owner: u32,
    requests: Seq<SetPixelRequest>,
) -> bool {
    forall|i: int|
        0 <= i < requests.len() ==> cells[cell_index(width, #[trigger] requests[i])].owner_id
            == owner
}

/// Painting over cells of one's own changes the owner of no cell, and every
/// write lands on a cell of the painter.
pub proof fn lemma_repaint_own(
    cells: Seq<Pixel>,
    width: int,
    height: int,
    owner: u32,
    requests: Seq<SetPixelRequest>,
)
    requires
        cells.len() == width * height,
        all_in_bounds(width, height, requests),
        all_owned_by(cells, width, owner, requests),
    ensures
        painted(cells, width, owner, requests).len() == cells.len(),
        forall|at: int|
            0 <= at < cells.len() ==> (#[trigger] painted(cells, width, owner, requests)[at]).owner_id
                == cells[at].owner_id,
        displaced(cells, width, owner, requests, owner) == requests.len(),
        forall|who: u32| who != owner ==> #[trigger] displaced(cells, width, owner, requests, who) == 0,
    decreases requests.len(),
{
    lemma_painted_len(cells, width, height, owner, requests);
    if requests.len() > 0 {
        let earlier = requests.drop_last();
        assert forall|i: int| 0 <= i < earlier.len() implies cells[cell_index(
            width,
            #[trigger] earlier[i],
        )].owner_id == owner by {
            assert(earlier[i] == requests[i]);
        }
        lemma_repaint_own(cells, width, height, owner, earlier);
        lemma_cell_index_in_range(width, height, requests.last());
        let last = requests.last();
        assert(last == requests[requests.len() - 1]);
        let before = painted(cells, width, owner, earlier);
        assert(before[cell_index(width, last)].owner_id == owner);
        assert forall|who: u32| who != owner implies #[trigger] displaced(
            cells,
            width,
            owner,
            requests,
            who,
        ) == 0 by {
            assert(displaced(cells, width, owner, earlier, who) == 0);
        }
    }
}

/// A painter who draws only over cells of their own keeps their pixel count,
/// and nobody loses a cell: the counts of all accounts are as they were.
pub proof fn law_self_overwrite_neutral(
    state: PlaceState,
    id: Seq<char>,
    requests: Seq<SetPixelRequest>,
)
    requires
        state.valid(),
        state.draw_refusal(id, requests) is None,
        all_owned_by(
            state.cells,
            state.width as int,
            state.account_of(id).account_index,
            requests,
        ),
    ensures
        state.drawn(id, requests).account_of(id).num_pixels == state.account_of(id).num_pixels,
        forall|who: u32|
            who != state.account_of(id).account_index ==> #[trigger] state.lost_by(
                id,
                requests,
                who,
            ) == 0,
        forall|i: int|
            0 <= i < state.accounts.len() ==> (#[trigger] state.drawn(
                id,
                requests,
            ).accounts[i]).num_pixels == state.accounts[i].num_pixels,
{
    let painter = state.account_of(id).account_index;
    lemma_repaint_own(state.cells, state.width as int, state.height as int, painter, requests);
    lemma_drawn_valid(state, id, requests);
}

/// A draw moves the version of every row that it touches strictly forward,
/// and leaves the version of every other row as it was.
pub proof fn law_row_versions(state: PlaceState, id: Seq<char>, requests: Seq<SetPixelRequest>)
    requires
        state.valid(),
        state.draw_refusal(id, requests) is None,
    ensures
        state.drawn(id, requests).versions.len() == state.versions.len(),
        forall|row: int|
            0 <= row < state.versions.len() && touches_row(requests, row) ==> (
            #[trigger] state.drawn(id, requests).versions[row]) == state.versions[row] + 1,
        forall|row: int|
            0 <= row < state.versions.len() && !touches_row(requests, row) ==> (
            #[trigger] state.drawn(id, requests).versions[row]) == state.versions[row],
{
}

/// A batch with a position outside the canvas is refused whole, whatever
/// else it holds, and so changes nothing.
pub proof fn law_out_of_bounds_refused(
    state: PlaceState,
    id: Seq<char>,
    requests: Seq<SetPixelRequest>,
)
    requires
        !all_in_bounds(state.width as int, state.height as int, requests),
    ensures
        state.draw_refusal(id, requests) == Some(PlaceError::InsufficientBalance)
            || state.draw_refusal(id, requests) == Some(PlaceError::OutOfBounds),
        step(state, Operation::Draw { account_id: id, requests }) == state,
{
}

} // verus!
