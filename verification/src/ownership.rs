use vstd::prelude::*;
use crate::board::{
    all_in_bounds, cell_index, displaced, lemma_cell_index_in_range, lemma_painted_len, painted,
    painted_pixel, Pixel, SetPixelRequest,
};

verus! {

/// How many of `cells` belong to `owner`.
pub open spec fn owned_count(cells: Seq<Pixel>, owner: u32) -> nat
    decreases cells.len(),
{
    if cells.len() == 0 {
        0
    } else {
        let last: nat = if cells.last().owner_id == owner {
            1
        } else {
            0
        };
        owned_count(cells.drop_last(), owner) + last
    }
}

/// How many of `cells` belong to an owner whose index is below `bound`.
pub open spec fn owned_below(cells: Seq<Pixel>, bound: nat) -> nat
    decreases cells.len(),
{
    if cells.len() == 0 {
        0
    } else {
        let last: nat = if cells.last().owner_id < bound {
            1
        } else {
            0
        };
        owned_below(cells.drop_last(), bound) + last
    }
}

/// Whether every cell belongs to an owner whose index is below `bound`.
pub open spec fn owners_below(cells: Seq<Pixel>, bound: nat) -> bool {
    forall|i: int| 0 <= i < cells.len() ==> (#[trigger] cells[i]).owner_id < bound
}

/// No owner has more cells than there are.
pub proof fn lemma_owned_count_bound(cells: Seq<Pixel>, owner: u32)
    ensures
        owned_count(cells, owner) <= cells.len(),
    decreases cells.len(),
{
    if cells.len() > 0 {
        lemma_owned_count_bound(cells.drop_last(), owner);
    }
}

/// An owner that no cell names has no cells.
pub proof fn lemma_owned_count_absent(cells: Seq<Pixel>, owner: u32)
    requires
        forall|i: int| 0 <= i < cells.len() ==> (#[trigger] cells[i]).owner_id != owner,
    ensures
        owned_count(cells, owner) == 0,
    decreases cells.len(),
{
    if cells.len() > 0 {
        assert(cells.last() == cells[cells.len() - 1]);
        lemma_owned_count_absent(cells.drop_last(), owner);
    }
}

/// Replacing one cell takes one from the count of its old owner and gives
/// one to the count of its new owner.
pub proof fn lemma_owned_count_update(cells: Seq<Pixel>, at: int, pixel: Pixel, owner: u32)
    requires
        0 <= at < cells.len(),
    ensures
        owned_count(cells.update(at, pixel), owner) + (if cells[at].owner_id == owner {
            1nat
        } else {
            0nat
        }) == owned_count(cells, owner) + (if pixel.owner_id == owner {
            1nat
        } else {
            0nat
        }),
    decreases cells.len(),
{
    let after = cells.update(at, pixel);
    if at == cells.len() - 1 {
        assert(after.drop_last() == cells.drop_last());
    } else {
        assert(after.drop_last() == cells.drop_last().update(at, pixel));
        lemma_owned_count_update(cells.drop_last(), at, pixel, owner);
    }
}

/// What a batch does to the count of each owner: the painter gains one cell
/// per write and, like every other owner, loses one per write that landed on
/// a cell of theirs.
pub proof fn lemma_painted_counts(
    cells: Seq<Pixel>,
    width: int,
    height: int,
    owner: u32,
    requests: Seq<SetPixelRequest>,
    who: u32,
)
    requires
        cells.len() == width * height,
        all_in_bounds(width, height, requests),
    ensures
        owned_count(painted(cells, width, owner, requests), who) + displaced(
            cells,
            width,
            owner,
            requests,
            who,
        ) == owned_count(cells, who) + (if who == owner {
            requests.len()
        } else {
            0nat
        }),
    decreases requests.len(),
{
    if requests.len() > 0 {
        let earlier = requests.drop_last();
        let before = painted(cells, width, owner, earlier);
        lemma_painted_counts(cells, width, height, owner, earlier, who);
        lemma_painted_len(cells, width, height, owner, earlier);
        lemma_cell_index_in_range(width, height, requests.last());
        lemma_owned_count_update(
            before,
            cell_index(width, requests.last()),
            painted_pixel(owner, requests.last()),
            who,
        );
    }
}

/// Where every cell belongs to `owner`, `owner` has them all.
pub proof fn lemma_owned_all(cells: Seq<Pixel>, owner: u32)
    requires
        forall|i: int| 0 <= i < cells.len() ==> (#[trigger] cells[i]).owner_id == owner,
    ensures
        owned_count(cells, owner) == cells.len(),
    decreases cells.len(),
{
    if cells.len() > 0 {
        assert(cells.last() == cells[cells.len() - 1]);
        assert forall|i: int| 0 <= i < cells.drop_last().len() implies (
        #[trigger] cells.drop_last()[i]).owner_id == owner by {
            assert(cells.drop_last()[i] == cells[i]);
        }
        lemma_owned_all(cells.drop_last(), owner);
    }
}

/// No cell has an owner below 0.
pub proof fn lemma_owned_below_none(cells: Seq<Pixel>)
    ensures
        owned_below(cells, 0) == 0,
    decreases cells.len(),
{
    if cells.len() > 0 {
        lemma_owned_below_none(cells.drop_last());
    }
}

/// Counting the cells of owners below `bound + 1` is counting those below
/// `bound` and those of `bound` itself.
pub proof fn lemma_owned_below_step(cells: Seq<Pixel>, bound: u32)
    ensures
        owned_below(cells, (bound + 1) as nat) == owned_below(cells, bound as nat) + owned_count(
            cells,
            bound,
        ),
    decreases cells.len(),
{
    if cells.len() > 0 {
        lemma_owned_below_step(cells.drop_last(), bound);
    }
}

/// Where every owner is below `bound`, the cells of owners below `bound` are
/// all the cells.
pub proof fn lemma_owned_below_all(cells: Seq<Pixel>, bound: nat)
    requires
        owners_below(cells, bound),
    ensures
        owned_below(cells, bound) == cells.len(),
    decreases cells.len(),
{
    if cells.len() > 0 {
        assert(cells.last() == cells[cells.len() - 1]);
        assert forall|i: int| 0 <= i < cells.drop_last().len() implies (
        #[trigger] cells.drop_last()[i]).owner_id < bound by {
            assert(cells.drop_last()[i] == cells[i]);
        }
        lemma_owned_below_all(cells.drop_last(), bound);
    }
}

} // verus!
