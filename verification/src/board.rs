use vstd::prelude::*;
use std::collections::HashMap;
use crate::error::PlaceError;

verus! {

broadcast use vstd::std_specs::hash::group_hash_axioms;

/// Width of the canvas that `PixelBoard::new` creates.
pub const BOARD_WIDTH: u32 = 50;

/// Height of the canvas that `PixelBoard::new` creates.
pub const BOARD_HEIGHT: u32 = 50;

/// Number of cells of the canvas that `PixelBoard::new` creates.
pub const TOTAL_NUM_PIXELS: u32 = 2500;

/// Color of every cell of a fresh canvas.
pub const DEFAULT_COLOR: u32 = 0;

/// Index of the account that owns every cell of a fresh canvas.
pub const GENESIS_OWNER: u32 = 0;

/// One cell of the canvas.
#[derive(Clone, Copy, Debug, PartialEq, Eq, Structural)]
pub struct Pixel {
    pub color: u32,
    pub owner_id: u32,
}

/// A request to paint the cell in column `x` of row `y`.
#[derive(Clone, Copy, Debug, PartialEq, Eq, Structural)]
pub struct SetPixelRequest {
    pub x: u32,
    pub y: u32,
    pub color: u32,
}

/// Whether `request` names a cell of a canvas of the given size.
pub open spec fn in_bounds(width: int, height: int, request: SetPixelRequest) -> bool {
    request.x < width && request.y < height
}

/// Position of the requested cell in the row-major sequence of cells.
pub open spec fn cell_index(width: int, request: SetPixelRequest) -> int {
    request.y * width + request.x
}

/// The cell that `request` leaves behind when `owner` paints it.
pub open spec fn painted_pixel(owner: u32, request: SetPixelRequest) -> Pixel {
    Pixel { color: request.color, owner_id: owner }
}

/// The cells after `owner` has painted `requests` one after the other, a
/// later request overriding an earlier one on the same cell.
pub open spec fn painted(
    cells: Seq<Pixel>,
    width: int,
    owner: u32,
    requests: Seq<SetPixelRequest>,
) -> Seq<Pixel>
    decreases requests.len(),
{
    if requests.len() == 0 {
        cells
    } else {
        painted(cells, width, owner, requests.drop_last()).update(
            cell_index(width, requests.last()),
            painted_pixel(owner, requests.last()),
        )
    }
}

/// How many of the writes of `requests` landed on a cell that `prior` owned
/// at the moment of the write. The painter is counted like anyone else: a
/// write on a cell that the painter has already, be it from an earlier
/// request of the same batch, counts for the painter.
pub open spec fn displaced(
    cells: Seq<Pixel>,
    width: int,
    owner: u32,
    requests: Seq<SetPixelRequest>,
    prior: u32,
) -> nat
    decreases requests.len(),
{
    if requests.len() == 0 {
        0
    } else {
        let before = painted(cells, width, owner, requests.drop_last());
        let hit: nat = if before[cell_index(width, requests.last())].owner_id == prior {
            1
        } else {
            0
        };
        displaced(cells, width, owner, requests.drop_last(), prior) + hit
    }
}

/// Whether one of `requests` names a cell of row `row`.
pub open spec fn touches_row(requests: Seq<SetPixelRequest>, row: int) -> bool {
    exists|i: int| 0 <= i < requests.len() && #[trigger] requests[i].y == row
}

/// Whether every request names a cell of the canvas.
pub open spec fn all_in_bounds(width: int, height: int, requests: Seq<SetPixelRequest>) -> bool {
    forall|i: int| 0 <= i < requests.len() ==> in_bounds(width, height, #[trigger] requests[i])
}

/// Whether every row that the batch touches has a version left to move to.
pub open spec fn can_bump(versions: Seq<u32>, requests: Seq<SetPixelRequest>) -> bool {
    forall|row: int|
        0 <= row < versions.len() && touches_row(requests, row) ==> #[trigger] versions[row]
            < u32::MAX
}

/// The row versions after a batch: each row that the batch touches is one
/// version further, however many of its cells the batch writes and whether
/// or not a cell changes hands; the others are as they were.
pub open spec fn bumped_versions(versions: Seq<u32>, requests: Seq<SetPixelRequest>) -> Seq<u32> {
    Seq::new(
        versions.len(),
        |row: int|
            if touches_row(requests, row) {
                (versions[row] + 1) as u32
            } else {
                versions[row]
            },
    )
}

/// A request inside the canvas names a position inside the sequence of cells.
pub proof fn lemma_cell_index_in_range(width: int, height: int, request: SetPixelRequest)
    requires
        in_bounds(width, height, request),
    ensures
        0 <= cell_index(width, request) < width * height,
{
    let x = request.x as int;
    let y = request.y as int;
    assert(0 <= y * width + x < width * height) by (nonlinear_arith)
        requires
            0 <= x < width,
            0 <= y < height,
    ;
}

/// Painting requests that are all inside the canvas keeps the number of cells.
pub proof fn lemma_painted_len(
    cells: Seq<Pixel>,
    width: int,
    height: int,
    owner: u32,
    requests: Seq<SetPixelRequest>,
)
    requires
        cells.len() == width * height,
        all_in_bounds(width, height, requests),
    ensures
        painted(cells, width, owner, requests).len() == cells.len(),
    decreases requests.len(),
{
    if requests.len() > 0 {
        lemma_painted_len(cells, width, height, owner, requests.drop_last());
        lemma_cell_index_in_range(width, height, requests.last());
    }
}

/// No owner loses more cells than the batch has writes.
pub proof fn lemma_displaced_bound(
    cells: Seq<Pixel>,
    width: int,
    owner: u32,
    requests: Seq<SetPixelRequest>,
    prior: u32,
)
    ensures
        displaced(cells, width, owner, requests, prior) <= requests.len(),
    decreases requests.len(),
{
    if requests.len() > 0 {
        lemma_displaced_bound(cells, width, owner, requests.drop_last(), prior);
    }
}

/// A fixed grid of cells in row-major order, with one change counter per row.
pub struct PixelBoard {
    pub width: u32,
    pub height: u32,
    pub pixels: Vec<Pixel>,
    pub line_versions: Vec<u32>,
}

impl PixelBoard {
    /// The grid has `width * height` cells and `height` row versions.
    pub open spec fn wf(&self) -> bool {
        &&& self.pixels@.len() == self.width * self.height
        &&& self.line_versions@.len() == self.height
    }

    /// Why `set_pixels` refuses a batch, if it does: a position off the
    /// canvas comes first, then a counter that has no room left.
    pub open spec fn refusal(&self, requests: Seq<SetPixelRequest>) -> Option<PlaceError> {
        if !all_in_bounds(self.width as int, self.height as int, requests) {
            Some(PlaceError::OutOfBounds)
        } else if requests.len() > u32::MAX || !can_bump(self.line_versions@, requests) {
            Some(PlaceError::CapacityExceeded)
        } else {
            None
        }
    }

    /// A canvas of `BOARD_WIDTH` by `BOARD_HEIGHT` cells.
    pub fn new() -> (board: PixelBoard)
        ensures
            board.wf(),
            board.width == BOARD_WIDTH,
            board.height == BOARD_HEIGHT,
            board.pixels@ == Seq::new(
                TOTAL_NUM_PIXELS as nat,
                |i: int| Pixel { color: DEFAULT_COLOR, owner_id: GENESIS_OWNER },
            ),
            board.line_versions@ == Seq::new(BOARD_HEIGHT as nat, |i: int| 0u32),
    {
        PixelBoard::blank(BOARD_WIDTH, BOARD_HEIGHT)
    }

    /// A canvas of `width` by `height` cells, all of the default color and
    /// owned by the genesis account, every row at version 0. Refused when the
    /// number of cells does not fit the pixel counters.
    pub fn with_size(width: u32, height: u32) -> (made: Result<PixelBoard, PlaceError>)
        ensures
            made is Ok <==> width * height <= u32::MAX,
            made matches Err(e) ==> e == PlaceError::CapacityExceeded,
            made matches Ok(board) ==> {
                &&& board.wf()
                &&& board.width == width
                &&& board.height == height
                &&& board.pixels@ == Seq::new(
                    (width * height) as nat,
                    |i: int| Pixel { color: DEFAULT_COLOR, owner_id: GENESIS_OWNER },
                )
                &&& board.line_versions@ == Seq::new(height as nat, |i: int| 0u32)
            },
    {
        assert(width * height <= 0xffff_ffff * 0xffff_ffff) by (nonlinear_arith)
            requires
                0 <= width <= 0xffff_ffff,
                0 <= height <= 0xffff_ffff,
        ;
        let total: u64 = (width as u64) * (height as u64);
        if total > u32::MAX as u64 {
            return Err(PlaceError::CapacityExceeded);
        }
        Ok(PixelBoard::blank(width, height))
    }

    fn blank(width: u32, height: u32) -> (board: PixelBoard)
        requires
            width * height <= u32::MAX,
        ensures
            board.wf(),
            board.width == width,
            board.height == height,
            board.pixels@ == Seq::new(
                (width * height) as nat,
                |i: int| Pixel { color: DEFAULT_COLOR, owner_id: GENESIS_OWNER },
            ),
            board.line_versions@ == Seq::new(height as nat, |i: int| 0u32),
    {
        let total: u64 = (width as u64) * (height as u64);
        let mut pixels: Vec<Pixel> = Vec::new();
        let mut i: u64 = 0;
        while i < total
            invariant
                i <= total,
                pixels@ == Seq::new(
                    i as nat,
                    |k: int| Pixel { color: DEFAULT_COLOR, owner_id: GENESIS_OWNER },
                ),
            decreases total - i,
        {
            pixels.push(Pixel { color: DEFAULT_COLOR, owner_id: GENESIS_OWNER });
            i = i + 1;
        }
        let mut line_versions: Vec<u32> = Vec::new();
        let mut row: u32 = 0;
        while row < height
            invariant
                row <= height,
                line_versions@ == Seq::new(row as nat, |k: int| 0u32),
            decreases height - row,
        {
            line_versions.push(0);
            row = row + 1;
        }
        PixelBoard { width, height, pixels, line_versions }
    }

    /// Whether `set_pixels` would take the batch, without touching the canvas.
    pub fn check(&self, requests: &Vec<SetPixelRequest>) -> (res: Result<(), PlaceError>)
        requires
            self.wf(),
        ensures
            res is Err <==> self.refusal(requests@) is Some,
            res matches Err(e) ==> self.refusal(requests@) == Some(e),
    {
        let ghost versions0 = self.line_versions@;
        let ghost w = self.width as int;
        let ghost h = self.height as int;
        let n = requests.len();
        let mut full: bool = false;
        let mut i: usize = 0;
        while i < n
            invariant
                i <= n,
                n == requests@.len(),
                self.line_versions@ == versions0,
                versions0.len() == h,
                w == self.width,
                h == self.height,
                all_in_bounds(w, h, requests@.take(i as int)),
                full <==> !can_bump(versions0, requests@.take(i as int)),
            decreases n - i,
        {
            let request = requests[i];
            proof {
                let prefix = requests@.take(i as int);
                let next = requests@.take(i + 1);
                assert(forall|k: int| 0 <= k < prefix.len() ==> prefix[k] == next[k]);
                assert(next[i as int] == request);
            }
            if request.x >= self.width || request.y >= self.height {
                proof {
                    assert(requests@[i as int] == request);
                    assert(!in_bounds(w, h, requests@[i as int]));
                }
                return Err(PlaceError::OutOfBounds);
            }
            let at_limit = self.line_versions[request.y as usize] == u32::MAX;
            proof {
                let prefix = requests@.take(i as int);
                let next = requests@.take(i + 1);
                assert forall|row: int| touches_row(next, row) <==> (touches_row(prefix, row)
                    || row == request.y) by {
                    if touches_row(prefix, row) {
                        let k = choose|k: int| 0 <= k < prefix.len() && prefix[k].y == row;
                        assert(next[k].y == row);
                    }
                    if row == request.y {
                        assert(next[i as int].y == row);
                    }
                    if touches_row(next, row) {
                        let k = choose|k: int| 0 <= k < next.len() && next[k].y == row;
                        if k < i {
                            assert(prefix[k].y == row);
                        }
                    }
                }
                if at_limit {
                    assert(touches_row(next, request.y as int));
                }
            }
            if at_limit {
                full = true;
            }
            i = i + 1;
        }
        proof {
            assert(requests@.take(n as int) == requests@);
        }
        if full || n > u32::MAX as usize {
            return Err(PlaceError::CapacityExceeded);
        }
        Ok(())
    }

    /// Paints `requests` in order on behalf of `owner` and returns, for each
    /// account that owned a painted cell at the moment it was painted, how
    /// many such writes there were. The batch is applied whole or not at all.
    pub fn set_pixels(&mut self, owner: u32, requests: &Vec<SetPixelRequest>) -> (res: Result<
        HashMap<u32, u32>,
        PlaceError,
    >)
        requires
            old(self).wf(),
        ensures
            final(self).wf(),
            final(self).width == old(self).width,
            final(self).height == old(self).height,
            res is Err <==> old(self).refusal(requests@) is Some,
            res matches Err(e) ==> old(self).refusal(requests@) == Some(e) && *final(self) == *old(
                self,
            ),
            res matches Ok(lost) ==> {
                &&& final(self).pixels@ == painted(
                    old(self).pixels@,
                    old(self).width as int,
                    owner,
                    requests@,
                )
                &&& final(self).line_versions@ == bumped_versions(
                    old(self).line_versions@,
                    requests@,
                )
                &&& forall|prior: u32| #[trigger]
                    lost@.contains_key(prior) <==> displaced(
                        old(self).pixels@,
                        old(self).width as int,
                        owner,
                        requests@,
                        prior,
                    ) > 0
                &&& forall|prior: u32| #[trigger]
                    lost@.contains_key(prior) ==> lost@[prior] == displaced(
                        old(self).pixels@,
                        old(self).width as int,
                        owner,
                        requests@,
                        prior,
                    )
            },
    {
        let ghost cells0 = self.pixels@;
        let ghost versions0 = self.line_versions@;
        let ghost w = self.width as int;
        let ghost h = self.height as int;
        let n = requests.len();
        match self.check(requests) {
            Ok(()) => {},
            Err(e) => {
                return Err(e);
            },
        }
        let mut touched: Vec<bool> = Vec::new();
        let mut row: u32 = 0;
        while row < self.height
            invariant
                row <= self.height,
                *self == *old(self),
                touched@ == Seq::new(row as nat, |k: int| false),
            decreases self.height - row,
        {
            touched.push(false);
            row = row + 1;
        }
        let mut lost: HashMap<u32, u32> = HashMap::new();
        let mut i: usize = 0;
        while i < n
            invariant
                i <= n,
                n == requests@.len(),
                n <= u32::MAX,
                w == self.width,
                h == self.height,
                self.width == old(self).width,
                self.height == old(self).height,
                cells0.len() == w * h,
                all_in_bounds(w, h, requests@),
                self.line_versions@ == versions0,
                self.pixels@ == painted(cells0, w, owner, requests@.take(i as int)),
                touched@.len() == h,
                forall|r: int|
                    0 <= r < h ==> (#[trigger] touched@[r] <==> touches_row(
                        requests@.take(i as int),
                        r,
                    )),
                forall|prior: u32| #[trigger]
                    lost@.contains_key(prior) <==> displaced(
                        cells0,
                        w,
                        owner,
                        requests@.take(i as int),
                        prior,
                    ) > 0,
                forall|prior: u32| #[trigger]
                    lost@.contains_key(prior) ==> lost@[prior] == displaced(
                        cells0,
                        w,
                        owner,
                        requests@.take(i as int),
                        prior,
                    ),
            decreases n - i,
        {
            let request = requests[i];
            let ghost prefix = requests@.take(i as int);
            let ghost next = requests@.take(i + 1);
            proof {
                assert(next.drop_last() == prefix);
                assert(next.last() == request);
                assert(in_bounds(w, h, requests@[i as int]));
                lemma_cell_index_in_range(w, h, request);
                assert forall|k: int| 0 <= k < prefix.len() implies in_bounds(
                    w,
                    h,
                    #[trigger] prefix[k],
                ) by {
                    assert(prefix[k] == requests@[k]);
                }
                lemma_painted_len(cells0, w, h, owner, prefix);
                assert(self.pixels.len() == w * h);
                assert(request.y * w <= w * h) by (nonlinear_arith)
                    requires
                        0 <= request.y < h,
                        0 <= w,
                ;
            }
            let index = (request.y as usize) * (self.width as usize) + (request.x as usize);
            let prior = self.pixels[index].owner_id;
            self.pixels.set(index, Pixel { color: request.color, owner_id: owner });
            let count: u32 = match lost.get(&prior) {
                Some(c) => *c,
                None => 0,
            };
            proof {
                lemma_displaced_bound(cells0, w, owner, prefix, prior);
            }
            lost.insert(prior, count + 1);
            touched.set(request.y as usize, true);
            proof {
                assert forall|r: int| 0 <= r < h implies (#[trigger] touched@[r] <==> touches_row(
                    next,
                    r,
                )) by {
                    if touches_row(prefix, r) {
                        let k = choose|k: int| 0 <= k < prefix.len() && prefix[k].y == r;
                        assert(next[k].y == r);
                    }
                    if r == request.y {
                        assert(next[i as int].y == r);
                    }
                    if touches_row(next, r) {
                        let k = choose|k: int| 0 <= k < next.len() && next[k].y == r;
                        if k < i {
                            assert(prefix[k].y == r);
                        }
                    }
                }
            }
            i = i + 1;
        }
        proof {
            assert(requests@.take(n as int) == requests@);
        }
        let mut row: u32 = 0;
        while row < self.height
            invariant
                row <= self.height,
                h == self.height,
                self.width == old(self).width,
                self.height == old(self).height,
                self.pixels@ == painted(cells0, w, owner, requests@),
                touched@.len() == h,
                versions0.len() == h,
                can_bump(versions0, requests@),
                forall|r: int|
                    0 <= r < h ==> (#[trigger] touched@[r] <==> touches_row(requests@, r)),
                self.line_versions@.len() == h,
                forall|r: int|
                    0 <= r < row ==> #[trigger] self.line_versions@[r] == bumped_versions(
                        versions0,
                        requests@,
                    )[r],
                forall|r: int| row <= r < h ==> #[trigger] self.line_versions@[r] == versions0[r],
            decreases self.height - row,
        {
            if touched[row as usize] {
                let version = self.line_versions[row as usize];
                assert(touches_row(requests@, row as int));
                assert(versions0[row as int] < u32::MAX);
                self.line_versions.set(row as usize, version + 1);
            }
            row = row + 1;
        }
        proof {
            lemma_painted_len(cells0, w, h, owner, requests@);
            assert(self.line_versions@ =~= bumped_versions(versions0, requests@));
        }
        Ok(lost)
    }

    /// A snapshot of the row versions, one per row, top row first.
    pub fn get_line_versions(&self) -> (versions: Vec<u32>)
        ensures
            versions@ == self.line_versions@,
    {
        self.line_versions.clone()
    }
}

} // verus!
