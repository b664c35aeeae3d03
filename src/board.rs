use vstd::prelude::*;

use crate::auxiliary::{point_in_direction, Direction, Point, Size};

verus! {

/// Highest cell state that a grid can hold.
pub const MAX_STATE: u8 = 6;

/// Why a board operation was refused.
#[derive(Clone, Copy, Debug, PartialEq, Eq, Structural)]
pub enum BoardError {
    /// The coordinate lies outside the grid.
    OutOfBounds,
    /// The cell state is above `MAX_STATE`.
    InvalidState,
    /// The packed buffer does not have the length the size calls for.
    LengthMismatch,
    /// A move was asked of a board with no known agent position.
    InvalidBoard,
}

/// Number of cells of a grid of the given size.
pub open spec fn cell_count(size: Size) -> int {
    size.width as int * size.height as int
}

/// Number of bytes that hold the cells of a grid, two cells per byte.
pub open spec fn packed_len(size: Size) -> int {
    (cell_count(size) + 1) / 2
}

/// The nibble of `byte` that holds cell `i`: the high one for an even
/// index, the low one for an odd index.
pub open spec fn nibble_of(byte: u8, i: int) -> u8 {
    if i % 2 == 1 {
        byte & 0x0F
    } else {
        byte >> 4
    }
}

/// `byte` with the nibble of cell `i` replaced by `state`.
pub open spec fn with_nibble(byte: u8, i: int, state: u8) -> u8 {
    if i % 2 == 1 {
        (byte & 0xF0) | state
    } else {
        ((state << 4) as u8) | (byte & 15)
    }
}

/// The low nibble of a byte that holds no cell (the last byte of a grid with
/// an odd number of cells) is the same in `new` as in `old`.
pub open spec fn spare_nibble_kept(new: Seq<u8>, old: Seq<u8>, size: Size) -> bool {
    forall|k: int|
        0 <= k < new.len() && 2 * k + 1 >= cell_count(size) ==> #[trigger] new[k] & 0x0F == old[k]
            & 0x0F
}

/// State of cell `i` in a packed buffer.
pub open spec fn cell_of(field: Seq<u8>, i: int) -> u8 {
    nibble_of(field[i / 2], i)
}

/// All cell states of a packed buffer, in row-major order.
pub open spec fn cells_of(field: Seq<u8>, size: Size) -> Seq<u8> {
    Seq::new(cell_count(size) as nat, |i: int| cell_of(field, i))
}

pub open spec fn in_bounds(p: Point, size: Size) -> bool {
    p.x < size.width && p.y < size.height
}

/// Row-major index of a point.
pub open spec fn index_of(p: Point, size: Size) -> int {
    p.y as int * size.width as int + p.x as int
}

/// The cell next to `p` in direction `d`, if it lies inside the grid.
pub open spec fn neighbor(p: Point, d: Direction, size: Size) -> Option<Point> {
    match point_in_direction(p, d) {
        Some(q) => if in_bounds(q, size) {
            Some(q)
        } else {
            None
        },
        None => None,
    }
}

/// How many entries of `s` equal `v`.
pub open spec fn count_of(s: Seq<u8>, v: u8) -> nat
    decreases s.len(),
{
    if s.len() == 0 {
        0
    } else {
        count_of(s.drop_last(), v) + if s.last() == v {
            1nat
        } else {
            0nat
        }
    }
}

pub open spec fn is_agent(state: u8) -> bool {
    state == 4 || state == 5
}

/// Cells that hold the agent (on floor or on a destination).
pub open spec fn agent_count(s: Seq<u8>) -> nat {
    count_of(s, 4) + count_of(s, 5)
}

/// Cells that hold a crate (off or on a destination).
pub open spec fn crate_count(s: Seq<u8>) -> nat {
    count_of(s, 2) + count_of(s, 3)
}

/// Exactly one agent, and as many crates off a destination as empty destinations.
pub open spec fn valid_cells(s: Seq<u8>) -> bool {
    agent_count(s) == 1 && count_of(s, 2) == count_of(s, 6)
}

/// Result of one push-step on the cells of a grid: the new cells and the
/// agent's new position.
pub open spec fn step_result(cells: Seq<u8>, size: Size, cur: Point, d: Direction) -> (Seq<u8>, Point) {
    match neighbor(cur, d, size) {
        None => (cells, cur),
        Some(next) => {
            let s = cells[index_of(next, size)];
            if s == 1 || s == 6 {
                let agent: u8 = if s == 1 { 4 } else { 5 };
                (cells.update(index_of(next, size), agent).update(index_of(cur, size), 1), next)
            } else if s == 2 || s == 3 {
                match neighbor(next, d, size) {
                    None => (cells, cur),
                    Some(beyond) => {
                        let t = cells[index_of(beyond, size)];
                        if t == 1 || t == 6 {
                            let agent: u8 = if s == 2 { 4 } else { 5 };
                            let pushed: u8 = if t == 1 { 2 } else { 3 };
                            (cells.update(index_of(next, size), agent).update(
                                index_of(cur, size),
                                1,
                            ).update(index_of(beyond, size), pushed), next)
                        } else {
                            (cells, cur)
                        }
                    },
                }
            } else {
                (cells, cur)
            }
        },
    }
}

/// A grid of packed cell states with its validity and agent position.
pub struct Board {
    pub field: Vec<u8>,
    pub is_valid: bool,
    pub sokoban_position: Option<Point>,
    pub size: Size,
    pub field_len: usize,
}

impl Board {
    /// The buffer has the length that the size calls for.
    pub open spec fn wf(&self) -> bool {
        &&& cell_count(self.size) <= usize::MAX
        &&& self.field_len == packed_len(self.size)
        &&& self.field@.len() == self.field_len
    }

    /// The cell states of the board, in row-major order.
    pub open spec fn cells(&self) -> Seq<u8> {
        cells_of(self.field@, self.size)
    }

    /// `is_valid` and `sokoban_position` agree with the cells.
    pub open spec fn is_validated(&self) -> bool {
        &&& self.is_valid == valid_cells(self.cells())
        &&& match self.sokoban_position {
            Some(p) => self.is_valid && in_bounds(p, self.size) && is_agent(
                self.cells()[index_of(p, self.size)],
            ),
            None => !self.is_valid,
        }
    }

    /// Whether a move may be made: flagged valid, with an agent position inside the grid.
    pub open spec fn can_move(&self) -> bool {
        &&& self.is_valid
        &&& self.sokoban_position is Some
        &&& in_bounds(self.sokoban_position->0, self.size)
    }

    /// No crate is left off a destination on a valid board.
    pub open spec fn solved(&self) -> bool {
        self.is_valid && count_of(self.cells(), 2) == 0
    }
}

/// A point inside the grid has an index below the number of cells.
pub proof fn lemma_index_in_range(p: Point, size: Size)
    requires
        in_bounds(p, size),
    ensures
        0 <= index_of(p, size) < cell_count(size),
{
    let w = size.width as int;
    let h = size.height as int;
    let x = p.x as int;
    let y = p.y as int;
    assert(0 <= y * w + x < w * h) by (nonlinear_arith)
        requires
            0 <= x < w,
            0 <= y < h,
    {
        assert(y * w + w == (y + 1) * w);
        assert((y + 1) * w <= h * w);
    }
}

/// Writing `state` into one nibble of a byte leaves the other nibble as it was.
pub proof fn lemma_nibble_write(v: u8, state: u8)
    requires
        state <= MAX_STATE,
    ensures
        ((v & 0xF0) | state) & 0x0F == state,
        ((v & 0xF0) | state) >> 4 == v >> 4,
        (((state << 4) as u8) | (v & 15)) >> 4 == state,
        (((state << 4) as u8) | (v & 15)) & 0x0F == v & 0x0F,
{
    assert(((v & 0xF0) | state) & 0x0F == state) by (bit_vector)
        requires
            state <= 6,
    ;
    assert(((v & 0xF0) | state) >> 4 == v >> 4) by (bit_vector)
        requires
            state <= 6,
    ;
    assert((((state << 4) as u8) | (v & 15)) >> 4 == state) by (bit_vector)
        requires
            state <= 6,
    ;
    assert((((state << 4) as u8) | (v & 15)) & 0x0F == v & 0x0F) by (bit_vector);
}

/// Counting over one more entry of a prefix.
pub proof fn lemma_count_take(s: Seq<u8>, i: int, v: u8)
    requires
        0 <= i < s.len(),
    ensures
        count_of(s.take(i + 1), v) == count_of(s.take(i), v) + if s[i] == v {
            1nat
        } else {
            0nat
        },
{
    assert(s.take(i + 1).drop_last() =~= s.take(i));
}

/// A prefix holds no more entries equal to `v` than the whole sequence.
pub proof fn lemma_count_prefix_le(s: Seq<u8>, j: int, v: u8)
    requires
        0 <= j <= s.len(),
    ensures
        count_of(s.take(j), v) <= count_of(s, v),
    decreases s.len() - j,
{
    if j == s.len() {
        assert(s.take(j) =~= s);
    } else {
        lemma_count_take(s, j, v);
        lemma_count_prefix_le(s, j + 1, v);
    }
}

/// A sequence that holds `v` somewhere counts it at least once.
pub proof fn lemma_count_positive(s: Seq<u8>, i: int, v: u8)
    requires
        0 <= i < s.len(),
        s[i] == v,
    ensures
        count_of(s, v) > 0,
{
    lemma_count_take(s, i, v);
    lemma_count_prefix_le(s, i + 1, v);
}

impl Board {
    /// An all-wall board of the given size, not yet valid.
    pub fn new(size: Size) -> (r: Board)
        requires
            cell_count(size) <= usize::MAX,
        ensures
            r.wf(),
            r.size == size,
            r.field@ == Seq::new(packed_len(size) as nat, |i: int| 0u8),
            r.cells() == Seq::new(cell_count(size) as nat, |i: int| 0u8),
            !r.is_valid,
            r.sokoban_position is None,
    {
        let n = size.width * size.height;
        let field_len = n / 2 + n % 2;
        let field = vec![0u8; field_len];
        let r = Board { field, is_valid: false, sokoban_position: None, size, field_len };
        assert(0u8 & 0x0F == 0 && 0u8 >> 4 == 0) by (bit_vector);
        assert(r.field@ =~= Seq::new(packed_len(size) as nat, |i: int| 0u8));
        assert(r.cells() =~= Seq::new(cell_count(size) as nat, |i: int| 0u8));
        r
    }

    /// State of the cell at `cord`, or `None` when it lies outside the grid.
    pub fn get_state_at_cell(&self, cord: Point) -> (r: Option<u8>)
        requires
            self.wf(),
        ensures
            r == if in_bounds(cord, self.size) {
                Some(self.cells()[index_of(cord, self.size)])
            } else {
                None::<u8>
            },
    {
        if cord.x >= self.size.width || cord.y >= self.size.height {
            return None;
        }
        proof {
            lemma_index_in_range(cord, self.size);
        }
        let cell_index = cord.y * self.size.width + cord.x;
        let in_vector_index = cell_index / 2;
        if cell_index % 2 == 1 {
            Some(self.field[in_vector_index] & 0x0F)
        } else {
            Some(self.field[in_vector_index] >> 4)
        }
    }

    /// Writes `state` into the cell at `cord`, touching one nibble of one byte.
    pub fn set_state_at_cell(&mut self, cord: Point, state: u8) -> (r: Result<(), BoardError>)
        requires
            old(self).wf(),
        ensures
            r == if state > MAX_STATE {
                Err::<(), BoardError>(BoardError::InvalidState)
            } else if !in_bounds(cord, old(self).size) {
                Err(BoardError::OutOfBounds)
            } else {
                Ok(())
            },
            r is Err ==> *final(self) == *old(self),
            r is Ok ==> {
                &&& final(self).wf()
                &&& final(self).size == old(self).size
                &&& final(self).field_len == old(self).field_len
                &&& final(self).is_valid == old(self).is_valid
                &&& final(self).sokoban_position == old(self).sokoban_position
                &&& final(self).cells() == old(self).cells().update(index_of(cord, old(self).size), state)
                &&& spare_nibble_kept(final(self).field@, old(self).field@, old(self).size)
                &&& final(self).field@ == old(self).field@.update(
                    index_of(cord, old(self).size) / 2,
                    with_nibble(
                        old(self).field@[index_of(cord, old(self).size) / 2],
                        index_of(cord, old(self).size),
                        state,
                    ),
                )
            },
    {
        if state > MAX_STATE {
            return Err(BoardError::InvalidState);
        }
        if cord.x >= self.size.width || cord.y >= self.size.height {
            return Err(BoardError::OutOfBounds);
        }
        proof {
            lemma_index_in_range(cord, self.size);
        }
        let cell_index = cord.y * self.size.width + cord.x;
        let in_vector_index = cell_index / 2;
        let old_value: u8 = self.field[in_vector_index];
        let value: u8 = if cell_index % 2 == 1 {
            (old_value & 0xF0) | state
        } else {
            ((state << 4) as u8) | (old_value & 15)
        };
        proof {
            lemma_nibble_write(old_value, state);
        }
        self.field.set(in_vector_index, value);
        proof {
            let idx = cell_index as int;
            let oc = old(self).cells();
            let nc = self.cells();
            assert forall|i: int| 0 <= i < nc.len() implies nc[i] == oc.update(idx, state)[i] by {
                if i / 2 != idx / 2 {
                    assert(self.field@[i / 2] == old(self).field@[i / 2]);
                }
            }
            assert(nc =~= oc.update(idx, state));
            assert(self.field@ =~= old(self).field@.update(idx / 2, with_nibble(old_value, idx, state)));
            assert forall|k: int|
                0 <= k < self.field@.len() && 2 * k + 1 >= cell_count(self.size) implies #[trigger] self.field@[k]
                & 0x0F == old(self).field@[k] & 0x0F by {
                if k == idx / 2 {
                    assert(idx % 2 == 0);
                }
            }
        }
        Ok(())
    }
    /// A copy of the board with its own buffer.
    pub fn clone(&self) -> (r: Board)
        ensures
            r.field@ == self.field@,
            r.is_valid == self.is_valid,
            r.sokoban_position == self.sokoban_position,
            r.size == self.size,
            r.field_len == self.field_len,
    {
        let field = self.field.clone();
        assert(field@ =~= self.field@);
        Board {
            field,
            is_valid: self.is_valid,
            sokoban_position: self.sokoban_position,
            size: self.size,
            field_len: self.field_len,
        }
    }

    /// A copy whose `is_valid` and `sokoban_position` are recomputed from the cells.
    pub fn validate_board(&self) -> (r: Board)
        requires
            self.wf(),
        ensures
            r.wf(),
            r.field@ == self.field@,
            r.size == self.size,
            r.field_len == self.field_len,
            r.is_validated(),
    {
        let mut board = self.clone();
        let w = self.size.width;
        let n = self.size.width * self.size.height;
        let ghost cells = self.cells();
        let mut i: usize = 0;
        let mut x: usize = 0;
        let mut y: usize = 0;
        let mut sokoban_counter: usize = 0;
        let mut box_counter: usize = 0;
        let mut dest_counter: usize = 0;
        let mut sokoban_position = Point { x: 0, y: 0 };
        while i < n
            invariant
                self.wf(),
                cells == self.cells(),
                n == cell_count(self.size),
                w == self.size.width,
                i <= n,
                y as int * w as int + x as int == i as int,
                w > 0 ==> x < w,
                sokoban_counter == agent_count(cells.take(i as int)),
                box_counter == count_of(cells.take(i as int), 2),
                dest_counter == count_of(cells.take(i as int), 6),
                sokoban_counter <= i,
                box_counter <= i,
                dest_counter <= i,
                sokoban_counter > 0 ==> in_bounds(sokoban_position, self.size) && is_agent(
                    cells[index_of(sokoban_position, self.size)],
                ),
            decreases n - i,
        {
            let ghost xi = x as int;
            let ghost yi = y as int;
            let ghost wi = w as int;
            let ghost hi = self.size.height as int;
            assert(wi > 0) by (nonlinear_arith)
                requires
                    0 <= i < n,
                    n == wi * hi,
                    hi >= 0,
            ;
            assert(yi < hi) by (nonlinear_arith)
                requires
                    yi * wi + xi < wi * hi,
                    0 <= xi,
                    wi > 0,
            ;
            let p = Point { x, y };
            proof {
                lemma_count_take(cells, i as int, 2);
                lemma_count_take(cells, i as int, 4);
                lemma_count_take(cells, i as int, 5);
                lemma_count_take(cells, i as int, 6);
            }
            match self.get_state_at_cell(p) {
                Some(state) => {
                    if state == 2 {
                        box_counter += 1;
                    } else if state == 4 || state == 5 {
                        sokoban_counter += 1;
                        sokoban_position = p;
                    } else if state == 6 {
                        dest_counter += 1;
                    }
                },
                None => {},
            }
            i += 1;
            if x + 1 == w {
                proof {
                    assert(yi * wi + wi == (yi + 1) * wi) by (nonlinear_arith);
                }
                x = 0;
                y += 1;
            } else {
                x += 1;
            }
        }
        assert(cells.take(n as int) =~= cells);
        let is_valid = sokoban_counter == 1 && box_counter == dest_counter;
        board.is_valid = is_valid;
        if is_valid {
            board.sokoban_position = Some(sokoban_position);
        } else {
            board.sokoban_position = None;
        }
        board
    }

    /// Builds a board from packed bytes and validates it. A buffer whose length
    /// is not the packed length of the size is refused, as is a size whose cell
    /// count does not fit in `usize`.
    pub fn from(field: Vec<u8>, size: Size) -> (r: Result<Board, BoardError>)
        ensures
            r is Err <==> cell_count(size) > usize::MAX || field@.len() != packed_len(size),
            r is Err ==> r == Err::<Board, BoardError>(BoardError::LengthMismatch),
            r matches Ok(b) ==> {
                &&& b.wf()
                &&& b.field@ == field@
                &&& b.size == size
                &&& b.is_validated()
            },
    {
        let n = match size.width.checked_mul(size.height) {
            Some(n) => n,
            None => {
                return Err(BoardError::LengthMismatch);
            },
        };
        let field_len = n / 2 + n % 2;
        if field.len() != field_len {
            return Err(BoardError::LengthMismatch);
        }
        let board = Board { field, is_valid: false, sokoban_position: None, size, field_len };
        Ok(board.validate_board())
    }

    /// Whether every crate stands on a destination of a valid board.
    pub fn check_if_finished(&self) -> (r: bool)
        requires
            self.wf(),
        ensures
            r == self.solved(),
    {
        if !self.is_valid {
            return false;
        }
        let n = self.size.width * self.size.height;
        let ghost cells = self.cells();
        let mut i: usize = 0;
        while i < n
            invariant
                self.wf(),
                cells == self.cells(),
                n == cell_count(self.size),
                i <= n,
                count_of(cells.take(i as int), 2) == 0,
            decreases n - i,
        {
            proof {
                lemma_count_take(cells, i as int, 2);
            }
            let state = if i % 2 == 1 {
                self.field[i / 2] & 0x0F
            } else {
                self.field[i / 2] >> 4
            };
            if state == 2 {
                proof {
                    lemma_count_positive(cells, i as int, 2);
                }
                return false;
            }
            i += 1;
        }
        assert(cells.take(n as int) =~= cells);
        true
    }
    /// One push-step of the agent in `direction`, made on a copy of the board.
    /// A step toward a wall, the grid's edge or a blocked crate leaves the
    /// cells as they were; `is_valid` is carried over unchanged.
    pub fn make_step(&self, direction: Direction) -> (r: Result<Board, BoardError>)
        requires
            self.wf(),
        ensures
            r is Err <==> !self.can_move(),
            r is Err ==> r == Err::<Board, BoardError>(BoardError::InvalidBoard),
            r matches Ok(b) ==> {
                let res = step_result(
                    self.cells(),
                    self.size,
                    self.sokoban_position->0,
                    direction,
                );
                &&& b.wf()
                &&& b.size == self.size
                &&& b.field_len == self.field_len
                &&& b.is_valid == self.is_valid
                &&& b.cells() == res.0
                &&& spare_nibble_kept(b.field@, self.field@, self.size)
                &&& b.sokoban_position == Some(res.1)
            },
    {
        let cur = match self.sokoban_position {
            Some(p) => p,
            None => {
                return Err(BoardError::InvalidBoard);
            },
        };
        if !self.is_valid || cur.x >= self.size.width || cur.y >= self.size.height {
            return Err(BoardError::InvalidBoard);
        }
        let mut board = self.clone();
        let next = match cur.get_point_in_direction(direction) {
            Some(p) => p,
            None => {
                return Ok(board);
            },
        };
        let state_at_next = match board.get_state_at_cell(next) {
            Some(state) => state,
            None => {
                return Ok(board);
            },
        };
        if state_at_next == 1 || state_at_next == 6 {
            let agent: u8 = if state_at_next == 1 {
                4
            } else {
                5
            };
            let _ = board.set_state_at_cell(next, agent);
            board.sokoban_position = Some(next);
            let _ = board.set_state_at_cell(cur, 1);
        } else if state_at_next == 2 || state_at_next == 3 {
            if let Some(beyond) = next.get_point_in_direction(direction) {
                if let Some(state_beyond) = board.get_state_at_cell(beyond) {
                    if state_beyond == 1 || state_beyond == 6 {
                        let agent: u8 = if state_at_next == 2 {
                            4
                        } else {
                            5
                        };
                        let pushed: u8 = if state_beyond == 1 {
                            2
                        } else {
                            3
                        };
                        let _ = board.set_state_at_cell(next, agent);
                        board.sokoban_position = Some(next);
                        let _ = board.set_state_at_cell(cur, 1);
                        let _ = board.set_state_at_cell(beyond, pushed);
                    }
                }
            }
        }
        Ok(board)
    }
}

} // verus!
