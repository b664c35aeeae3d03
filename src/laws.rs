use vstd::prelude::*;

use crate::auxiliary::{Direction, Point, Size};
use crate::board::{
    agent_count, cell_count, cells_of, count_of, crate_count, in_bounds, index_of, is_agent,
    lemma_count_prefix_le, lemma_count_take, neighbor, packed_len, step_result, valid_cells, Board,
};

verus! {

/// Changing one entry changes its count by what left and what came.
pub proof fn lemma_count_update(s: Seq<u8>, i: int, x: u8, v: u8)
    requires
        0 <= i < s.len(),
    ensures
        count_of(s.update(i, x), v) as int == count_of(s, v) as int - (if s[i] == v {
            1int
        } else {
            0int
        }) + (if x == v {
            1int
        } else {
            0int
        }),
    decreases s.len(),
{
    if i == s.len() - 1 {
        assert(s.update(i, x).drop_last() =~= s.drop_last());
    } else {
        assert(s.update(i, x).drop_last() =~= s.drop_last().update(i, x));
        lemma_count_update(s.drop_last(), i, x, v);
    }
}

/// Two points inside the grid with the same index are the same point.
pub proof fn lemma_index_injective(p: Point, q: Point, size: Size)
    requires
        in_bounds(p, size),
        in_bounds(q, size),
        index_of(p, size) == index_of(q, size),
    ensures
        p == q,
{
    let w = size.width as int;
    let (px, py, qx, qy) = (p.x as int, p.y as int, q.x as int, q.y as int);
    assert(py == qy) by (nonlinear_arith)
        requires
            0 <= px < w,
            0 <= qx < w,
            0 <= py,
            0 <= qy,
            py * w + px == qy * w + qx,
    {
        if py < qy {
            assert(py * w + w <= qy * w);
        } else if qy < py {
            assert(qy * w + w <= py * w);
        }
    }
}

/// Two different positions that hold the agent make at least two agents.
pub proof fn lemma_two_agents(s: Seq<u8>, i: int, j: int)
    requires
        0 <= i < j < s.len(),
        is_agent(s[i]),
        is_agent(s[j]),
    ensures
        agent_count(s) >= 2,
{
    lemma_count_take(s, i, 4);
    lemma_count_take(s, i, 5);
    lemma_count_take(s, j, 4);
    lemma_count_take(s, j, 5);
    let t = s.take(j);
    assert(t.take(i + 1) =~= s.take(i + 1));
    lemma_count_prefix_le(t, i + 1, 4);
    lemma_count_prefix_le(t, i + 1, 5);
    lemma_count_prefix_le(s, j + 1, 4);
    lemma_count_prefix_le(s, j + 1, 5);
}

/// The index of the neighbouring cell differs from the index of the cell by
/// one in a row and by the width across rows.
pub proof fn lemma_neighbor_index(p: Point, d: Direction, size: Size, q: Point)
    requires
        neighbor(p, d, size) == Some(q),
    ensures
        index_of(q, size) == index_of(p, size) + match d {
            Direction::Backward => -1int,
            Direction::Forward => 1int,
            Direction::Up => -(size.width as int),
            Direction::Down => size.width as int,
        },
{
    let w = size.width as int;
    let y = p.y as int;
    assert((y + 1) * w == y * w + w) by (nonlinear_arith);
    assert((y - 1) * w == y * w - w) by (nonlinear_arith);
}

/// Round trip of the packed format: each cell read back from a buffer of the
/// required length is the nibble that holds it (high nibble for the even cell
/// of a byte, low nibble for the odd one), and a byte whose two nibbles both
/// hold cells is packed again, unchanged, from the two cells read back.
pub proof fn lemma_packed_round_trip(field: Seq<u8>, size: Size)
    requires
        field.len() == packed_len(size),
    ensures
        forall|k: int|
            0 <= k && 2 * k < cell_count(size) ==> #[trigger] cells_of(field, size)[2 * k] == field[k]
                >> 4,
        forall|k: int|
            0 <= k && 2 * k + 1 < cell_count(size) ==> #[trigger] cells_of(field, size)[2 * k + 1]
                == field[k] & 0x0F,
        forall|k: int|
            0 <= k && 2 * k + 1 < cell_count(size) ==> field[k] == ((cells_of(field, size)[2 * k]
                << 4u8) as u8) | cells_of(field, size)[#[trigger] (2 * k + 1)],
{
    assert forall|k: int| 0 <= k && 2 * k + 1 < cell_count(size) implies field[k] == ((cells_of(
        field,
        size,
    )[2 * k] << 4u8) as u8) | cells_of(field, size)[#[trigger] (2 * k + 1)] by {
        let b = field[k];
        assert(cells_of(field, size)[2 * k] == b >> 4);
        assert(cells_of(field, size)[2 * k + 1] == b & 0x0F);
        assert(b == (((b >> 4) << 4u8) as u8) | (b & 0x0F)) by (bit_vector);
    }
}

/// Reading back a board built from bytes: the cell at every point inside the
/// grid, as `get_state_at_cell` reports it, is the high nibble of byte
/// `i / 2` for an even row-major index `i` and the low nibble for an odd one.
pub proof fn lemma_read_back_after_from(bytes: Seq<u8>, b: Board)
    requires
        b.wf(),
        b.field@ == bytes,
    ensures
        forall|p: Point|
            in_bounds(p, b.size) ==> #[trigger] b.cells()[index_of(p, b.size)] == if index_of(p, b.size)
                % 2 == 0 {
                bytes[index_of(p, b.size) / 2] >> 4
            } else {
                bytes[index_of(p, b.size) / 2] & 0x0F
            },
{
    assert forall|p: Point| in_bounds(p, b.size) implies #[trigger] b.cells()[index_of(p, b.size)]
        == if index_of(p, b.size) % 2 == 0 {
        bytes[index_of(p, b.size) / 2] >> 4
    } else {
        bytes[index_of(p, b.size) / 2] & 0x0F
    } by {
        crate::board::lemma_index_in_range(p, b.size);
    }
}

/// A validated board is valid exactly when it has one agent and as many
/// crates off a destination as empty destinations; then its agent position
/// is the one cell that holds the agent.
pub proof fn lemma_validated_board(b: Board)
    requires
        b.wf(),
        b.is_validated(),
    ensures
        agent_count(b.cells()) != 1 ==> !b.is_valid,
        count_of(b.cells(), 2) != count_of(b.cells(), 6) ==> !b.is_valid,
        valid_cells(b.cells()) ==> b.is_valid,
        valid_cells(b.cells()) ==> forall|p: Point|
            in_bounds(p, b.size) && is_agent(#[trigger] b.cells()[index_of(p, b.size)])
                ==> b.sokoban_position == Some(p),
{
    if valid_cells(b.cells()) {
        let q = b.sokoban_position->0;
        assert forall|p: Point|
            in_bounds(p, b.size) && is_agent(#[trigger] b.cells()[index_of(p, b.size)]) implies b.sokoban_position
            == Some(p) by {
            crate::board::lemma_index_in_range(p, b.size);
            crate::board::lemma_index_in_range(q, b.size);
            let i = index_of(p, b.size);
            let j = index_of(q, b.size);
            if i < j {
                lemma_two_agents(b.cells(), i, j);
            } else if j < i {
                lemma_two_agents(b.cells(), j, i);
            } else {
                lemma_index_injective(p, q, b.size);
            }
        }
    }
}

/// A step toward a wall or past the grid's edge changes no cell and leaves
/// the agent where it was.
pub proof fn lemma_blocked_step_is_noop(cells: Seq<u8>, size: Size, cur: Point, d: Direction)
    requires
        neighbor(cur, d, size) is None || cells[index_of(neighbor(cur, d, size)->0, size)] == 0,
    ensures
        step_result(cells, size, cur, d) == (cells, cur),
{
}

/// On a valid board a step keeps exactly one agent and as many crates as
/// before, on or off a destination.
pub proof fn lemma_step_conserves_mass(b: Board, d: Direction)
    requires
        b.wf(),
        b.is_validated(),
        b.is_valid,
    ensures
        agent_count(step_result(b.cells(), b.size, b.sokoban_position->0, d).0) == 1,
        crate_count(step_result(b.cells(), b.size, b.sokoban_position->0, d).0) == crate_count(
            b.cells(),
        ),
{
    let s = b.cells();
    let size = b.size;
    let cur = b.sokoban_position->0;
    crate::board::lemma_index_in_range(cur, size);
    let c = index_of(cur, size);
    match neighbor(cur, d, size) {
        None => {},
        Some(next) => {
            crate::board::lemma_index_in_range(next, size);
            lemma_neighbor_index(cur, d, size, next);
            let n = index_of(next, size);
            let sn = s[n];
            if sn == 1 || sn == 6 {
                let agent: u8 = if sn == 1 {
                    4
                } else {
                    5
                };
                let s1 = s.update(n, agent);
                lemma_count_update(s, n, agent, 2);
                lemma_count_update(s, n, agent, 3);
                lemma_count_update(s, n, agent, 4);
                lemma_count_update(s, n, agent, 5);
                lemma_count_update(s1, c, 1, 2);
                lemma_count_update(s1, c, 1, 3);
                lemma_count_update(s1, c, 1, 4);
                lemma_count_update(s1, c, 1, 5);
            } else if sn == 2 || sn == 3 {
                match neighbor(next, d, size) {
                    None => {},
                    Some(beyond) => {
                        crate::board::lemma_index_in_range(beyond, size);
                        lemma_neighbor_index(next, d, size, beyond);
                        let e = index_of(beyond, size);
                        let t = s[e];
                        if t == 1 || t == 6 {
                            let agent: u8 = if sn == 2 {
                                4
                            } else {
                                5
                            };
                            let pushed: u8 = if t == 1 {
                                2
                            } else {
                                3
                            };
                            let s1 = s.update(n, agent);
                            let s2 = s1.update(c, 1);
                            lemma_count_update(s, n, agent, 2);
                            lemma_count_update(s, n, agent, 3);
                            lemma_count_update(s, n, agent, 4);
                            lemma_count_update(s, n, agent, 5);
                            lemma_count_update(s1, c, 1, 2);
                            lemma_count_update(s1, c, 1, 3);
                            lemma_count_update(s1, c, 1, 4);
                            lemma_count_update(s1, c, 1, 5);
                            lemma_count_update(s2, e, pushed, 2);
                            lemma_count_update(s2, e, pushed, 3);
                            lemma_count_update(s2, e, pushed, 4);
                            lemma_count_update(s2, e, pushed, 5);
                        }
                    },
                }
            }
        },
    }
}

} // verus!
