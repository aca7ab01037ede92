use vstd::prelude::*;
use nanorand::Rng;

verus! {

/// Side length of the square grid.
pub const SIZE: usize = 5;

/// A 5×5 grid of cells; 0 is a dead cell and 1 a live one.
pub type Grid = [[u8; 5]; 5];

/// Every cell holds 0 or 1.
pub open spec fn is_grid(g: Grid) -> bool {
    forall|i: int, j: int| 0 <= i < 5 && 0 <= j < 5 ==> #[trigger] g[i][j] <= 1
}

/// Every cell of `g` is dead.
pub open spec fn all_dead(g: Grid) -> bool {
    forall|i: int, j: int| 0 <= i < 5 && 0 <= j < 5 ==> #[trigger] g[i][j] == 0
}

/// `h` is `g` with every cell flipped.
pub open spec fn complemented(g: Grid, h: Grid) -> bool {
    forall|i: int, j: int| 0 <= i < 5 && 0 <= j < 5 ==> #[trigger] h[i][j] == g[i][j] ^ 1
}

/// The cell at row `i`, column `j` lies on the grid and is live.
/// Positions off the grid are never live: the grid does not wrap.
pub open spec fn alive_at(g: Grid, i: int, j: int) -> bool {
    0 <= i < 5 && 0 <= j < 5 && g[i][j] == 1
}

/// 1 for a live cell at row `i`, column `j`, else 0.
pub open spec fn live_bit(g: Grid, i: int, j: int) -> int {
    if alive_at(g, i, j) { 1 } else { 0 }
}

/// Number of live cells among the eight neighbours of row `i`, column `j`.
pub open spec fn live_neighbors(g: Grid, i: int, j: int) -> int {
    live_bit(g, i - 1, j - 1) + live_bit(g, i - 1, j) + live_bit(g, i - 1, j + 1)
        + live_bit(g, i, j - 1) + live_bit(g, i, j + 1)
        + live_bit(g, i + 1, j - 1) + live_bit(g, i + 1, j) + live_bit(g, i + 1, j + 1)
}

/// The state of row `i`, column `j` in the generation after `g`: a live cell
/// with two or three live neighbours survives, a dead one with exactly three
/// is born, every other cell is dead.
pub open spec fn next_cell(g: Grid, i: int, j: int) -> u8 {
    let n = live_neighbors(g, i, j);
    if alive_at(g, i, j) {
        if n == 2 || n == 3 { 1 } else { 0 }
    } else {
        if n == 3 { 1 } else { 0 }
    }
}

/// `h` is the generation that follows `g`, every cell computed from `g` alone.
pub open spec fn is_next_generation(g: Grid, h: Grid) -> bool {
    forall|i: int, j: int| 0 <= i < 5 && 0 <= j < 5 ==> #[trigger] h[i][j] == next_cell(g, i, j)
}

/// nanorand's 128-bit PCG generator, carried through as an opaque value.
#[verifier::external_type_specification]
#[verifier::external_body]
pub struct ExPcg64(nanorand::Pcg64);

/// The random source of the board: nanorand's PCG generator, with a record
/// of every cell value drawn from it so far, oldest first.
pub struct Generator {
    pub rng: nanorand::Pcg64,
    pub drawn: Ghost<Seq<u8>>,
}

impl Generator {
    /// Wraps a seeded generator; nothing drawn yet.
    pub fn new(rng: nanorand::Pcg64) -> (r: Generator)
        ensures
            r.drawn@ == Seq::<u8>::empty(),
    {
        Generator { rng, drawn: Ghost(Seq::empty()) }
    }
}

/// Cell `(i, j)` of `g` is draw `start + 5 * i + j` of `log`: the grid was
/// filled row by row from the draws that begin at `start`.
pub open spec fn filled_from(g: Grid, log: Seq<u8>, start: int) -> bool {
    forall|i: int, j: int| 0 <= i < 5 && 0 <= j < 5 ==> #[trigger] g[i][j] == log[start + 5 * i + j]
}

/// `after` is `before` followed by exactly `n` more draws.
pub open spec fn drew(before: Seq<u8>, after: Seq<u8>, n: int) -> bool {
    after.len() == before.len() + n && after.subrange(0, before.len() as int) == before
}

/// Relies on nanorand's `Rng::generate_range` over `0..=1` on a `Pcg64`:
/// the value lies in the range. The value is appended to the record.
#[verifier::external_body]
fn random_cell(g: &mut Generator) -> (r: u8)
    ensures
        r <= 1,
        final(g).drawn@ == old(g).drawn@.push(r),
{
    g.rng.generate_range(0u8..=1)
}

/// A fresh grid whose cells are the generator's next 25 draws, row by row.
pub fn init_board(rng: &mut Generator) -> (r: Grid)
    ensures
        is_grid(r),
        drew(old(rng).drawn@, final(rng).drawn@, 25),
        filled_from(r, final(rng).drawn@, old(rng).drawn@.len() as int),
{
    let ghost log0 = rng.drawn@;
    let ghost n0 = log0.len() as int;
    let mut randomized_board: Grid = [[0u8; 5]; 5];
    let mut i: usize = 0;
    while i < SIZE
        invariant
            0 <= i <= 5,
            n0 == log0.len(),
            forall|r: int, c: int| 0 <= r < 5 && 0 <= c < 5 ==> #[trigger] randomized_board[r][c] <= 1,
            rng.drawn@.len() == n0 + 5 * i,
            forall|k: int| 0 <= k < n0 ==> #[trigger] rng.drawn@[k] == log0[k],
            forall|r: int, c: int| 0 <= r < i && 0 <= c < 5 ==>
                #[trigger] randomized_board[r][c] == rng.drawn@[n0 + 5 * r + c],
        decreases 5 - i,
    {
        let mut j: usize = 0;
        while j < SIZE
            invariant
                0 <= j <= 5,
                0 <= i < 5,
                n0 == log0.len(),
                forall|r: int, c: int| 0 <= r < 5 && 0 <= c < 5 ==> #[trigger] randomized_board[r][c] <= 1,
                rng.drawn@.len() == n0 + 5 * i + j,
                forall|k: int| 0 <= k < n0 ==> #[trigger] rng.drawn@[k] == log0[k],
                forall|r: int, c: int| (0 <= r < i && 0 <= c < 5) || (r == i && 0 <= c < j) ==>
                    #[trigger] randomized_board[r][c] == rng.drawn@[n0 + 5 * r + c],
            decreases 5 - j,
        {
            let ghost before = rng.drawn@;
            let v: u8 = random_cell(rng);
            randomized_board[i][j] = v;
            assert forall|r: int, c: int| (0 <= r < i && 0 <= c < 5) || (r == i && 0 <= c < j) implies
                #[trigger] randomized_board[r][c] == rng.drawn@[n0 + 5 * r + c] by {
                assert(before.push(v)[n0 + 5 * r + c] == before[n0 + 5 * r + c]);
            }
            j = j + 1;
        }
        i = i + 1;
    }
    assert(rng.drawn@.subrange(0, n0) =~= log0);
    randomized_board
}

/// Two grids filled from the same run of draws are the same grid.
pub proof fn lemma_same_draws_same_grid(g: Grid, h: Grid, log: Seq<u8>, start: int)
    requires
        filled_from(g, log, start),
        filled_from(h, log, start),
    ensures
        g == h,
{
    assert forall|i: int| 0 <= i < 5 implies #[trigger] g[i] == h[i] by {
        assert forall|j: int| 0 <= j < 5 implies #[trigger] g[i][j] == h[i][j] by {
            assert(g[i][j] == log[start + 5 * i + j]);
            assert(h[i][j] == log[start + 5 * i + j]);
        }
        assert(g[i] =~= h[i]);
    }
    assert(g =~= h);
}

/// Whether every cell is dead.
pub fn is_done(current_board_state: &Grid) -> (r: bool)
    ensures
        r == all_dead(*current_board_state),
{
    let mut i: usize = 0;
    while i < SIZE
        invariant
            0 <= i <= 5,
            forall|r: int, c: int| 0 <= r < i && 0 <= c < 5 ==> #[trigger] current_board_state[r][c] == 0,
        decreases 5 - i,
    {
        let mut j: usize = 0;
        while j < SIZE
            invariant
                0 <= j <= 5,
                0 <= i < 5,
                forall|r: int, c: int| 0 <= r < i && 0 <= c < 5 ==> #[trigger] current_board_state[r][c] == 0,
                forall|c: int| 0 <= c < j ==> #[trigger] current_board_state[i as int][c] == 0,
            decreases 5 - j,
        {
            if current_board_state[i][j] != 0 {
                return false;
            }
            j = j + 1;
        }
        i = i + 1;
    }
    true
}

/// 1 when row `i`, column `j` lies on the grid and holds a live cell, else 0.
fn live_at(g: &Grid, i: usize, j: usize, di: usize, dj: usize) -> (r: u8)
    requires
        i < 5,
        j < 5,
        di <= 2,
        dj <= 2,
    ensures
        r as int == live_bit(*g, i + di - 1, j + dj - 1),
{
    if i + di < 1 || j + dj < 1 || i + di - 1 >= SIZE || j + dj - 1 >= SIZE {
        0
    } else if g[i + di - 1][j + dj - 1] == 1 {
        1
    } else {
        0
    }
}

/// Counts the live cells among the eight neighbours of row `i`, column `j`.
fn count_live_neighbors(g: &Grid, i: usize, j: usize) -> (n: u8)
    requires
        i < 5,
        j < 5,
    ensures
        n as int == live_neighbors(*g, i as int, j as int),
{
    live_at(g, i, j, 0, 0) + live_at(g, i, j, 0, 1) + live_at(g, i, j, 0, 2)
        + live_at(g, i, j, 1, 0) + live_at(g, i, j, 1, 2)
        + live_at(g, i, j, 2, 0) + live_at(g, i, j, 2, 1) + live_at(g, i, j, 2, 2)
}

/// The generation that follows `g`, computed into a separate grid so that no
/// cell sees an already updated neighbour.
pub fn next_generation(g: &Grid) -> (h: Grid)
    ensures
        is_next_generation(*g, h),
        is_grid(h),
{
    let mut h: Grid = [[0u8; 5]; 5];
    let mut i: usize = 0;
    while i < SIZE
        invariant
            0 <= i <= 5,
            forall|r: int, c: int| 0 <= r < i && 0 <= c < 5 ==> #[trigger] h[r][c] == next_cell(*g, r, c),
            forall|r: int, c: int| 0 <= r < 5 && 0 <= c < 5 ==> #[trigger] h[r][c] <= 1,
        decreases 5 - i,
    {
        let mut j: usize = 0;
        while j < SIZE
            invariant
                0 <= j <= 5,
                0 <= i < 5,
                forall|r: int, c: int| 0 <= r < i && 0 <= c < 5 ==> #[trigger] h[r][c] == next_cell(*g, r, c),
                forall|c: int| 0 <= c < j ==> #[trigger] h[i as int][c] == next_cell(*g, i as int, c),
                forall|r: int, c: int| 0 <= r < 5 && 0 <= c < 5 ==> #[trigger] h[r][c] <= 1,
            decreases 5 - j,
        {
            let n: u8 = count_live_neighbors(g, i, j);
            let live: bool = g[i][j] == 1;
            h[i][j] = if (live && (n == 2 || n == 3)) || (!live && n == 3) { 1 } else { 0 };
            j = j + 1;
        }
        i = i + 1;
    }
    h
}

/// Replaces the grid by its next generation.
pub fn advance(current_board_state: &mut Grid)
    ensures
        is_next_generation(*old(current_board_state), *final(current_board_state)),
        is_grid(*final(current_board_state)),
{
    *current_board_state = next_generation(current_board_state);
}

/// Flips every cell in place: a dead cell becomes live and a live one dead.
pub fn complement_board(current_board_state: &mut Grid)
    ensures
        complemented(*old(current_board_state), *final(current_board_state)),
        is_grid(*old(current_board_state)) ==> is_grid(*final(current_board_state)),
        is_grid(*old(current_board_state)) ==> forall|i: int, j: int|
            0 <= i < 5 && 0 <= j < 5 ==> #[trigger] (*final(current_board_state))[i][j]
                == 1 - (*old(current_board_state))[i][j],
{
    let ghost g0 = *current_board_state;
    let mut i: usize = 0;
    while i < SIZE
        invariant
            0 <= i <= 5,
            forall|r: int, c: int| 0 <= r < i && 0 <= c < 5 ==> #[trigger] (*current_board_state)[r][c] == g0[r][c] ^ 1,
            forall|r: int, c: int| i <= r < 5 && 0 <= c < 5 ==> #[trigger] (*current_board_state)[r][c] == g0[r][c],
        decreases 5 - i,
    {
        let mut j: usize = 0;
        while j < SIZE
            invariant
                0 <= j <= 5,
                0 <= i < 5,
                forall|r: int, c: int| 0 <= r < i && 0 <= c < 5 ==> #[trigger] (*current_board_state)[r][c] == g0[r][c] ^ 1,
                forall|c: int| 0 <= c < j ==> #[trigger] (*current_board_state)[i as int][c] == g0[i as int][c] ^ 1,
                forall|r: int, c: int| i <= r < 5 && 0 <= c < 5 && (r != i || c >= j) ==> #[trigger] (*current_board_state)[r][c] == g0[r][c],
            decreases 5 - j,
        {
            current_board_state[i][j] = current_board_state[i][j] ^ 1;
            j = j + 1;
        }
        i = i + 1;
    }
    assert forall|i: int, j: int| 0 <= i < 5 && 0 <= j < 5 && g0[i][j] <= 1 implies
        #[trigger] (g0[i][j] ^ 1) == 1 - g0[i][j] by {
        let x: u8 = g0[i][j];
        assert(x <= 1 ==> (x ^ 1) == 1 - x) by (bit_vector);
    }
}

/// Flipping every cell twice gives back the grid one started from.
pub proof fn lemma_complement_involution(g: Grid, h: Grid, k: Grid)
    requires
        complemented(g, h),
        complemented(h, k),
    ensures
        k == g,
{
    assert forall|i: int, j: int| 0 <= i < 5 && 0 <= j < 5 implies #[trigger] k[i][j] == g[i][j] by {
        let x: u8 = g[i][j];
        assert((x ^ 1) ^ 1 == x) by (bit_vector);
    }
    assert forall|i: int| 0 <= i < 5 implies #[trigger] k[i] == g[i] by {
        assert(k[i] =~= g[i]);
    }
    assert(k =~= g);
}

/// A grid with no live cell has no live cell in its next generation.
pub proof fn lemma_dead_grid_stays_dead(g: Grid, h: Grid)
    requires
        all_dead(g),
        is_next_generation(g, h),
    ensures
        all_dead(h),
{
    assert forall|i: int, j: int| 0 <= i < 5 && 0 <= j < 5 implies #[trigger] h[i][j] == 0 by {
        assert(h[i][j] == next_cell(g, i, j));
    }
}

/// A live cell with no live neighbour dies in the next generation.
pub proof fn lemma_isolated_cell_dies(g: Grid, h: Grid, i: int, j: int)
    requires
        is_next_generation(g, h),
        0 <= i < 5,
        0 <= j < 5,
        live_neighbors(g, i, j) == 0,
    ensures
        h[i][j] == 0,
{
    assert(h[i][j] == next_cell(g, i, j));
}

/// A grid whose only live cell is row `i`, column `j` becomes all dead.
pub proof fn lemma_lone_cell_dies(g: Grid, h: Grid, i: int, j: int)
    requires
        is_next_generation(g, h),
        0 <= i < 5,
        0 <= j < 5,
        forall|r: int, c: int| 0 <= r < 5 && 0 <= c < 5 && (r != i || c != j) ==> #[trigger] g[r][c] == 0,
    ensures
        all_dead(h),
{
    assert forall|r: int, c: int| 0 <= r < 5 && 0 <= c < 5 implies #[trigger] h[r][c] == 0 by {
        assert(h[r][c] == next_cell(g, r, c));
        assert(live_neighbors(g, r, c) <= 1);
    }
}

/// The grid whose live cells are exactly the 2×2 block with top-left corner
/// at row `r0`, column `c0`.
pub open spec fn is_block(g: Grid, r0: int, c0: int) -> bool {
    forall|i: int, j: int| 0 <= i < 5 && 0 <= j < 5 ==> #[trigger] g[i][j]
        == if r0 <= i <= r0 + 1 && c0 <= j <= c0 + 1 { 1u8 } else { 0u8 }
}

/// A lone 2×2 block is a still life, wherever it stands on the grid,
/// edges and corners included.
pub proof fn lemma_block_is_still_life(g: Grid, h: Grid, r0: int, c0: int)
    requires
        0 <= r0 < 4,
        0 <= c0 < 4,
        is_block(g, r0, c0),
        is_next_generation(g, h),
    ensures
        h == g,
{
    assert forall|i: int, j: int| 0 <= i < 5 && 0 <= j < 5 implies #[trigger] h[i][j] == g[i][j] by {
        assert(h[i][j] == next_cell(g, i, j));
    }
    assert forall|i: int| 0 <= i < 5 implies #[trigger] h[i] == g[i] by {
        assert(h[i] =~= g[i]);
    }
    assert(h =~= g);
}

} // verus!
