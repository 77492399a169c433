//! The level model: the tile grid parsed from tab-separated text, the start
//! coordinate, and the wall-adjacency autotiling over the grid.
//!
//! A level document is a sequence of rows (one text line each); each row is a
//! sequence of cells separated by tabs. The leading byte of a cell selects
//! the tile: `.` empty, `#` wall, `M` missile spawner, `L` laser spawner
//! (followed by a one-byte separator and a decimal angle in radians), `T`
//! trap, `G` goal, and `*` empty while recording the cell as the player's
//! start coordinate. Any other leading byte is a fatal parse error, as is a
//! ragged grid: every row must have exactly as many cells as the first.

use vstd::prelude::*;
use crate::enemy::Projectile;
use crate::geom::{Vec2, TILE_SIZE, WORLD_LIMIT};

verus! {

/// Cell separator within a row.
pub const CELL_SEPARATOR: u8 = 9;

/// The first index of `t` in `s`, or `s.len()` when `t` does not occur.
pub open spec fn first_pos(s: Seq<u8>, t: u8) -> int
    decreases s.len(),
{
    if s.len() == 0 {
        0
    } else if s[0] == t {
        0
    } else {
        1 + first_pos(s.skip(1), t)
    }
}

/// `first_pos` is the first occurrence: it lies in `0 .. s.len()`, nothing
/// before it equals `t`, and it either is `s.len()` or points at `t`.
pub proof fn lemma_first_pos(s: Seq<u8>, t: u8)
    ensures
        0 <= first_pos(s, t) <= s.len(),
        forall|j: int| 0 <= j < first_pos(s, t) ==> s[j] != t,
        first_pos(s, t) < s.len() ==> s[first_pos(s, t)] == t,
    decreases s.len(),
{
    if s.len() > 0 && s[0] != t {
        lemma_first_pos(s.skip(1), t);
        assert forall|j: int| 0 <= j < first_pos(s, t) implies s[j] != t by {
            if j > 0 {
                assert(s.skip(1)[j - 1] == s[j]);
            }
        }
        if first_pos(s, t) < s.len() {
            assert(s.skip(1)[first_pos(s, t) - 1] == s[first_pos(s, t)]);
        }
    }
}

/// Conversely, an index before which `t` never occurs and which is the end
/// or holds `t` is `first_pos`.
pub proof fn lemma_first_pos_unique(s: Seq<u8>, t: u8, k: int)
    requires
        0 <= k <= s.len(),
        forall|j: int| 0 <= j < k ==> s[j] != t,
        k < s.len() ==> s[k] == t,
    ensures
        first_pos(s, t) == k,
    decreases s.len(),
{
    if s.len() > 0 && s[0] != t {
        assert forall|j: int| 0 <= j < k - 1 implies s.skip(1)[j] != t by {
            assert(s.skip(1)[j] == s[j + 1]);
        }
        if k < s.len() {
            assert(s.skip(1)[k - 1] == s[k]);
        }
        lemma_first_pos_unique(s.skip(1), t, k - 1);
    }
}

/// A row's cells: the maximal runs of bytes between separators. A row with
/// no separator is a single cell; each separator starts one more cell, so
/// there is always at least one cell and possibly empty ones.
pub open spec fn spec_cells(line: Seq<u8>) -> Seq<Seq<u8>>
    decreases line.len(),
    via spec_cells_decreases
{
    let p = first_pos(line, CELL_SEPARATOR);
    if p == line.len() {
        seq![line]
    } else {
        seq![line.take(p)] + spec_cells(line.skip(p + 1))
    }
}

#[via_fn]
proof fn spec_cells_decreases(line: Seq<u8>) {
    lemma_first_pos(line, CELL_SEPARATOR);
}

/// Split one row into its cells.
pub fn split_cells(line: &Vec<u8>) -> (cells: Vec<Vec<u8>>)
    ensures
        cells@.len() == spec_cells(line@).len(),
        forall|k: int| 0 <= k < cells@.len() ==> cells@[k]@ == spec_cells(line@)[k],
{
    let mut cells: Vec<Vec<u8>> = Vec::new();
    let mut cur: Vec<u8> = Vec::new();
    let mut start: usize = 0;
    let mut i: usize = 0;
    proof {
        assert(line@.skip(0) =~= line@);
    }
    while i < line.len()
        invariant
            0 <= start <= i <= line@.len(),
            cur@ =~= line@.subrange(start as int, i as int),
            forall|j: int| start <= j < i ==> line@[j] != CELL_SEPARATOR,
            spec_cells(line@) =~= cells@.map_values(|c: Vec<u8>| c@) + spec_cells(
                line@.skip(start as int),
            ),
        decreases line@.len() - i,
    {
        let b = line[i];
        if b == CELL_SEPARATOR {
            proof {
                let rest = line@.skip(start as int);
                assert forall|j: int| 0 <= j < i - start implies rest[j] != CELL_SEPARATOR by {
                    assert(rest[j] == line@[start + j]);
                }
                assert(rest[i - start] == line@[i as int]);
                lemma_first_pos_unique(rest, CELL_SEPARATOR, i - start);
                assert(rest.take(i - start) =~= cur@);
                assert(rest.skip(i - start + 1) =~= line@.skip(i + 1));
                assert((cells@.map_values(|c: Vec<u8>| c@) + spec_cells(rest))
                    =~= (cells@.map_values(|c: Vec<u8>| c@).push(cur@) + spec_cells(
                    line@.skip(i + 1),
                )));
                assert(cells@.push(cur).map_values(|c: Vec<u8>| c@) =~= cells@.map_values(
                    |c: Vec<u8>| c@,
                ).push(cur@));
            }
            cells.push(cur);
            cur = Vec::new();
            start = i + 1;
        } else {
            cur.push(b);
            proof {
                assert(cur@ =~= line@.subrange(start as int, i + 1));
            }
        }
        i = i + 1;
    }
    proof {
        let rest = line@.skip(start as int);
        assert forall|j: int| 0 <= j < rest.len() implies rest[j] != CELL_SEPARATOR by {
            assert(rest[j] == line@[start + j]);
        }
        lemma_first_pos_unique(rest, CELL_SEPARATOR, rest.len() as int);
        assert(spec_cells(rest) =~= seq![rest]);
        assert(rest =~= cur@);
        assert(cells@.push(cur).map_values(|c: Vec<u8>| c@) =~= cells@.map_values(
            |c: Vec<u8>| c@,
        ).push(cur@));
    }
    cells.push(cur);
    cells
}

/// An ASCII decimal digit.
pub open spec fn is_digit(b: u8) -> bool {
    48 <= b <= 57
}

pub open spec fn all_digits(s: Seq<u8>) -> bool {
    forall|i: int| 0 <= i < s.len() ==> is_digit(s[i])
}

/// The number the digit string denotes, most significant digit first.
pub open spec fn digits_value(s: Seq<u8>) -> int
    decreases s.len(),
{
    if s.len() == 0 {
        0
    } else {
        digits_value(s.drop_last()) * 10 + (s.last() - 48)
    }
}

pub open spec fn pow10(k: nat) -> int
    decreases k,
{
    if k == 0 {
        1
    } else {
        10 * pow10((k - 1) as nat)
    }
}

/// A digit string's value is below ten to its length.
pub proof fn lemma_digits_value_bound(s: Seq<u8>)
    requires
        all_digits(s),
    ensures
        0 <= digits_value(s) < pow10(s.len()),
    decreases s.len(),
{
    if s.len() > 0 {
        assert(all_digits(s.drop_last()));
        lemma_digits_value_bound(s.drop_last());
    }
}

/// The value of a fractional digit string read to six decimal places:
/// digits beyond the sixth are ignored, missing places count as zero.
pub open spec fn frac6_value(s: Seq<u8>) -> int {
    if s.len() >= 6 {
        digits_value(s.take(6))
    } else {
        digits_value(s) * pow10((6 - s.len()) as nat)
    }
}

/// A laser angle in text: an optional minus sign, then decimal digits with
/// at most one point, at least one digit in all, and at most nine integer
/// digits (so the fixed-point value cannot overflow). The value is the
/// angle in microradians, fractional digits beyond the sixth ignored.
pub open spec fn spec_parse_angle(s: Seq<u8>) -> Option<i64> {
    let neg = s.len() > 0 && s[0] == 45;
    let body = if neg {
        s.skip(1)
    } else {
        s
    };
    let p = first_pos(body, 46);
    let intd = body.take(p);
    let fracd = if p == body.len() {
        Seq::<u8>::empty()
    } else {
        body.skip(p + 1)
    };
    if all_digits(intd) && all_digits(fracd) && intd.len() + fracd.len() >= 1 && intd.len() <= 9 {
        let v = digits_value(intd) * 1_000_000 + frac6_value(fracd);
        Some((if neg { -v } else { v }) as i64)
    } else {
        None
    }
}

/// Parse the angle suffix of a laser cell, the bytes from `from` on.
#[verifier::rlimit(60)]
#[verifier::loop_isolation(false)]
pub fn parse_angle(cell: &Vec<u8>, from: usize) -> (r: Option<i64>)
    requires
        from <= cell@.len(),
    ensures
        r == spec_parse_angle(cell@.skip(from as int)),
{
    let ghost s = cell@.skip(from as int);
    let len = cell.len();
    let mut i = from;
    let neg = i < len && cell[i] == 45;
    if neg {
        i = i + 1;
    }
    let ghost body = if neg { s.skip(1) } else { s };
    proof {
        assert(body =~= cell@.skip(i as int));
    }
    // Integer part: digits up to the first point or the end.
    let int_start = i;
    let mut acc: u64 = 0;
    while i < len && cell[i] != 46
        invariant
            int_start <= i <= len,
            len == cell@.len(),
            from <= int_start <= len,
            body == cell@.skip(int_start as int),
            forall|j: int| int_start <= j < i ==> is_digit(cell@[j]) && cell@[j] != 46,
            i - int_start <= 9,
            acc == digits_value(cell@.subrange(int_start as int, i as int)),
            acc < 1_000_000_000,
        decreases len - i,
    {
        let b = cell[i];
        if b < 48 || b > 57 {
            // A non-digit before any point: the integer part is malformed.
            proof {
                lemma_first_pos(body, 46);
                let p = first_pos(body, 46);
                assert(p > i - int_start) by {
                    if p <= i - int_start {
                        assert(body[p] == cell@[int_start + p]);
                    }
                }
                assert(body.take(p)[i - int_start] == cell@[i as int]);
                assert(!all_digits(body.take(p)));
            }
            return None;
        }
        if i - int_start == 9 {
            // A tenth integer digit: the value would overflow the scale.
            proof {
                lemma_first_pos(body, 46);
                let p = first_pos(body, 46);
                assert(forall|j: int| int_start <= j < int_start + 10 ==> cell@[j] != 46);
                assert(p > i - int_start) by {
                    if p <= i - int_start {
                        assert(body[p] == cell@[int_start + p]);
                    }
                }
            }
            return None;
        }
        proof {
            let t = cell@.subrange(int_start as int, i as int);
            assert(cell@.subrange(int_start as int, i + 1).drop_last() =~= t);
            lemma_digits_value_bound(cell@.subrange(int_start as int, i + 1));
            assert(all_digits(cell@.subrange(int_start as int, i + 1)));
        }
        acc = acc * 10 + ((b - 48) as u64);
        proof {
            let t2 = cell@.subrange(int_start as int, i + 1);
            assert(t2.last() == cell@[i as int]);
            assert(pow10(t2.len()) <= pow10(9)) by {
                lemma_pow10_le(t2.len(), 9);
            }
            assert(pow10(9) == 1_000_000_000) by {
                lemma_pow10_9();
            }
        }
        i = i + 1;
    }
    let int_len = i - int_start;
    let ghost p = first_pos(body, 46);
    proof {
        assert forall|j: int| 0 <= j < int_len implies body[j] != 46 by {
            assert(body[j] == cell@[int_start + j]);
        }
        if i < len {
            assert(body[int_len as int] == cell@[i as int]);
        }
        lemma_first_pos_unique(body, 46, int_len as int);
        assert(body.take(p) =~= cell@.subrange(int_start as int, i as int));
    }
    if int_len == 0 && i >= len {
        // No digits at all.
        return None;
    }
    if i >= len {
        // No fractional part.
        proof {
            assert(all_digits(body.take(p)));
            lemma_digits_value_bound(body.take(p));
            assert(frac6_value(Seq::<u8>::empty()) == 0);
        }
        let v = acc as i64 * 1_000_000;
        return Some(if neg { -v } else { v });
    }
    // Fractional part: the remaining bytes must all be digits; only the
    // first six count toward the value.
    i = i + 1;
    let frac_start = i;
    let ghost fracd = cell@.skip(frac_start as int);
    proof {
        assert(fracd =~= body.skip(p + 1));
    }
    let mut fr: u64 = 0;
    while i < len
        invariant
            frac_start <= i <= len,
            len == cell@.len(),
            fracd == cell@.skip(frac_start as int),
            forall|j: int| frac_start <= j < i ==> is_digit(cell@[j]),
            fr == digits_value(
                cell@.subrange(
                    frac_start as int,
                    if i - frac_start <= 6 {
                        i as int
                    } else {
                        frac_start + 6
                    },
                ),
            ),
            fr < 1_000_000,
        decreases len - i,
    {
        let b = cell[i];
        if b < 48 || b > 57 {
            proof {
                assert(fracd[i - frac_start] == cell@[i as int]);
                assert(!all_digits(fracd));
            }
            return None;
        }
        if i - frac_start < 6 {
            proof {
                let t = cell@.subrange(frac_start as int, i as int);
                assert(cell@.subrange(frac_start as int, i + 1).drop_last() =~= t);
                assert(cell@.subrange(frac_start as int, i + 1).last() == cell@[i as int]);
                assert(all_digits(cell@.subrange(frac_start as int, i + 1)));
                lemma_digits_value_bound(cell@.subrange(frac_start as int, i + 1));
                assert(pow10(cell@.subrange(frac_start as int, i + 1).len()) <= pow10(6)) by {
                    lemma_pow10_le(cell@.subrange(frac_start as int, i + 1).len(), 6);
                }
                assert(pow10(6) == 1_000_000) by {
                    lemma_pow10_9();
                }
            }
            fr = fr * 10 + ((b - 48) as u64);
        } else {
            proof {
                assert(cell@.subrange(frac_start as int, frac_start + 6) =~= cell@.subrange(
                    frac_start as int,
                    if i + 1 - frac_start <= 6 {
                        i + 1
                    } else {
                        frac_start + 6
                    },
                ));
            }
        }
        i = i + 1;
    }
    let frac_len = len - frac_start;
    if int_len == 0 && frac_len == 0 {
        // A lone point (or sign and point) holds no digit at all.
        return None;
    }
    let mut pad = if frac_len >= 6 {
        0
    } else {
        6 - frac_len
    };
    let ghost target = frac6_value(fracd);
    proof {
        assert(all_digits(fracd));
        if frac_len >= 6 {
            assert(fracd.take(6) =~= cell@.subrange(frac_start as int, frac_start + 6));
            assert(all_digits(fracd.take(6)));
            lemma_digits_value_bound(fracd.take(6));
            lemma_pow10_9();
        } else {
            assert(fracd =~= cell@.subrange(frac_start as int, len as int));
            assert(pow10(0) == 1);
            lemma_digits_value_bound(fracd);
            lemma_pow10_add(fracd.len(), (6 - fracd.len()) as nat);
            lemma_pow10_pos((6 - fracd.len()) as nat);
            assert(digits_value(fracd) * pow10((6 - fracd.len()) as nat) < pow10(fracd.len())
                * pow10((6 - fracd.len()) as nat)) by (nonlinear_arith)
                requires
                    digits_value(fracd) < pow10(fracd.len()),
                    pow10((6 - fracd.len()) as nat) >= 1,
            ;
            lemma_pow10_9();
        }
        assert(target < 1_000_000);
    }
    while pad > 0
        invariant
            0 <= pad <= 6,
            fr * pow10(pad as nat) == target,
            fr < 1_000_000_000,
            target < 1_000_000,
        decreases pad,
    {
        proof {
            assert(pow10(pad as nat) == 10 * pow10((pad - 1) as nat));
            assert((fr * 10) * pow10((pad - 1) as nat) == fr * pow10(pad as nat))
                by (nonlinear_arith)
                requires
                    pow10(pad as nat) == 10 * pow10((pad - 1) as nat),
            ;
            lemma_pow10_pos((pad - 1) as nat);
            assert(fr * 10 <= target) by (nonlinear_arith)
                requires
                    (fr * 10) * pow10((pad - 1) as nat) == target,
                    pow10((pad - 1) as nat) >= 1,
                    fr * 10 >= 0,
            ;
        }
        fr = fr * 10;
        pad = pad - 1;
    }
    proof {
        assert(pad == 0);
        let pw = pow10(pad as nat);
        assert(pw == 1);
        assert(fr == target) by (nonlinear_arith)
            requires
                fr * pw == target,
                pw == 1,
        ;
        lemma_digits_value_bound(body.take(p));
        assert(acc == digits_value(body.take(p)));
        assert(all_digits(body.take(p)));
        assert(all_digits(fracd));
        assert(body.take(p).len() + fracd.len() >= 1);
        assert(body.take(p).len() <= 9);
    }
    let v = acc as i64 * 1_000_000 + fr as i64;
    Some(if neg { -v } else { v })
}

/// A stationary emitter bound to a tile: the projectile kind it launches
/// and the fixed period between launches, determined by the kind.
#[derive(Clone, Copy, PartialEq, Eq, Structural, Debug)]
pub struct Spawner {
    pub projectile: Projectile,
    pub cooldown_ms: u64,
}

impl Spawner {
    /// Create a spawner for a projectile kind; the repeat period follows
    /// from the kind.
    pub fn new(projectile: Projectile) -> (s: Spawner)
        ensures
            s == Self::spec_new(projectile),
    {
        let cooldown_ms = projectile.cooldown_ms();
        Spawner { projectile, cooldown_ms }
    }

    pub open spec fn spec_new(projectile: Projectile) -> Spawner {
        Spawner { projectile, cooldown_ms: projectile.spec_cooldown_ms() }
    }
}

/// One grid cell's content. An empty cell is `None` in the layout; the
/// player's start marker is also an empty cell, recorded separately.
#[derive(Clone, Copy, PartialEq, Eq, Structural, Debug)]
pub enum Tile {
    Wall,
    Spawner(Spawner),
    Trap,
    Goal,
}

/// What a cell's text denotes: `None` when the cell is malformed, otherwise
/// the tile it selects (`Some(None)` for an empty cell). Only the leading
/// byte selects the tile; a laser spawner additionally needs a parsable
/// angle after its one-byte separator.
pub open spec fn spec_tile(cell: Seq<u8>) -> Option<Option<Tile>> {
    if cell.len() == 0 {
        None
    } else if cell[0] == 46 {  // '.'
        Some(None)
    } else if cell[0] == 42 {  // '*': empty, and marks the start cell
        Some(None)
    } else if cell[0] == 35 {  // '#'
        Some(Some(Tile::Wall))
    } else if cell[0] == 77 {  // 'M'
        Some(Some(Tile::Spawner(Spawner::spec_new(Projectile::Missile))))
    } else if cell[0] == 76 {  // 'L'
        if cell.len() >= 2 && spec_parse_angle(cell.skip(2)) is Some {
            Some(
                Some(
                    Tile::Spawner(
                        Spawner::spec_new(
                            Projectile::Laser { angle: spec_parse_angle(cell.skip(2)).unwrap() },
                        ),
                    ),
                ),
            )
        } else {
            None
        }
    } else if cell[0] == 84 {  // 'T'
        Some(Some(Tile::Trap))
    } else if cell[0] == 71 {  // 'G'
        Some(Some(Tile::Goal))
    } else {
        None
    }
}

/// The cell that records the player's start coordinate.
pub open spec fn is_start_cell(cell: Seq<u8>) -> bool {
    cell.len() > 0 && cell[0] == 42
}

/// Parse one cell.
pub fn parse_tile(cell: &Vec<u8>) -> (r: Option<Option<Tile>>)
    ensures
        r == spec_tile(cell@),
{
    if cell.len() == 0 {
        return None;
    }
    let b = cell[0];
    if b == 46 || b == 42 {
        Some(None)
    } else if b == 35 {
        Some(Some(Tile::Wall))
    } else if b == 77 {
        Some(Some(Tile::Spawner(Spawner::new(Projectile::Missile))))
    } else if b == 76 {
        if cell.len() >= 2 {
            match parse_angle(cell, 2) {
                Some(angle) => Some(
                    Some(Tile::Spawner(Spawner::new(Projectile::Laser { angle }))),
                ),
                None => None,
            }
        } else {
            None
        }
    } else if b == 84 {
        Some(Some(Tile::Trap))
    } else if b == 71 {
        Some(Some(Tile::Goal))
    } else {
        None
    }
}

/// Why a level document was rejected. A malformed cell carries the raw cell
/// text; a row whose cell count differs from the first row's is reported by
/// its index — the grid is refused, never truncated or padded.
#[derive(Clone, PartialEq, Eq, Debug)]
pub enum LevelParseError {
    InvalidTile { row: usize, col: usize, cell: Vec<u8> },
    NotRectangular { row: usize },
}

/// Which world a `GameWorld` was built from.
#[derive(Clone, PartialEq, Eq, Structural, Debug)]
pub enum WorldType {
    Level { index: usize },
    Endless,
}

/// A parsed level: the rectangular tile grid (row-major; row 0 is the top
/// visual row, column 0 the leftmost) and the player's start coordinate
/// `(col, row)` in grid units.
pub struct GameWorld {
    pub world_type: WorldType,
    pub player_start_coordinates: (usize, usize),
    pub layout: Vec<Vec<Option<Tile>>>,
}

/// The cells of row `i` of a document.
pub open spec fn cells_at(lines: Seq<Vec<u8>>, i: int) -> Seq<Seq<u8>> {
    spec_cells(lines[i]@)
}

/// The cell count of the first row, which every row must match.
pub open spec fn grid_width(lines: Seq<Vec<u8>>) -> int {
    if lines.len() == 0 {
        0
    } else {
        cells_at(lines, 0).len() as int
    }
}

/// Row `i` has the first row's cell count.
pub open spec fn row_rect(lines: Seq<Vec<u8>>, i: int) -> bool {
    cells_at(lines, i).len() == grid_width(lines)
}

/// Every cell of row `i` denotes a tile.
pub open spec fn row_valid(lines: Seq<Vec<u8>>, i: int) -> bool {
    forall|j: int|
        0 <= j < cells_at(lines, i).len() ==> (#[trigger] spec_tile(
            cells_at(lines, i)[j],
        )) is Some
}

pub open spec fn row_ok(lines: Seq<Vec<u8>>, i: int) -> bool {
    row_rect(lines, i) && row_valid(lines, i)
}

/// The whole document parses: rectangular, with every cell valid.
pub open spec fn grid_ok(lines: Seq<Vec<u8>>) -> bool {
    forall|i: int| 0 <= i < lines.len() ==> #[trigger] row_ok(lines, i)
}

/// Cell `(col j, row i)` is a start marker.
pub open spec fn star_at(lines: Seq<Vec<u8>>, i: int, j: int) -> bool {
    &&& 0 <= i < lines.len()
    &&& 0 <= j < cells_at(lines, i).len()
    &&& is_start_cell(cells_at(lines, i)[j])
}

pub open spec fn has_star(lines: Seq<Vec<u8>>) -> bool {
    exists|i: int, j: int| star_at(lines, i, j)
}

/// `(i1, j1)` comes no later than `(i2, j2)` in row-major order.
pub open spec fn row_major_le(i1: int, j1: int, i2: int, j2: int) -> bool {
    i1 < i2 || (i1 == i2 && j1 <= j2)
}

/// An exact copy of a cell's bytes.
fn copy_cell(cell: &Vec<u8>) -> (r: Vec<u8>)
    ensures
        r@ == cell@,
{
    let mut r: Vec<u8> = Vec::new();
    let mut k: usize = 0;
    while k < cell.len()
        invariant
            0 <= k <= cell@.len(),
            r@ =~= cell@.take(k as int),
        decreases cell@.len() - k,
    {
        r.push(cell[k]);
        proof {
            assert(r@ =~= cell@.take(k + 1));
        }
        k = k + 1;
    }
    proof {
        assert(cell@.take(cell@.len() as int) =~= cell@);
    }
    r
}

impl GameWorld {
    /// Parse a level document, one row per entry of `lines`, into a level
    /// tagged with `index`.
    ///
    /// Succeeds exactly on a rectangular grid of valid cells; the layout
    /// then reproduces the document tile for tile, and the start coordinate
    /// is the last `*` cell in row-major order, or `(0, 0)` when the
    /// document has none. A malformed cell is reported with the first such
    /// cell in row-major order (ragged rows are detected before their
    /// cells), and nothing is returned but the error.
    #[verifier::rlimit(60)]
    #[verifier::loop_isolation(false)]
    pub fn load_level(lines: &Vec<Vec<u8>>, index: usize) -> (r: Result<
        GameWorld,
        LevelParseError,
    >)
        ensures
            r is Ok <==> grid_ok(lines@),
            ({
                let ls = lines@;
                match r {
                    Ok(w) => {
                        &&& w.world_type == (WorldType::Level { index })
                        &&& w.layout@.len() == ls.len()
                        &&& forall|i: int|
                            0 <= i < ls.len() ==> (#[trigger] w.layout@[i])@.len() == cells_at(
                                ls,
                                i,
                            ).len()
                        &&& forall|i: int, j: int|
                            0 <= i < ls.len() && 0 <= j < cells_at(ls, i).len()
                                ==> (#[trigger] w.layout@[i]@[j]) == spec_tile(
                                cells_at(ls, i)[j],
                            ).unwrap()
                        &&& !has_star(ls) ==> w.player_start_coordinates == (0usize, 0usize)
                        &&& has_star(ls) ==> star_at(
                            ls,
                            w.player_start_coordinates.1 as int,
                            w.player_start_coordinates.0 as int,
                        ) && forall|i: int, j: int|
                            star_at(ls, i, j) ==> row_major_le(
                                i,
                                j,
                                w.player_start_coordinates.1 as int,
                                w.player_start_coordinates.0 as int,
                            )
                    },
                    Err(LevelParseError::NotRectangular { row }) => {
                        &&& 0 < row < ls.len()
                        &&& forall|k: int| 0 <= k < row ==> #[trigger] row_ok(ls, k)
                        &&& !row_rect(ls, row as int)
                    },
                    Err(LevelParseError::InvalidTile { row, col, cell }) => {
                        &&& 0 <= row < ls.len()
                        &&& 0 <= col < cells_at(ls, row as int).len()
                        &&& forall|k: int| 0 <= k < row ==> #[trigger] row_ok(ls, k)
                        &&& row_rect(ls, row as int)
                        &&& forall|j: int|
                            0 <= j < col ==> (#[trigger] spec_tile(
                                cells_at(ls, row as int)[j],
                            )) is Some
                        &&& spec_tile(cells_at(ls, row as int)[col as int]) is None
                        &&& cell@ == cells_at(ls, row as int)[col as int]
                    },
                }
            }),
    {
        let ghost ls = lines@;
        let mut layout: Vec<Vec<Option<Tile>>> = Vec::new();
        let mut start_col: usize = 0;
        let mut start_row: usize = 0;
        let mut start_found: bool = false;
        let mut width: usize = 0;
        let mut i: usize = 0;
        while i < lines.len()
            invariant
                0 <= i <= ls.len(),
                layout@.len() == i,
                i > 0 ==> width == grid_width(ls),
                forall|k: int| 0 <= k < i ==> #[trigger] row_ok(ls, k),
                forall|k: int|
                    0 <= k < i ==> (#[trigger] layout@[k])@.len() == cells_at(ls, k).len(),
                forall|k: int, j: int|
                    0 <= k < i && 0 <= j < cells_at(ls, k).len() ==> (#[trigger] layout@[k]@[j])
                        == spec_tile(cells_at(ls, k)[j]).unwrap(),
                !start_found ==> forall|a: int, b: int| a < i ==> !star_at(ls, a, b),
                !start_found ==> start_col == 0 && start_row == 0,
                start_found ==> star_at(ls, start_row as int, start_col as int) && start_row < i,
                start_found ==> forall|a: int, b: int|
                    a < i && star_at(ls, a, b) ==> row_major_le(
                        a,
                        b,
                        start_row as int,
                        start_col as int,
                    ),
            decreases ls.len() - i,
        {
            let cells = split_cells(&lines[i]);
            if i == 0 {
                width = cells.len();
            } else if cells.len() != width {
                proof {
                    assert(cells@.len() == cells_at(ls, i as int).len());
                    assert(!row_ok(ls, i as int));
                }
                return Err(LevelParseError::NotRectangular { row: i });
            }
            let mut row: Vec<Option<Tile>> = Vec::new();
            let mut j: usize = 0;
            while j < cells.len()
                invariant
                    0 <= j <= cells@.len(),
                    row@.len() == j,
                    forall|q: int|
                        0 <= q < j ==> (#[trigger] spec_tile(cells_at(ls, i as int)[q])) is Some,
                    forall|q: int|
                        0 <= q < j ==> (#[trigger] row@[q]) == spec_tile(
                            cells_at(ls, i as int)[q],
                        ).unwrap(),
                    !start_found ==> forall|a: int, b: int|
                        a < i || (a == i && b < j) ==> !star_at(ls, a, b),
                    !start_found ==> start_col == 0 && start_row == 0,
                    start_found ==> star_at(ls, start_row as int, start_col as int) && start_row
                        <= i,
                    start_found ==> forall|a: int, b: int|
                        (a < i || (a == i && b < j)) && star_at(ls, a, b) ==> row_major_le(
                            a,
                            b,
                            start_row as int,
                            start_col as int,
                        ),
                decreases cells@.len() - j,
            {
                match parse_tile(&cells[j]) {
                    None => {
                        proof {
                            assert(cells@[j as int]@ == cells_at(ls, i as int)[j as int]);
                            assert(spec_tile(cells_at(ls, i as int)[j as int]) is None);
                            assert(!row_valid(ls, i as int));
                            assert(!row_ok(ls, i as int));
                        }
                        return Err(
                            LevelParseError::InvalidTile {
                                row: i,
                                col: j,
                                cell: copy_cell(&cells[j]),
                            },
                        );
                    },
                    Some(tile) => {
                        if cells[j].len() > 0 && cells[j][0] == 42 {
                            start_col = j;
                            start_row = i;
                            start_found = true;
                        }
                        row.push(tile);
                    },
                }
                j = j + 1;
            }
            layout.push(row);
            i = i + 1;
        }
        proof {
            if !grid_ok(ls) {
                let bad = choose|k: int| 0 <= k < ls.len() && !row_ok(ls, k);
                assert(row_ok(ls, bad));
            }
            if start_found {
                assert(has_star(ls));
            } else {
                if has_star(ls) {
                    let (a, b) = choose|a: int, b: int| star_at(ls, a, b);
                    assert(!star_at(ls, a, b));
                }
            }
        }
        Ok(
            GameWorld {
                world_type: WorldType::Level { index },
                player_start_coordinates: (start_col, start_row),
                layout,
            },
        )
    }
}

/// The tile at grid cell `(x, y)` is a wall; anything out of bounds (also
/// past the end of a shorter row) counts as absent.
pub open spec fn wall_at(layout: Seq<Vec<Option<Tile>>>, x: int, y: int) -> bool {
    &&& 0 <= y < layout.len()
    &&& 0 <= x < layout[y]@.len()
    &&& layout[y]@[x] == Some(Tile::Wall)
}

/// The four cardinal neighbor flags of `(x, y)`, in the fixed order north,
/// east, south, west.
pub open spec fn spec_wall_neighbors(layout: Seq<Vec<Option<Tile>>>, x: int, y: int) -> Seq<
    bool,
> {
    seq![
        wall_at(layout, x, y - 1),
        wall_at(layout, x + 1, y),
        wall_at(layout, x, y + 1),
        wall_at(layout, x - 1, y),
    ]
}

/// Whether the cell at `(x, y)` holds a wall.
fn is_wall(layout: &Vec<Vec<Option<Tile>>>, x: usize, y: usize) -> (r: bool)
    ensures
        r == wall_at(layout@, x as int, y as int),
{
    if y < layout.len() && x < layout[y].len() {
        match layout[y][x] {
            Some(Tile::Wall) => true,
            _ => false,
        }
    } else {
        false
    }
}

impl GameWorld {
    /// Which of the four cardinal neighbors of `(x, y)` are walls, in the
    /// fixed order north, east, south, west; out-of-bounds neighbors are
    /// absent.
    pub fn get_wall_neighbors(&self, x: usize, y: usize) -> (neighbors: [bool; 4])
        requires
            y < self.layout@.len(),
            x < self.layout@[y as int]@.len(),
        ensures
            neighbors@ == spec_wall_neighbors(self.layout@, x as int, y as int),
    {
        let _height = self.layout.len();
        let _width = self.layout[y].len();
        let north = if y > 0 {
            is_wall(&self.layout, x, y - 1)
        } else {
            false
        };
        let east = is_wall(&self.layout, x + 1, y);
        let south = is_wall(&self.layout, x, y + 1);
        let west = if x > 0 {
            is_wall(&self.layout, x - 1, y)
        } else {
            false
        };
        let neighbors = [north, east, south, west];
        proof {
            assert(neighbors@[0] == north && neighbors@[1] == east && neighbors@[2] == south
                && neighbors@[3] == west);
            assert(neighbors@ =~= spec_wall_neighbors(self.layout@, x as int, y as int));
        }
        neighbors
    }
}

/// The 4-bit neighbor pattern: north is the highest bit, then east, south,
/// west.
pub open spec fn spec_neighbor_mask(n: Seq<bool>) -> int {
    (if n[0] {
        8int
    } else {
        0int
    }) + (if n[1] {
        4int
    } else {
        0int
    }) + (if n[2] {
        2int
    } else {
        0int
    }) + (if n[3] {
        1int
    } else {
        0int
    })
}

/// Pack the four neighbor flags into the 4-bit pattern.
pub fn neighbor_mask(neighbors: [bool; 4]) -> (m: u8)
    ensures
        m == spec_neighbor_mask(neighbors@),
        m < 16,
{
    let mut m: u8 = 0;
    if neighbors[0] {
        m = m + 8;
    }
    if neighbors[1] {
        m = m + 4;
    }
    if neighbors[2] {
        m = m + 2;
    }
    if neighbors[3] {
        m = m + 1;
    }
    m
}

/// One letter per direction: `w` where the neighbor is a wall, `e` where it
/// is empty.
pub open spec fn variant_char(present: bool) -> char {
    if present {
        'w'
    } else {
        'e'
    }
}

/// The visual-variant identifier for a neighbor combination: its four
/// letters spell out the four directions in order.
pub open spec fn spec_wall_variant(n: Seq<bool>) -> Seq<char> {
    seq![variant_char(n[0]), variant_char(n[1]), variant_char(n[2]), variant_char(n[3])]
}

/// The fixed lookup table from the 16 neighbor combinations to the visual
/// variant identifiers. Every combination is mapped; there is no fallback
/// case.
pub fn wall_variant(neighbors: [bool; 4]) -> (name: &'static str)
    ensures
        name@ == spec_wall_variant(neighbors@),
{
    proof {
        reveal_strlit("wewe");
        reveal_strlit("eewe");
        reveal_strlit("weww");
        reveal_strlit("wwwe");
        reveal_strlit("ewew");
        reveal_strlit("eeew");
        reveal_strlit("ewee");
        reveal_strlit("wwew");
        reveal_strlit("wwww");
        reveal_strlit("weee");
        reveal_strlit("weew");
        reveal_strlit("wwee");
        reveal_strlit("ewww");
        reveal_strlit("ewwe");
        reveal_strlit("eeww");
        reveal_strlit("eeee");
    }
    let name = match (neighbors[0], neighbors[1], neighbors[2], neighbors[3]) {
        (true, false, true, false) => "wewe",
        (false, false, true, false) => "eewe",
        (true, false, true, true) => "weww",
        (true, true, true, false) => "wwwe",
        (false, true, false, true) => "ewew",
        (false, false, false, true) => "eeew",
        (false, true, false, false) => "ewee",
        (true, true, false, true) => "wwew",
        (true, true, true, true) => "wwww",
        (true, false, false, false) => "weee",
        (true, false, false, true) => "weew",
        (true, true, false, false) => "wwee",
        (false, true, true, true) => "ewww",
        (false, true, true, false) => "ewwe",
        (false, false, true, true) => "eeww",
        (false, false, false, false) => "eeee",
    };
    proof {
        assert(name@ =~= spec_wall_variant(neighbors@));
    }
    name
}

/// Autotile distinctness: two neighbor combinations with the same variant
/// identifier are the same combination, so with totality of the table every
/// one of the 16 combinations resolves to exactly one variant.
pub proof fn lemma_autotile_variants_distinct(a: Seq<bool>, b: Seq<bool>)
    requires
        a.len() == 4,
        b.len() == 4,
        spec_wall_variant(a) == spec_wall_variant(b),
    ensures
        a =~= b,
{
    assert forall|k: int| 0 <= k < 4 implies a[k] == b[k] by {
        assert(spec_wall_variant(a)[k] == spec_wall_variant(b)[k]);
    }
}

/// The grid-to-world conversion: a cell at grid `(col, row)` sits at
/// `(col * TILE_SIZE, -row * TILE_SIZE)` — y decreases with the row index.
pub fn tile_world_position(col: usize, row: usize) -> (p: Vec2)
    requires
        col * TILE_SIZE <= WORLD_LIMIT,
        row * TILE_SIZE <= WORLD_LIMIT,
    ensures
        p.x == col * TILE_SIZE,
        p.y == -(row as int) * TILE_SIZE,
        p.wf(),
{
    let p = Vec2 { x: (col as i64) * TILE_SIZE, y: -((row as i64) * TILE_SIZE) };
    proof {
        assert((col as int) * (TILE_SIZE as int) >= 0 && (row as int) * (TILE_SIZE as int) >= 0)
            by (nonlinear_arith);
        assert(-(row as int) * (TILE_SIZE as int) == -((row as int) * (TILE_SIZE as int)))
            by (nonlinear_arith);
    }
    p
}

/// Ten to a smaller power is no larger.
proof fn lemma_pow10_le(a: nat, b: nat)
    requires
        a <= b,
    ensures
        pow10(a) <= pow10(b),
    decreases b,
{
    if a < b {
        lemma_pow10_le(a, (b - 1) as nat);
        lemma_pow10_pos((b - 1) as nat);
    }
}

/// Powers of ten multiply by adding exponents.
proof fn lemma_pow10_add(a: nat, b: nat)
    ensures
        pow10(a + b) == pow10(a) * pow10(b),
    decreases a,
{
    if a == 0 {
        assert(pow10(0 + b) == 1 * pow10(b));
    } else {
        lemma_pow10_add((a - 1) as nat, b);
        assert(pow10(a + b) == 10 * pow10((a + b - 1) as nat));
        assert(10 * (pow10((a - 1) as nat) * pow10(b)) == (10 * pow10((a - 1) as nat)) * pow10(b))
            by (nonlinear_arith);
    }
}

proof fn lemma_pow10_pos(k: nat)
    ensures
        pow10(k) >= 1,
    decreases k,
{
    if k > 0 {
        lemma_pow10_pos((k - 1) as nat);
    }
}

/// The concrete powers the parser needs.
proof fn lemma_pow10_9()
    ensures
        pow10(6) == 1_000_000,
        pow10(9) == 1_000_000_000,
{
    assert(pow10(0) == 1);
    assert(pow10(1) == 10);
    assert(pow10(2) == 100);
    assert(pow10(3) == 1000);
    assert(pow10(4) == 10000);
    assert(pow10(5) == 100000);
    assert(pow10(6) == 1000000);
    assert(pow10(7) == 10000000);
    assert(pow10(8) == 100000000);
    assert(pow10(9) == 1000000000);
}

} // verus!
