//! Attack and ray tables, computed once from board geometry alone.
use vstd::prelude::*;
use crate::bitboard::{Bitboard, EMPTY, has_sq, file_of, rank_of, in_bounds, lemma_empty, lemma_or, lemma_and, lemma_single};

verus! {

/// Moving from `sq` by (`dx`, `dy`) lands on square `t`.
pub open spec fn lands_on(sq: int, dx: int, dy: int, t: int) -> bool {
    file_of(sq) + dx == file_of(t) && rank_of(sq) + dy == rank_of(t)
}

/// One of the first `n` offsets takes a leaper on `sq` to `t`.
pub open spec fn leaps_to(offsets: Seq<(i8, i8)>, n: int, sq: int, t: int) -> bool
    decreases n,
{
    if n <= 0 {
        false
    } else {
        leaps_to(offsets, n - 1, sq, t) || lands_on(
            sq,
            offsets[n - 1].0 as int,
            offsets[n - 1].1 as int,
            t,
        )
    }
}

/// `k` steps along a direction component `d` in {-1, 0, 1}.
pub open spec fn steps(k: int, d: int) -> int {
    if d > 0 {
        k
    } else if d < 0 {
        -k
    } else {
        0
    }
}

/// The `k`-th square out from `sq` in direction (`dx`, `dy`) is on the board
/// (and, with `no_border`, so is the one after it), and it is `t`.
pub open spec fn ray_step(sq: int, dx: int, dy: int, no_border: bool, k: int, t: int) -> bool {
    &&& in_bounds(file_of(sq) + steps(k, dx), rank_of(sq) + steps(k, dy))
    &&& lands_on(sq, steps(k, dx), steps(k, dy), t)
    &&& (no_border ==> in_bounds(file_of(sq) + steps(k + 1, dx), rank_of(sq) + steps(k + 1, dy)))
}

/// `t` is among the first `n` squares of the ray.
pub open spec fn ray_upto(sq: int, dx: int, dy: int, no_border: bool, n: int, t: int) -> bool
    decreases n,
{
    if n <= 0 {
        false
    } else {
        ray_upto(sq, dx, dy, no_border, n - 1, t) || ray_step(sq, dx, dy, no_border, n, t)
    }
}

/// `t` lies on the ray from `sq` in direction (`dx`, `dy`), `sq` itself excluded.
/// Seven steps cross the whole board.
pub open spec fn on_ray(sq: int, dx: int, dy: int, no_border: bool, t: int) -> bool {
    ray_upto(sq, dx, dy, no_border, 7, t)
}

pub open spec fn sign(d: int) -> int {
    if d > 0 {
        1
    } else if d < 0 {
        -1
    } else {
        0
    }
}

/// `a` and `b` are distinct and share a rank, a file or a diagonal.
pub open spec fn aligned(a: int, b: int) -> bool {
    let dx = file_of(b) - file_of(a);
    let dy = rank_of(b) - rank_of(a);
    (dx == 0 && dy != 0) || (dy == 0 && dx != 0) || (dx != 0 && (dx == dy || dx == -dy))
}

/// `t` lies strictly between the aligned squares `a` and `b`: it is on the ray
/// from `a` towards `b` and on the ray from `b` towards `a`.
pub open spec fn strictly_between(a: int, b: int, t: int) -> bool {
    let ux = sign(file_of(b) - file_of(a));
    let uy = sign(rank_of(b) - rank_of(a));
    aligned(a, b) && on_ray(a, ux, uy, false, t) && on_ray(b, -ux, -uy, false, t)
}

proof fn lemma_square_coords(u: int, x: int, y: int)
    requires
        0 <= u < 64,
        in_bounds(x, y),
    ensures
        (file_of(u) == x && rank_of(u) == y) <==> u == 8 * y + x,
        0 <= 8 * y + x < 64,
{
}

pub open spec fn knight_offset_seq() -> Seq<(i8, i8)> {
    seq![(-1i8, 2i8), (1i8, 2i8), (2i8, 1i8), (2i8, -1i8), (1i8, -2i8), (-1i8, -2i8), (-2i8, -1i8), (-2i8, 1i8)]
}

pub open spec fn king_offset_seq() -> Seq<(i8, i8)> {
    seq![(-1i8, 1i8), (0i8, 1i8), (1i8, 1i8), (1i8, 0i8), (1i8, -1i8), (0i8, -1i8), (-1i8, -1i8), (-1i8, 0i8)]
}

pub open spec fn rook_dir_seq() -> Seq<(i8, i8)> {
    seq![(0i8, 1i8), (1i8, 0i8), (0i8, -1i8), (-1i8, 0i8)]
}

pub open spec fn bishop_dir_seq() -> Seq<(i8, i8)> {
    seq![(-1i8, 1i8), (1i8, 1i8), (1i8, -1i8), (-1i8, -1i8)]
}

/// Knight offsets as (file, rank) deltas.
pub fn knight_offsets() -> (r: [(i8, i8); 8])
    ensures
        r@ == knight_offset_seq(),
{
    [(-1, 2), (1, 2), (2, 1), (2, -1), (1, -2), (-1, -2), (-2, -1), (-2, 1)]
}

/// King offsets as (file, rank) deltas.
pub fn king_offsets() -> (r: [(i8, i8); 8])
    ensures
        r@ == king_offset_seq(),
{
    [(-1, 1), (0, 1), (1, 1), (1, 0), (1, -1), (0, -1), (-1, -1), (-1, 0)]
}

/// Leaper moves: for each square, every on-board square that one of the
/// offsets reaches.
pub fn precompute_direct_piece_moves(offsets: [(i8, i8); 8]) -> (moves: Vec<Bitboard>)
    ensures
        moves.len() == 64,
        forall|s: int, t: u64|
            0 <= s < 64 && t < 64 ==> (#[trigger] has_sq(moves[s], t) <==> leaps_to(
                offsets@,
                8,
                s,
                t as int,
            )),
{
    let mut moves: Vec<Bitboard> = Vec::new();
    let mut sq: usize = 0;
    while sq < 64
        invariant
            sq <= 64,
            moves.len() == sq,
            forall|s: int, t: u64|
                0 <= s < sq && t < 64 ==> (#[trigger] has_sq(moves[s], t) <==> leaps_to(
                    offsets@,
                    8,
                    s,
                    t as int,
                )),
        decreases 64 - sq,
    {
        let mut acc: Bitboard = EMPTY;
        let mut j: usize = 0;
        proof {
            assert forall|t: u64| t < 64 implies !has_sq(acc, t) by {
                lemma_empty(t);
            }
        }
        while j < 8
            invariant
                sq < 64,
                j <= 8,
                forall|t: u64|
                    t < 64 ==> (#[trigger] has_sq(acc, t) <==> leaps_to(
                        offsets@,
                        j as int,
                        sq as int,
                        t as int,
                    )),
            decreases 8 - j,
        {
            let offset = offsets[j];
            let x: i16 = (sq % 8) as i16 + offset.0 as i16;
            let y: i16 = (sq / 8) as i16 + offset.1 as i16;
            j += 1;
            if x < 0 || x >= 8 || y < 0 || y >= 8 {
                proof {
                    assert forall|t: u64| t < 64 implies (#[trigger] has_sq(acc, t) <==> leaps_to(
                        offsets@,
                        j as int,
                        sq as int,
                        t as int,
                    )) by {
                        assert(!lands_on(sq as int, offset.0 as int, offset.1 as int, t as int));
                    }
                }
                continue;
            }
            let target: u64 = (y * 8 + x) as u64;
            let old_acc = acc;
            acc = acc | (1u64 << target);
            proof {
                assert forall|t: u64| t < 64 implies (#[trigger] has_sq(acc, t) <==> leaps_to(
                    offsets@,
                    j as int,
                    sq as int,
                    t as int,
                )) by {
                    lemma_or(old_acc, 1u64 << target, t);
                    lemma_single(target, t);
                    lemma_square_coords(t as int, x as int, y as int);
                }
            }
        }
        moves.push(acc);
        sq += 1;
    }
    moves
}

/// Rook directions: north, east, south, west.
pub fn rook_dirs() -> (r: [(i8, i8); 4])
    ensures
        r@ == rook_dir_seq(),
{
    [(0, 1), (1, 0), (0, -1), (-1, 0)]
}

/// Bishop directions: north-west, north-east, south-east, south-west.
pub fn bishop_dirs() -> (r: [(i8, i8); 4])
    ensures
        r@ == bishop_dir_seq(),
{
    [(-1, 1), (1, 1), (1, -1), (-1, -1)]
}

pub open spec fn unit_dirs(dirs: Seq<(i8, i8)>) -> bool {
    forall|d: int|
        0 <= d < dirs.len() ==> -1 <= #[trigger] dirs[d].0 <= 1 && -1 <= dirs[d].1 <= 1
}

/// The ray from `sq` in direction (`dx`, `dy`), walked one square at a time.
fn walk_ray(sq: usize, dx: i8, dy: i8, end_before_border: bool) -> (ray: Bitboard)
    requires
        sq < 64,
        -1 <= dx <= 1,
        -1 <= dy <= 1,
    ensures
        forall|t: u64|
            t < 64 ==> (#[trigger] has_sq(ray, t) <==> on_ray(
                sq as int,
                dx as int,
                dy as int,
                end_before_border,
                t as int,
            )),
{
    let mut ray: Bitboard = EMPTY;
    let mut x: i16 = (sq % 8) as i16;
    let mut y: i16 = (sq / 8) as i16;
    let mut k: i16 = 0;
    proof {
        assert forall|t: u64| t < 64 implies !has_sq(ray, t) by {
            lemma_empty(t);
        }
    }
    while k < 7
        invariant
            sq < 64,
            -1 <= dx <= 1,
            -1 <= dy <= 1,
            0 <= k <= 7,
            x == file_of(sq as int) + steps(k as int, dx as int),
            y == rank_of(sq as int) + steps(k as int, dy as int),
            forall|t: u64|
                t < 64 ==> (#[trigger] has_sq(ray, t) <==> ray_upto(
                    sq as int,
                    dx as int,
                    dy as int,
                    end_before_border,
                    k as int,
                    t as int,
                )),
        decreases 7 - k,
    {
        x = x + dx as i16;
        y = y + dy as i16;
        k = k + 1;
        let on_board = 0 <= x && x < 8 && 0 <= y && y < 8;
        let nx = x + dx as i16;
        let ny = y + dy as i16;
        let next_on_board = 0 <= nx && nx < 8 && 0 <= ny && ny < 8;
        assert(nx == file_of(sq as int) + steps(k + 1, dx as int));
        assert(ny == rank_of(sq as int) + steps(k + 1, dy as int));
        if on_board && (!end_before_border || next_on_board) {
            let target: u64 = (y * 8 + x) as u64;
            let old_ray = ray;
            ray = ray | (1u64 << target);
            proof {
                assert forall|t: u64| t < 64 implies (#[trigger] has_sq(ray, t) <==> ray_upto(
                    sq as int,
                    dx as int,
                    dy as int,
                    end_before_border,
                    k as int,
                    t as int,
                )) by {
                    lemma_or(old_ray, 1u64 << target, t);
                    lemma_single(target, t);
                    lemma_square_coords(t as int, x as int, y as int);
                }
            }
        }
    }
    ray
}

/// Slider rays: for each square and each of the four directions, the squares
/// reached by walking outward until the edge. With `end_before_border` the
/// walk stops one square earlier, leaving out the edge square.
pub fn precompute_slider_rays(dirs: [(i8, i8); 4], end_before_border: bool) -> (rays: Vec<
    Vec<Bitboard>,
>)
    requires
        unit_dirs(dirs@),
    ensures
        rays.len() == 64,
        forall|s: int| 0 <= s < 64 ==> (#[trigger] rays[s]).len() == 4,
        forall|s: int, d: int, t: u64|
            0 <= s < 64 && 0 <= d < 4 && t < 64 ==> (#[trigger] has_sq(rays[s][d], t) <==> on_ray(
                s,
                dirs@[d].0 as int,
                dirs@[d].1 as int,
                end_before_border,
                t as int,
            )),
{
    let mut rays: Vec<Vec<Bitboard>> = Vec::new();
    let mut sq: usize = 0;
    while sq < 64
        invariant
            unit_dirs(dirs@),
            sq <= 64,
            rays.len() == sq,
            forall|s: int| 0 <= s < sq ==> (#[trigger] rays[s]).len() == 4,
            forall|s: int, d: int, t: u64|
                0 <= s < sq && 0 <= d < 4 && t < 64 ==> (#[trigger] has_sq(rays[s][d], t) <==> on_ray(
                    s,
                    dirs@[d].0 as int,
                    dirs@[d].1 as int,
                    end_before_border,
                    t as int,
                )),
        decreases 64 - sq,
    {
        let mut per_dir: Vec<Bitboard> = Vec::new();
        let mut dir: usize = 0;
        while dir < 4
            invariant
                unit_dirs(dirs@),
                sq < 64,
                dir <= 4,
                per_dir.len() == dir,
                forall|d: int, t: u64|
                    0 <= d < dir && t < 64 ==> (#[trigger] has_sq(per_dir[d], t) <==> on_ray(
                        sq as int,
                        dirs@[d].0 as int,
                        dirs@[d].1 as int,
                        end_before_border,
                        t as int,
                    )),
            decreases 4 - dir,
        {
            let (dx, dy) = dirs[dir];
            assert(-1 <= dirs@[dir as int].0 <= 1);
            let ray = walk_ray(sq, dx, dy, end_before_border);
            per_dir.push(ray);
            dir += 1;
        }
        rays.push(per_dir);
        sq += 1;
    }
    rays
}

/// Merged slider moves: for each square, the union of its four rays.
pub fn merge_slider_rays(rays: &Vec<Vec<Bitboard>>) -> (moves: Vec<Bitboard>)
    requires
        rays.len() == 64,
        forall|s: int| 0 <= s < 64 ==> (#[trigger] rays[s]).len() == 4,
    ensures
        moves.len() == 64,
        forall|s: int, t: u64|
            0 <= s < 64 && t < 64 ==> (#[trigger] has_sq(moves[s], t) <==> (has_sq(rays[s][0], t)
                || has_sq(rays[s][1], t) || has_sq(rays[s][2], t) || has_sq(rays[s][3], t))),
{
    let mut moves: Vec<Bitboard> = Vec::new();
    let mut sq: usize = 0;
    while sq < 64
        invariant
            rays.len() == 64,
            forall|s: int| 0 <= s < 64 ==> (#[trigger] rays[s]).len() == 4,
            sq <= 64,
            moves.len() == sq,
            forall|s: int, t: u64|
                0 <= s < sq && t < 64 ==> (#[trigger] has_sq(moves[s], t) <==> (has_sq(
                    rays[s][0],
                    t,
                ) || has_sq(rays[s][1], t) || has_sq(rays[s][2], t) || has_sq(rays[s][3], t))),
        decreases 64 - sq,
    {
        let mut acc: Bitboard = EMPTY;
        let mut dir: usize = 0;
        proof {
            assert forall|t: u64| t < 64 implies !has_sq(acc, t) by {
                lemma_empty(t);
            }
        }
        while dir < 4
            invariant
                rays.len() == 64,
                forall|s: int| 0 <= s < 64 ==> (#[trigger] rays[s]).len() == 4,
                sq < 64,
                dir <= 4,
                forall|t: u64|
                    t < 64 ==> (#[trigger] has_sq(acc, t) <==> exists|d: int|
                        0 <= d < dir && #[trigger] has_sq(rays[sq as int][d], t)),
            decreases 4 - dir,
        {
            let old_acc = acc;
            acc = acc | rays[sq][dir];
            proof {
                assert forall|t: u64| t < 64 implies (#[trigger] has_sq(acc, t) <==> exists|d: int|
                    0 <= d < dir + 1 && #[trigger] has_sq(rays[sq as int][d], t)) by {
                    lemma_or(old_acc, rays[sq as int][dir as int], t);
                    if has_sq(acc, t) && !has_sq(old_acc, t) {
                        assert(has_sq(rays[sq as int][dir as int], t));
                    }
                }
            }
            dir += 1;
        }
        proof {
            assert forall|t: u64| t < 64 implies (#[trigger] has_sq(acc, t) <==> (has_sq(
                rays[sq as int][0],
                t,
            ) || has_sq(rays[sq as int][1], t) || has_sq(rays[sq as int][2], t) || has_sq(
                rays[sq as int][3],
                t,
            ))) by {
                if has_sq(rays[sq as int][0], t) {
                    assert(has_sq(rays[sq as int][0], t));
                }
                if has_sq(rays[sq as int][1], t) {
                    assert(has_sq(rays[sq as int][1], t));
                }
                if has_sq(rays[sq as int][2], t) {
                    assert(has_sq(rays[sq as int][2], t));
                }
                if has_sq(rays[sq as int][3], t) {
                    assert(has_sq(rays[sq as int][3], t));
                }
            }
        }
        moves.push(acc);
        sq += 1;
    }
    moves
}

/// Between-bitboards: entry `[a][b]` holds the squares strictly between `a`
/// and `b` when they share a rank, file or diagonal, and is empty otherwise.
pub fn precompute_between_bitboards() -> (between: Vec<Vec<Bitboard>>)
    ensures
        between.len() == 64,
        forall|a: int| 0 <= a < 64 ==> (#[trigger] between[a]).len() == 64,
        forall|a: int, b: int, t: u64|
            0 <= a < 64 && 0 <= b < 64 && t < 64 ==> (#[trigger] has_sq(between[a][b], t)
                <==> strictly_between(a, b, t as int)),
{
    let rd = rook_dirs();
    let bd = bishop_dirs();
    let rook_rays = precompute_slider_rays(rd, false);
    let bishop_rays = precompute_slider_rays(bd, false);
    let mut between: Vec<Vec<Bitboard>> = Vec::new();
    let mut sq1: usize = 0;
    while sq1 < 64
        invariant
            sq1 <= 64,
            between.len() == sq1,
            rd@ == seq![(0i8, 1i8), (1i8, 0i8), (0i8, -1i8), (-1i8, 0i8)],
            bd@ == seq![(-1i8, 1i8), (1i8, 1i8), (1i8, -1i8), (-1i8, -1i8)],
            rook_rays.len() == 64,
            forall|s: int| 0 <= s < 64 ==> (#[trigger] rook_rays[s]).len() == 4,
            forall|s: int, d: int, t: u64|
                0 <= s < 64 && 0 <= d < 4 && t < 64 ==> (#[trigger] has_sq(rook_rays[s][d], t)
                    <==> on_ray(s, rd@[d].0 as int, rd@[d].1 as int, false, t as int)),
            bishop_rays.len() == 64,
            forall|s: int| 0 <= s < 64 ==> (#[trigger] bishop_rays[s]).len() == 4,
            forall|s: int, d: int, t: u64|
                0 <= s < 64 && 0 <= d < 4 && t < 64 ==> (#[trigger] has_sq(bishop_rays[s][d], t)
                    <==> on_ray(s, bd@[d].0 as int, bd@[d].1 as int, false, t as int)),
            forall|a: int| 0 <= a < sq1 ==> (#[trigger] between[a]).len() == 64,
            forall|a: int, b: int, t: u64|
                0 <= a < sq1 && 0 <= b < 64 && t < 64 ==> (#[trigger] has_sq(between[a][b], t)
                    <==> strictly_between(a, b, t as int)),
        decreases 64 - sq1,
    {
        let mut row: Vec<Bitboard> = Vec::new();
        let mut sq2: usize = 0;
        while sq2 < 64
            invariant
                sq1 < 64,
                sq2 <= 64,
                row.len() == sq2,
                rd@ == seq![(0i8, 1i8), (1i8, 0i8), (0i8, -1i8), (-1i8, 0i8)],
                bd@ == seq![(-1i8, 1i8), (1i8, 1i8), (1i8, -1i8), (-1i8, -1i8)],
                rook_rays.len() == 64,
                forall|s: int| 0 <= s < 64 ==> (#[trigger] rook_rays[s]).len() == 4,
                forall|s: int, d: int, t: u64|
                    0 <= s < 64 && 0 <= d < 4 && t < 64 ==> (#[trigger] has_sq(rook_rays[s][d], t)
                        <==> on_ray(s, rd@[d].0 as int, rd@[d].1 as int, false, t as int)),
                bishop_rays.len() == 64,
                forall|s: int| 0 <= s < 64 ==> (#[trigger] bishop_rays[s]).len() == 4,
                forall|s: int, d: int, t: u64|
                    0 <= s < 64 && 0 <= d < 4 && t < 64 ==> (#[trigger] has_sq(
                        bishop_rays[s][d],
                        t,
                    ) <==> on_ray(s, bd@[d].0 as int, bd@[d].1 as int, false, t as int)),
                forall|b: int, t: u64|
                    0 <= b < sq2 && t < 64 ==> (#[trigger] has_sq(row[b], t) <==> strictly_between(
                        sq1 as int,
                        b,
                        t as int,
                    )),
            decreases 64 - sq2,
        {
            let dx: i16 = (sq2 % 8) as i16 - (sq1 % 8) as i16;
            let dy: i16 = (sq2 / 8) as i16 - (sq1 / 8) as i16;
            let (rays, d1, d2): (&Vec<Vec<Bitboard>>, usize, usize) = if dx == 0 && dy > 0 {
                (&rook_rays, 0, 2)
            } else if dx > 0 && dy == 0 {
                (&rook_rays, 1, 3)
            } else if dx == 0 && dy < 0 {
                (&rook_rays, 2, 0)
            } else if dx < 0 && dy == 0 {
                (&rook_rays, 3, 1)
            } else if dx < 0 && dy > 0 && -dx == dy {
                (&bishop_rays, 0, 2)
            } else if dx > 0 && dy > 0 && dx == dy {
                (&bishop_rays, 1, 3)
            } else if dx > 0 && dy < 0 && dx == -dy {
                (&bishop_rays, 2, 0)
            } else if dx < 0 && dy < 0 && dx == dy {
                (&bishop_rays, 3, 1)
            } else {
                (&rook_rays, 4, 4)
            };
            let bb: Bitboard = if d1 < 4 {
                rays[sq1][d1] & rays[sq2][d2]
            } else {
                EMPTY
            };
            proof {
                assert forall|t: u64| t < 64 implies (#[trigger] has_sq(bb, t) <==> strictly_between(
                    sq1 as int,
                    sq2 as int,
                    t as int,
                )) by {
                    if d1 < 4 {
                        lemma_and(rays[sq1 as int][d1 as int], rays[sq2 as int][d2 as int], t);
                    } else {
                        lemma_empty(t);
                    }
                }
            }
            row.push(bb);
            sq2 += 1;
        }
        between.push(row);
        sq1 += 1;
    }
    between
}

} // verus!
