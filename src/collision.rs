use vstd::prelude::*;

use crate::geometry::{is_within_box, is_within_radius, within_box, within_radius, Pos};
use crate::pursuit::Hole;

verus! {

/// A hazard swallows a collectible closer than this.
pub const HOLE_STAR_RANGE: u32 = 42_000;

/// Two hazards closer than this destroy each other.
pub const HOLE_HOLE_RANGE: u32 = 80_000;

/// The player touches a collectible or a hazard when both coordinate
/// differences are below this.
pub const PLAYER_BOX: u32 = 48_000;

/// A projectile closer than this to a hazard destroys it.
pub const MISSILE_RANGE: u32 = 40_000;

/// Some of `sources` lies within `radius` of `p`.
pub open spec fn near_any(p: Pos, sources: Seq<Pos>, radius: u32) -> bool {
    exists|i: int| 0 <= i < sources.len() && within_radius(#[trigger] sources[i], p, radius)
}

/// The positions of the hazards, in order.
pub open spec fn hole_positions(holes: Seq<Hole>) -> Seq<Pos> {
    holes.map_values(|h: Hole| h.pos)
}

/// The positions of the hazards, in order.
pub fn positions(holes: &Vec<Hole>) -> (r: Vec<Pos>)
    ensures
        r@ == hole_positions(holes@),
{
    let mut r: Vec<Pos> = Vec::new();
    let mut i: usize = 0;
    while i < holes.len()
        invariant
            i <= holes.len(),
            r@ == hole_positions(holes@.take(i as int)),
        decreases holes.len() - i,
    {
        r.push(holes[i].pos);
        assert(holes@.take(i as int + 1) == holes@.take(i as int).push(holes@[i as int]));
        i = i + 1;
    }
    assert(holes@.take(i as int) == holes@);
    r
}

/// Marks each target that lies within `radius` of some source.
pub fn mark_near(sources: &Vec<Pos>, targets: &Vec<Pos>, radius: u32) -> (r: Vec<bool>)
    ensures
        r@.len() == targets@.len(),
        forall|j: int| 0 <= j < targets@.len() ==> r@[j] == near_any(#[trigger] targets@[j], sources@, radius),
{
    let mut r: Vec<bool> = Vec::new();
    let mut j: usize = 0;
    while j < targets.len()
        invariant
            j <= targets.len(),
            r@.len() == j,
            forall|k: int| 0 <= k < j ==> r@[k] == near_any(#[trigger] targets@[k], sources@, radius),
        decreases targets.len() - j,
    {
        let t = targets[j];
        let mut hit = false;
        let mut i: usize = 0;
        while i < sources.len()
            invariant
                i <= sources.len(),
                hit ==> near_any(t, sources@, radius),
                !hit ==> forall|k: int| 0 <= k < i ==> !within_radius(#[trigger] sources@[k], t, radius),
            decreases sources.len() - i,
        {
            if is_within_radius(sources[i], t, radius) {
                hit = true;
            }
            i = i + 1;
        }
        r.push(hit);
        j = j + 1;
    }
    r
}

/// Collectibles swallowed by a hazard this tick.
pub fn hole_star_collisions(holes: &Vec<Hole>, stars: &Vec<Pos>) -> (r: Vec<bool>)
    ensures
        r@.len() == stars@.len(),
        forall|j: int|
            0 <= j < stars@.len() ==> r@[j] == near_any(
                #[trigger] stars@[j],
                hole_positions(holes@),
                HOLE_STAR_RANGE,
            ),
{
    let hp = positions(holes);
    mark_near(&hp, stars, HOLE_STAR_RANGE)
}

/// Hazard `i` lies within range of some other hazard.
pub open spec fn pair_doomed(holes: Seq<Hole>, i: int) -> bool {
    exists|j: int|
        0 <= j < holes.len() && j != i && within_radius(holes[i].pos, #[trigger] holes[j].pos, HOLE_HOLE_RANGE)
}

/// `r` lists each doomed hazard exactly once, in increasing order, and
/// nothing else.
pub open spec fn doomed_list(holes: Seq<Hole>, r: Seq<usize>) -> bool {
    &&& forall|a: int, b: int| 0 <= a < b < r.len() ==> r[a] < r[b]
    &&& forall|a: int| 0 <= a < r.len() ==> (r[a] as int) < holes.len() && pair_doomed(holes, #[trigger] r[a] as int)
    &&& forall|i: int| 0 <= i < holes.len() && pair_doomed(holes, i) ==> r.contains(i as usize)
}

/// Hazards that collide with one another; each appears once however many
/// partners it has.
pub fn hole_pair_collisions(holes: &Vec<Hole>) -> (r: Vec<usize>)
    ensures
        doomed_list(holes@, r@),
{
    let n = holes.len();
    let mut r: Vec<usize> = Vec::new();
    let mut k: usize = 0;
    while k < n
        invariant
            n == holes@.len(),
            k <= n,
            forall|a: int, b: int| 0 <= a < b < r@.len() ==> r@[a] < r@[b],
            forall|a: int| 0 <= a < r@.len() ==> r@[a] < k && pair_doomed(holes@, #[trigger] r@[a] as int),
            forall|i: int| 0 <= i < k && pair_doomed(holes@, i) ==> r@.contains(i as usize),
        decreases n - k,
    {
        let mut hit = false;
        let mut j: usize = 0;
        while j < n
            invariant
                n == holes@.len(),
                k < n,
                j <= n,
                hit ==> pair_doomed(holes@, k as int),
                !hit ==> forall|m: int|
                    0 <= m < j && m != k ==> !within_radius(holes@[k as int].pos, #[trigger] holes@[m].pos, HOLE_HOLE_RANGE),
            decreases n - j,
        {
            if j != k && is_within_radius(holes[k].pos, holes[j].pos, HOLE_HOLE_RANGE) {
                hit = true;
            }
            j = j + 1;
        }
        let ghost before = r@;
        if hit {
            r.push(k);
            assert(r@.last() == k);
        }
        proof {
            assert forall|i: int| 0 <= i < k + 1 && pair_doomed(holes@, i) implies r@.contains(
                i as usize,
            ) by {
                if i < k {
                    let w = choose|w: int| 0 <= w < before.len() && before[w] == i as usize;
                    assert(r@[w] == i as usize);
                } else {
                    assert(r@[r@.len() - 1] == k);
                }
            }
        }
        k = k + 1;
    }
    r
}

/// Marks each target that lies inside the player's collision box.
pub fn mark_in_box(player: Pos, targets: &Vec<Pos>) -> (r: Vec<bool>)
    ensures
        r@.len() == targets@.len(),
        forall|j: int| 0 <= j < targets@.len() ==> r@[j] == within_box(player, #[trigger] targets@[j], PLAYER_BOX),
{
    let mut r: Vec<bool> = Vec::new();
    let mut j: usize = 0;
    while j < targets.len()
        invariant
            j <= targets.len(),
            r@.len() == j,
            forall|k: int| 0 <= k < j ==> r@[k] == within_box(player, #[trigger] targets@[k], PLAYER_BOX),
        decreases targets.len() - j,
    {
        r.push(is_within_box(player, targets[j], PLAYER_BOX));
        j = j + 1;
    }
    r
}

/// Three hazards that are pairwise within range of one another are each
/// destroyed, and each exactly once.
pub proof fn lemma_three_mutual_holes_each_once(holes: Seq<Hole>, r: Seq<usize>)
    requires
        holes.len() == 3,
        forall|i: int, j: int|
            0 <= i < 3 && 0 <= j < 3 && i != j ==> within_radius(
                #[trigger] holes[i].pos,
                #[trigger] holes[j].pos,
                HOLE_HOLE_RANGE,
            ),
        doomed_list(holes, r),
    ensures
        r == seq![0usize, 1usize, 2usize],
{
    assert(within_radius(holes[0].pos, holes[1].pos, HOLE_HOLE_RANGE));
    assert(within_radius(holes[1].pos, holes[0].pos, HOLE_HOLE_RANGE));
    assert(within_radius(holes[2].pos, holes[0].pos, HOLE_HOLE_RANGE));
    assert(pair_doomed(holes, 0));
    assert(pair_doomed(holes, 1));
    assert(pair_doomed(holes, 2));
    assert(r.contains(0usize) && r.contains(1usize) && r.contains(2usize));
    let w0 = choose|w: int| 0 <= w < r.len() && r[w] == 0usize;
    let w1 = choose|w: int| 0 <= w < r.len() && r[w] == 1usize;
    let w2 = choose|w: int| 0 <= w < r.len() && r[w] == 2usize;
    assert(w0 < w1 < w2);
    if r.len() > 3 {
        assert(r[3] < 3);
        assert(r[0] < r[1] < r[2] < r[3]);
    }
    assert(r.len() == 3);
    assert(r =~= seq![0usize, 1usize, 2usize]);
}

/// Number of `hs` within projectile range of `m`.
pub open spec fn row_hits(m: Pos, hs: Seq<Pos>) -> nat
    decreases hs.len(),
{
    if hs.len() == 0 {
        0
    } else {
        row_hits(m, hs.drop_last()) + if within_radius(m, hs.last(), MISSILE_RANGE) {
            1nat
        } else {
            0nat
        }
    }
}

/// Number of (projectile, hazard) pairs within range of each other.
pub open spec fn pair_hits(ms: Seq<Pos>, hs: Seq<Pos>) -> nat
    decreases ms.len(),
{
    if ms.len() == 0 {
        0
    } else {
        pair_hits(ms.drop_last(), hs) + row_hits(ms.last(), hs)
    }
}

pub open spec fn saturate(n: nat) -> u64 {
    if n > u64::MAX {
        u64::MAX
    } else {
        n as u64
    }
}

/// What projectiles hit this tick.
pub struct MissileHits {
    /// Projectiles that hit some hazard.
    pub missiles: Vec<bool>,
    /// Hazards hit by some projectile.
    pub holes: Vec<bool>,
    /// One explosion per (projectile, hazard) pair in range; saturates.
    pub explosions: u64,
}

/// Projectiles that hit hazards, the hazards they hit, and the explosions
/// to show.
pub fn missile_hits(missiles: &Vec<Pos>, holes: &Vec<Hole>) -> (r: MissileHits)
    ensures
        r.holes@.len() == holes@.len(),
        forall|j: int|
            0 <= j < holes@.len() ==> r.holes@[j] == near_any(
                #[trigger] hole_positions(holes@)[j],
                missiles@,
                MISSILE_RANGE,
            ),
        r.missiles@.len() == missiles@.len(),
        forall|i: int|
            0 <= i < missiles@.len() ==> r.missiles@[i] == (row_hits(
                #[trigger] missiles@[i],
                hole_positions(holes@),
            ) > 0),
        r.explosions == saturate(pair_hits(missiles@, hole_positions(holes@))),
{
    let hp = positions(holes);
    let hole_mask = mark_near(missiles, &hp, MISSILE_RANGE);
    let mut missile_mask: Vec<bool> = Vec::new();
    let mut count: u64 = 0;
    let mut i: usize = 0;
    while i < missiles.len()
        invariant
            i <= missiles.len(),
            missile_mask@.len() == i,
            forall|k: int| 0 <= k < i ==> missile_mask@[k] == (row_hits(#[trigger] missiles@[k], hp@) > 0),
            count == saturate(pair_hits(missiles@.take(i as int), hp@)),
        decreases missiles.len() - i,
    {
        let m = missiles[i];
        let mut row: u64 = 0;
        let mut j: usize = 0;
        while j < hp.len()
            invariant
                j <= hp.len(),
                row == saturate(row_hits(m, hp@.take(j as int))),
                count == saturate(pair_hits(missiles@.take(i as int), hp@)),
            decreases hp.len() - j,
        {
            assert(hp@.take(j as int + 1).drop_last() == hp@.take(j as int));
            if is_within_radius(m, hp[j], MISSILE_RANGE) {
                if row < u64::MAX {
                    row = row + 1;
                }
            }
            j = j + 1;
        }
        assert(hp@.take(j as int) == hp@);
        assert(missiles@.take(i as int + 1).drop_last() == missiles@.take(i as int));
        missile_mask.push(row > 0);
        count = if count > u64::MAX - row { u64::MAX } else { count + row };
        i = i + 1;
    }
    assert(missiles@.take(i as int) == missiles@);
    MissileHits { missiles: missile_mask, holes: hole_mask, explosions: count }
}

/// The items whose mark is false, in their order.
pub open spec fn kept<A>(items: Seq<A>, mask: Seq<bool>) -> Seq<A>
    decreases items.len(),
{
    if items.len() == 0 {
        Seq::empty()
    } else {
        let r = kept(items.drop_last(), mask);
        if mask[items.len() - 1] {
            r
        } else {
            r.push(items.last())
        }
    }
}

/// Drops the marked items and keeps the rest in order.
pub fn remove_marked<A: Copy>(items: &Vec<A>, mask: &Vec<bool>) -> (r: Vec<A>)
    requires
        mask@.len() == items@.len(),
    ensures
        r@ == kept(items@, mask@),
{
    let mut r: Vec<A> = Vec::new();
    let mut i: usize = 0;
    while i < items.len()
        invariant
            i <= items.len(),
            mask@.len() == items@.len(),
            r@ == kept(items@.take(i as int), mask@),
        decreases items.len() - i,
    {
        assert(items@.take(i as int + 1).drop_last() == items@.take(i as int));
        if !mask[i] {
            r.push(items[i]);
        }
        i = i + 1;
    }
    assert(items@.take(i as int) == items@);
    r
}

/// Every item that survives removal was unmarked.
pub proof fn lemma_kept_unmarked<A>(items: Seq<A>, mask: Seq<bool>, k: int)
    requires
        items.len() <= mask.len(),
        0 <= k < kept(items, mask).len(),
    ensures
        exists|i: int| 0 <= i < items.len() && !mask[i] && items[i] == #[trigger] kept(items, mask)[k],
    decreases items.len(),
{
    let r = kept(items.drop_last(), mask);
    let n = items.len() - 1;
    if k < r.len() {
        lemma_kept_unmarked(items.drop_last(), mask, k);
        let i = choose|i: int|
            0 <= i < n && !mask[i] && items.drop_last()[i] == #[trigger] kept(items.drop_last(), mask)[k];
        assert(items[i] == kept(items, mask)[k]);
    } else {
        assert(!mask[n] && items[n] == kept(items, mask)[k]);
    }
}

} // verus!
