//! Bullets against enemies: who is hit, what it scores and who is left.

use vstd::prelude::*;
use crate::geometry::{all_wf, collides, none_collided, Shape};
use crate::score::{lemma_raised_twice, points_for, points_of, raise, raised};

verus! {

/// What the host shows where an enemy was destroyed.
#[derive(Clone, Copy, Debug, PartialEq, Eq, Structural)]
pub struct Explosion {
    /// Centre of the destroyed enemy.
    pub x: i64,
    pub y: i64,
    /// Points scored by the hit.
    pub points: u32,
    /// Particles to emit: four for each point.
    pub particles: u32,
}

/// The shapes that overlap `target`.
pub open spec fn touching(target: Shape) -> spec_fn(Shape) -> bool {
    |other: Shape| collides(other, target)
}

/// How many of `others` overlap `target`.
pub open spec fn hit_count(target: Shape, others: Seq<Shape>) -> nat {
    others.filter(touching(target)).len()
}

/// The shapes that none of `others` overlaps.
pub open spec fn untouched_by(others: Seq<Shape>) -> spec_fn(Shape) -> bool {
    |s: Shape| hit_count(s, others) == 0
}

/// Those of `shapes`, in order, that none of `others` overlaps.
pub open spec fn survivors(shapes: Seq<Shape>, others: Seq<Shape>) -> Seq<Shape> {
    shapes.filter(untouched_by(others))
}

/// `s` with its flag raised if `hit`.
pub open spec fn marked(s: Shape, hit: bool) -> Shape {
    Shape { collided: s.collided || hit, ..s }
}

/// `shapes`, each flagged if one of `others` overlaps it.
pub open spec fn flagged(shapes: Seq<Shape>, others: Seq<Shape>) -> Seq<Shape> {
    shapes.map_values(|s: Shape| marked(s, hit_count(s, others) > 0))
}

/// The shapes that carry no flag.
pub open spec fn standing() -> spec_fn(Shape) -> bool {
    |s: Shape| !s.collided
}

/// The explosion that one hit on `enemy` sets off.
pub open spec fn explosion_of(enemy: Shape) -> Explosion {
    Explosion {
        x: enemy.x,
        y: enemy.y,
        points: points_of(enemy.size as int) as u32,
        particles: (4 * points_of(enemy.size as int)) as u32,
    }
}

/// `n` explosions of one enemy.
pub open spec fn burst(enemy: Shape, n: nat) -> Seq<Explosion> {
    Seq::new(n, |k: int| explosion_of(enemy))
}

/// One explosion for each pair of an enemy and a bullet that overlaps it,
/// enemy by enemy.
pub open spec fn blasts(enemies: Seq<Shape>, bullets: Seq<Shape>) -> Seq<Explosion>
    decreases enemies.len(),
{
    if enemies.len() == 0 {
        Seq::empty()
    } else {
        blasts(enemies.drop_last(), bullets) + burst(
            enemies.last(),
            hit_count(enemies.last(), bullets),
        )
    }
}

/// Sum of the points of some explosions.
pub open spec fn total_points(explosions: Seq<Explosion>) -> int
    decreases explosions.len(),
{
    if explosions.len() == 0 {
        0
    } else {
        total_points(explosions.drop_last()) + explosions.last().points
    }
}

/// The explosion that one hit on `enemy` sets off.
pub fn explosion_for(enemy: &Shape) -> (x: Explosion)
    requires
        enemy.wf(),
    ensures
        x == explosion_of(*enemy),
        x.particles == 4 * x.points,
        x.points == points_of(enemy.size as int),
{
    let points: u32 = points_for(enemy.size);
    Explosion { x: enemy.x, y: enemy.y, points, particles: 4 * points }
}

/// Whether any of `others` overlaps `target`.
pub fn hits_any(target: &Shape, others: &Vec<Shape>) -> (b: bool)
    requires
        target.wf(),
        all_wf(others@),
    ensures
        b == (hit_count(*target, others@) > 0),
{
    let mut found = false;
    let mut i: usize = 0;
    while i < others.len()
        invariant
            i <= others.len(),
            target.wf(),
            all_wf(others@),
            found == (hit_count(*target, others@.take(i as int)) > 0),
        decreases others.len() - i,
    {
        let other = others[i];
        proof {
            lemma_hit_count_push(*target, others@.take(i as int), other);
            assert(others@.take(i + 1) =~= others@.take(i as int).push(other));
        }
        if other.collides_with(target) {
            found = true;
        }
        i += 1;
    }
    assert(others@.take(others.len() as int) =~= others@);
    found
}

/// Tests every enemy against every bullet. Each overlapping pair flags
/// both shapes, sets off one explosion at the enemy and adds the enemy's
/// points to `score`. Returns the explosions and the new score.
pub fn mark_hits(enemies: &mut Vec<Shape>, bullets: &mut Vec<Shape>, score: u32) -> (r: (
    Vec<Explosion>,
    u32,
))
    requires
        all_wf(old(enemies)@),
        all_wf(old(bullets)@),
    ensures
        final(enemies)@ == flagged(old(enemies)@, old(bullets)@),
        final(bullets)@ == flagged(old(bullets)@, old(enemies)@),
        r.0@ == blasts(old(enemies)@, old(bullets)@),
        r.1 == raised(score as int, total_points(r.0@)),
{
    let ghost e0 = enemies@;
    let ghost b0 = bullets@;
    let mut explosions: Vec<Explosion> = Vec::new();
    let mut total: u32 = score;
    let mut i: usize = 0;
    assert(e0.take(0) =~= Seq::<Shape>::empty());
    proof {
        assert forall|l: int| 0 <= l < b0.len() implies hit_count(b0[l], e0.take(0)) == 0 by {
            reveal(Seq::filter);
        }
    }
    while i < enemies.len()
        invariant
            all_wf(e0),
            all_wf(b0),
            enemies@.len() == e0.len(),
            bullets@.len() == b0.len(),
            i <= e0.len(),
            forall|k: int|
                0 <= k < e0.len() ==> #[trigger] enemies@[k] == (if k < i {
                    marked(e0[k], hit_count(e0[k], b0) > 0)
                } else {
                    e0[k]
                }),
            forall|l: int|
                0 <= l < b0.len() ==> #[trigger] bullets@[l] == marked(
                    b0[l],
                    hit_count(b0[l], e0.take(i as int)) > 0,
                ),
            explosions@ == blasts(e0.take(i as int), b0),
            total == raised(score as int, total_points(explosions@)),
        decreases e0.len() - i,
    {
        let enemy = enemies[i];
        let mut struck = false;
        let mut j: usize = 0;
        proof {
            assert(b0.take(0) =~= Seq::<Shape>::empty());
            assert(hit_count(enemy, b0.take(0)) == 0) by {
                reveal(Seq::filter);
            }
            assert(explosions@ + burst(enemy, 0) =~= explosions@);
        }
        while j < bullets.len()
            invariant
                all_wf(e0),
                all_wf(b0),
                enemies@.len() == e0.len(),
                bullets@.len() == b0.len(),
                i < e0.len(),
                j <= b0.len(),
                enemy == e0[i as int],
                struck == (hit_count(enemy, b0.take(j as int)) > 0),
                forall|l: int|
                    0 <= l < b0.len() ==> #[trigger] bullets@[l] == marked(
                        b0[l],
                        hit_count(b0[l], e0.take(i as int)) > 0 || (l < j && collides(
                            b0[l],
                            enemy,
                        )),
                    ),
                explosions@ == blasts(e0.take(i as int), b0) + burst(
                    enemy,
                    hit_count(enemy, b0.take(j as int)),
                ),
                total == raised(score as int, total_points(explosions@)),
            decreases b0.len() - j,
        {
            let bullet = bullets[j];
            let ghost before = explosions@;
            let ghost n = hit_count(enemy, b0.take(j as int));
            proof {
                lemma_hit_count_push(enemy, b0.take(j as int), b0[j as int]);
                assert(b0.take(j + 1) =~= b0.take(j as int).push(b0[j as int]));
                assert(b0[j as int].wf());
                assert(bullet.wf());
            }
            if bullet.collides_with(&enemy) {
                bullets.set(j, Shape { collided: true, ..bullet });
                struck = true;
                let blast = explosion_for(&enemy);
                total = raise(total, blast.points);
                explosions.push(blast);
                proof {
                    lemma_total_points_push(before, blast);
                    lemma_total_points_not_negative(before);
                    lemma_raised_twice(score as int, total_points(before), blast.points as int);
                    assert(burst(enemy, n + 1) =~= burst(enemy, n).push(blast));
                    assert(explosions@ =~= blasts(e0.take(i as int), b0) + burst(enemy, n + 1));
                }
            }
            j += 1;
        }
        if struck {
            enemies.set(i, Shape { collided: true, ..enemy });
        }
        proof {
            assert(b0.take(b0.len() as int) =~= b0);
            assert(e0.take(i + 1).drop_last() =~= e0.take(i as int));
            assert(e0.take(i + 1).last() == enemy);
            assert forall|l: int| 0 <= l < b0.len() implies #[trigger] bullets@[l] == marked(
                b0[l],
                hit_count(b0[l], e0.take(i + 1)) > 0,
            ) by {
                lemma_hit_count_push(b0[l], e0.take(i as int), enemy);
                assert(e0.take(i + 1) =~= e0.take(i as int).push(enemy));
            }
        }
        i += 1;
    }
    proof {
        assert(e0.take(e0.len() as int) =~= e0);
        assert(enemies@ =~= flagged(e0, b0));
        assert(bullets@ =~= flagged(b0, e0));
    }
    (explosions, total)
}

/// Removes the flagged shapes and keeps the others in order.
pub fn sweep(shapes: &mut Vec<Shape>)
    ensures
        final(shapes)@ == old(shapes)@.filter(standing()),
{
    let mut kept: Vec<Shape> = Vec::new();
    let mut i: usize = 0;
    assert(shapes@.take(0) =~= Seq::<Shape>::empty());
    assert(Seq::<Shape>::empty().filter(standing()) =~= Seq::<Shape>::empty()) by {
        reveal(Seq::filter);
    }
    while i < shapes.len()
        invariant
            i <= shapes.len(),
            kept@ == shapes@.take(i as int).filter(standing()),
        decreases shapes.len() - i,
    {
        let s = shapes[i];
        proof {
            shapes@.take(i as int).lemma_filter_push(s, standing());
            assert(shapes@.take(i + 1) =~= shapes@.take(i as int).push(s));
        }
        if !s.collided {
            kept.push(s);
        }
        i += 1;
    }
    assert(shapes@.take(shapes.len() as int) =~= shapes@);
    *shapes = kept;
}

/// One more shape raises the count by one exactly when it overlaps the
/// target. The order of the two shapes in the test does not matter.
pub proof fn lemma_hit_count_push(target: Shape, others: Seq<Shape>, next: Shape)
    ensures
        hit_count(target, others.push(next)) == hit_count(target, others) + (if collides(
            next,
            target,
        ) {
            1nat
        } else {
            0nat
        }),
        collides(next, target) == collides(target, next),
{
    others.lemma_filter_push(next, touching(target));
}

/// The count is positive exactly when one of the others overlaps the
/// target.
pub proof fn lemma_hit_count_positive(target: Shape, others: Seq<Shape>)
    ensures
        hit_count(target, others) > 0 <==> exists|i: int|
            0 <= i < others.len() && collides(#[trigger] others[i], target),
{
    let found = others.filter(touching(target));
    if found.len() > 0 {
        others.lemma_filter_pred(touching(target), 0);
        assert(found.contains(found[0]));
        others.lemma_filter_contains_rev(touching(target), found[0]);
        let i = choose|i: int| 0 <= i < others.len() && others[i] == found[0];
        assert(collides(others[i], target));
    }
    if exists|i: int| 0 <= i < others.len() && collides(#[trigger] others[i], target) {
        let i = choose|i: int| 0 <= i < others.len() && collides(#[trigger] others[i], target);
        others.lemma_filter_contains(touching(target), i);
    }
}

/// Points add up along a sequence of explosions.
pub proof fn lemma_total_points_push(explosions: Seq<Explosion>, next: Explosion)
    ensures
        total_points(explosions.push(next)) == total_points(explosions) + next.points,
{
    assert(explosions.push(next).drop_last() =~= explosions);
}

/// Points never add up to less than nothing.
pub proof fn lemma_total_points_not_negative(explosions: Seq<Explosion>)
    ensures
        total_points(explosions) >= 0,
    decreases explosions.len(),
{
    if explosions.len() > 0 {
        lemma_total_points_not_negative(explosions.drop_last());
    }
}

/// Flagging the hit shapes and sweeping the flagged ones away leaves the
/// survivors, when no shape was flagged before.
pub proof fn lemma_sweep_leaves_survivors(shapes: Seq<Shape>, others: Seq<Shape>)
    requires
        none_collided(shapes),
    ensures
        flagged(shapes, others).filter(standing()) == survivors(shapes, others),
    decreases shapes.len(),
{
    if shapes.len() == 0 {
        reveal(Seq::filter);
        assert(flagged(shapes, others) =~= shapes);
    } else {
        let rest = shapes.drop_last();
        let last = shapes.last();
        let hit = hit_count(last, others) > 0;
        lemma_sweep_leaves_survivors(rest, others);
        assert(shapes =~= rest.push(last));
        assert(flagged(shapes, others) =~= flagged(rest, others).push(marked(last, hit)));
        flagged(rest, others).lemma_filter_push(marked(last, hit), standing());
        rest.lemma_filter_push(last, untouched_by(others));
        assert(!hit ==> marked(last, hit) == last);
    }
}

/// Every survivor is one of the shapes it was chosen from, and nothing
/// overlaps it.
pub proof fn lemma_survivor_untouched(shapes: Seq<Shape>, others: Seq<Shape>, k: int)
    requires
        0 <= k < survivors(shapes, others).len(),
    ensures
        shapes.contains(survivors(shapes, others)[k]),
        hit_count(survivors(shapes, others)[k], others) == 0,
{
    let kept = survivors(shapes, others);
    shapes.lemma_filter_pred(untouched_by(others), k);
    assert(kept.contains(kept[k]));
    shapes.lemma_filter_contains_rev(untouched_by(others), kept[k]);
}

/// A shape that none of `others` overlaps is overlapped by none of a
/// selection of them either.
pub proof fn lemma_hit_count_of_fewer(target: Shape, others: Seq<Shape>, pick: spec_fn(Shape) -> bool)
    requires
        hit_count(target, others) == 0,
    ensures
        hit_count(target, others.filter(pick)) == 0,
{
    let fewer = others.filter(pick);
    let found = fewer.filter(touching(target));
    if found.len() > 0 {
        let b = found[0];
        fewer.lemma_filter_pred(touching(target), 0);
        assert(found.contains(b));
        fewer.lemma_filter_contains_rev(touching(target), b);
        others.lemma_filter_contains_rev(pick, b);
        let i = choose|i: int| 0 <= i < others.len() && others[i] == b;
        others.lemma_filter_contains(touching(target), i);
        assert(others.filter(touching(target)).len() > 0);
    }
}

/// Where no bullet overlaps any enemy, nothing explodes.
pub proof fn lemma_no_hits_no_blasts(enemies: Seq<Shape>, bullets: Seq<Shape>)
    requires
        forall|k: int| 0 <= k < enemies.len() ==> hit_count(#[trigger] enemies[k], bullets) == 0,
    ensures
        blasts(enemies, bullets) == Seq::<Explosion>::empty(),
        total_points(blasts(enemies, bullets)) == 0,
    decreases enemies.len(),
{
    if enemies.len() > 0 {
        lemma_no_hits_no_blasts(enemies.drop_last(), bullets);
        assert(hit_count(enemies.last(), bullets) == 0);
        assert(blasts(enemies, bullets) =~= Seq::<Explosion>::empty());
    }
}

/// No pair scores twice: the enemies and bullets that are left after the
/// hit ones were removed do not overlap, so testing them again sets off no
/// explosion and scores nothing.
pub proof fn lemma_no_double_scoring(enemies: Seq<Shape>, bullets: Seq<Shape>)
    ensures
        blasts(survivors(enemies, bullets), survivors(bullets, enemies)) == Seq::<
            Explosion,
        >::empty(),
        total_points(blasts(survivors(enemies, bullets), survivors(bullets, enemies))) == 0,
        survivors(survivors(enemies, bullets), survivors(bullets, enemies)) == survivors(
            enemies,
            bullets,
        ),
{
    let left = survivors(enemies, bullets);
    let shots = survivors(bullets, enemies);
    assert forall|k: int| 0 <= k < left.len() implies hit_count(#[trigger] left[k], shots)
        == 0 by {
        lemma_survivor_untouched(enemies, bullets, k);
        lemma_hit_count_of_fewer(left[k], bullets, untouched_by(enemies));
    }
    lemma_no_hits_no_blasts(left, shots);
    lemma_filter_keeps_all(left, untouched_by(shots));
}

/// A filter that every element passes keeps the sequence as it is.
pub proof fn lemma_filter_keeps_all(shapes: Seq<Shape>, pick: spec_fn(Shape) -> bool)
    requires
        forall|k: int| 0 <= k < shapes.len() ==> pick(#[trigger] shapes[k]),
    ensures
        shapes.filter(pick) == shapes,
    decreases shapes.len(),
{
    reveal(Seq::filter);
    if shapes.len() > 0 {
        lemma_filter_keeps_all(shapes.drop_last(), pick);
        assert(shapes.drop_last().push(shapes.last()) =~= shapes);
    }
}

} // verus!
