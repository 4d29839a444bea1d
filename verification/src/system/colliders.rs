use vstd::prelude::*;
use crate::component::resource::ColliderResource;
use crate::component::{BallType, Lives, Position, Sound, Tags, Velocity};
use crate::game::States;
use crate::geometry::{clamp, clamp32, magnitude, saturate, saturate32, sign, signum, Rect, Vec2};
use crate::store::{fields_of, handle, live, replaced, Entity, FieldsView, SlotView};
use crate::system::ball::is_ball;
use crate::world::{World, WorldView};

verus! {

/// Whether these are the fields of a static collider: a bounding box and a
/// position, and no velocity.
pub open spec fn is_static(f: FieldsView) -> bool {
    f.aabb is Some && f.position is Some && f.velocity is None
}

/// The static colliders among the first `n` slots, in the order of the
/// slots: each with its bounding box placed at its position.
pub open spec fn static_colliders(s: Seq<SlotView>, n: int) -> Seq<(Entity, Rect)>
    decreases n,
{
    if n <= 0 {
        Seq::empty()
    } else {
        let rest = static_colliders(s, n - 1);
        let slot = s[n - 1];
        if slot.fields is Some && is_static(slot.fields.unwrap()) {
            let f = slot.fields.unwrap();
            rest.push((handle(s, n - 1), f.aabb.unwrap().0.placed(f.position.unwrap().0)))
        } else {
            rest
        }
    }
}

/// Takes the snapshot of the static colliders for this frame: every entity
/// with a bounding box and a position that does not move.
pub fn query_all_colliders(world: &mut World)
    ensures
        final(world)@ == (WorldView {
            colliders: static_colliders(old(world)@.entities, old(world)@.entities.len() as int),
            ..old(world)@
        }),
{
    let n: usize = world.entities.slot_count();
    let mut found: Vec<(Entity, Rect)> = Vec::new();
    let mut i: usize = 0;
    while i < n
        invariant
            i <= n,
            n == world@.entities.len(),
            *world == *old(world),
            found@ == static_colliders(world@.entities, i as int),
        decreases n - i,
    {
        let rect = match world.entities.fields_at(i) {
            Some(f) => match (f.aabb, f.position, f.velocity) {
                (Some(b), Some(p), None) => Some(b.0.place(p.0)),
                _ => None,
            },
            None => None,
        };
        match (rect, world.entities.entity_at(i)) {
            (Some(r), Some(e)) => {
                found.push((e, r));
            },
            _ => {},
        }
        i += 1;
    }
    world.colliders = ColliderResource(found);
}

/// A collision: the collider that was struck, its rectangle, and the
/// rectangle that it has in common with what struck it.
#[derive(Clone, Copy, Debug, PartialEq, Eq, Structural)]
pub struct Hit {
    pub entity: Entity,
    pub collider: Rect,
    pub intersection: Rect,
}

/// The first collider at or after `from` that overlaps `a`, or the number of
/// colliders if none does.
pub open spec fn first_hit(a: Rect, b: Seq<(Entity, Rect)>, from: int) -> int
    decreases b.len() - from,
{
    if from < 0 || from >= b.len() {
        b.len() as int
    } else if b[from].1.overlaps(a) {
        from
    } else {
        first_hit(a, b, from + 1)
    }
}

/// The collision of `a` with the first of the colliders that it overlaps.
/// A collider that it merely touches is none.
pub open spec fn collision(a: Rect, b: Seq<(Entity, Rect)>) -> Option<Hit> {
    let k = first_hit(a, b, 0);
    if k < b.len() {
        Some(Hit { entity: b[k].0, collider: b[k].1, intersection: b[k].1.overlap(a).unwrap() })
    } else {
        None
    }
}

/// Finds the first of the colliders, in their order, that `a` overlaps.
pub fn collide(a: &Rect, b: &Vec<(Entity, Rect)>) -> (r: Option<Hit>)
    ensures
        r == collision(*a, b@),
{
    let n: usize = b.len();
    let mut i: usize = 0;
    while i < n
        invariant
            i <= n,
            n == b@.len(),
            first_hit(*a, b@, 0) == first_hit(*a, b@, i as int),
        decreases n - i,
    {
        let (entity, collider) = b[i];
        match collider.intersect(*a) {
            Some(intersection) => {
                return Some(Hit { entity, collider, intersection });
            },
            None => {},
        }
        i += 1;
    }
    None
}

/// The displacement that takes a mover out of a collider. Where the common
/// rectangle is wider than high the mover is pushed vertically, else
/// horizontally, by the extent of the common rectangle and away from the
/// center of the collider; centers level on that axis mean no push.
pub open spec fn push(mover: Rect, collider: Rect, common: Rect) -> (int, int) {
    if common.w > common.h {
        (0int, -(sign(collider.center_y2() - mover.center_y2()) * common.h))
    } else {
        (-(sign(collider.center_x2() - mover.center_x2()) * common.w), 0int)
    }
}

/// The position of a mover after it was pushed out of a collider, each
/// coordinate saturating.
pub open spec fn pushed(p: Vec2, mover: Rect, hit: Hit) -> Vec2 {
    p.shifted(
        push(mover, hit.collider, hit.intersection).0,
        push(mover, hit.collider, hit.intersection).1,
    )
}

/// The direction of a mover after it struck a collider: on the axis of the
/// push it keeps its speed and points away from the center of the collider.
pub open spec fn reflected(v: Vec2, mover: Rect, hit: Hit) -> Vec2 {
    let o = hit.intersection;
    if o.w > o.h {
        Vec2 {
            x: v.x,
            y: clamp(-(sign(hit.collider.center_y2() - mover.center_y2()) * magnitude(v.y as int))) as i64,
        }
    } else {
        Vec2 {
            x: clamp(-(sign(hit.collider.center_x2() - mover.center_x2()) * magnitude(v.x as int))) as i64,
            y: v.y,
        }
    }
}

/// The product of a sign and an amount.
fn times_sign(s: i64, amount: i128) -> (r: i128)
    requires
        -1 <= s <= 1,
        -0x1_0000_0000_0000_0000 <= amount <= 0x1_0000_0000_0000_0000,
    ensures
        r == s * amount,
        -0x1_0000_0000_0000_0000 <= r <= 0x1_0000_0000_0000_0000,
{
    if s > 0 {
        assert(s == 1);
        amount
    } else if s < 0 {
        assert(s == -1);
        -amount
    } else {
        assert(s == 0);
        0
    }
}

/// Resolves the collision `hit` of a mover with the rectangle `mover`:
/// returns its corrected position and its reflected direction.
pub fn resolve(position: Position, velocity: Velocity, mover: Rect, hit: Hit) -> (r: (
    Position,
    Velocity,
))
    ensures
        r.0.0 == pushed(position.0, mover, hit),
        r.1.0 == reflected(velocity.0, mover, hit),
{
    let o = hit.intersection;
    let c = hit.collider;
    if o.w > o.h {
        let s: i64 = signum(
            2 * c.y as i128 + c.h as i128 - (2 * mover.y as i128 + mover.h as i128),
        );
        let speed: i128 = if velocity.0.y < 0 {
            -(velocity.0.y as i128)
        } else {
            velocity.0.y as i128
        };
        (
            Position(
                Vec2 { x: position.0.x, y: saturate(position.0.y as i128 - times_sign(s, o.h as i128)) },
            ),
            Velocity(Vec2 { x: velocity.0.x, y: saturate(-times_sign(s, speed)) }),
        )
    } else {
        let s: i64 = signum(
            2 * c.x as i128 + c.w as i128 - (2 * mover.x as i128 + mover.w as i128),
        );
        let speed: i128 = if velocity.0.x < 0 {
            -(velocity.0.x as i128)
        } else {
            velocity.0.x as i128
        };
        (
            Position(
                Vec2 { x: saturate(position.0.x as i128 - times_sign(s, o.w as i128)), y: position.0.y },
            ),
            Velocity(Vec2 { x: saturate(-times_sign(s, speed)), y: velocity.0.y }),
        )
    }
}

/// The lives of a collider after it was struck: none after a special ball,
/// else one less, saturating.
pub open spec fn struck(lives: Lives, tags: Tags) -> Lives {
    if tags == Tags::Ball(BallType::Special) {
        Lives(0)
    } else {
        Lives(clamp32(lives.0 - 1) as i32)
    }
}

/// The lives of a collider after it was struck by something tagged `tags`.
pub fn strike(lives: Lives, tags: Tags) -> (r: Lives)
    ensures
        r == struck(lives, tags),
{
    match tags {
        Tags::Ball(BallType::Special) => Lives(0),
        _ => Lives(saturate32(lives.0 as i64 - 1)),
    }
}

/// Whether these are the fields of something that a hit wears down: lives and
/// a tag. The paddle carries no tag, so a ball that bounces off it takes no
/// life from the player.
pub open spec fn is_breakable(f: FieldsView) -> bool {
    f.lives is Some && f.tags is Some
}

/// The world after the collision system has dealt with slot `i`. A mover
/// that overlaps a collider of the snapshot is resolved against the first
/// one that it overlaps, and no other. If the collider is alive and
/// breakable, it is struck and the sound of a hit is to be played.
pub open spec fn collision_step(w: WorldView, i: int) -> WorldView {
    let slot = w.entities[i];
    if slot.fields is Some && is_ball(slot.fields.unwrap()) {
        let f = slot.fields.unwrap();
        let mover = f.aabb.unwrap().0.placed(f.position.unwrap().0);
        match collision(mover, w.colliders) {
            Some(hit) => {
                let moved = w.entities.update(
                    i,
                    SlotView {
                        generation: slot.generation,
                        fields: Some(
                            FieldsView {
                                position: Some(Position(pushed(f.position.unwrap().0, mover, hit))),
                                velocity: Some(
                                    Velocity(reflected(f.velocity.unwrap().0, mover, hit)),
                                ),
                                ..f
                            },
                        ),
                    },
                );
                if live(moved, hit.entity) && is_breakable(fields_of(moved, hit.entity)) {
                    let target = fields_of(moved, hit.entity);
                    WorldView {
                        entities: replaced(
                            moved,
                            hit.entity,
                            FieldsView {
                                lives: Some(struck(target.lives.unwrap(), f.tags.unwrap())),
                                ..target
                            },
                        ),
                        sounds: w.sounds.push(Sound::HitBlock),
                        ..w
                    }
                } else {
                    WorldView { entities: moved, ..w }
                }
            },
            None => w,
        }
    } else {
        w
    }
}

/// The world after the collision system has dealt with the first `n` slots
/// in order.
pub open spec fn collision_pass(w: WorldView, n: int) -> WorldView
    decreases n,
{
    if n <= 0 {
        w
    } else {
        collision_step(collision_pass(w, n - 1), n - 1)
    }
}

/// The world once the collision system has looked at the snapshot: with at
/// most one static collider left, the paddle, the round is over and the game
/// is `Restarting`.
pub open spec fn cleared(w: WorldView) -> WorldView {
    WorldView {
        state: if w.colliders.len() <= 1 {
            States::Restarting
        } else {
            w.state
        },
        ..w
    }
}

/// The collision system: restarts the round when no block is left, then
/// resolves every mover against the snapshot of the static colliders.
pub fn system(world: &mut World)
    ensures
        final(world)@ == collision_pass(cleared(old(world)@), old(world)@.entities.len() as int),
{
    if world.colliders.0.len() <= 1 {
        world.state = States::Restarting;
    }
    let n: usize = world.entities.slot_count();
    let mut i: usize = 0;
    while i < n
        invariant
            i <= n,
            n == world@.entities.len(),
            world@ == collision_pass(cleared(old(world)@), i as int),
        decreases n - i,
    {
        let ghost before = world@;
        let found = match world.entities.fields_at(i) {
            Some(f) => match (f.position, f.velocity, f.aabb, f.tags) {
                (Some(p), Some(v), Some(b), Some(t)) => Some((p, v, b, t)),
                _ => None,
            },
            None => None,
        };
        match (found, world.entities.entity_at(i)) {
            (Some((p, v, b, t)), Some(e)) => {
                let mover = b.0.place(p.0);
                match collide(&mover, &world.colliders.0) {
                    Some(hit) => {
                        let (position, velocity) = resolve(p, v, mover, hit);
                        world.entities.set_position(e, position);
                        world.entities.set_velocity(e, velocity);
                        let lives = match world.entities.get(hit.entity) {
                            Some(target) => {
                                if target.tags.is_some() {
                                    target.lives
                                } else {
                                    None
                                }
                            },
                            None => None,
                        };
                        match lives {
                            Some(l) => {
                                world.entities.set_lives(hit.entity, strike(l, t));
                                world.sounds.push(Sound::HitBlock);
                            },
                            None => {},
                        }
                        assert(world@.entities =~= collision_step(before, i as int).entities);
                    },
                    None => {},
                }
            },
            _ => {},
        }
        assert(world@ == collision_step(before, i as int));
        i += 1;
    }
}

/// The collision pass changes neither the state of the game nor the
/// snapshot of the colliders, and keeps the number of slots.
pub proof fn lemma_collision_pass_keeps(w: WorldView, n: int)
    ensures
        collision_pass(w, n).state == w.state,
        collision_pass(w, n).colliders == w.colliders,
        n <= w.entities.len() ==> collision_pass(w, n).entities.len() == w.entities.len(),
        collision_pass(w, n).commands == w.commands,
        collision_pass(w, n).score == w.score,
    decreases n,
{
    if n > 0 {
        lemma_collision_pass_keeps(w, n - 1);
    }
}

/// When at most one static collider is left, which is the paddle when all
/// blocks are gone, the collision system leaves the game `Restarting`.
pub proof fn lemma_cleared_board_restarts(w: WorldView)
    requires
        w.colliders.len() <= 1,
    ensures
        collision_pass(cleared(w), w.entities.len() as int).state == States::Restarting,
{
    lemma_collision_pass_keeps(cleared(w), w.entities.len() as int);
}

/// Whether the interval from `a0` to `a1` lies to the low side of the
/// interval from `b0` to `b1`: it begins and ends no later, and neither holds
/// the other unless they are equal at one end only.
pub open spec fn leans(a0: int, a1: int, b0: int, b1: int) -> bool {
    a0 <= b0 && a1 <= b1 && (a0 < b0 || a1 < b1)
}

/// Whether, on the axis along which the mover `m` is pushed out of the
/// collider `c`, the two are offset against each other and neither reaches
/// over both ends of the other.
pub open spec fn offset(m: Rect, c: Rect) -> bool {
    let o = c.overlap(m).unwrap();
    if o.w > o.h {
        leans(m.y as int, m.bottom(), c.y as int, c.bottom()) || leans(
            c.y as int,
            c.bottom(),
            m.y as int,
            m.bottom(),
        )
    } else {
        leans(m.x as int, m.right(), c.x as int, c.right()) || leans(
            c.x as int,
            c.right(),
            m.x as int,
            m.right(),
        )
    }
}

/// Whether `v` is a coordinate.
pub open spec fn fits(v: int) -> bool {
    i64::MIN <= v <= i64::MAX
}

/// Whether no coordinate saturates when the mover with the box `b` at `p` is
/// pushed out of the collider `c`: neither its position nor the corner of
/// its box, before the push or after it.
pub open spec fn unsaturated(p: Vec2, b: Rect, c: Rect) -> bool {
    let m = b.placed(p);
    let by = push(m, c, c.overlap(m).unwrap());
    &&& fits(p.x + b.x)
    &&& fits(p.y + b.y)
    &&& fits(p.x + by.0)
    &&& fits(p.y + by.1)
    &&& fits(p.x + by.0 + b.x)
    &&& fits(p.y + by.1 + b.y)
}

/// Resolution breaks the contact. A mover with the box `b` at `p` overlaps
/// the collider `c` and is offset against it on the axis of the push. Then
/// the mover is moved on that axis only, by the extent of what the two had
/// in common and away from the center of the collider; on that axis its
/// direction keeps its speed and points away from that center, and on the
/// other axis it is unchanged. Afterwards the two touch and no longer
/// overlap, so that the same pair collides no second time.
pub proof fn lemma_resolution_settles(p: Vec2, v: Vec2, b: Rect, c: Rect, e: Entity)
    requires
        c.overlaps(b.placed(p)),
        offset(b.placed(p), c),
        unsaturated(p, b, c),
    ensures
        ({
            let m = b.placed(p);
            let o = c.overlap(m).unwrap();
            let hit = Hit { entity: e, collider: c, intersection: o };
            let settled = pushed(p, m, hit);
            let turned = reflected(v, m, hit);
            let moved = b.placed(settled);
            let sx = sign(c.center_x2() - m.center_x2());
            let sy = sign(c.center_y2() - m.center_y2());
            &&& o.w > o.h ==> {
                &&& sy != 0
                &&& settled.x == p.x
                &&& settled.y == p.y - sy * o.h
                &&& turned.x == v.x
                &&& turned.y == clamp(-(sy * magnitude(v.y as int)))
                &&& (moved.bottom() == c.y || moved.y == c.bottom())
            }
            &&& o.w <= o.h ==> {
                &&& sx != 0
                &&& settled.y == p.y
                &&& settled.x == p.x - sx * o.w
                &&& turned.y == v.y
                &&& turned.x == clamp(-(sx * magnitude(v.x as int)))
                &&& (moved.right() == c.x || moved.x == c.right())
            }
            &&& !c.overlaps(moved)
            &&& collision(moved, seq![(e, c)]) is None
        }),
{
    let m = b.placed(p);
    let o = c.overlap(m).unwrap();
    let hit = Hit { entity: e, collider: c, intersection: o };
    let moved = b.placed(pushed(p, m, hit));
    if o.w > o.h {
        let s = sign(c.center_y2() - m.center_y2());
        assert(s == 1 || s == -1);
        assert(s * o.h == if s == 1 { o.h as int } else { -(o.h as int) }) by (nonlinear_arith)
            requires
                s == 1 || s == -1,
        ;
    } else {
        let s = sign(c.center_x2() - m.center_x2());
        assert(s == 1 || s == -1);
        assert(s * o.w == if s == 1 { o.w as int } else { -(o.w as int) }) by (nonlinear_arith)
            requires
                s == 1 || s == -1,
        ;
    }
    assert(!c.overlaps(moved));
    let alone = seq![(e, c)];
    assert(alone.len() == 1 && alone[0].1 == c);
    assert(first_hit(moved, alone, 1) == 1);
    assert(first_hit(moved, alone, 0) == 1);
}

/// The first hit at or after `from` lies at or after `from`, overlaps `a` if
/// it lies among the colliders, and no collider between does.
pub proof fn lemma_first_hit(a: Rect, b: Seq<(Entity, Rect)>, from: int)
    requires
        0 <= from <= b.len(),
    ensures
        from <= first_hit(a, b, from) <= b.len(),
        first_hit(a, b, from) < b.len() ==> b[first_hit(a, b, from)].1.overlaps(a),
        forall|j: int| from <= j < first_hit(a, b, from) ==> !(#[trigger] b[j]).1.overlaps(a),
    decreases b.len() - from,
{
    if from < b.len() && !b[from].1.overlaps(a) {
        lemma_first_hit(a, b, from + 1);
    }
}

/// Where none of the colliders from `from` on overlaps `a`, there is no hit
/// among them.
pub proof fn lemma_no_hit(a: Rect, b: Seq<(Entity, Rect)>, from: int)
    requires
        0 <= from <= b.len(),
        forall|j: int| from <= j < b.len() ==> !(#[trigger] b[j]).1.overlaps(a),
    ensures
        first_hit(a, b, from) == b.len(),
    decreases b.len() - from,
{
    if from < b.len() {
        lemma_no_hit(a, b, from + 1);
    }
}

/// One overlap costs one strike. The mover in slot `i` overlaps a collider
/// of the snapshot and is offset against it on the axis of the push, and
/// once pushed it overlaps no collider of the snapshot. Then the collision
/// system, dealing with the mover a second time before it has moved again,
/// changes nothing: no second life is lost and no second sound is asked for.
pub proof fn lemma_collision_is_not_repeated(w: WorldView, i: int)
    requires
        0 <= i < w.entities.len(),
        w.entities[i].fields is Some,
        is_ball(w.entities[i].fields.unwrap()),
        ({
            let f = w.entities[i].fields.unwrap();
            let mover = f.aabb.unwrap().0.placed(f.position.unwrap().0);
            &&& collision(mover, w.colliders) is Some
            &&& offset(mover, collision(mover, w.colliders).unwrap().collider)
            &&& unsaturated(
                f.position.unwrap().0,
                f.aabb.unwrap().0,
                collision(mover, w.colliders).unwrap().collider,
            )
            &&& forall|j: int|
                0 <= j < w.colliders.len() && j != first_hit(mover, w.colliders, 0) ==> !(
                #[trigger] w.colliders[j]).1.overlaps(
                    f.aabb.unwrap().0.placed(
                        pushed(f.position.unwrap().0, mover, collision(mover, w.colliders).unwrap()),
                    ),
                )
        }),
    ensures
        collision_step(collision_step(w, i), i) == collision_step(w, i),
{
    let f = w.entities[i].fields.unwrap();
    let p = f.position.unwrap().0;
    let b = f.aabb.unwrap().0;
    let mover = b.placed(p);
    let hit = collision(mover, w.colliders).unwrap();
    let k = first_hit(mover, w.colliders, 0);
    lemma_first_hit(mover, w.colliders, 0);
    lemma_resolution_settles(p, f.velocity.unwrap().0, b, hit.collider, hit.entity);
    let moved = b.placed(pushed(p, mover, hit));
    let once = collision_step(w, i);
    assert(once.colliders == w.colliders);
    assert(once.entities[i].fields is Some);
    let g = once.entities[i].fields.unwrap();
    assert(is_ball(g));
    assert(g.aabb.unwrap().0.placed(g.position.unwrap().0) == moved);
    assert forall|j: int| 0 <= j < w.colliders.len() implies !(#[trigger] w.colliders[j]).1.overlaps(
        moved,
    ) by {
        if j == k {
            assert(w.colliders[j].1 == hit.collider);
        }
    }
    lemma_no_hit(moved, w.colliders, 0);
    assert(collision(moved, once.colliders) is None);
}

} // verus!
