use vstd::prelude::*;
use crate::component::resource::{Score, Time};
use crate::component::trigger::{AddPlayer, Command};
use crate::component::{Aabb, BallType, Position, Tags, Velocity};
use crate::game::{HEIGHT, WIDTH};
use crate::geometry::{clamp, clamp32, saturate, saturate32, smaller, Vec2};
use crate::store::{handle, FieldsView, SlotView};
use crate::world::{World, WorldView};

verus! {

/// Speed of a ball at a score of zero: 250 world units per second, in
/// sub-units per tick.
pub const BALL_NORMAL_SPEED: i64 = 8000;

/// The most that the score adds to the speed of a ball: 150 world units per
/// second, in sub-units per tick.
pub const BALL_SPEED_BONUS: i64 = 4800;

/// What a clone ball costs when it is lost.
pub const CLONE_PENALTY: i32 = 100;

/// The speed of the balls at the given score, in sub-units per tick, which
/// is thirty-seconds of a world unit per second: the normal speed and one
/// thirty-second of a unit per second for each point, the bonus capped from
/// above only.
pub open spec fn effective_speed(score: int) -> int {
    BALL_NORMAL_SPEED + smaller(score, BALL_SPEED_BONUS as int)
}

/// The speed of the balls at the given score.
pub fn ball_speed(score: Score) -> (speed: i64)
    ensures
        speed == effective_speed(score.0 as int),
        i32::MIN + BALL_NORMAL_SPEED <= speed <= BALL_NORMAL_SPEED + BALL_SPEED_BONUS,
{
    let bonus: i64 = if score.0 as i64 >= BALL_SPEED_BONUS {
        BALL_SPEED_BONUS
    } else {
        score.0 as i64
    };
    BALL_NORMAL_SPEED + bonus
}

/// In whole world units per second, the speed at a score that is not
/// negative is 250 and a thirty-second of the score, the bonus capped at 150.
pub proof fn lemma_effective_speed(score: int)
    requires
        0 <= score,
    ensures
        effective_speed(score) == 32 * 250 + smaller(score, 4800),
        effective_speed(score) / 32 == 250 + smaller(score / 32, 150),
        score >= 32 * 150 ==> effective_speed(score) == 32 * 400,
{
}

/// Where a ball at `p` with direction `v` is after `dt` ticks at `speed`,
/// each coordinate saturating.
pub open spec fn integrated(p: Vec2, v: Vec2, dt: int, speed: int) -> Vec2 {
    Vec2 { x: clamp(p.x + v.x * dt * speed) as i64, y: clamp(p.y + v.y * dt * speed) as i64 }
}

/// The direction of a ball that has arrived at `p` with direction `v` and a
/// box of width `w`: beyond the left wall it turns right, beyond the right
/// wall left, beyond the top wall down, each at unit speed.
pub open spec fn bounced(p: Vec2, v: Vec2, w: int) -> Vec2 {
    Vec2 {
        x: if p.x > WIDTH - w {
            -1i64
        } else if p.x < 0 {
            1i64
        } else {
            v.x
        },
        y: if p.y < 0 {
            1i64
        } else {
            v.y
        },
    }
}

/// A ball that moves to the left and arrives beyond the left wall moves to
/// the right from then on, at unit speed whatever its speed was, provided
/// that its box is not so wide that it is beyond the right wall as well.
pub proof fn lemma_left_wall_turns_right(p: Vec2, v: Vec2, w: int, dt: int, speed: int)
    requires
        v.x < 0,
        integrated(p, v, dt, speed).x < 0,
        integrated(p, v, dt, speed).x <= WIDTH - w,
    ensures
        bounced(integrated(p, v, dt, speed), v, w).x == 1,
{
}

/// Whether a ball at `p` with a box of height `h` has left the playfield
/// through the bottom.
pub open spec fn fallen(p: Vec2, h: int) -> bool {
    p.y > HEIGHT + h
}

/// Whether these are the fields of something that the ball system moves: a
/// position, a velocity, a bounding box and a tag.
pub open spec fn is_ball(f: FieldsView) -> bool {
    f.position is Some && f.velocity is Some && f.aabb is Some && f.tags is Some
}

/// Moves one ball for `delta` at the speed that goes with `score` and
/// applies the wall rules. Returns the new position, the new direction, and
/// whether the ball has fallen out of the playfield.
pub fn advance(position: Position, velocity: Velocity, aabb: Aabb, delta: Time, score: Score) -> (r:
    (Position, Velocity, bool))
    ensures
        r.0.0 == integrated(
            position.0,
            velocity.0,
            delta.0 as int,
            effective_speed(score.0 as int),
        ),
        r.1.0 == bounced(r.0.0, velocity.0, aabb.0.w as int),
        r.2 == fallen(r.0.0, aabb.0.h as int),
{
    let speed: i64 = ball_speed(score);
    assert(-0x7fff_ffff_8000_0000 <= delta.0 * speed <= 0x7fff_ffff_8000_0000)
        by (nonlinear_arith)
        requires
            0 <= delta.0 <= 0xffff_ffff,
            -0x8000_0000 <= speed <= 0x8000_0000,
    ;
    let step: i64 = delta.0 as i64 * speed;
    assert(step == delta.0 * speed);
    assert(-0x4000_0000_0000_0000_0000_0000_0000_0000 <= velocity.0.x * step
        <= 0x4000_0000_0000_0000_0000_0000_0000_0000) by (nonlinear_arith)
        requires
            -0x8000_0000_0000_0000 <= velocity.0.x <= 0x8000_0000_0000_0000,
            -0x8000_0000_0000_0000 <= step <= 0x8000_0000_0000_0000,
    ;
    assert(-0x4000_0000_0000_0000_0000_0000_0000_0000 <= velocity.0.y * step
        <= 0x4000_0000_0000_0000_0000_0000_0000_0000) by (nonlinear_arith)
        requires
            -0x8000_0000_0000_0000 <= velocity.0.y <= 0x8000_0000_0000_0000,
            -0x8000_0000_0000_0000 <= step <= 0x8000_0000_0000_0000,
    ;
    let dx: i128 = velocity.0.x as i128 * step as i128;
    let dy: i128 = velocity.0.y as i128 * step as i128;
    assert(dx == velocity.0.x * delta.0 * speed) by (nonlinear_arith)
        requires
            dx == velocity.0.x * step,
            step == delta.0 * speed,
    ;
    assert(dy == velocity.0.y * delta.0 * speed) by (nonlinear_arith)
        requires
            dy == velocity.0.y * step,
            step == delta.0 * speed,
    ;
    let p = Vec2 {
        x: saturate(position.0.x as i128 + dx),
        y: saturate(position.0.y as i128 + dy),
    };
    let mut v = velocity.0;
    if p.x < 0 {
        v.x = 1;
    }
    if p.x as i128 > WIDTH as i128 - aabb.0.w as i128 {
        v.x = -1;
    }
    if p.y < 0 {
        v.y = 1;
    }
    let fell: bool = p.y as i128 > HEIGHT as i128 + aabb.0.h as i128;
    (Position(p), Velocity(v), fell)
}

/// The world after the ball system has dealt with slot `i`, the balls moving
/// at the speed that goes with `score`. A ball is moved and its direction
/// follows the wall rules. A ball that has fallen out of the playfield is to
/// be despawned; if it is the original ball the player is to lose a life,
/// and if it is a clone the score drops by the penalty, saturating.
pub open spec fn ball_step(w: WorldView, i: int, score: Score) -> WorldView {
    let slot = w.entities[i];
    if slot.fields is Some && is_ball(slot.fields.unwrap()) {
        let f = slot.fields.unwrap();
        let p = integrated(
            f.position.unwrap().0,
            f.velocity.unwrap().0,
            w.time.0 as int,
            effective_speed(score.0 as int),
        );
        let v = bounced(p, f.velocity.unwrap().0, f.aabb.unwrap().0.w as int);
        let moved = w.entities.update(
            i,
            SlotView {
                generation: slot.generation,
                fields: Some(
                    FieldsView { position: Some(Position(p)), velocity: Some(Velocity(v)), ..f },
                ),
            },
        );
        if fallen(p, f.aabb.unwrap().0.h as int) {
            let gone = w.commands.push(Command::Despawn(handle(w.entities, i)));
            match f.tags.unwrap() {
                Tags::Ball(BallType::Original) => WorldView {
                    entities: moved,
                    commands: gone.push(Command::AddPlayer(AddPlayer)),
                    ..w
                },
                Tags::Ball(BallType::Clone) => WorldView {
                    entities: moved,
                    commands: gone,
                    score: Score(clamp32(w.score.0 - CLONE_PENALTY) as i32),
                    ..w
                },
                _ => WorldView { entities: moved, commands: gone, ..w },
            }
        } else {
            WorldView { entities: moved, ..w }
        }
    } else {
        w
    }
}

/// The world after the ball system has dealt with the first `n` slots in
/// order.
pub open spec fn ball_pass(w: WorldView, n: int, score: Score) -> WorldView
    decreases n,
{
    if n <= 0 {
        w
    } else {
        ball_step(ball_pass(w, n - 1, score), n - 1, score)
    }
}

/// The ball system: moves every ball for the elapsed time, at the speed that
/// goes with the score at the start of the pass, applies the wall rules, and
/// deals with the balls that have fallen out of the playfield.
pub fn system(world: &mut World)
    ensures
        final(world)@ == ball_pass(
            old(world)@,
            old(world)@.entities.len() as int,
            old(world)@.score,
        ),
{
    let score = world.score;
    let delta = world.time;
    let n: usize = world.entities.slot_count();
    let mut i: usize = 0;
    while i < n
        invariant
            i <= n,
            n == world@.entities.len(),
            delta == world@.time,
            world@ == ball_pass(old(world)@, i as int, score),
            score == old(world)@.score,
        decreases n - i,
    {
        let ghost before = world@;
        let found = match world.entities.fields_at(i) {
            Some(f) => match (f.position, f.velocity, f.aabb, f.tags) {
                (Some(p), Some(v), Some(b), Some(t)) => Some((p, v, b, t)),
                _ => None,
            },
            None => None,
        };
        match (found, world.entities.entity_at(i)) {
            (Some((p, v, b, t)), Some(e)) => {
                let (position, velocity, fell) = advance(p, v, b, delta, score);
                world.entities.set_position(e, position);
                world.entities.set_velocity(e, velocity);
                if fell {
                    world.commands.push(Command::Despawn(e));
                    match t {
                        Tags::Ball(BallType::Original) => {
                            world.commands.push(Command::AddPlayer(AddPlayer));
                        },
                        Tags::Ball(BallType::Clone) => {
                            world.score = Score(
                                saturate32(world.score.0 as i64 - CLONE_PENALTY as i64),
                            );
                        },
                        _ => {},
                    }
                }
                assert(world@.entities =~= ball_step(before, i as int, score).entities);
            },
            _ => {},
        }
        assert(world@ == ball_step(before, i as int, score));
        i += 1;
    }
}

/// This slot after the ball system has dealt with it at the speed that goes
/// with `score`: a ball is moved and follows the wall rules, and anything
/// else is left alone.
pub open spec fn moved_slot(slot: SlotView, time: Time, score: Score) -> SlotView {
    if slot.fields is Some && is_ball(slot.fields.unwrap()) {
        let f = slot.fields.unwrap();
        let p = integrated(
            f.position.unwrap().0,
            f.velocity.unwrap().0,
            time.0 as int,
            effective_speed(score.0 as int),
        );
        let v = bounced(p, f.velocity.unwrap().0, f.aabb.unwrap().0.w as int);
        SlotView {
            generation: slot.generation,
            fields: Some(
                FieldsView { position: Some(Position(p)), velocity: Some(Velocity(v)), ..f },
            ),
        }
    } else {
        slot
    }
}

/// The ball pass deals with every slot by itself: after the first `n` slots
/// each of them is moved, whatever became of the others, and the rest are as
/// they were. The elapsed time does not change.
pub proof fn lemma_ball_pass(w: WorldView, n: int, score: Score)
    requires
        0 <= n <= w.entities.len(),
    ensures
        ball_pass(w, n, score).time == w.time,
        ball_pass(w, n, score).state == w.state,
        ball_pass(w, n, score).entities.len() == w.entities.len(),
        forall|j: int|
            0 <= j < w.entities.len() ==> #[trigger] ball_pass(w, n, score).entities[j] == if j
                < n {
                moved_slot(w.entities[j], w.time, score)
            } else {
                w.entities[j]
            },
    decreases n,
{
    if n > 0 {
        lemma_ball_pass(w, n - 1, score);
        assert(ball_pass(w, n - 1, score).entities[n - 1] == w.entities[n - 1]);
    }
}

/// After the ball system, a ball that is beyond the left wall, and not
/// beyond the right wall as well, moves to the right at unit speed.
pub proof fn lemma_ball_system_turns_right(w: WorldView, j: int)
    requires
        0 <= j < w.entities.len(),
        w.entities[j].fields is Some,
        is_ball(w.entities[j].fields.unwrap()),
    ensures
        ({
            let after = ball_pass(w, w.entities.len() as int, w.score).entities[j].fields.unwrap();
            after.position.unwrap().0.x < 0 && after.position.unwrap().0.x <= WIDTH
                - after.aabb.unwrap().0.w ==> after.velocity.unwrap().0.x == 1
        }),
{
    lemma_ball_pass(w, w.entities.len() as int, w.score);
}

} // verus!
