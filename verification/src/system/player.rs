use vstd::prelude::*;
use crate::component::trigger::{AddGameOverText, Command};
use crate::component::Position;
use crate::game::{States, WIDTH};
use crate::geometry::{clamp, saturate, Vec2};
use crate::component::resource::{Input, Time};
use crate::query::{announces_game_over, has_game_over_text, holds_player, is_player};
use crate::store::{FieldsView, SlotView};
use crate::world::{World, WorldView};

verus! {

/// Speed of the paddle: 900 world units per second, in sub-units per tick.
pub const PLAYER_SPEED: i64 = 28800;

/// The direction that two opposing keys ask for: towards the one that is
/// down alone, and none when both or neither are down.
pub open spec fn axis(negative: bool, positive: bool) -> int {
    if negative && !positive {
        -1
    } else if positive && !negative {
        1
    } else {
        0
    }
}

/// The direction that two opposing keys ask for.
pub fn get_axis(negative: bool, positive: bool) -> (r: i64)
    ensures
        r == axis(negative, positive),
{
    match (negative, positive) {
        (true, false) => -1,
        (false, true) => 1,
        _ => 0,
    }
}

/// Where a paddle of width `w` at `x` is after moving in `direction` for
/// `dt` ticks: it is kept at or right of the left wall, and then at or left
/// of the place where it touches the right wall.
pub open spec fn steered(x: int, direction: int, dt: int, w: int) -> int {
    let moved = clamp(x + direction * dt * PLAYER_SPEED);
    let kept = if moved < 0 {
        0
    } else {
        moved
    };
    if kept > WIDTH - w {
        clamp(WIDTH - w)
    } else {
        kept
    }
}

/// Moves a paddle of width `w` at `x` in `direction` for `dt` ticks and keeps
/// it between the walls.
pub fn steer(x: i64, direction: i64, dt: u32, w: i64) -> (r: i64)
    ensures
        r == steered(x as int, direction as int, dt as int, w as int),
{
    let reach: i64 = dt as i64 * PLAYER_SPEED;
    assert(-0x8000_0000_0000_0000 * 0x8_0000_0000_0000 <= direction * reach
        <= 0x8000_0000_0000_0000 * 0x8_0000_0000_0000) by (nonlinear_arith)
        requires
            -0x8000_0000_0000_0000 <= direction <= 0x8000_0000_0000_0000,
            0 <= reach <= 0x8_0000_0000_0000,
    ;
    let step: i128 = direction as i128 * reach as i128;
    assert(step == direction * dt * PLAYER_SPEED) by (nonlinear_arith)
        requires
            reach == dt * PLAYER_SPEED,
            step == direction * reach,
    ;
    let moved: i64 = saturate(x as i128 + step);
    let kept: i64 = if moved < 0 {
        0
    } else {
        moved
    };
    let limit: i128 = WIDTH as i128 - w as i128;
    if kept as i128 > limit {
        saturate(limit)
    } else {
        kept
    }
}

/// The world after the player system has dealt with slot `i`. The paddle
/// follows the keys and stays between the walls. A player without lives ends
/// the game: the state is `GameOver`, and its announcement is to be spawned
/// unless the store holds one already.
pub open spec fn player_step(w: WorldView, i: int) -> WorldView {
    let slot = w.entities[i];
    if slot.fields is Some && is_player(slot.fields.unwrap()) {
        let f = slot.fields.unwrap();
        let p = f.position.unwrap().0;
        let x = steered(
            p.x as int,
            axis(w.input.left, w.input.right),
            w.time.0 as int,
            f.aabb.unwrap().0.w as int,
        );
        let moved = w.entities.update(
            i,
            SlotView {
                generation: slot.generation,
                fields: Some(FieldsView { position: Some(Position(Vec2 { x: x as i64, y: p.y })), ..f }),
            },
        );
        if f.lives.unwrap().0 <= 0 {
            WorldView {
                entities: moved,
                state: States::GameOver,
                commands: if has_game_over_text(w.entities) {
                    w.commands
                } else {
                    w.commands.push(Command::AddGameOverText(AddGameOverText))
                },
                ..w
            }
        } else {
            WorldView { entities: moved, ..w }
        }
    } else {
        w
    }
}

/// The world after the player system has dealt with the first `n` slots in
/// order.
pub open spec fn player_pass(w: WorldView, n: int) -> WorldView
    decreases n,
{
    if n <= 0 {
        w
    } else {
        player_step(player_pass(w, n - 1), n - 1)
    }
}

/// The player system: moves the paddle as the keys ask and ends the game
/// when the player has no lives left. The end is announced once: the
/// announcement is asked for only while the store holds none.
pub fn system(world: &mut World)
    ensures
        final(world)@ == player_pass(old(world)@, old(world)@.entities.len() as int),
{
    let direction: i64 = get_axis(world.input.left, world.input.right);
    let n: usize = world.entities.slot_count();
    let mut i: usize = 0;
    while i < n
        invariant
            i <= n,
            n == world@.entities.len(),
            direction == axis(world@.input.left, world@.input.right),
            world@ == player_pass(old(world)@, i as int),
        decreases n - i,
    {
        let ghost before = world@;
        let found = match world.entities.fields_at(i) {
            Some(f) => {
                if f.is_player() {
                    match (f.position, f.aabb, f.lives) {
                        (Some(p), Some(b), Some(l)) => Some((p, b, l)),
                        _ => None,
                    }
                } else {
                    None
                }
            },
            None => None,
        };
        match (found, world.entities.entity_at(i)) {
            (Some((p, b, l)), Some(e)) => {
                let x: i64 = steer(p.0.x, direction, world.time.0, b.0.w);
                if l.0 <= 0 {
                    world.state = States::GameOver;
                    if !world.entities.has_game_over_text() {
                        world.commands.push(Command::AddGameOverText(AddGameOverText));
                    }
                }
                world.entities.set_position(e, Position(Vec2 { x, y: p.0.y }));
                assert(world@.entities =~= player_step(before, i as int).entities);
            },
            _ => {},
        }
        assert(world@ == player_step(before, i as int));
        i += 1;
    }
}

/// This slot after the player system has dealt with it: a paddle follows
/// the keys and stays between the walls, and anything else is left alone.
pub open spec fn steered_slot(slot: SlotView, input: Input, time: Time) -> SlotView {
    if holds_player(slot) {
        let f = slot.fields.unwrap();
        let p = f.position.unwrap().0;
        let x = steered(
            p.x as int,
            axis(input.left, input.right),
            time.0 as int,
            f.aabb.unwrap().0.w as int,
        );
        SlotView {
            generation: slot.generation,
            fields: Some(FieldsView { position: Some(Position(Vec2 { x: x as i64, y: p.y })), ..f }),
        }
    } else {
        slot
    }
}

/// Whether a player without lives lives in this slot.
pub open spec fn out_of_lives(slot: SlotView) -> bool {
    holds_player(slot) && slot.fields.unwrap().lives.unwrap().0 <= 0
}

/// Whether a player without lives lives in one of the first `n` slots.
pub open spec fn any_out_of_lives(s: Seq<SlotView>, n: int) -> bool {
    exists|j: int| 0 <= j < n && j < s.len() && out_of_lives(#[trigger] s[j])
}

/// The announcements that the players without lives among the first `n`
/// slots ask for: one each, and none at all while the store holds an
/// announcement.
pub open spec fn game_overs(s: Seq<SlotView>, n: int) -> Seq<Command>
    decreases n,
{
    if n <= 0 {
        Seq::empty()
    } else if out_of_lives(s[n - 1]) && !has_game_over_text(s) {
        game_overs(s, n - 1).push(Command::AddGameOverText(AddGameOverText))
    } else {
        game_overs(s, n - 1)
    }
}

/// Steering keeps the announcements: a store whose slots are those of `s`,
/// steered or not, holds an announcement just when `s` does.
pub proof fn lemma_steering_keeps_announcements(
    s: Seq<SlotView>,
    t: Seq<SlotView>,
    input: Input,
    time: Time,
)
    requires
        t.len() == s.len(),
        forall|j: int|
            0 <= j < s.len() ==> #[trigger] t[j] == s[j] || t[j] == steered_slot(s[j], input, time),
    ensures
        has_game_over_text(t) == has_game_over_text(s),
{
    assert forall|j: int| 0 <= j < s.len() implies announces_game_over(#[trigger] t[j])
        == announces_game_over(s[j]) by {}
    if has_game_over_text(s) {
        let k = choose|k: int| 0 <= k < s.len() && announces_game_over(#[trigger] s[k]);
        assert(announces_game_over(t[k]));
    }
    if has_game_over_text(t) {
        let k = choose|k: int| 0 <= k < t.len() && announces_game_over(#[trigger] t[k]);
        assert(announces_game_over(s[k]));
    }
}

/// The player pass deals with every slot by itself. After the first `n`
/// slots, each of them is steered and the others are as they were; each
/// player without lives has asked for the announcement, unless the store
/// held one, and if there is such a player the game is over; nothing else
/// changes.
pub proof fn lemma_player_pass(w: WorldView, n: int)
    requires
        0 <= n <= w.entities.len(),
    ensures
        player_pass(w, n) == (WorldView {
            entities: player_pass(w, n).entities,
            commands: w.commands + game_overs(w.entities, n),
            state: if any_out_of_lives(w.entities, n) {
                States::GameOver
            } else {
                w.state
            },
            ..w
        }),
        player_pass(w, n).entities.len() == w.entities.len(),
        forall|j: int|
            0 <= j < w.entities.len() ==> #[trigger] player_pass(w, n).entities[j] == if j < n {
                steered_slot(w.entities[j], w.input, w.time)
            } else {
                w.entities[j]
            },
    decreases n,
{
    if n > 0 {
        lemma_player_pass(w, n - 1);
        let before = player_pass(w, n - 1);
        assert(before.entities[n - 1] == w.entities[n - 1]);
        lemma_steering_keeps_announcements(w.entities, before.entities, w.input, w.time);
        assert(w.commands + game_overs(w.entities, n) =~= if out_of_lives(w.entities[n - 1])
            && !has_game_over_text(w.entities) {
            (w.commands + game_overs(w.entities, n - 1)).push(
                Command::AddGameOverText(AddGameOverText),
            )
        } else {
            w.commands + game_overs(w.entities, n - 1)
        });
        if any_out_of_lives(w.entities, n - 1) {
            let j = choose|j: int|
                0 <= j < n - 1 && j < w.entities.len() && out_of_lives(#[trigger] w.entities[j]);
            assert(0 <= j < n && out_of_lives(w.entities[j]));
        }
        if out_of_lives(w.entities[n - 1]) {
            assert(any_out_of_lives(w.entities, n));
        }
        if any_out_of_lives(w.entities, n) && !out_of_lives(w.entities[n - 1]) {
            let j = choose|j: int|
                0 <= j < n && j < w.entities.len() && out_of_lives(#[trigger] w.entities[j]);
            assert(0 <= j < n - 1 && out_of_lives(w.entities[j]));
        }
    } else {
        assert(w.commands + game_overs(w.entities, 0) =~= w.commands);
    }
}

} // verus!
