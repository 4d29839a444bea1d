use vstd::prelude::*;
use crate::component::resource::Score;
use crate::component::trigger::{
    applied, game_over_text, AddGameOverText, AddPlayerLives, Command,
};
use crate::component::{Lives, PLAYER_LIVES};
use crate::store::{handle, FieldsView};
use crate::component::trigger::lives_set;
use crate::system::text::{game_over_handled, holds_tagged, replay, replays, sweep};
use crate::game::States;
use crate::query::{
    announces_game_over, has_game_over_text, holds_player, lemma_only_player,
    lemma_single_player, single_player,
};
use crate::store::{first_free, lemma_first_free, spawned, SlotView};
use crate::system::player::{
    any_out_of_lives, game_overs, lemma_player_pass, lemma_steering_keeps_announcements,
    out_of_lives, player_pass,
};
use crate::world::{applied_all, WorldView};

verus! {

/// Whether the store holds at most one announcement of the end of the game.
pub open spec fn at_most_one_announcement(s: Seq<SlotView>) -> bool {
    forall|i: int, j: int|
        0 <= i < s.len() && 0 <= j < s.len() && announces_game_over(#[trigger] s[i])
            && announces_game_over(#[trigger] s[j]) ==> i == j
}

/// Whether the store holds exactly one announcement of the end of the game.
pub open spec fn exactly_one_announcement(s: Seq<SlotView>) -> bool {
    exists|k: int|
        0 <= k < s.len() && announces_game_over(#[trigger] s[k]) && forall|j: int|
            0 <= j < s.len() && announces_game_over(#[trigger] s[j]) ==> j == k
}

/// Where only slot `k` holds a player and that player has no lives, the
/// first `n` slots ask for one announcement if `k` is among them and the
/// store holds none, and for none otherwise.
proof fn lemma_one_game_over(s: Seq<SlotView>, k: int, n: int)
    requires
        0 <= n <= s.len(),
        0 <= k < s.len(),
        out_of_lives(s[k]),
        forall|j: int| 0 <= j < s.len() && holds_player(#[trigger] s[j]) ==> j == k,
    ensures
        game_overs(s, n) == if k < n && !has_game_over_text(s) {
            seq![Command::AddGameOverText(AddGameOverText)]
        } else {
            Seq::<Command>::empty()
        },
    decreases n,
{
    if n > 0 {
        lemma_one_game_over(s, k, n - 1);
        if n - 1 == k && !has_game_over_text(s) {
            assert(game_overs(s, n) =~= seq![Command::AddGameOverText(AddGameOverText)]);
        }
    }
}

/// The announcement spawned into a store that holds none is the only one.
pub proof fn lemma_announced_once(s: Seq<SlotView>)
    requires
        !has_game_over_text(s),
    ensures
        exactly_one_announcement(spawned(s, game_over_text())),
{
    lemma_first_free(s, 0);
    let k = first_free(s, 0);
    let t = spawned(s, game_over_text());
    assert(announces_game_over(t[k]));
    assert forall|j: int| 0 <= j < t.len() && announces_game_over(#[trigger] t[j]) implies j
        == k by {
        if j != k {
            assert(t[j] == s[j]);
        }
    }
}

/// A player who has run out of lives ends the game, and the end is announced
/// once. In a world with exactly one player, who has no lives left, with at
/// most one announcement and no command waiting, the player system sets the
/// state to `GameOver` and asks for the announcement just when the store
/// holds none; and once its commands are carried out the store holds
/// exactly one announcement.
pub proof fn lemma_game_over_is_announced_once(w: WorldView, dxs: Seq<int>)
    requires
        single_player(w.entities) is Some,
        out_of_lives(w.entities[single_player(w.entities).unwrap()]),
        at_most_one_announcement(w.entities),
        w.commands.len() == 0,
    ensures
        player_pass(w, w.entities.len() as int).state == States::GameOver,
        player_pass(w, w.entities.len() as int).commands == if has_game_over_text(w.entities) {
            Seq::<Command>::empty()
        } else {
            seq![Command::AddGameOverText(AddGameOverText)]
        },
        exactly_one_announcement(
            applied_all(
                player_pass(w, w.entities.len() as int).entities,
                player_pass(w, w.entities.len() as int).commands,
                dxs,
                player_pass(w, w.entities.len() as int).commands.len() as int,
            ),
        ),
{
    let n = w.entities.len() as int;
    let k = single_player(w.entities).unwrap();
    let r = player_pass(w, n);
    lemma_single_player(w.entities);
    lemma_player_pass(w, n);
    lemma_one_game_over(w.entities, k, n);
    assert(any_out_of_lives(w.entities, n));
    assert(r.commands =~= game_overs(w.entities, n));
    lemma_steering_keeps_announcements(w.entities, r.entities, w.input, w.time);
    assert forall|j: int| 0 <= j < n implies announces_game_over(#[trigger] r.entities[j])
        == announces_game_over(w.entities[j]) by {}
    if has_game_over_text(w.entities) {
        let a = choose|a: int| 0 <= a < n && announces_game_over(#[trigger] w.entities[a]);
        assert(announces_game_over(r.entities[a]));
        assert forall|j: int| 0 <= j < n && announces_game_over(#[trigger] r.entities[j]) implies j
            == a by {
            assert(announces_game_over(w.entities[j]));
        }
        assert(applied_all(r.entities, r.commands, dxs, 0) == r.entities);
    } else {
        lemma_announced_once(r.entities);
        assert(applied_all(r.entities, r.commands, dxs, 0) == r.entities);
        assert(applied_all(r.entities, r.commands, dxs, 1) == applied(
            applied_all(r.entities, r.commands, dxs, 0),
            r.commands[0],
            dxs[0],
        ));
    }
}

/// Whether a new game does away with what lives in this slot: a block, a
/// ball or an announcement of the end of the game.
pub open spec fn swept(slot: SlotView) -> bool {
    holds_tagged(slot) || announces_game_over(slot)
}

/// Whether `c` is one of the commands that clear the board of `s0`: the
/// despawning of something that a new game does away with, or the gift of
/// three lives.
pub open spec fn clears(c: Command, s0: Seq<SlotView>) -> bool {
    c == Command::AddPlayerLives(AddPlayerLives(PLAYER_LIVES)) || exists|j: int|
        0 <= j < s0.len() && swept(s0[j]) && c == Command::Despawn(#[trigger] handle(s0, j))
}

/// Whether `f` is `g` but for the lives and the text.
pub open spec fn same_but(f: FieldsView, g: FieldsView) -> bool {
    f == (FieldsView { lives: f.lives, text: f.text, ..g }) && (f.lives is Some <==> g.lives is Some)
}

/// Whether `s` is what commands that clear the board can have made of `s0`:
/// a slot is empty only if it was so or held something swept, and what is
/// left is what it was but for the lives and the text.
pub open spec fn kept(s0: Seq<SlotView>, s: Seq<SlotView>) -> bool {
    s.len() == s0.len() && forall|j: int|
        0 <= j < s0.len() ==> {
            ||| (#[trigger] s[j]).fields is None && (s0[j].fields is None || swept(s0[j]))
            ||| s[j].fields is Some && s0[j].fields is Some && s[j].generation == s0[j].generation
                && same_but(s[j].fields.unwrap(), s0[j].fields.unwrap())
        }
}

/// One command that clears the board keeps the store as `kept` says, leaves
/// empty slots empty, and empties the slot that it names.
proof fn lemma_clearing_step(s0: Seq<SlotView>, s: Seq<SlotView>, c: Command, dx: int)
    requires
        s0.len() <= usize::MAX,
        kept(s0, s),
        clears(c, s0),
    ensures
        kept(s0, applied(s, c, dx)),
        forall|j: int|
            0 <= j < s0.len() && (#[trigger] s[j]).fields is None ==> applied(s, c, dx)[j].fields
                is None,
        forall|j: int|
            0 <= j < s0.len() && c == Command::Despawn(#[trigger] handle(s0, j)) ==> applied(
                s,
                c,
                dx,
            )[j].fields is None,
{
    let t = applied(s, c, dx);
    match c {
        Command::AddPlayerLives(_) => {
            if single_player(s) is Some {
                lemma_single_player(s);
            }
            assert(kept(s0, t));
        },
        Command::Despawn(e) => {
            let j0 = choose|j: int|
                0 <= j < s0.len() && swept(s0[j]) && c == Command::Despawn(#[trigger] handle(s0, j));
            assert(e == handle(s0, j0));
            assert(e.index == j0);
            assert(kept(s0, t));
            assert forall|j: int|
                0 <= j < s0.len() && c == Command::Despawn(#[trigger] handle(s0, j)) implies t[j].fields
                is None by {
                assert(handle(s0, j).index == j);
                assert(j == j0);
            }
        },
        _ => {},
    }
}

/// Commands that clear the board, carried out in order, keep the store as
/// `kept` says, leave empty slots empty, and empty every slot that one of
/// them names.
proof fn lemma_clearing(
    s0: Seq<SlotView>,
    s: Seq<SlotView>,
    commands: Seq<Command>,
    dxs: Seq<int>,
    m: int,
)
    requires
        s0.len() <= usize::MAX,
        kept(s0, s),
        0 <= m <= commands.len(),
        forall|i: int| 0 <= i < m ==> clears(#[trigger] commands[i], s0),
    ensures
        kept(s0, applied_all(s, commands, dxs, m)),
        forall|j: int|
            0 <= j < s0.len() && (#[trigger] s[j]).fields is None ==> applied_all(
                s,
                commands,
                dxs,
                m,
            )[j].fields is None,
        forall|i: int, j: int|
            0 <= i < m && 0 <= j < s0.len() && #[trigger] commands[i] == Command::Despawn(
                #[trigger] handle(s0, j),
            ) ==> applied_all(s, commands, dxs, m)[j].fields is None,
    decreases m,
{
    if m > 0 {
        lemma_clearing(s0, s, commands, dxs, m - 1);
        let before = applied_all(s, commands, dxs, m - 1);
        lemma_clearing_step(s0, before, commands[m - 1], dxs[m - 1]);
        let after = applied_all(s, commands, dxs, m);
        assert(after == applied(before, commands[m - 1], dxs[m - 1]));
        assert forall|j: int| 0 <= j < s0.len() && (#[trigger] s[j]).fields is None implies after[j].fields
            is None by {
            assert(before[j].fields is None);
        }
        assert forall|i: int, j: int|
            0 <= i < m && 0 <= j < s0.len() && #[trigger] commands[i] == Command::Despawn(
                #[trigger] handle(s0, j),
            ) implies after[j].fields is None by {
            if i < m - 1 {
                assert(before[j].fields is None);
            }
        }
    }
}

/// Every command of a sweep clears the board, and the sweep of the first
/// `n` slots names every block and every ball among them.
proof fn lemma_sweep(s0: Seq<SlotView>, n: int)
    requires
        0 <= n <= s0.len(),
    ensures
        forall|i: int| 0 <= i < sweep(s0, n).len() ==> clears(#[trigger] sweep(s0, n)[i], s0),
        forall|j: int|
            0 <= j < n && holds_tagged(s0[j]) ==> sweep(s0, n).contains(
                Command::Despawn(#[trigger] handle(s0, j)),
            ),
    decreases n,
{
    if n > 0 {
        lemma_sweep(s0, n - 1);
        let before = sweep(s0, n - 1);
        let all = sweep(s0, n);
        if holds_tagged(s0[n - 1]) {
            let last = Command::Despawn(handle(s0, n - 1));
            assert(swept(s0[n - 1]));
            assert(clears(last, s0));
            assert(all[before.len() as int] == last);
            assert forall|j: int| 0 <= j < n && holds_tagged(s0[j]) implies all.contains(
                Command::Despawn(#[trigger] handle(s0, j)),
            ) by {
                if j < n - 1 {
                    let c = Command::Despawn(handle(s0, j));
                    let i = choose|i: int| 0 <= i < before.len() && before[i] == c;
                    assert(all[i] == c);
                }
            }
        }
    }
}

/// Every command that an announcement asks for when the game is confirmed
/// over clears the board; together they name the announcement, every block
/// and every ball, and the last of them is the gift of three lives.
proof fn lemma_replay(s0: Seq<SlotView>, i0: int)
    requires
        0 <= i0 < s0.len(),
        announces_game_over(s0[i0]),
    ensures
        forall|i: int| 0 <= i < replay(s0, i0).len() ==> clears(#[trigger] replay(s0, i0)[i], s0),
        forall|j: int|
            0 <= j < s0.len() && holds_tagged(s0[j]) ==> replay(s0, i0).contains(
                Command::Despawn(#[trigger] handle(s0, j)),
            ),
        replay(s0, i0).contains(Command::Despawn(handle(s0, i0))),
        replay(s0, i0).len() > 0,
        replay(s0, i0).last() == Command::AddPlayerLives(AddPlayerLives(PLAYER_LIVES)),
{
    let n = s0.len() as int;
    lemma_sweep(s0, n);
    let head = seq![Command::Despawn(handle(s0, i0))];
    let body = sweep(s0, n);
    let all = replay(s0, i0);
    assert(swept(s0[i0]));
    assert(clears(Command::Despawn(handle(s0, i0)), s0));
    assert(all[0] == Command::Despawn(handle(s0, i0)));
    assert forall|i: int| 0 <= i < all.len() implies clears(#[trigger] all[i], s0) by {
        if 1 <= i < 1 + body.len() {
            assert(all[i] == body[i - 1]);
        }
    }
    assert forall|j: int| 0 <= j < n && holds_tagged(s0[j]) implies all.contains(
        Command::Despawn(#[trigger] handle(s0, j)),
    ) by {
        let c = Command::Despawn(handle(s0, j));
        let i = choose|i: int| 0 <= i < body.len() && body[i] == c;
        assert(all[i + 1] == c);
    }
}

/// Every command that the announcements among the first `n` slots ask for
/// clears the board. If there is an announcement among them, the commands
/// name every block, every ball and each of those announcements, and the
/// last of them is the gift of three lives.
proof fn lemma_replays(s0: Seq<SlotView>, n: int)
    requires
        0 <= n <= s0.len(),
    ensures
        forall|i: int| 0 <= i < replays(s0, n).len() ==> clears(#[trigger] replays(s0, n)[i], s0),
        forall|j: int|
            0 <= j < n && announces_game_over(s0[j]) ==> replays(s0, n).contains(
                Command::Despawn(#[trigger] handle(s0, j)),
            ),
        (exists|a: int| 0 <= a < n && announces_game_over(#[trigger] s0[a])) ==> {
            &&& replays(s0, n).len() > 0
            &&& replays(s0, n).last() == Command::AddPlayerLives(AddPlayerLives(PLAYER_LIVES))
            &&& forall|j: int|
                0 <= j < s0.len() && holds_tagged(s0[j]) ==> replays(s0, n).contains(
                    Command::Despawn(#[trigger] handle(s0, j)),
                )
        },
    decreases n,
{
    if n > 0 {
        lemma_replays(s0, n - 1);
        let before = replays(s0, n - 1);
        let all = replays(s0, n);
        if announces_game_over(s0[n - 1]) {
            lemma_replay(s0, n - 1);
            let more = replay(s0, n - 1);
            assert(all == before + more);
            assert forall|i: int| 0 <= i < all.len() implies clears(#[trigger] all[i], s0) by {
                if i >= before.len() {
                    assert(all[i] == more[i - before.len()]);
                } else {
                    assert(all[i] == before[i]);
                }
            }
            assert forall|c: Command| more.contains(c) implies all.contains(c) by {
                let i = choose|i: int| 0 <= i < more.len() && more[i] == c;
                assert(all[before.len() + i] == c);
            }
            assert forall|c: Command| before.contains(c) implies all.contains(c) by {
                let i = choose|i: int| 0 <= i < before.len() && before[i] == c;
                assert(all[i] == c);
            }
            assert(all.last() == more.last());
            assert forall|j: int| 0 <= j < n && announces_game_over(s0[j]) implies all.contains(
                Command::Despawn(#[trigger] handle(s0, j)),
            ) by {
                if j < n - 1 {
                    assert(before.contains(Command::Despawn(handle(s0, j))));
                }
            }
            assert forall|j: int| 0 <= j < s0.len() && holds_tagged(s0[j]) implies all.contains(
                Command::Despawn(#[trigger] handle(s0, j)),
            ) by {
                assert(more.contains(Command::Despawn(handle(s0, j))));
            }
        } else {
            assert(all == before);
            if exists|a: int| 0 <= a < n && announces_game_over(#[trigger] s0[a]) {
                let a = choose|a: int| 0 <= a < n && announces_game_over(#[trigger] s0[a]);
                assert(0 <= a < n - 1 && announces_game_over(s0[a]));
            }
        }
    }
}

/// Confirming the end of the game clears the board for a new one. In a world
/// that holds an announcement, with no command waiting, in a frame in which
/// the confirm key was pressed, the game-over system sets the score to zero
/// and the state to `Reviving`; and once its commands are carried out, no
/// block, no ball and no announcement is left, and the player, if there is
/// exactly one and it is no announcement itself, has three lives.
pub proof fn lemma_confirm_clears_the_board(w: WorldView, dxs: Seq<int>)
    requires
        w.entities.len() <= usize::MAX,
        w.input.confirm,
        has_game_over_text(w.entities),
        w.commands.len() == 0,
    ensures
        game_over_handled(w).score == Score(0),
        game_over_handled(w).state == States::Reviving,
        ({
            let r = game_over_handled(w);
            let s = applied_all(r.entities, r.commands, dxs, r.commands.len() as int);
            &&& s.len() == w.entities.len()
            &&& forall|j: int|
                0 <= j < s.len() ==> !holds_tagged(#[trigger] s[j]) && !announces_game_over(s[j])
            &&& forall|k: int|
                single_player(w.entities) == Some(k) && !announces_game_over(w.entities[k])
                    ==> single_player(s) == Some(k) && (#[trigger] s[k]).fields.unwrap().lives
                    == Some(Lives(PLAYER_LIVES))
        }),
{
    let s0 = w.entities;
    let n = s0.len() as int;
    let r = game_over_handled(w);
    let commands = replays(s0, n);
    assert(r.commands =~= commands);
    let m = commands.len() as int;
    let s = applied_all(r.entities, commands, dxs, m);
    lemma_replays(s0, n);
    let a = choose|a: int| 0 <= a < s0.len() && announces_game_over(#[trigger] s0[a]);
    assert(0 <= a < n && announces_game_over(s0[a]));
    assert(kept(s0, r.entities));
    lemma_clearing(s0, r.entities, commands, dxs, m);
    assert forall|j: int| 0 <= j < s.len() implies !holds_tagged(#[trigger] s[j])
        && !announces_game_over(s[j]) by {
        if swept(s0[j]) {
            let c = Command::Despawn(handle(s0, j));
            assert(commands.contains(c));
            let i = choose|i: int| 0 <= i < commands.len() && commands[i] == c;
            assert(commands[i] == Command::Despawn(handle(s0, j)));
            assert(s[j].fields is None);
        }
    }
    assert forall|k: int|
        single_player(s0) == Some(k) && !announces_game_over(s0[k]) implies single_player(s)
        == Some(k) && (#[trigger] s[k]).fields.unwrap().lives == Some(Lives(PLAYER_LIVES)) by {
        lemma_single_player(s0);
        lemma_clearing(s0, r.entities, commands, dxs, m - 1);
        let before = applied_all(r.entities, commands, dxs, m - 1);
        assert(s == applied(before, commands[m - 1], dxs[m - 1]));
        assert(commands[m - 1] == Command::AddPlayerLives(AddPlayerLives(PLAYER_LIVES)));
        assert(s == lives_set(before, PLAYER_LIVES));
        assert(!swept(s0[k]));
        assert(holds_player(before[k]));
        assert forall|j: int| 0 <= j < before.len() && holds_player(#[trigger] before[j]) implies j
            == k by {
            assert(holds_player(s0[j]));
        }
        lemma_only_player(before, k);
        assert(holds_player(s[k]));
        assert forall|j: int| 0 <= j < s.len() && holds_player(#[trigger] s[j]) implies j == k by {
            if j != k {
                assert(s[j] == before[j]);
            }
        }
        lemma_only_player(s, k);
    }
}

} // verus!
