use vstd::prelude::*;
use vstd::string::*;
use crate::component::resource::Score;
use crate::component::trigger::{AddPlayerLives, Command};
use crate::component::{Color, Text, TextView, PLAYER_LIVES};
use crate::game::States;
use crate::geometry::{clamp, saturate, Vec2};
use crate::query::{announces_game_over, has_game_over_text, player_of};
use crate::store::{fields_of, handle, FieldsView, SlotView};
use crate::world::{World, WorldView};

verus! {

/// The character of a decimal digit.
pub open spec fn digit(d: int) -> char {
    if d == 0 {
        '0'
    } else if d == 1 {
        '1'
    } else if d == 2 {
        '2'
    } else if d == 3 {
        '3'
    } else if d == 4 {
        '4'
    } else if d == 5 {
        '5'
    } else if d == 6 {
        '6'
    } else if d == 7 {
        '7'
    } else if d == 8 {
        '8'
    } else {
        '9'
    }
}

/// The decimal digits of a natural number, without leading zeros.
pub open spec fn digits(n: nat) -> Seq<char>
    decreases n,
{
    if n < 10 {
        seq![digit(n as int)]
    } else {
        digits(n / 10).push(digit((n % 10) as int))
    }
}

/// An integer in decimal, with a minus sign if it is negative.
pub open spec fn decimal(n: int) -> Seq<char> {
    if n < 0 {
        seq!['-'] + digits((-n) as nat)
    } else {
        digits(n as nat)
    }
}

/// The text of one decimal digit.
fn digit_text(d: u32) -> (r: &'static str)
    requires
        d < 10,
    ensures
        r@ == seq![digit(d as int)],
{
    proof {
        reveal_strlit("0");
        reveal_strlit("1");
        reveal_strlit("2");
        reveal_strlit("3");
        reveal_strlit("4");
        reveal_strlit("5");
        reveal_strlit("6");
        reveal_strlit("7");
        reveal_strlit("8");
        reveal_strlit("9");
    }
    let r = match d {
        0 => "0",
        1 => "1",
        2 => "2",
        3 => "3",
        4 => "4",
        5 => "5",
        6 => "6",
        7 => "7",
        8 => "8",
        _ => "9",
    };
    assert(r@ =~= seq![digit(d as int)]);
    r
}

/// Appends the decimal digits of `n` to `s`.
fn push_digits(s: &mut String, n: u32)
    ensures
        final(s)@ == old(s)@ + digits(n as nat),
    decreases n,
{
    if n >= 10 {
        push_digits(s, n / 10);
    }
    s.append(digit_text(n % 10));
    assert(s@ =~= old(s)@ + digits(n as nat));
}

/// The text made of `caption` and, after it, `n` in decimal.
pub fn labelled(caption: &str, n: i32) -> (r: String)
    ensures
        r@ == caption@ + decimal(n as int),
{
    let mut s = String::from_str(caption);
    if n < 0 {
        proof {
            reveal_strlit("-");
        }
        s.append("-");
        assert("-"@ =~= seq!['-']);
        push_digits(&mut s, (-(n as i64)) as u32);
        assert(s@ =~= caption@ + decimal(n as int));
    } else {
        push_digits(&mut s, n as u32);
    }
    s
}

/// The values that a text on screen can show.
#[derive(Clone, Copy, Debug, PartialEq, Eq, Structural)]
pub enum Label {
    Score,
    Lives,
    GameOver,
}

/// Whether an entity with these fields shows the given value: it carries the
/// tag of that value and, for the score and the lives, a text.
pub open spec fn shows(f: FieldsView, label: Label) -> bool {
    match label {
        Label::Score => f.score_tag is Some && f.text is Some,
        Label::Lives => f.lives_tag is Some && f.text is Some,
        Label::GameOver => f.game_over_tag is Some,
    }
}

/// These fields with the content of the text replaced. A text that is
/// missing is put back, centered.
pub open spec fn relabelled(f: FieldsView, content: Seq<char>) -> FieldsView {
    FieldsView {
        text: Some(
            TextView {
                text: content,
                center: match f.text {
                    Some(t) => t.center,
                    None => true,
                },
            },
        ),
        ..f
    }
}

/// This slot with its text replaced by `content`, if it shows `label`.
pub open spec fn relabelled_slot(slot: SlotView, label: Label, content: Seq<char>) -> SlotView {
    if slot.fields is Some && shows(slot.fields.unwrap(), label) {
        SlotView { fields: Some(relabelled(slot.fields.unwrap(), content)), ..slot }
    } else {
        slot
    }
}

/// The store with the text of every entity that shows `label` replaced by
/// `content`.
pub open spec fn relabelled_all(s: Seq<SlotView>, label: Label, content: Seq<char>) -> Seq<
    SlotView,
> {
    Seq::new(s.len(), |i: int| relabelled_slot(s[i], label, content))
}

impl Label {
    /// Whether an entity with these fields shows this value.
    pub fn shown_by(self, f: &crate::store::Fields) -> (r: bool)
        ensures
            r == shows(f@, self),
    {
        match self {
            Label::Score => f.score_tag.is_some() && f.text.is_some(),
            Label::Lives => f.lives_tag.is_some() && f.text.is_some(),
            Label::GameOver => f.game_over_tag.is_some(),
        }
    }
}

/// Replaces the text of every entity that shows `label` by `content`.
pub fn relabel(world: &mut World, label: Label, content: &str)
    ensures
        final(world)@ == (WorldView {
            entities: relabelled_all(old(world)@.entities, label, content@),
            ..old(world)@
        }),
{
    let n: usize = world.entities.slot_count();
    let mut i: usize = 0;
    while i < n
        invariant
            i <= n,
            n == world@.entities.len(),
            n == old(world)@.entities.len(),
            world@ == (WorldView { entities: world@.entities, ..old(world)@ }),
            forall|j: int|
                0 <= j < i ==> #[trigger] world@.entities[j] == relabelled_slot(
                    old(world)@.entities[j],
                    label,
                    content@,
                ),
            forall|j: int| i <= j < n ==> #[trigger] world@.entities[j] == old(world)@.entities[j],
        decreases n - i,
    {
        let center = match world.entities.fields_at(i) {
            Some(f) => {
                if label.shown_by(f) {
                    match &f.text {
                        Some(t) => Some(t.center),
                        None => Some(true),
                    }
                } else {
                    None
                }
            },
            None => None,
        };
        match (center, world.entities.entity_at(i)) {
            (Some(c), Some(e)) => {
                world.entities.set_text(e, Text { text: String::from_str(content), center: c });
            },
            _ => {},
        }
        i += 1;
    }
    assert(world@.entities =~= relabelled_all(old(world)@.entities, label, content@));
}

/// The score system: every text that shows the score reads `Score: ` and
/// the score.
pub fn score_system(world: &mut World)
    ensures
        final(world)@ == (WorldView {
            entities: relabelled_all(
                old(world)@.entities,
                Label::Score,
                "Score: "@ + decimal(old(world)@.score.0 as int),
            ),
            ..old(world)@
        }),
{
    let content = labelled("Score: ", world.score.0);
    relabel(world, Label::Score, content.as_str());
}

/// The lives of the player, where the store holds exactly one.
pub open spec fn player_lives(s: Seq<SlotView>) -> Option<int> {
    match player_of(s) {
        Some(e) => Some(fields_of(s, e).lives.unwrap().0 as int),
        None => None,
    }
}

/// The lives system: every text that shows the lives reads `Lives: ` and the
/// lives of the player. Without exactly one player nothing changes.
pub fn lives_system(world: &mut World)
    ensures
        final(world)@ == match player_lives(old(world)@.entities) {
            Some(lives) => WorldView {
                entities: relabelled_all(
                    old(world)@.entities,
                    Label::Lives,
                    "Lives: "@ + decimal(lives),
                ),
                ..old(world)@
            },
            None => old(world)@,
        },
{
    let lives = match world.entities.find_player() {
        Some(e) => match world.entities.get(e) {
            Some(f) => f.lives,
            None => None,
        },
        None => None,
    };
    match lives {
        Some(l) => {
            let content = labelled("Lives: ", l.0);
            relabel(world, Label::Lives, content.as_str());
        },
        None => {},
    }
}

/// Whether a block or a ball lives in this slot.
pub open spec fn holds_tagged(slot: SlotView) -> bool {
    slot.fields is Some && slot.fields.unwrap().tags is Some
}

/// The commands that despawn every block and every ball among the first `n`
/// slots, in the order of the slots.
pub open spec fn sweep(s: Seq<SlotView>, n: int) -> Seq<Command>
    decreases n,
{
    if n <= 0 {
        Seq::empty()
    } else if holds_tagged(s[n - 1]) {
        sweep(s, n - 1).push(Command::Despawn(handle(s, n - 1)))
    } else {
        sweep(s, n - 1)
    }
}

/// The commands that clear the board for a new game, asked for through the
/// announcement in slot `i`: the announcement, every block and every ball
/// are to be despawned, and the player gets three lives again.
pub open spec fn replay(s: Seq<SlotView>, i: int) -> Seq<Command> {
    (seq![Command::Despawn(handle(s, i))] + sweep(s, s.len() as int)).push(
        Command::AddPlayerLives(AddPlayerLives(PLAYER_LIVES)),
    )
}

/// The commands that the announcements among the first `n` slots ask for
/// when the game is confirmed over.
pub open spec fn replays(s: Seq<SlotView>, n: int) -> Seq<Command>
    decreases n,
{
    if n <= 0 {
        Seq::empty()
    } else if announces_game_over(s[n - 1]) {
        replays(s, n - 1) + replay(s, n - 1)
    } else {
        replays(s, n - 1)
    }
}

/// The world after the game-over system: every announcement reads
/// `Game Over!`, and if there is one and the confirm key was pressed, the
/// board is to be cleared, the score is zero and the game is `Reviving`.
pub open spec fn game_over_handled(w: WorldView) -> WorldView {
    let entities = relabelled_all(w.entities, Label::GameOver, "Game Over!"@);
    if w.input.confirm && has_game_over_text(w.entities) {
        WorldView {
            entities,
            commands: w.commands + replays(w.entities, w.entities.len() as int),
            score: Score(0),
            state: States::Reviving,
            ..w
        }
    } else {
        WorldView { entities, ..w }
    }
}

/// Where none of the first `n` slots holds an announcement, nothing is asked
/// for.
proof fn lemma_no_replays(s: Seq<SlotView>, n: int)
    requires
        forall|j: int| 0 <= j < n ==> !announces_game_over(#[trigger] s[j]),
    ensures
        replays(s, n) == Seq::<Command>::empty(),
    decreases n,
{
    if n > 0 {
        lemma_no_replays(s, n - 1);
    }
}

/// The commands that despawn every block and every ball.
fn sweep_commands(world: &World) -> (r: Vec<Command>)
    ensures
        r@ == sweep(world@.entities, world@.entities.len() as int),
{
    let n: usize = world.entities.slot_count();
    let mut r: Vec<Command> = Vec::new();
    let mut i: usize = 0;
    while i < n
        invariant
            i <= n,
            n == world@.entities.len(),
            r@ == sweep(world@.entities, i as int),
        decreases n - i,
    {
        let tagged: bool = match world.entities.fields_at(i) {
            Some(f) => f.tags.is_some(),
            None => false,
        };
        match world.entities.entity_at(i) {
            Some(e) => {
                if tagged {
                    r.push(Command::Despawn(e));
                }
            },
            None => {},
        }
        i += 1;
    }
    r
}

/// The game-over system: keeps the announcement of the end of the game
/// readable and, when the confirm key is pressed while it is shown, clears
/// the board for a new game.
pub fn gameover_system(world: &mut World)
    ensures
        final(world)@ == game_over_handled(old(world)@),
{
    if world.input.confirm {
        let cleared = sweep_commands(world);
        let n: usize = world.entities.slot_count();
        let m: usize = cleared.len();
        let mut any: bool = false;
        let mut i: usize = 0;
        while i < n
            invariant
                i <= n,
                n == world@.entities.len(),
                m == cleared@.len(),
                cleared@ == sweep(old(world)@.entities, n as int),
                world@ == (WorldView { commands: world@.commands, ..old(world)@ }),
                world@.commands == old(world)@.commands + replays(old(world)@.entities, i as int),
                any == exists|j: int|
                    0 <= j < i && announces_game_over(#[trigger] old(world)@.entities[j]),
            decreases n - i,
        {
            let shown: bool = match world.entities.fields_at(i) {
                Some(f) => f.game_over_tag.is_some(),
                None => false,
            };
            match world.entities.entity_at(i) {
                Some(e) => {
                    if shown {
                        let ghost base = world@.commands;
                        world.commands.push(Command::Despawn(e));
                        let mut k: usize = 0;
                        while k < m
                            invariant
                                k <= m,
                                m == cleared@.len(),
                                world@ == (WorldView { commands: world@.commands, ..old(world)@ }),
                                world@.commands == base.push(Command::Despawn(e)) + cleared@.subrange(
                                    0,
                                    k as int,
                                ),
                            decreases m - k,
                        {
                            world.commands.push(cleared[k]);
                            assert(cleared@.subrange(0, k + 1) =~= cleared@.subrange(0, k as int).push(
                                cleared@[k as int],
                            ));
                            assert(world@.commands =~= base.push(Command::Despawn(e))
                                + cleared@.subrange(0, k + 1));
                            k += 1;
                        }
                        world.commands.push(Command::AddPlayerLives(AddPlayerLives(PLAYER_LIVES)));
                        any = true;
                        assert(cleared@.subrange(0, m as int) =~= cleared@);
                        assert(world@.commands =~= old(world)@.commands + replays(
                            old(world)@.entities,
                            i + 1,
                        ));
                    }
                },
                None => {},
            }
            i += 1;
        }
        if any {
            world.score = Score(0);
            world.state = States::Reviving;
        } else {
            proof {
                lemma_no_replays(old(world)@.entities, n as int);
                assert(world@.commands =~= old(world)@.commands);
            }
        }
        assert(any == has_game_over_text(old(world)@.entities));
    }
    relabel(world, Label::GameOver, "Game Over!");
}

/// A text to draw: its content, where it stands, whether it is drawn to the
/// left of that place by its measured width, its size and its tint.
#[derive(Debug)]
pub struct DrawText {
    pub text: String,
    pub position: Vec2,
    pub center: bool,
    pub size: u16,
    pub color: Color,
}

/// A text to draw, as a value.
pub struct DrawTextView {
    pub text: Seq<char>,
    pub position: Vec2,
    pub center: bool,
    pub size: u16,
    pub color: Color,
}

impl View for DrawText {
    type V = DrawTextView;

    open spec fn view(&self) -> DrawTextView {
        DrawTextView {
            text: self.text@,
            position: self.position,
            center: self.center,
            size: self.size,
            color: self.color,
        }
    }
}

/// Whether these are the fields of a text on screen: a text, a tint, a size
/// and a position.
pub open spec fn is_text(f: FieldsView) -> bool {
    f.text is Some && f.color is Some && f.font is Some && f.position is Some
}

/// The texts to draw among the first `n` slots, in the order of the slots.
pub open spec fn texts(s: Seq<SlotView>, n: int) -> Seq<DrawTextView>
    decreases n,
{
    if n <= 0 {
        Seq::empty()
    } else {
        let slot = s[n - 1];
        if slot.fields is Some && is_text(slot.fields.unwrap()) {
            let f = slot.fields.unwrap();
            texts(s, n - 1).push(
                DrawTextView {
                    text: f.text.unwrap().text,
                    position: f.position.unwrap().0,
                    center: f.text.unwrap().center,
                    size: f.font.unwrap().size,
                    color: f.color.unwrap().0,
                },
            )
        } else {
            texts(s, n - 1)
        }
    }
}

/// The views of the texts in `v`.
pub open spec fn views(v: Seq<DrawText>) -> Seq<DrawTextView> {
    Seq::new(v.len(), |i: int| v[i]@)
}

/// The text system: adds every text on screen to the texts to draw, in the
/// order of the slots.
pub fn system(world: &mut World)
    ensures
        final(world)@ == (WorldView {
            texts: old(world)@.texts + texts(
                old(world)@.entities,
                old(world)@.entities.len() as int,
            ),
            ..old(world)@
        }),
{
    let n: usize = world.entities.slot_count();
    let mut i: usize = 0;
    while i < n
        invariant
            i <= n,
            n == world@.entities.len(),
            world@ == (WorldView {
                texts: old(world)@.texts + texts(old(world)@.entities, i as int),
                ..old(world)@
            }),
        decreases n - i,
    {
        let ghost before = world.texts@;
        let found = match world.entities.fields_at(i) {
            Some(f) => match (&f.text, f.color, f.font, f.position) {
                (Some(t), Some(c), Some(font), Some(p)) => Some(
                    DrawText {
                        text: t.text.clone(),
                        position: p.0,
                        center: t.center,
                        size: font.size,
                        color: c.0,
                    },
                ),
                _ => None,
            },
            None => None,
        };
        match found {
            Some(d) => {
                world.texts.push(d);
                assert(views(world.texts@) =~= views(before).push(d@));
                assert(world@.texts =~= old(world)@.texts + texts(old(world)@.entities, i + 1));
            },
            None => {},
        }
        i += 1;
    }
}

/// Where a text at `x` starts when its measured width is `width`: to the
/// left by that width if it is centered, saturating, and at `x` otherwise.
pub open spec fn anchored(x: int, center: bool, width: int) -> int {
    if center {
        clamp(x - width)
    } else {
        x
    }
}

/// Where a text at `x` starts when its measured width is `width`.
pub fn anchor(x: i64, center: bool, width: i64) -> (r: i64)
    ensures
        r == anchored(x as int, center, width as int),
{
    if center {
        saturate(x as i128 - width as i128)
    } else {
        x
    }
}

} // verus!
