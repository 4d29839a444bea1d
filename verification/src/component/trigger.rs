use vstd::prelude::*;
use vstd::string::*;
use crate::component::{
    BallBundle, BallType, BlockBundle, Color, ColorComponent, FontComponent, GameOverTag, Lives,
    Position, TextBundle, TextBundleView, TextView, Texture,
};
use crate::geometry::{clamp32, saturate32, Vec2, UNIT};
use crate::query::{lemma_single_player, single_player};
use crate::store::{despawned, spawned, Entities, Entity, FieldsView, SlotView};
use crate::utils::direction;

verus! {

/// Where a replacement ball appears, relative to the paddle: to the right.
pub const LAUNCH_OFFSET_X: i64 = 60 * UNIT;

/// Where a replacement ball appears, relative to the paddle: above it.
pub const LAUNCH_OFFSET_Y: i64 = -20 * UNIT;

/// Horizontal position of the text that announces the end of the game.
pub const GAME_OVER_X: i64 = 500 * UNIT;

/// Vertical position of the texts at the top of the screen.
pub const HEADLINE_Y: i64 = 40 * UNIT;

/// Size at which the texts are drawn.
pub const TEXT_SIZE: u16 = 30;

/// The loss of the ball in play: the player loses a life and, if any is
/// left, gets a new ball.
#[derive(Clone, Copy, Debug, PartialEq, Eq, Structural)]
pub struct AddPlayer;

/// The spawning of a ball.
#[derive(Clone, Copy, Debug, PartialEq, Eq, Structural)]
pub struct AddBall(pub BallBundle);

/// The spawning of the text that announces the end of the game.
#[derive(Clone, Copy, Debug, PartialEq, Eq, Structural)]
pub struct AddGameOverText;

/// The setting of the player's lives.
#[derive(Clone, Copy, Debug, PartialEq, Eq, Structural)]
pub struct AddPlayerLives(pub i32);

/// A change to the set of entities that a system asks for and that is
/// carried out once the stage has finished.
#[derive(Clone, Copy, Debug, PartialEq, Eq, Structural)]
pub enum Command {
    Despawn(Entity),
    SpawnBlock(BlockBundle),
    AddBall(AddBall),
    AddPlayer(AddPlayer),
    AddGameOverText(AddGameOverText),
    AddPlayerLives(AddPlayerLives),
}

/// The store after the player, if there is exactly one, lost a life.
pub open spec fn life_lost(s: Seq<SlotView>) -> Seq<SlotView> {
    match single_player(s) {
        Some(k) => {
            let f = s[k].fields.unwrap();
            s.update(
                k,
                SlotView {
                    generation: s[k].generation,
                    fields: Some(
                        FieldsView {
                            lives: Some(Lives(clamp32(f.lives.unwrap().0 - 1) as i32)),
                            ..f
                        },
                    ),
                },
            )
        },
        None => s,
    }
}

/// Where the replacement ball appears, if the player, having lost a life in
/// `s`, has any left: up and to the right of the paddle.
pub open spec fn relaunch_position(s: Seq<SlotView>) -> Option<Vec2> {
    match single_player(s) {
        Some(k) => {
            let f = s[k].fields.unwrap();
            if f.lives.unwrap().0 - 1 <= 0 {
                None
            } else {
                Some(f.position.unwrap().0.shifted(LAUNCH_OFFSET_X as int, LAUNCH_OFFSET_Y as int))
            }
        },
        None => None,
    }
}

/// The store after the ball in play was lost: the player has one life less,
/// and while lives remain a new original ball, white, is spawned beside the
/// paddle and sets off in the horizontal direction `dx`. Without exactly one
/// player nothing changes.
pub open spec fn ball_lost(s: Seq<SlotView>, dx: int) -> Seq<SlotView> {
    match relaunch_position(s) {
        Some(p) => spawned(
            life_lost(s),
            BallBundle::launched(p, Color::White, Texture::Ball, BallType::Original, dx).spec_fields(),
        ),
        None => life_lost(s),
    }
}

impl AddPlayer {
    /// Takes a life from the player and says where the replacement ball
    /// appears, if the player has lives left.
    fn take_life(entities: &mut Entities) -> (r: Option<Vec2>)
        ensures
            final(entities)@ == life_lost(old(entities)@),
            r == relaunch_position(old(entities)@),
    {
        match entities.find_player() {
            Some(e) => {
                proof {
                    lemma_single_player(entities@);
                }
                let (position, lives) = match entities.get(e) {
                    Some(f) => (f.position, f.lives),
                    None => (None, None),
                };
                match (position, lives) {
                    (Some(p), Some(l)) => {
                        let left: i32 = saturate32(l.0 as i64 - 1);
                        entities.set_lives(e, Lives(left));
                        assert(entities@ =~= life_lost(old(entities)@));
                        if left <= 0 {
                            None
                        } else {
                            Some(p.0.shift(LAUNCH_OFFSET_X, LAUNCH_OFFSET_Y))
                        }
                    },
                    _ => None,
                }
            },
            None => None,
        }
    }

    /// Carries the loss of the ball out; the generator decides whether the new
    /// ball sets off to the left or to the right.
    pub fn write(self, entities: &mut Entities)
        ensures
            final(entities)@ == ball_lost(old(entities)@, 1) || final(entities)@ == ball_lost(
                old(entities)@,
                -1,
            ),
    {
        match Self::take_life(entities) {
            Some(p) => {
                let ball = BallBundle::new(p, Color::White, Texture::Ball, BallType::Original);
                entities.spawn(ball.fields());
            },
            None => {},
        }
    }

    /// Carries the loss of the ball out; the new ball sets off to the left if
    /// `roll` is zero and to the right otherwise.
    pub fn write_with_roll(self, entities: &mut Entities, roll: i32)
        ensures
            final(entities)@ == ball_lost(old(entities)@, direction(roll as int)),
    {
        match Self::take_life(entities) {
            Some(p) => {
                let ball = BallBundle::with_roll(
                    p,
                    Color::White,
                    Texture::Ball,
                    BallType::Original,
                    roll,
                );
                entities.spawn(ball.fields());
            },
            None => {},
        }
    }
}

impl AddBall {
    /// Spawns the ball.
    pub fn write(self, entities: &mut Entities)
        ensures
            final(entities)@ == spawned(old(entities)@, self.0.spec_fields()),
    {
        entities.spawn(self.0.fields());
    }
}

/// The store after the lives of the player, if there is exactly one, were
/// set to `lives`.
pub open spec fn lives_set(s: Seq<SlotView>, lives: i32) -> Seq<SlotView> {
    match single_player(s) {
        Some(k) => s.update(
            k,
            SlotView {
                generation: s[k].generation,
                fields: Some(FieldsView { lives: Some(Lives(lives)), ..s[k].fields.unwrap() }),
            },
        ),
        None => s,
    }
}

impl AddPlayerLives {
    /// Sets the lives of the player.
    pub fn write(self, entities: &mut Entities)
        ensures
            final(entities)@ == lives_set(old(entities)@, self.0),
    {
        match entities.find_player() {
            Some(e) => {
                proof {
                    lemma_single_player(entities@);
                }
                entities.set_lives(e, Lives(self.0));
                assert(entities@ =~= lives_set(old(entities)@, self.0));
            },
            None => {},
        }
    }
}

/// The fields of the text that announces the end of the game: white,
/// centered, at the top of the screen.
pub open spec fn game_over_text() -> FieldsView {
    FieldsView {
        game_over_tag: Some(GameOverTag),
        ..(TextBundleView {
            text: TextView { text: "Game Over!"@, center: true },
            rect: Position(Vec2 { x: GAME_OVER_X, y: HEADLINE_Y }),
            color: ColorComponent(Color::White),
            font: FontComponent { size: TEXT_SIZE },
        }).fields()
    }
}

impl AddGameOverText {
    /// Spawns the text that announces the end of the game. Whoever asks for
    /// it sees to it that the store holds none yet.
    pub fn write(self, entities: &mut Entities)
        ensures
            final(entities)@ == spawned(old(entities)@, game_over_text()),
    {
        let bundle = TextBundle::new(
            String::from_str("Game Over!"),
            true,
            Vec2 { x: GAME_OVER_X, y: HEADLINE_Y },
            Color::White,
            TEXT_SIZE,
        );
        let mut fields = bundle.fields();
        fields.game_over_tag = Some(GameOverTag);
        entities.spawn(fields);
    }
}

/// The store after `c` was carried out, where `dx` is the horizontal
/// direction in which a replacement ball sets off.
pub open spec fn applied(s: Seq<SlotView>, c: Command, dx: int) -> Seq<SlotView> {
    match c {
        Command::Despawn(e) => despawned(s, e),
        Command::SpawnBlock(b) => spawned(s, b.spec_fields()),
        Command::AddBall(a) => spawned(s, a.0.spec_fields()),
        Command::AddPlayer(_) => ball_lost(s, dx),
        Command::AddGameOverText(_) => spawned(s, game_over_text()),
        Command::AddPlayerLives(a) => lives_set(s, a.0),
    }
}

impl Command {
    /// Carries the command out. Where a replacement ball is spawned, the
    /// generator decides its horizontal direction.
    pub fn write(self, entities: &mut Entities)
        ensures
            final(entities)@ == applied(old(entities)@, self, 1) || final(entities)@ == applied(
                old(entities)@,
                self,
                -1,
            ),
    {
        match self {
            Command::Despawn(e) => {
                entities.despawn(e);
            },
            Command::SpawnBlock(b) => {
                entities.spawn(b.fields());
            },
            Command::AddBall(a) => a.write(entities),
            Command::AddPlayer(a) => a.write(entities),
            Command::AddGameOverText(a) => a.write(entities),
            Command::AddPlayerLives(a) => a.write(entities),
        }
    }

    /// Carries the command out. A replacement ball sets off to the left if
    /// `roll` is zero and to the right otherwise.
    pub fn write_with_roll(self, entities: &mut Entities, roll: i32)
        ensures
            final(entities)@ == applied(old(entities)@, self, direction(roll as int)),
    {
        match self {
            Command::Despawn(e) => {
                entities.despawn(e);
            },
            Command::SpawnBlock(b) => {
                entities.spawn(b.fields());
            },
            Command::AddBall(a) => a.write(entities),
            Command::AddPlayer(a) => a.write_with_roll(entities, roll),
            Command::AddGameOverText(a) => a.write(entities),
            Command::AddPlayerLives(a) => a.write(entities),
        }
    }
}

} // verus!
