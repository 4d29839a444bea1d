use vstd::prelude::*;
use crate::geometry::{Rect, Vec2, UNIT};
use crate::store::{no_fields, Fields, FieldsView};
use crate::utils::{direction, direction_of, random};

pub mod resource;
pub mod trigger;

verus! {

/// Side of the square that bounds a ball.
pub const BALL_SIZE: i64 = 30 * UNIT;

/// Width of the paddle.
pub const PLAYER_WIDTH: i64 = 150 * UNIT;

/// Height of the paddle's bounding box.
pub const PLAYER_HEIGHT: i64 = 8 * UNIT;

/// Lives of the player at the start of a round.
pub const PLAYER_LIVES: i32 = 3;

/// Width of a block.
pub const BLOCK_WIDTH: i64 = 100 * UNIT;

/// Height of a block.
pub const BLOCK_HEIGHT: i64 = 40 * UNIT;

/// The tints that the game draws with.
#[derive(Clone, Copy, Debug, PartialEq, Eq, Structural)]
pub enum Color {
    White,
    Red,
    Blue,
    Black,
    Pink,
    Orange,
    Green,
}

/// The images that the game draws from, by the name of the asset.
#[derive(Clone, Copy, Debug, PartialEq, Eq, Structural)]
pub enum Texture {
    Player,
    Blocks,
    Ball,
}

/// The sounds that the game plays, by the name of the asset.
#[derive(Clone, Copy, Debug, PartialEq, Eq, Structural)]
pub enum Sound {
    HitBlock,
}

/// Where an entity is: the origin of its local bounding box, in world space.
#[derive(Clone, Copy, Debug, PartialEq, Eq, Structural)]
pub struct Position(pub Vec2);

/// The direction in which an entity moves; the simulation scales it by the
/// speed and the elapsed time.
#[derive(Clone, Copy, Debug, PartialEq, Eq, Structural)]
pub struct Velocity(pub Vec2);

/// The bounding box of an entity, relative to its position.
#[derive(Clone, Copy, Debug, PartialEq, Eq, Structural)]
pub struct Aabb(pub Rect);

/// The image of an entity: a texture and the region of it to draw, the
/// region in pixels of the texture.
#[derive(Clone, Copy, Debug, PartialEq, Eq, Structural)]
pub struct TextureComponent {
    pub texture: Texture,
    pub source: Rect,
}

/// The tint of an entity.
#[derive(Clone, Copy, Debug, PartialEq, Eq, Structural)]
pub struct ColorComponent(pub Color);

/// How many hits an entity still takes.
#[derive(Clone, Copy, Debug, PartialEq, Eq, Structural)]
pub struct Lives(pub i32);

/// The score granted when a block is destroyed.
#[derive(Clone, Copy, Debug, PartialEq, Eq, Structural)]
pub struct Bounty(pub i32);

/// What kind of game object an entity is. The player and the texts carry
/// no tag.
#[derive(Clone, Copy, Debug, PartialEq, Eq, Structural)]
pub enum Tags {
    Block(BlockType),
    Ball(BallType),
}

/// The kinds of ball: the one in play from the start of a round, the clone
/// that a cloner sets free, and the special ball that destroys at one hit.
#[derive(Clone, Copy, Debug, PartialEq, Eq, Structural)]
pub enum BallType {
    Original,
    Clone,
    Special,
}

/// The kinds of block.
#[derive(Clone, Copy, Debug, PartialEq, Eq, Structural)]
pub enum BlockType {
    Fragile,
    Cloner,
    Special,
    Empty,
}

/// A line of text on screen. When `center` is set the text is drawn to the
/// left of its position by its measured width.
#[derive(Debug)]
pub struct Text {
    pub text: String,
    pub center: bool,
}

/// What a `Text` holds, as a value.
pub struct TextView {
    pub text: Seq<char>,
    pub center: bool,
}

impl View for Text {
    type V = TextView;

    open spec fn view(&self) -> TextView {
        TextView { text: self.text@, center: self.center }
    }
}

impl Text {
    /// A copy of this text.
    pub fn duplicate(&self) -> (t: Text)
        ensures
            t@ == self@,
    {
        Text { text: self.text.clone(), center: self.center }
    }
}

/// The size at which a text is drawn.
#[derive(Clone, Copy, Debug, PartialEq, Eq, Structural)]
pub struct FontComponent {
    pub size: u16,
}

/// Marks the text that shows the score.
#[derive(Clone, Copy, Debug, PartialEq, Eq, Structural)]
pub struct ScoreTag;

/// Marks the text that announces the end of the game.
#[derive(Clone, Copy, Debug, PartialEq, Eq, Structural)]
pub struct GameOverTag;

/// Marks the text that shows the player's lives.
#[derive(Clone, Copy, Debug, PartialEq, Eq, Structural)]
pub struct LivesTag;


/// The fields of a text on screen.
#[derive(Debug)]
pub struct TextBundle {
    pub text: Text,
    pub rect: Position,
    pub color: ColorComponent,
    pub font: FontComponent,
}

/// A `TextBundle`, as a value.
pub struct TextBundleView {
    pub text: TextView,
    pub rect: Position,
    pub color: ColorComponent,
    pub font: FontComponent,
}

impl View for TextBundle {
    type V = TextBundleView;

    open spec fn view(&self) -> TextBundleView {
        TextBundleView { text: self.text@, rect: self.rect, color: self.color, font: self.font }
    }
}

impl TextBundleView {
    /// The fields of the entity that this bundle describes.
    pub open spec fn fields(self) -> FieldsView {
        FieldsView {
            text: Some(self.text),
            position: Some(self.rect),
            color: Some(self.color),
            font: Some(self.font),
            ..no_fields()
        }
    }
}

impl TextBundle {
    /// A text with the given content, at `position`, in `color`, drawn at
    /// `size`.
    pub fn new(text: String, center: bool, position: Vec2, color: Color, size: u16) -> (b:
        TextBundle)
        ensures
            b@ == (TextBundleView {
                text: TextView { text: text@, center },
                rect: Position(position),
                color: ColorComponent(color),
                font: FontComponent { size },
            }),
    {
        TextBundle {
            text: Text { text, center },
            rect: Position(Vec2 { x: position.x, y: position.y }),
            color: ColorComponent(color),
            font: FontComponent { size },
        }
    }

    /// The fields of the entity that this bundle describes.
    pub fn fields(self) -> (f: Fields)
        ensures
            f@ == self@.fields(),
    {
        let mut f = Fields::new();
        f.text = Some(self.text);
        f.position = Some(self.rect);
        f.color = Some(self.color);
        f.font = Some(self.font);
        f
    }
}

/// The fields of the text that shows the score.
#[derive(Debug)]
pub struct TextScoreBundle {
    pub tag: ScoreTag,
    pub text_bundle: TextBundle,
}

/// A `TextScoreBundle`, as a value.
pub struct TextScoreBundleView {
    pub tag: ScoreTag,
    pub text_bundle: TextBundleView,
}

impl View for TextScoreBundle {
    type V = TextScoreBundleView;

    open spec fn view(&self) -> TextScoreBundleView {
        TextScoreBundleView { tag: self.tag, text_bundle: self.text_bundle@ }
    }
}

impl TextScoreBundleView {
    /// The fields of the entity that this bundle describes: those of the
    /// text, and the mark of the score.
    pub open spec fn fields(self) -> FieldsView {
        FieldsView { score_tag: Some(self.tag), ..self.text_bundle.fields() }
    }
}

impl TextScoreBundle {
    /// The score text with the given content, at `position`, in `color`,
    /// drawn at `size`.
    pub fn new(text: String, center: bool, position: Vec2, color: Color, size: u16) -> (b:
        TextScoreBundle)
        ensures
            b@ == (TextScoreBundleView {
                tag: ScoreTag,
                text_bundle: TextBundleView {
                    text: TextView { text: text@, center },
                    rect: Position(position),
                    color: ColorComponent(color),
                    font: FontComponent { size },
                },
            }),
    {
        TextScoreBundle { tag: ScoreTag, text_bundle: TextBundle::new(text, center, position, color, size) }
    }

    /// The fields of the entity that this bundle describes.
    pub fn fields(self) -> (f: Fields)
        ensures
            f@ == self@.fields(),
    {
        let mut f = self.text_bundle.fields();
        f.score_tag = Some(self.tag);
        f
    }
}

/// The fields of the paddle.
#[derive(Clone, Copy, Debug, PartialEq, Eq, Structural)]
pub struct PlayerBundle {
    pub position: Position,
    pub color: ColorComponent,
    pub lives: Lives,
    pub aabb: Aabb,
    pub texture: TextureComponent,
}

impl PlayerBundle {
    /// The paddle at `position`: three lives, a box of 150 by 8 units, and
    /// the top 150 by 4 pixels of its texture.
    pub open spec fn spec_new(position: Vec2, color: Color, texture: Texture) -> PlayerBundle {
        PlayerBundle {
            position: Position(position),
            color: ColorComponent(color),
            lives: Lives(PLAYER_LIVES),
            aabb: Aabb(Rect { x: 0, y: 0, w: PLAYER_WIDTH, h: PLAYER_HEIGHT }),
            texture: TextureComponent { texture, source: Rect { x: 0, y: 0, w: 150, h: 4 } },
        }
    }

    /// The paddle at `position`.
    pub fn new(position: Vec2, color: Color, texture: Texture) -> (b: PlayerBundle)
        ensures
            b == Self::spec_new(position, color, texture),
    {
        PlayerBundle {
            position: Position(position),
            color: ColorComponent(color),
            lives: Lives(PLAYER_LIVES),
            aabb: Aabb(Rect { x: 0, y: 0, w: PLAYER_WIDTH, h: PLAYER_HEIGHT }),
            texture: TextureComponent { texture, source: Rect { x: 0, y: 0, w: 150, h: 4 } },
        }
    }

    /// The fields of the entity that this bundle describes.
    pub open spec fn spec_fields(self) -> FieldsView {
        FieldsView {
            position: Some(self.position),
            color: Some(self.color),
            lives: Some(self.lives),
            aabb: Some(self.aabb),
            texture: Some(self.texture),
            ..no_fields()
        }
    }

    /// The fields of the entity that this bundle describes.
    pub fn fields(self) -> (f: Fields)
        ensures
            f@ == self.spec_fields(),
    {
        let mut f = Fields::new();
        f.position = Some(self.position);
        f.color = Some(self.color);
        f.lives = Some(self.lives);
        f.aabb = Some(self.aabb);
        f.texture = Some(self.texture);
        f
    }
}

/// The fields of a ball.
#[derive(Clone, Copy, Debug, PartialEq, Eq, Structural)]
pub struct BallBundle {
    pub position: Position,
    pub color: ColorComponent,
    pub aabb: Aabb,
    pub velocity: Velocity,
    pub tags: Tags,
    pub texture: TextureComponent,
}

impl BallBundle {
    /// The ball of kind `ball_type` at `position` that sets off upwards and,
    /// horizontally, in the direction `dx`.
    pub open spec fn launched(
        position: Vec2,
        color: Color,
        texture: Texture,
        ball_type: BallType,
        dx: int,
    ) -> BallBundle {
        BallBundle {
            position: Position(position),
            color: ColorComponent(color),
            aabb: Aabb(Rect { x: 0, y: 0, w: BALL_SIZE, h: BALL_SIZE }),
            texture: TextureComponent { texture, source: Rect { x: 0, y: 0, w: 30, h: 30 } },
            velocity: Velocity(Vec2 { x: dx as i64, y: -1i64 }),
            tags: Tags::Ball(ball_type),
        }
    }

    /// A ball at `position` that sets off upwards, to the left or to the
    /// right as the generator decides.
    pub fn new(position: Vec2, color: Color, texture: Texture, ball_type: BallType) -> (b:
        BallBundle)
        ensures
            b == Self::launched(position, color, texture, ball_type, 1) || b == Self::launched(
                position,
                color,
                texture,
                ball_type,
                -1,
            ),
    {
        let roll: i32 = random(0, 2);
        Self::with_roll(position, color, texture, ball_type, roll)
    }

    /// A ball at `position` that sets off upwards, to the left if `roll` is
    /// zero and to the right otherwise.
    pub fn with_roll(
        position: Vec2,
        color: Color,
        texture: Texture,
        ball_type: BallType,
        roll: i32,
    ) -> (b: BallBundle)
        ensures
            b == Self::launched(position, color, texture, ball_type, direction(roll as int)),
    {
        BallBundle {
            position: Position(position),
            color: ColorComponent(color),
            aabb: Aabb(Rect { x: 0, y: 0, w: BALL_SIZE, h: BALL_SIZE }),
            texture: TextureComponent { texture, source: Rect { x: 0, y: 0, w: 30, h: 30 } },
            velocity: Velocity(Vec2 { x: direction_of(roll), y: -1 }),
            tags: Tags::Ball(ball_type),
        }
    }

    /// The fields of the entity that this bundle describes.
    pub open spec fn spec_fields(self) -> FieldsView {
        FieldsView {
            position: Some(self.position),
            color: Some(self.color),
            aabb: Some(self.aabb),
            velocity: Some(self.velocity),
            tags: Some(self.tags),
            texture: Some(self.texture),
            ..no_fields()
        }
    }

    /// The fields of the entity that this bundle describes.
    pub fn fields(self) -> (f: Fields)
        ensures
            f@ == self.spec_fields(),
    {
        let mut f = Fields::new();
        f.position = Some(self.position);
        f.color = Some(self.color);
        f.aabb = Some(self.aabb);
        f.velocity = Some(self.velocity);
        f.tags = Some(self.tags);
        f.texture = Some(self.texture);
        f
    }
}

/// The fields of a block.
#[derive(Clone, Copy, Debug, PartialEq, Eq, Structural)]
pub struct BlockBundle {
    pub position: Position,
    pub aabb: Aabb,
    pub color: ColorComponent,
    pub tags: Tags,
    pub bounty: Bounty,
    pub lives: Lives,
    pub texture: TextureComponent,
}

impl BlockBundle {
    /// The fields of the entity that this bundle describes.
    pub open spec fn spec_fields(self) -> FieldsView {
        FieldsView {
            position: Some(self.position),
            aabb: Some(self.aabb),
            color: Some(self.color),
            tags: Some(self.tags),
            bounty: Some(self.bounty),
            lives: Some(self.lives),
            texture: Some(self.texture),
            ..no_fields()
        }
    }

    /// The fields of the entity that this bundle describes.
    pub fn fields(self) -> (f: Fields)
        ensures
            f@ == self.spec_fields(),
    {
        let mut f = Fields::new();
        f.position = Some(self.position);
        f.aabb = Some(self.aabb);
        f.color = Some(self.color);
        f.tags = Some(self.tags);
        f.bounty = Some(self.bounty);
        f.lives = Some(self.lives);
        f.texture = Some(self.texture);
        f
    }
}

} // verus!
