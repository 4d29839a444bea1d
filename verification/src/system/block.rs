use vstd::prelude::*;
use crate::component::resource::Score;
use crate::component::trigger::{AddBall, Command};
use crate::component::{
    Aabb, BallBundle, BallType, BlockBundle, BlockType, Bounty, Color, ColorComponent, Lives,
    Position, Tags, Texture, TextureComponent, BLOCK_HEIGHT, BLOCK_WIDTH,
};
use crate::game::States;
use crate::geometry::{clamp, clamp32, saturate, saturate32, Rect, Vec2, UNIT};
use crate::store::{despawned, handle, live, FieldsView, SlotView};
use crate::utils::random;
use crate::world::{directions, World, WorldView};

verus! {

/// Blocks in a row of the grid.
pub const GRID_COLUMNS: usize = 6;

/// Rows of the grid.
pub const GRID_ROWS: usize = 6;

/// Blocks in the grid.
pub const GRID_CELLS: usize = 36;

/// Left edge of the grid, which is centered on the playfield.
pub const BOARD_X: i64 = 100 * UNIT;

/// Top edge of the grid.
pub const BOARD_Y: i64 = 50 * UNIT;

/// The kind of block that a roll between 0 and 99 stands for, with its
/// bounty, its lives and its tint: eighty in a hundred are fragile, ten are
/// cloners, five are empty and five are special.
pub open spec fn classified(roll: int) -> (BlockType, Bounty, Lives, Color) {
    if roll < 80 {
        (BlockType::Fragile, Bounty(50), Lives(3), Color::Red)
    } else if roll < 90 {
        (BlockType::Cloner, Bounty(30), Lives(2), Color::Blue)
    } else if roll < 95 {
        (BlockType::Empty, Bounty(0), Lives(0), Color::Black)
    } else {
        (BlockType::Special, Bounty(100), Lives(1), Color::Pink)
    }
}

/// Turns a roll into a kind of block with its bounty, its lives and its tint.
pub fn classify(roll: i32) -> (r: (BlockType, Bounty, Lives, Color))
    ensures
        r == classified(roll as int),
{
    if roll < 80 {
        (BlockType::Fragile, Bounty(50), Lives(3), Color::Red)
    } else if roll < 90 {
        (BlockType::Cloner, Bounty(30), Lives(2), Color::Blue)
    } else if roll < 95 {
        (BlockType::Empty, Bounty(0), Lives(0), Color::Black)
    } else {
        (BlockType::Special, Bounty(100), Lives(1), Color::Pink)
    }
}

/// The block in cell `i` of the grid, counted row by row, of the kind that
/// `roll` stands for.
pub open spec fn cell(i: int, roll: int) -> BlockBundle {
    let kind = classified(roll);
    BlockBundle {
        position: Position(
            Vec2 {
                x: clamp(BOARD_X + (i % 6) * BLOCK_WIDTH) as i64,
                y: clamp(BOARD_Y + (i / 6) * BLOCK_HEIGHT) as i64,
            },
        ),
        aabb: Aabb(Rect { x: 0, y: 0, w: BLOCK_WIDTH, h: BLOCK_HEIGHT }),
        color: ColorComponent(kind.3),
        tags: Tags::Block(kind.0),
        bounty: kind.1,
        lives: kind.2,
        texture: TextureComponent {
            texture: Texture::Blocks,
            source: Rect { x: 0, y: 0, w: 100, h: 40 },
        },
    }
}

/// The block in cell `i` of the grid, of the kind that `roll` stands for.
pub fn block_at(i: usize, roll: i32) -> (b: BlockBundle)
    ensures
        b == cell(i as int, roll as int),
{
    let (block_type, bounty, lives, color) = classify(roll);
    let column: i128 = (i % GRID_COLUMNS) as i128;
    let row: i128 = (i / GRID_COLUMNS) as i128;
    assert(0 <= column * BLOCK_WIDTH <= 0x1_0000_0000_0000_0000 * BLOCK_WIDTH) by (nonlinear_arith)
        requires
            0 <= column <= 0x1_0000_0000_0000_0000,
            0 <= BLOCK_WIDTH,
    ;
    assert(0 <= row * BLOCK_HEIGHT <= 0x1_0000_0000_0000_0000 * BLOCK_HEIGHT) by (nonlinear_arith)
        requires
            0 <= row <= 0x1_0000_0000_0000_0000,
            0 <= BLOCK_HEIGHT,
    ;
    BlockBundle {
        position: Position(
            Vec2 {
                x: saturate(BOARD_X as i128 + column * BLOCK_WIDTH as i128),
                y: saturate(BOARD_Y as i128 + row * BLOCK_HEIGHT as i128),
            },
        ),
        aabb: Aabb(Rect { x: 0, y: 0, w: BLOCK_WIDTH, h: BLOCK_HEIGHT }),
        color: ColorComponent(color),
        tags: Tags::Block(block_type),
        bounty,
        lives,
        texture: TextureComponent {
            texture: Texture::Blocks,
            source: Rect { x: 0, y: 0, w: 100, h: 40 },
        },
    }
}

/// Whether `rolls` holds `n` rolls between 0 and 99.
pub open spec fn percentages(rolls: Seq<int>, n: int) -> bool {
    rolls.len() == n && forall|i: int| 0 <= i < n ==> 0 <= #[trigger] rolls[i] < 100
}

/// The commands that spawn the first `n` cells of the grid, cell `i` of the
/// kind that `rolls[i]` stands for.
pub open spec fn grid_commands(rolls: Seq<int>, n: int) -> Seq<Command> {
    Seq::new(n as nat, |i: int| Command::SpawnBlock(cell(i, rolls[i])))
}

/// The world after the grid was laid out with the given rolls: the blocks
/// are to be spawned, and the game is being played.
pub open spec fn grid_laid(w: WorldView, rolls: Seq<int>) -> WorldView {
    WorldView {
        commands: w.commands + grid_commands(rolls, GRID_CELLS as int),
        state: States::Playing,
        ..w
    }
}

/// Lays out the grid of six by six blocks, the generator deciding the kind
/// of each, asks for all of them to be spawned, and sets the game to
/// `Playing`.
pub fn init_system(world: &mut World)
    ensures
        exists|rolls: Seq<int>|
            percentages(rolls, GRID_CELLS as int) && final(world)@ == grid_laid(old(world)@, rolls),
{
    let ghost mut rolls: Seq<int> = Seq::empty();
    let mut i: usize = 0;
    while i < GRID_CELLS
        invariant
            i <= GRID_CELLS,
            percentages(rolls, i as int),
            world@ == (WorldView {
                commands: old(world)@.commands + grid_commands(rolls, i as int),
                ..old(world)@
            }),
        decreases GRID_CELLS - i,
    {
        let roll: i32 = random(0, 100);
        world.commands.push(Command::SpawnBlock(block_at(i, roll)));
        proof {
            let next = rolls.push(roll as int);
            assert(old(world)@.commands + grid_commands(next, i + 1) =~= (old(world)@.commands
                + grid_commands(rolls, i as int)).push(
                Command::SpawnBlock(cell(i as int, roll as int)),
            ));
            rolls = next;
        }
        i += 1;
    }
    world.state = States::Playing;
}

/// Whether these are the fields of a block: a position, lives, a tint, a
/// bounty and the tag of a block.
pub open spec fn is_block(f: FieldsView) -> bool {
    f.position is Some && f.lives is Some && f.color is Some && f.bounty is Some && f.tags matches Some(
        Tags::Block(_),
    )
}

/// The kind of a block.
pub open spec fn block_type(f: FieldsView) -> BlockType
    recommends
        is_block(f),
{
    match f.tags {
        Some(Tags::Block(s)) => s,
        _ => BlockType::Empty,
    }
}

/// The tint that shows how damaged a block is: none but its own at three
/// lives, blue at two, orange at one unless the block is special, green
/// above three.
pub open spec fn tint(kind: BlockType, lives: int, current: Color) -> Color {
    if lives == 3 {
        current
    } else if lives == 2 {
        Color::Blue
    } else if lives == 1 {
        if kind == BlockType::Special {
            current
        } else {
            Color::Orange
        }
    } else {
        Color::Green
    }
}

/// The ball that a destroyed block of the given kind at `position` sets
/// free, if any: a cloner a blue clone, a special block a pink special ball,
/// at the center of the block, setting off in the horizontal direction `dx`.
pub open spec fn released(kind: BlockType, position: Vec2, dx: int) -> Option<BallBundle> {
    let center = position.shifted(BLOCK_WIDTH / 2, BLOCK_HEIGHT / 2);
    match kind {
        BlockType::Cloner => Some(
            BallBundle::launched(center, Color::Blue, Texture::Ball, BallType::Clone, dx),
        ),
        BlockType::Special => Some(
            BallBundle::launched(center, Color::Pink, Texture::Ball, BallType::Special, dx),
        ),
        _ => None,
    }
}

/// The world after the block system has dealt with slot `i`. A block with
/// lives left is tinted by its damage. A block without lives is destroyed:
/// the ball that it sets free, if any, is to be spawned in direction `dx`,
/// the block is to be despawned, and its bounty goes to the score,
/// saturating.
pub open spec fn block_step(w: WorldView, i: int, dx: int) -> WorldView {
    let slot = w.entities[i];
    if slot.fields is Some && is_block(slot.fields.unwrap()) {
        let f = slot.fields.unwrap();
        let lives = f.lives.unwrap().0;
        let kind = block_type(f);
        if lives <= 0 {
            let gone = Command::Despawn(handle(w.entities, i));
            WorldView {
                commands: match released(kind, f.position.unwrap().0, dx) {
                    Some(ball) => w.commands.push(Command::AddBall(AddBall(ball))).push(gone),
                    None => w.commands.push(gone),
                },
                score: Score(clamp32(w.score.0 + f.bounty.unwrap().0) as i32),
                ..w
            }
        } else {
            WorldView {
                entities: w.entities.update(
                    i,
                    SlotView {
                        generation: slot.generation,
                        fields: Some(
                            FieldsView {
                                color: Some(
                                    ColorComponent(tint(kind, lives as int, f.color.unwrap().0)),
                                ),
                                ..f
                            },
                        ),
                    },
                ),
                ..w
            }
        }
    } else {
        w
    }
}

/// The world after the block system has dealt with the first `n` slots in
/// order, a ball set free from slot `i` setting off in direction `dxs[i]`.
pub open spec fn block_pass(w: WorldView, dxs: Seq<int>, n: int) -> WorldView
    decreases n,
{
    if n <= 0 {
        w
    } else {
        block_step(block_pass(w, dxs, n - 1), n - 1, dxs[n - 1])
    }
}

/// The block pass over the first `n` slots depends on the first `n`
/// directions only.
pub proof fn lemma_block_pass_agrees(w: WorldView, a: Seq<int>, b: Seq<int>, n: int)
    requires
        forall|i: int| 0 <= i < n ==> a[i] == b[i],
    ensures
        block_pass(w, a, n) == block_pass(w, b, n),
    decreases n,
{
    if n > 0 {
        lemma_block_pass_agrees(w, a, b, n - 1);
    }
}

/// The tint that shows how damaged a block is.
pub fn damage_tint(kind: BlockType, lives: i32, current: Color) -> (c: Color)
    ensures
        c == tint(kind, lives as int, current),
{
    if lives == 3 {
        current
    } else if lives == 2 {
        Color::Blue
    } else if lives == 1 {
        match kind {
            BlockType::Special => current,
            _ => Color::Orange,
        }
    } else {
        Color::Green
    }
}

/// The ball that a destroyed block sets free, if any; the generator decides
/// whether it sets off to the left or to the right.
pub fn release(kind: BlockType, position: Vec2) -> (r: Option<BallBundle>)
    ensures
        r == released(kind, position, 1) || r == released(kind, position, -1),
{
    let center = position.shift(BLOCK_WIDTH / 2, BLOCK_HEIGHT / 2);
    match kind {
        BlockType::Cloner => Some(
            BallBundle::new(center, Color::Blue, Texture::Ball, BallType::Clone),
        ),
        BlockType::Special => Some(
            BallBundle::new(center, Color::Pink, Texture::Ball, BallType::Special),
        ),
        _ => None,
    }
}

/// The block system: tints every block by its damage and destroys those
/// without lives, which grants their bounty and sets free the balls of
/// cloners and special blocks.
pub fn system(world: &mut World)
    ensures
        exists|dxs: Seq<int>|
            directions(dxs, old(world)@.entities.len() as int) && final(world)@ == block_pass(
                old(world)@,
                dxs,
                old(world)@.entities.len() as int,
            ),
{
    let n: usize = world.entities.slot_count();
    let ghost mut dxs: Seq<int> = Seq::empty();
    let mut i: usize = 0;
    while i < n
        invariant
            i <= n,
            n == world@.entities.len(),
            n == old(world)@.entities.len(),
            directions(dxs, i as int),
            world@ == block_pass(old(world)@, dxs, i as int),
        decreases n - i,
    {
        let ghost before = world@;
        let ghost mut dx: int = 1;
        let found = match world.entities.fields_at(i) {
            Some(f) => match (f.position, f.lives, f.color, f.bounty, f.tags) {
                (Some(p), Some(l), Some(c), Some(b), Some(Tags::Block(s))) => Some((p, l, c, b, s)),
                _ => None,
            },
            None => None,
        };
        match (found, world.entities.entity_at(i)) {
            (Some((p, l, c, b, s)), Some(e)) => {
                if l.0 <= 0 {
                    match release(s, p.0) {
                        Some(ball) => {
                            proof {
                                dx = if Some(ball) == released(s, p.0, 1) {
                                    1
                                } else {
                                    -1
                                };
                            }
                            world.commands.push(Command::AddBall(AddBall(ball)));
                        },
                        None => {},
                    }
                    world.commands.push(Command::Despawn(e));
                    world.score = Score(saturate32(world.score.0 as i64 + b.0 as i64));
                } else {
                    world.entities.set_color(e, ColorComponent(damage_tint(s, l.0, c.0)));
                    assert(world@.entities =~= block_step(before, i as int, dx).entities);
                }
            },
            _ => {},
        }
        assert(world@ == block_step(before, i as int, dx));
        proof {
            lemma_block_pass_agrees(old(world)@, dxs, dxs.push(dx), i as int);
            dxs = dxs.push(dx);
        }
        i += 1;
    }
}

/// A block without lives pays its bounty and goes: the block system adds the
/// bounty to the score, saturating, and asks last for the block to be
/// despawned; and once that is carried out the block lives no more.
pub proof fn lemma_destroyed_block_pays_and_goes(w: WorldView, i: int, dx: int)
    requires
        0 <= i < w.entities.len() <= usize::MAX,
        w.entities[i].fields is Some,
        is_block(w.entities[i].fields.unwrap()),
        w.entities[i].fields.unwrap().lives.unwrap().0 <= 0,
    ensures
        block_step(w, i, dx).score.0 == clamp32(
            w.score.0 + w.entities[i].fields.unwrap().bounty.unwrap().0,
        ),
        block_step(w, i, dx).commands.last() == Command::Despawn(handle(w.entities, i)),
        live(w.entities, handle(w.entities, i)),
        !live(despawned(w.entities, handle(w.entities, i)), handle(w.entities, i)),
{
}

} // verus!
