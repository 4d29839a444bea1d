use vstd::prelude::*;
use crate::component::resource::{Input, Time};
use crate::component::trigger::{AddBall, Command, HEADLINE_Y, TEXT_SIZE};
use crate::component::{
    BallBundle, BallType, Color, ColorComponent, FontComponent, LivesTag, PlayerBundle, Position,
    ScoreTag, TextBundle, TextBundleView, TextScoreBundle, TextScoreBundleView, TextView, Texture,
};
use crate::geometry::{Vec2, UNIT};
use crate::store::{spawned, FieldsView, SlotView};
use crate::system::ball::ball_pass;
use crate::system::block::{block_pass, grid_laid, percentages, GRID_CELLS};
use crate::system::colliders::{cleared, collision_pass, static_colliders};
use crate::system::draw::sprites;
use crate::system::pause::toggled;
use crate::system::player::player_pass;
use crate::system::text::{
    decimal, game_over_handled, player_lives, relabelled_all, texts, Label,
};
use crate::system::{ball, block, colliders, draw, pause, player, text};
use crate::world::{directions, flushed, fresh, WorldView};
use vstd::string::*;

verus! {

/// Width of the playfield.
pub const WIDTH: i64 = 800 * UNIT;

/// Height of the playfield.
pub const HEIGHT: i64 = 560 * UNIT;

/// Where the ball of a new game appears.
pub const START_X: i64 = 180 * UNIT;

/// Where the ball of a new game appears.
pub const START_Y: i64 = 480 * UNIT;

/// The mode that the game is in.
#[derive(Clone, Copy, Debug, PartialEq, Eq, Structural)]
pub enum States {
    Playing,
    GameOver,
    Restarting,
    Reviving,
    Paused,
}

/// The phases of a frame, in the order in which they run.
#[derive(Clone, Copy, Debug, PartialEq, Eq, Structural)]
pub enum Stages {
    Init,
    PreUpdate,
    Update,
    PostUpdate,
    PreDraw,
    Draw,
    PostDraw,
}

/// What a run condition decides for its stage.
#[derive(Clone, Copy, Debug, PartialEq, Eq, Structural)]
pub enum ShouldRun {
    Yes,
    No,
}

/// The world after the run condition of the first stage was evaluated: a
/// game that is `Reviving` asks for its ball, which is white and original
/// and sets off in the horizontal direction `dx`.
pub open spec fn revived(w: WorldView, dx: int) -> WorldView {
    if w.state == States::Reviving {
        WorldView {
            commands: w.commands.push(
                Command::AddBall(
                    AddBall(
                        BallBundle::launched(
                            Vec2 { x: START_X, y: START_Y },
                            Color::White,
                            Texture::Ball,
                            BallType::Original,
                            dx,
                        ),
                    ),
                ),
            ),
            ..w
        }
    } else {
        w
    }
}

/// Whether the board is to be set up in this state: when the round restarts
/// and when the game is revived.
pub open spec fn sets_up(state: States) -> bool {
    state == States::Restarting || state == States::Reviving
}

/// The run condition of the first stage: the stage runs when the round
/// restarts or the game is revived. A game that is revived also asks for its
/// ball, whose horizontal direction the generator decides.
pub fn restart(world: &mut crate::world::World) -> (r: ShouldRun)
    ensures
        r == if sets_up(old(world)@.state) {
            ShouldRun::Yes
        } else {
            ShouldRun::No
        },
        final(world)@ == revived(old(world)@, 1) || final(world)@ == revived(old(world)@, -1),
{
    match world.state {
        States::Restarting => ShouldRun::Yes,
        States::Reviving => {
            let ball = BallBundle::new(
                Vec2 { x: START_X, y: START_Y },
                Color::White,
                Texture::Ball,
                BallType::Original,
            );
            world.commands.push(Command::AddBall(AddBall(ball)));
            ShouldRun::Yes
        },
        _ => ShouldRun::No,
    }
}

/// The run condition of the stages of play: they run while the game is
/// `Playing`.
pub fn is_playing(world: &crate::world::World) -> (r: ShouldRun)
    ensures
        r == if world@.state == States::Playing {
            ShouldRun::Yes
        } else {
            ShouldRun::No
        },
{
    match world.state {
        States::Playing => ShouldRun::Yes,
        _ => ShouldRun::No,
    }
}

/// The systems of the game.
#[derive(Clone, Copy, Debug, PartialEq, Eq, Structural)]
pub enum System {
    BlockInit,
    QueryAllColliders,
    Ball,
    Player,
    Block,
    Collision,
    LivesText,
    ScoreText,
    GameOver,
    Pause,
    PreDraw,
    Text,
    Draw,
}

/// The run conditions that a stage can have.
#[derive(Clone, Copy, Debug, PartialEq, Eq, Structural)]
pub enum RunCriteria {
    Restart,
    IsPlaying,
}

/// Whether `post` is a world that `system` can leave when it runs on `pre`.
/// Only the systems that ask the generator leave more than one.
pub open spec fn system_ran(system: System, pre: WorldView, post: WorldView) -> bool {
    let n = pre.entities.len() as int;
    match system {
        System::BlockInit => exists|rolls: Seq<int>|
            percentages(rolls, GRID_CELLS as int) && post == #[trigger] grid_laid(pre, rolls),
        System::QueryAllColliders => post == (WorldView {
            colliders: static_colliders(pre.entities, n),
            ..pre
        }),
        System::Ball => post == ball_pass(pre, n, pre.score),
        System::Player => post == player_pass(pre, n),
        System::Block => exists|dxs: Seq<int>|
            directions(dxs, n) && post == #[trigger] block_pass(pre, dxs, n),
        System::Collision => post == collision_pass(cleared(pre), n),
        System::LivesText => post == match player_lives(pre.entities) {
            Some(lives) => WorldView {
                entities: relabelled_all(pre.entities, Label::Lives, "Lives: "@ + decimal(lives)),
                ..pre
            },
            None => pre,
        },
        System::ScoreText => post == (WorldView {
            entities: relabelled_all(
                pre.entities,
                Label::Score,
                "Score: "@ + decimal(pre.score.0 as int),
            ),
            ..pre
        }),
        System::GameOver => post == game_over_handled(pre),
        System::Pause => post == (WorldView {
            state: if pre.input.pause {
                toggled(pre.state)
            } else {
                pre.state
            },
            ..pre
        }),
        System::PreDraw => post == (WorldView { texts: Seq::empty(), sprites: Seq::empty(), ..pre }),
        System::Text => post == (WorldView { texts: pre.texts + texts(pre.entities, n), ..pre }),
        System::Draw => post == (WorldView {
            sprites: pre.sprites + sprites(pre.entities, n),
            ..pre
        }),
    }
}

impl System {
    /// Runs the system on the world.
    pub fn run(self, world: &mut crate::world::World)
        ensures
            system_ran(self, old(world)@, final(world)@),
    {
        match self {
            System::BlockInit => block::init_system(world),
            System::QueryAllColliders => colliders::query_all_colliders(world),
            System::Ball => ball::system(world),
            System::Player => player::system(world),
            System::Block => block::system(world),
            System::Collision => colliders::system(world),
            System::LivesText => text::lives_system(world),
            System::ScoreText => text::score_system(world),
            System::GameOver => text::gameover_system(world),
            System::Pause => pause::system(world),
            System::PreDraw => draw::pre_system(world),
            System::Text => text::system(world),
            System::Draw => draw::system(world),
        }
    }
}

/// Whether a stage with the run condition `criteria` runs in the world
/// `pre`. A stage without a run condition always runs.
pub open spec fn runs(criteria: Option<RunCriteria>, pre: WorldView) -> bool {
    match criteria {
        None => true,
        Some(RunCriteria::Restart) => sets_up(pre.state),
        Some(RunCriteria::IsPlaying) => pre.state == States::Playing,
    }
}

/// Whether `post` is a world that the evaluation of `criteria` can leave of
/// `pre`. Only `Restart` changes the world: what it asks for is carried out
/// at once.
pub open spec fn criteria_ran(criteria: Option<RunCriteria>, pre: WorldView, post: WorldView) -> bool {
    match criteria {
        Some(RunCriteria::Restart) => flushed(revived(pre, 1), post) || flushed(
            revived(pre, -1),
            post,
        ),
        _ => post == pre,
    }
}

impl RunCriteria {
    /// Evaluates the run condition and carries out what it asks for.
    pub fn should_run(self, world: &mut crate::world::World) -> (r: ShouldRun)
        ensures
            r == if runs(Some(self), old(world)@) {
                ShouldRun::Yes
            } else {
                ShouldRun::No
            },
            criteria_ran(Some(self), old(world)@, final(world)@),
    {
        match self {
            RunCriteria::Restart => {
                let r = restart(world);
                world.flush();
                r
            },
            RunCriteria::IsPlaying => is_playing(world),
        }
    }
}

/// Whether system `i` of `systems` can lead from world `i` of `trace` to the
/// next.
pub open spec fn system_follows(systems: Seq<System>, trace: Seq<WorldView>, i: int) -> bool {
    system_ran(systems[i], trace[i], trace[i + 1])
}

/// Whether `post` is a world that `systems`, run in order, can leave of
/// `pre`: there are worlds in between, one after each system, that lead from
/// the one to the other.
pub open spec fn systems_ran(systems: Seq<System>, pre: WorldView, post: WorldView) -> bool {
    exists|trace: Seq<WorldView>|
        trace.len() == systems.len() + 1 && trace[0] == pre && trace[systems.len() as int] == post
            && forall|i: int| 0 <= i < systems.len() ==> #[trigger] system_follows(systems, trace, i)
}

/// A stage: its name, its run condition if it has one, and its systems in
/// the order in which they run.
#[derive(Debug)]
pub struct Stage {
    pub label: Stages,
    pub criteria: Option<RunCriteria>,
    pub systems: Vec<System>,
}

/// A stage, as a value.
pub struct StageView {
    pub label: Stages,
    pub criteria: Option<RunCriteria>,
    pub systems: Seq<System>,
}

impl View for Stage {
    type V = StageView;

    open spec fn view(&self) -> StageView {
        StageView { label: self.label, criteria: self.criteria, systems: self.systems@ }
    }
}

/// Whether `post` is a world that `stage` can leave of `pre`. The run
/// condition is evaluated first. If it lets the stage run, the systems run in
/// order and then the commands that they asked for are carried out; no
/// system of the stage sees the effect of a command of the same stage.
pub open spec fn stage_ran(stage: StageView, pre: WorldView, post: WorldView) -> bool {
    exists|checked: WorldView| #[trigger]
        criteria_ran(stage.criteria, pre, checked) && if runs(stage.criteria, pre) {
            exists|done: WorldView| #[trigger]
                systems_ran(stage.systems, checked, done) && flushed(done, post)
        } else {
            post == checked
        }
}

impl Stage {
    /// Runs the stage on the world.
    pub fn run(&self, world: &mut crate::world::World)
        ensures
            stage_ran(self@, old(world)@, final(world)@),
    {
        let decision = match self.criteria {
            Some(c) => c.should_run(world),
            None => ShouldRun::Yes,
        };
        let ghost checked = world@;
        match decision {
            ShouldRun::Yes => {
                let n: usize = self.systems.len();
                let ghost mut trace: Seq<WorldView> = seq![checked];
                let mut i: usize = 0;
                while i < n
                    invariant
                        i <= n,
                        n == self.systems@.len(),
                        trace.len() == i + 1,
                        trace[0] == checked,
                        trace[i as int] == world@,
                        forall|j: int|
                            0 <= j < i ==> #[trigger] system_follows(self.systems@, trace, j),
                    decreases n - i,
                {
                    self.systems[i].run(world);
                    proof {
                        let next = trace.push(world@);
                        assert forall|j: int| 0 <= j < i + 1 implies #[trigger] system_follows(
                            self.systems@,
                            next,
                            j,
                        ) by {
                            if j < i {
                                assert(system_follows(self.systems@, trace, j));
                            }
                        }
                        trace = next;
                    }
                    i += 1;
                }
                let ghost done = world@;
                world.flush();
                assert(systems_ran(self@.systems, checked, done) && flushed(done, world@));
            },
            ShouldRun::No => {},
        }
        assert(criteria_ran(self@.criteria, old(world)@, checked));
    }
}

/// The stages of a frame in the order in which they run.
#[derive(Debug)]
pub struct Schedule {
    pub stages: Vec<Stage>,
}

impl View for Schedule {
    type V = Seq<StageView>;

    open spec fn view(&self) -> Seq<StageView> {
        Seq::new(self.stages@.len(), |i: int| self.stages@[i]@)
    }
}

/// Whether stage `i` of `stages` can lead from world `i` of `trace` to the
/// next.
pub open spec fn stage_follows(stages: Seq<StageView>, trace: Seq<WorldView>, i: int) -> bool {
    stage_ran(stages[i], trace[i], trace[i + 1])
}

/// Whether `post` is a world that `stages`, run in order, can leave of
/// `pre`: there are worlds in between, one after each stage, that lead from
/// the one to the other. Each stage sees all that the stages before it did.
pub open spec fn schedule_ran(stages: Seq<StageView>, pre: WorldView, post: WorldView) -> bool {
    exists|trace: Seq<WorldView>|
        trace.len() == stages.len() + 1 && trace[0] == pre && trace[stages.len() as int] == post
            && forall|i: int| 0 <= i < stages.len() ==> #[trigger] stage_follows(stages, trace, i)
}

impl Schedule {
    /// A schedule without stages.
    pub fn new() -> (s: Schedule)
        ensures
            s@ == Seq::<StageView>::empty(),
    {
        let s = Schedule { stages: Vec::new() };
        assert(s@ =~= Seq::<StageView>::empty());
        s
    }

    /// Adds a stage after the stages that the schedule has.
    pub fn add_stage(&mut self, label: Stages, criteria: Option<RunCriteria>, systems: Vec<System>)
        ensures
            final(self)@ == old(self)@.push(StageView { label, criteria, systems: systems@ }),
    {
        self.stages.push(Stage { label, criteria, systems });
        assert(self@ =~= old(self)@.push(StageView { label, criteria, systems: systems@ }));
    }

    /// Runs the stages in order on the world.
    pub fn run(&self, world: &mut crate::world::World)
        ensures
            schedule_ran(self@, old(world)@, final(world)@),
    {
        let n: usize = self.stages.len();
        let ghost mut trace: Seq<WorldView> = seq![world@];
        let mut i: usize = 0;
        while i < n
            invariant
                i <= n,
                n == self.stages@.len(),
                n == self@.len(),
                trace.len() == i + 1,
                trace[0] == old(world)@,
                trace[i as int] == world@,
                forall|j: int| 0 <= j < i ==> #[trigger] stage_follows(self@, trace, j),
            decreases n - i,
        {
            self.stages[i].run(world);
            proof {
                let next = trace.push(world@);
                assert forall|j: int| 0 <= j < i + 1 implies #[trigger] stage_follows(
                    self@,
                    next,
                    j,
                ) by {
                    if j < i {
                        assert(stage_follows(self@, trace, j));
                    }
                }
                trace = next;
            }
            i += 1;
        }
    }
}

/// Horizontal position of the text that shows the score.
pub const SCORE_X: i64 = 25 * UNIT;

/// Horizontal position of the text that shows the lives: five sixths of the
/// width of the playfield.
pub const LIVES_X: i64 = 21_333_333_333;

/// Where the paddle starts.
pub const PLAYER_X: i64 = 120 * UNIT;

/// Where the paddle starts.
pub const PLAYER_Y: i64 = 500 * UNIT;

/// The stages of the game. The board is set up when a round begins. The
/// stages of play run while the game is `Playing`: the snapshot of the
/// colliders, then the balls, the paddle and the blocks, then the
/// collisions. The texts, the end of the game and the pause are looked after
/// in every frame, and so is the drawing.
pub open spec fn game_stages() -> Seq<StageView> {
    seq![
        StageView {
            label: Stages::Init,
            criteria: Some(RunCriteria::Restart),
            systems: seq![System::BlockInit],
        },
        StageView {
            label: Stages::PreUpdate,
            criteria: Some(RunCriteria::IsPlaying),
            systems: seq![System::QueryAllColliders],
        },
        StageView {
            label: Stages::Update,
            criteria: Some(RunCriteria::IsPlaying),
            systems: seq![System::Ball, System::Player, System::Block],
        },
        StageView {
            label: Stages::PostUpdate,
            criteria: Some(RunCriteria::IsPlaying),
            systems: seq![System::Collision],
        },
        StageView {
            label: Stages::Update,
            criteria: None,
            systems: seq![System::LivesText, System::ScoreText, System::GameOver, System::Pause],
        },
        StageView { label: Stages::PreDraw, criteria: None, systems: seq![System::PreDraw] },
        StageView { label: Stages::Draw, criteria: None, systems: seq![System::Text, System::Draw] },
        StageView { label: Stages::PostDraw, criteria: None, systems: Seq::empty() },
    ]
}

/// The fields of a text at the top of the screen: white, not centered.
pub open spec fn headline(content: Seq<char>, x: i64) -> TextBundleView {
    TextBundleView {
        text: TextView { text: content, center: false },
        rect: Position(Vec2 { x, y: HEADLINE_Y }),
        color: ColorComponent(Color::White),
        font: FontComponent { size: TEXT_SIZE },
    }
}

/// The store after the entities that last for the whole game were spawned:
/// the text of the score, the text of the lives, and the paddle.
pub open spec fn cast(s: Seq<SlotView>) -> Seq<SlotView> {
    spawned(
        spawned(
            spawned(
                s,
                (TextScoreBundleView {
                    tag: ScoreTag,
                    text_bundle: headline("Score"@, SCORE_X),
                }).fields(),
            ),
            FieldsView { lives_tag: Some(LivesTag), ..headline("Lives"@, LIVES_X).fields() },
        ),
        PlayerBundle::spec_new(
            Vec2 { x: PLAYER_X, y: PLAYER_Y },
            Color::White,
            Texture::Player,
        ).spec_fields(),
    )
}

/// What runs a game: it is started once and then advanced frame by frame.
pub trait World {
    /// Sets the game up.
    fn start(&mut self);

    /// Advances the game by one frame, in which `delta` ticks have passed
    /// and the player has done what `input` says.
    fn update(&mut self, input: Input, delta: u32);
}

/// A game: its world and the schedule that advances it.
#[derive(Debug)]
pub struct WorldScene {
    pub world: crate::world::World,
    pub schedule: Schedule,
}

impl WorldScene {
    /// A game that has not started: an empty world and an empty schedule.
    pub fn new() -> (g: WorldScene)
        ensures
            g.world@ == fresh(),
            g.schedule@ == Seq::<StageView>::empty(),
    {
        WorldScene { world: crate::world::World::new(), schedule: Schedule::new() }
    }

    /// The world at the beginning of a frame: the elapsed time and the input
    /// are those of the frame, and no sound has been asked for.
    pub open spec fn frame_begun(w: WorldView, input: Input, delta: u32) -> WorldView {
        WorldView { time: Time(delta), input, sounds: Seq::empty(), ..w }
    }
}

impl World for WorldScene {
    /// Starts the game: gives the schedule the stages of the game and spawns
    /// the texts and the paddle.
    fn start(&mut self)
        ensures
            final(self).schedule@ == old(self).schedule@ + game_stages(),
            final(self).world@ == (WorldView {
                entities: cast(old(self).world@.entities),
                ..old(self).world@
            }),
    {
        let ghost before = self.schedule@;
        let ghost stages = game_stages();
        let init = vec![System::BlockInit];
        assert(init@ =~= stages[0].systems);
        self.schedule.add_stage(Stages::Init, Some(RunCriteria::Restart), init);
        let pre_update = vec![System::QueryAllColliders];
        assert(pre_update@ =~= stages[1].systems);
        self.schedule.add_stage(Stages::PreUpdate, Some(RunCriteria::IsPlaying), pre_update);
        let update = vec![System::Ball, System::Player, System::Block];
        assert(update@ =~= stages[2].systems);
        self.schedule.add_stage(Stages::Update, Some(RunCriteria::IsPlaying), update);
        let post_update = vec![System::Collision];
        assert(post_update@ =~= stages[3].systems);
        self.schedule.add_stage(Stages::PostUpdate, Some(RunCriteria::IsPlaying), post_update);
        let always = vec![System::LivesText, System::ScoreText, System::GameOver, System::Pause];
        assert(always@ =~= stages[4].systems);
        self.schedule.add_stage(Stages::Update, None, always);
        let pre_draw = vec![System::PreDraw];
        assert(pre_draw@ =~= stages[5].systems);
        self.schedule.add_stage(Stages::PreDraw, None, pre_draw);
        let draw = vec![System::Text, System::Draw];
        assert(draw@ =~= stages[6].systems);
        self.schedule.add_stage(Stages::Draw, None, draw);
        let post_draw: Vec<System> = Vec::new();
        assert(post_draw@ =~= stages[7].systems);
        self.schedule.add_stage(Stages::PostDraw, None, post_draw);
        assert(self.schedule@ =~= before + stages);

        let score = TextScoreBundle::new(
            String::from_str("Score"),
            false,
            Vec2 { x: SCORE_X, y: HEADLINE_Y },
            Color::White,
            TEXT_SIZE,
        );
        self.world.entities.spawn(score.fields());
        let mut lives = TextBundle::new(
            String::from_str("Lives"),
            false,
            Vec2 { x: LIVES_X, y: HEADLINE_Y },
            Color::White,
            TEXT_SIZE,
        ).fields();
        lives.lives_tag = Some(LivesTag);
        self.world.entities.spawn(lives);
        let player = PlayerBundle::new(
            Vec2 { x: PLAYER_X, y: PLAYER_Y },
            Color::White,
            Texture::Player,
        );
        self.world.entities.spawn(player.fields());
    }

    /// Advances the game by one frame: `delta` ticks have passed and the
    /// player has done what `input` says. The stages run in order on the
    /// world. Afterwards the world holds what is to be drawn and the sounds
    /// that are to be played.
    fn update(&mut self, input: Input, delta: u32)
        ensures
            final(self).schedule@ == old(self).schedule@,
            schedule_ran(
                old(self).schedule@,
                WorldScene::frame_begun(old(self).world@, input, delta),
                final(self).world@,
            ),
    {
        self.world.time = Time(delta);
        self.world.input = input;
        self.world.sounds.clear();
        self.schedule.run(&mut self.world);
    }
}

} // verus!
