use vstd::prelude::*;
use crate::component::resource::{ColliderResource, Input, Score, Time};
use crate::component::trigger::{applied, Command};
use crate::component::Sound;
use crate::game::States;
use crate::geometry::Rect;
use crate::store::{Entities, Entity, SlotView};
use crate::system::draw::DrawSprite;
use crate::system::text::{views, DrawText, DrawTextView};

verus! {

/// The game world: the entities, the changes to them that are waiting to be
/// carried out, and the state that all systems share.
#[derive(Debug)]
pub struct World {
    pub entities: Entities,
    pub commands: Vec<Command>,
    pub score: Score,
    pub time: Time,
    pub state: States,
    pub colliders: ColliderResource,
    pub input: Input,
    pub sounds: Vec<Sound>,
    pub texts: Vec<DrawText>,
    pub sprites: Vec<DrawSprite>,
}

/// The game world, as a value.
pub struct WorldView {
    pub entities: Seq<SlotView>,
    pub commands: Seq<Command>,
    pub score: Score,
    pub time: Time,
    pub state: States,
    pub colliders: Seq<(Entity, Rect)>,
    pub input: Input,
    pub sounds: Seq<Sound>,
    pub texts: Seq<DrawTextView>,
    pub sprites: Seq<DrawSprite>,
}

impl View for World {
    type V = WorldView;

    open spec fn view(&self) -> WorldView {
        WorldView {
            entities: self.entities@,
            commands: self.commands@,
            score: self.score,
            time: self.time,
            state: self.state,
            colliders: self.colliders.0@,
            input: self.input,
            sounds: self.sounds@,
            texts: views(self.texts@),
            sprites: self.sprites@,
        }
    }
}

/// Whether `dxs` holds `n` horizontal directions: each is left or right.
pub open spec fn directions(dxs: Seq<int>, n: int) -> bool {
    dxs.len() == n && forall|i: int| 0 <= i < n ==> #[trigger] dxs[i] == 1 || dxs[i] == -1
}

/// The store after the first `n` of the commands were carried out in order,
/// the replacement ball of command `i` setting off in direction `dxs[i]`.
pub open spec fn applied_all(s: Seq<SlotView>, commands: Seq<Command>, dxs: Seq<int>, n: int) -> Seq<
    SlotView,
>
    decreases n,
{
    if n <= 0 {
        s
    } else {
        applied(applied_all(s, commands, dxs, n - 1), commands[n - 1], dxs[n - 1])
    }
}

/// Whether `post` is `pre` after the waiting commands were carried out in
/// the order in which they were asked for: each replacement ball has set off
/// to the left or to the right, and the queue is empty.
pub open spec fn flushed(pre: WorldView, post: WorldView) -> bool {
    exists|dxs: Seq<int>|
        directions(dxs, pre.commands.len() as int) && post == (WorldView {
            entities: #[trigger] applied_all(
                pre.entities,
                pre.commands,
                dxs,
                pre.commands.len() as int,
            ),
            commands: Seq::empty(),
            ..pre
        })
}

/// Carrying out the first `n` commands depends on the first `n` directions
/// only.
pub proof fn lemma_applied_all_agrees(
    s: Seq<SlotView>,
    commands: Seq<Command>,
    a: Seq<int>,
    b: Seq<int>,
    n: int,
)
    requires
        forall|i: int| 0 <= i < n ==> a[i] == b[i],
    ensures
        applied_all(s, commands, a, n) == applied_all(s, commands, b, n),
    decreases n,
{
    if n > 0 {
        lemma_applied_all_agrees(s, commands, a, b, n - 1);
    }
}

/// The world without a past: no entity, no score, the state of a game about
/// to begin.
pub open spec fn fresh() -> WorldView {
    WorldView {
        entities: Seq::empty(),
        commands: Seq::empty(),
        score: Score(0),
        time: Time(0),
        state: States::Reviving,
        colliders: Seq::empty(),
        input: Input { left: false, right: false, pause: false, confirm: false },
        sounds: Seq::empty(),
        texts: Seq::empty(),
        sprites: Seq::empty(),
    }
}

impl World {
    /// An empty world in the state `Reviving`, from which the first frame
    /// sets the game up.
    pub fn new() -> (w: World)
        ensures
            w@ == fresh(),
    {
        let w = World {
            entities: Entities::new(),
            commands: Vec::new(),
            score: Score(0),
            time: Time(0),
            state: States::Reviving,
            colliders: ColliderResource(Vec::new()),
            input: Input { left: false, right: false, pause: false, confirm: false },
            sounds: Vec::new(),
            texts: Vec::new(),
            sprites: Vec::new(),
        };
        assert(w@.texts =~= Seq::<DrawTextView>::empty());
        w
    }

    /// Carries out the waiting commands in the order in which they were
    /// asked for, and empties the queue. Where a replacement ball is
    /// spawned, the generator decides its horizontal direction.
    pub fn flush(&mut self)
        ensures
            flushed(old(self)@, final(self)@),
    {
        let n: usize = self.commands.len();
        let ghost mut dxs: Seq<int> = Seq::empty();
        let mut i: usize = 0;
        while i < n
            invariant
                n == self.commands@.len(),
                i <= n,
                directions(dxs, i as int),
                self@ == (WorldView {
                    entities: applied_all(old(self)@.entities, old(self)@.commands, dxs, i as int),
                    ..old(self)@
                }),
            decreases n - i,
        {
            let command = self.commands[i];
            let ghost before = self.entities@;
            command.write(&mut self.entities);
            proof {
                let d: int = if self.entities@ == applied(before, command, 1) {
                    1
                } else {
                    -1
                };
                lemma_applied_all_agrees(
                    old(self)@.entities,
                    old(self)@.commands,
                    dxs,
                    dxs.push(d),
                    i as int,
                );
                dxs = dxs.push(d);
            }
            i += 1;
        }
        self.commands.clear();
        proof {
            assert(self@.commands =~= Seq::<Command>::empty());
        }
    }
}

} // verus!
