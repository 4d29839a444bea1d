use vstd::prelude::*;
use crate::component::{
    Aabb, Bounty, ColorComponent, FontComponent, GameOverTag, Lives, LivesTag, Position, ScoreTag,
    Tags, Text, TextView, TextureComponent, Velocity,
};

verus! {

/// The handle of an entity: the slot it lives in and the generation of that
/// slot when it was spawned. A handle stays valid until its entity is
/// despawned, and never becomes valid again.
#[derive(Clone, Copy, Debug, PartialEq, Eq, Structural)]
pub struct Entity {
    pub index: usize,
    pub generation: u64,
}

/// The fields attached to one entity. Any subset may be present.
#[derive(Debug)]
pub struct Fields {
    pub position: Option<Position>,
    pub velocity: Option<Velocity>,
    pub aabb: Option<Aabb>,
    pub texture: Option<TextureComponent>,
    pub color: Option<ColorComponent>,
    pub lives: Option<Lives>,
    pub bounty: Option<Bounty>,
    pub tags: Option<Tags>,
    pub text: Option<Text>,
    pub font: Option<FontComponent>,
    pub score_tag: Option<ScoreTag>,
    pub game_over_tag: Option<GameOverTag>,
    pub lives_tag: Option<LivesTag>,
}

/// The fields of one entity, as a value.
pub struct FieldsView {
    pub position: Option<Position>,
    pub velocity: Option<Velocity>,
    pub aabb: Option<Aabb>,
    pub texture: Option<TextureComponent>,
    pub color: Option<ColorComponent>,
    pub lives: Option<Lives>,
    pub bounty: Option<Bounty>,
    pub tags: Option<Tags>,
    pub text: Option<TextView>,
    pub font: Option<FontComponent>,
    pub score_tag: Option<ScoreTag>,
    pub game_over_tag: Option<GameOverTag>,
    pub lives_tag: Option<LivesTag>,
}

/// An entity with no field at all.
pub open spec fn no_fields() -> FieldsView {
    FieldsView {
        position: None,
        velocity: None,
        aabb: None,
        texture: None,
        color: None,
        lives: None,
        bounty: None,
        tags: None,
        text: None,
        font: None,
        score_tag: None,
        game_over_tag: None,
        lives_tag: None,
    }
}

impl View for Fields {
    type V = FieldsView;

    open spec fn view(&self) -> FieldsView {
        FieldsView {
            position: self.position,
            velocity: self.velocity,
            aabb: self.aabb,
            texture: self.texture,
            color: self.color,
            lives: self.lives,
            bounty: self.bounty,
            tags: self.tags,
            text: match self.text {
                Some(t) => Some(t@),
                None => None,
            },
            font: self.font,
            score_tag: self.score_tag,
            game_over_tag: self.game_over_tag,
            lives_tag: self.lives_tag,
        }
    }
}

impl Fields {
    /// The empty set of fields.
    pub fn new() -> (f: Fields)
        ensures
            f@ == no_fields(),
    {
        Fields {
            position: None,
            velocity: None,
            aabb: None,
            texture: None,
            color: None,
            lives: None,
            bounty: None,
            tags: None,
            text: None,
            font: None,
            score_tag: None,
            game_over_tag: None,
            lives_tag: None,
        }
    }

    /// A copy of these fields.
    pub fn duplicate(&self) -> (f: Fields)
        ensures
            f@ == self@,
    {
        let text = match &self.text {
            Some(t) => Some(t.duplicate()),
            None => None,
        };
        Fields {
            position: self.position,
            velocity: self.velocity,
            aabb: self.aabb,
            texture: self.texture,
            color: self.color,
            lives: self.lives,
            bounty: self.bounty,
            tags: self.tags,
            text,
            font: self.font,
            score_tag: self.score_tag,
            game_over_tag: self.game_over_tag,
            lives_tag: self.lives_tag,
        }
    }
}

/// One slot of the store: the generation it has reached and, while an entity
/// lives in it, that entity's fields.
#[derive(Debug)]
pub struct Slot {
    pub generation: u64,
    pub fields: Option<Fields>,
}

/// One slot of the store, as a value.
pub struct SlotView {
    pub generation: u64,
    pub fields: Option<FieldsView>,
}

impl View for Slot {
    type V = SlotView;

    open spec fn view(&self) -> SlotView {
        SlotView {
            generation: self.generation,
            fields: match self.fields {
                Some(f) => Some(f@),
                None => None,
            },
        }
    }
}

/// Whether `e` names an entity that lives in `s`.
pub open spec fn live(s: Seq<SlotView>, e: Entity) -> bool {
    e.index < s.len() && s[e.index as int].generation == e.generation
        && s[e.index as int].fields is Some
}

/// Whether `e` was given out by `s` at some time and its entity is gone: the
/// slot has moved on to a later generation, or has been retired for good.
pub open spec fn spent(s: Seq<SlotView>, e: Entity) -> bool {
    e.index < s.len() && (e.generation < s[e.index as int].generation || (s[e.index as int].fields is None
        && s[e.index as int].generation == u64::MAX))
}

/// Whether a slot can take a new entity: it is empty and has generations left.
pub open spec fn reusable(slot: SlotView) -> bool {
    slot.fields is None && slot.generation < u64::MAX
}

/// The first slot at or after `from` that can take a new entity, or the
/// number of slots if there is none.
pub open spec fn first_free(s: Seq<SlotView>, from: int) -> int
    decreases s.len() - from,
{
    if from < 0 || from >= s.len() {
        s.len() as int
    } else if reusable(s[from]) {
        from
    } else {
        first_free(s, from + 1)
    }
}

/// The first free slot at or after `from` lies at or after `from`, can take
/// a new entity if it lies within the store, and no slot between can.
pub proof fn lemma_first_free(s: Seq<SlotView>, from: int)
    requires
        0 <= from <= s.len(),
    ensures
        from <= first_free(s, from) <= s.len(),
        first_free(s, from) < s.len() ==> reusable(s[first_free(s, from)]),
        forall|j: int| from <= j < first_free(s, from) ==> !reusable(#[trigger] s[j]),
    decreases s.len() - from,
{
    if from < s.len() && !reusable(s[from]) {
        lemma_first_free(s, from + 1);
    }
}

/// The handle of the entity in slot `i`.
pub open spec fn handle(s: Seq<SlotView>, i: int) -> Entity {
    Entity { index: i as usize, generation: s[i].generation }
}

/// The store after an entity with fields `f` was spawned: it takes the first
/// reusable slot, keeping that slot's generation, or a new slot at the end.
pub open spec fn spawned(s: Seq<SlotView>, f: FieldsView) -> Seq<SlotView> {
    let k = first_free(s, 0);
    if k < s.len() {
        s.update(k, SlotView { generation: s[k].generation, fields: Some(f) })
    } else {
        s.push(SlotView { generation: 0, fields: Some(f) })
    }
}

/// The store after `e` was despawned: its slot is emptied and moves to the
/// next generation. A handle that names no living entity changes nothing.
pub open spec fn despawned(s: Seq<SlotView>, e: Entity) -> Seq<SlotView> {
    if live(s, e) {
        s.update(
            e.index as int,
            SlotView {
                generation: if e.generation < u64::MAX {
                    (e.generation + 1) as u64
                } else {
                    e.generation
                },
                fields: None,
            },
        )
    } else {
        s
    }
}

/// The store after the fields of `e` were replaced by `f`. A handle that
/// names no living entity changes nothing.
pub open spec fn replaced(s: Seq<SlotView>, e: Entity, f: FieldsView) -> Seq<SlotView> {
    if live(s, e) {
        s.update(e.index as int, SlotView { generation: e.generation, fields: Some(f) })
    } else {
        s
    }
}

/// The fields of the living entity `e`.
pub open spec fn fields_of(s: Seq<SlotView>, e: Entity) -> FieldsView
    recommends
        live(s, e),
{
    s[e.index as int].fields.unwrap()
}

/// A handle whose entity is gone never names an entity again: whatever is
/// spawned, despawned or replaced, a spent handle stays spent and names
/// nothing.
pub proof fn lemma_spent_stays_spent(s: Seq<SlotView>, e: Entity, other: Entity, f: FieldsView)
    requires
        spent(s, e),
    ensures
        !live(s, e),
        spent(spawned(s, f), e) && !live(spawned(s, f), e),
        spent(despawned(s, other), e) && !live(despawned(s, other), e),
        spent(replaced(s, other, f), e) && !live(replaced(s, other, f), e),
{
    lemma_first_free(s, 0);
}

/// Despawning spends the handle: the entity is gone and its handle names
/// nothing from then on. Every other entity lives on with its fields.
pub proof fn lemma_despawn_spends(s: Seq<SlotView>, e: Entity, other: Entity)
    requires
        live(s, e),
    ensures
        spent(despawned(s, e), e),
        !live(despawned(s, e), e),
        other != e && live(s, other) ==> live(despawned(s, e), other) && fields_of(
            despawned(s, e),
            other,
        ) == fields_of(s, other),
{
}

/// Spawning gives out a handle that was never given out before, and every
/// entity that lived before lives on with its fields.
pub proof fn lemma_spawn_is_fresh(s: Seq<SlotView>, f: FieldsView, other: Entity)
    requires
        s.len() < usize::MAX,
    ensures
        ({
            let e = handle(spawned(s, f), first_free(s, 0));
            &&& live(spawned(s, f), e)
            &&& fields_of(spawned(s, f), e) == f
            &&& !live(s, e)
            &&& !spent(s, e)
            &&& live(s, other) ==> live(spawned(s, f), other) && fields_of(spawned(s, f), other)
                == fields_of(s, other)
        }),
{
    lemma_first_free(s, 0);
}

/// The entity store: every entity of the game with its fields.
#[derive(Debug)]
pub struct Entities {
    slots: Vec<Slot>,
}

impl View for Entities {
    type V = Seq<SlotView>;

    closed spec fn view(&self) -> Seq<SlotView> {
        Seq::new(self.slots@.len(), |i: int| self.slots@[i]@)
    }
}

impl Entities {
    /// A store without slots.
    pub fn new() -> (s: Entities)
        ensures
            s@ == Seq::<SlotView>::empty(),
    {
        let s = Entities { slots: Vec::new() };
        assert(s@ =~= Seq::<SlotView>::empty());
        s
    }

    /// The number of slots, living and empty.
    pub fn slot_count(&self) -> (n: usize)
        ensures
            n == self@.len(),
    {
        self.slots.len()
    }

    /// The handle of the entity that lives in slot `i`, if one does.
    pub fn entity_at(&self, i: usize) -> (r: Option<Entity>)
        ensures
            r == if i < self@.len() && self@[i as int].fields is Some {
                Some(handle(self@, i as int))
            } else {
                None
            },
    {
        if i < self.slots.len() {
            let slot = &self.slots[i];
            if slot.fields.is_some() {
                return Some(Entity { index: i, generation: slot.generation });
            }
        }
        None
    }

    /// Whether `e` names a living entity.
    pub fn contains(&self, e: Entity) -> (r: bool)
        ensures
            r == live(self@, e),
    {
        if e.index < self.slots.len() {
            let slot = &self.slots[e.index];
            slot.generation == e.generation && slot.fields.is_some()
        } else {
            false
        }
    }

    /// The fields of `e`, if it names a living entity.
    pub fn get(&self, e: Entity) -> (r: Option<&Fields>)
        ensures
            live(self@, e) ==> r is Some && r.unwrap()@ == fields_of(self@, e),
            !live(self@, e) ==> r is None,
    {
        if e.index < self.slots.len() {
            let slot = &self.slots[e.index];
            if slot.generation == e.generation {
                return slot.fields.as_ref();
            }
        }
        None
    }

    /// The fields of the entity in slot `i`, if one lives there.
    pub fn fields_at(&self, i: usize) -> (r: Option<&Fields>)
        ensures
            i < self@.len() && self@[i as int].fields is Some ==> r is Some && Some(r.unwrap()@)
                == self@[i as int].fields,
            !(i < self@.len() && self@[i as int].fields is Some) ==> r is None,
    {
        if i < self.slots.len() {
            self.slots[i].fields.as_ref()
        } else {
            None
        }
    }

    /// Spawns an entity with the given fields and returns its handle. The
    /// entity takes the first slot that is empty and has generations left,
    /// else a new slot.
    pub fn spawn(&mut self, fields: Fields) -> (e: Entity)
        ensures
            final(self)@ == spawned(old(self)@, fields@),
            e == handle(final(self)@, first_free(old(self)@, 0)),
            live(final(self)@, e),
            !live(old(self)@, e),
            !spent(old(self)@, e),
    {
        let n: usize = self.slots.len();
        let mut i: usize = 0;
        while i < n
            invariant
                n == self.slots@.len(),
                *self == *old(self),
                i <= n,
                first_free(self@, 0) == first_free(self@, i as int),
            decreases n - i,
        {
            let slot = &self.slots[i];
            if slot.fields.is_none() && slot.generation < u64::MAX {
                let generation: u64 = slot.generation;
                let slot = &mut self.slots[i];
                slot.fields = Some(fields);
                assert(final(self)@ =~= spawned(old(self)@, fields@));
                return Entity { index: i, generation };
            }
            i += 1;
        }
        self.slots.push(Slot { generation: 0, fields: Some(fields) });
        assert(self@ =~= spawned(old(self)@, fields@));
        Entity { index: n, generation: 0 }
    }

    /// Despawns `e`: empties its slot and moves the slot to its next
    /// generation, so that `e` names nothing from now on. Returns whether
    /// `e` named a living entity.
    pub fn despawn(&mut self, e: Entity) -> (r: bool)
        ensures
            r == live(old(self)@, e),
            final(self)@ == despawned(old(self)@, e),
            !live(final(self)@, e),
    {
        if e.index < self.slots.len() {
            let slot = &mut self.slots[e.index];
            if slot.generation == e.generation && slot.fields.is_some() {
                slot.fields = None;
                if slot.generation < u64::MAX {
                    slot.generation = slot.generation + 1;
                }
                assert(self@ =~= despawned(old(self)@, e));
                return true;
            }
        }
        assert(self@ =~= old(self)@);
        false
    }

    /// Replaces the fields of `e`. Returns whether `e` named a living entity;
    /// if not, nothing changes.
    pub fn set(&mut self, e: Entity, fields: Fields) -> (r: bool)
        ensures
            r == live(old(self)@, e),
            final(self)@ == replaced(old(self)@, e, fields@),
    {
        if e.index < self.slots.len() {
            let slot = &mut self.slots[e.index];
            if slot.generation == e.generation && slot.fields.is_some() {
                slot.fields = Some(fields);
                assert(self@ =~= replaced(old(self)@, e, fields@));
                return true;
            }
        }
        assert(self@ =~= old(self)@);
        false
    }

    /// Gives `e` the position `position`. Returns whether `e` named a living entity; if not, nothing
    /// changes.
    pub fn set_position(&mut self, e: Entity, position: Position) -> (r: bool)
        ensures
            r == live(old(self)@, e),
            final(self)@ == replaced(
                old(self)@,
                e,
                (FieldsView { position: Some(position), ..fields_of(old(self)@, e) }),
            ),
    {
        if e.index < self.slots.len() {
            let slot = &mut self.slots[e.index];
            if slot.generation == e.generation {
                match &mut slot.fields {
                    Some(f) => {
                        f.position = Some(position);
                        assert(self@ =~= replaced(
                            old(self)@,
                            e,
                            (FieldsView { position: Some(position), ..fields_of(old(self)@, e) }),
                        ));
                        return true;
                    },
                    None => {},
                }
            }
        }
        assert(self@ =~= old(self)@);
        false
    }

    /// Gives `e` the velocity `velocity`. Returns whether `e` named a living entity; if not, nothing
    /// changes.
    pub fn set_velocity(&mut self, e: Entity, velocity: Velocity) -> (r: bool)
        ensures
            r == live(old(self)@, e),
            final(self)@ == replaced(
                old(self)@,
                e,
                (FieldsView { velocity: Some(velocity), ..fields_of(old(self)@, e) }),
            ),
    {
        if e.index < self.slots.len() {
            let slot = &mut self.slots[e.index];
            if slot.generation == e.generation {
                match &mut slot.fields {
                    Some(f) => {
                        f.velocity = Some(velocity);
                        assert(self@ =~= replaced(
                            old(self)@,
                            e,
                            (FieldsView { velocity: Some(velocity), ..fields_of(old(self)@, e) }),
                        ));
                        return true;
                    },
                    None => {},
                }
            }
        }
        assert(self@ =~= old(self)@);
        false
    }

    /// Gives `e` the tint `color`. Returns whether `e` named a living entity; if not, nothing
    /// changes.
    pub fn set_color(&mut self, e: Entity, color: ColorComponent) -> (r: bool)
        ensures
            r == live(old(self)@, e),
            final(self)@ == replaced(
                old(self)@,
                e,
                (FieldsView { color: Some(color), ..fields_of(old(self)@, e) }),
            ),
    {
        if e.index < self.slots.len() {
            let slot = &mut self.slots[e.index];
            if slot.generation == e.generation {
                match &mut slot.fields {
                    Some(f) => {
                        f.color = Some(color);
                        assert(self@ =~= replaced(
                            old(self)@,
                            e,
                            (FieldsView { color: Some(color), ..fields_of(old(self)@, e) }),
                        ));
                        return true;
                    },
                    None => {},
                }
            }
        }
        assert(self@ =~= old(self)@);
        false
    }

    /// Gives `e` the lives `lives`. Returns whether `e` named a living entity; if not, nothing
    /// changes.
    pub fn set_lives(&mut self, e: Entity, lives: Lives) -> (r: bool)
        ensures
            r == live(old(self)@, e),
            final(self)@ == replaced(
                old(self)@,
                e,
                (FieldsView { lives: Some(lives), ..fields_of(old(self)@, e) }),
            ),
    {
        if e.index < self.slots.len() {
            let slot = &mut self.slots[e.index];
            if slot.generation == e.generation {
                match &mut slot.fields {
                    Some(f) => {
                        f.lives = Some(lives);
                        assert(self@ =~= replaced(
                            old(self)@,
                            e,
                            (FieldsView { lives: Some(lives), ..fields_of(old(self)@, e) }),
                        ));
                        return true;
                    },
                    None => {},
                }
            }
        }
        assert(self@ =~= old(self)@);
        false
    }

    /// Gives `e` the text `text`. Returns whether `e` named a living entity; if not, nothing
    /// changes.
    pub fn set_text(&mut self, e: Entity, text: Text) -> (r: bool)
        ensures
            r == live(old(self)@, e),
            final(self)@ == replaced(
                old(self)@,
                e,
                (FieldsView { text: Some(text@), ..fields_of(old(self)@, e) }),
            ),
    {
        if e.index < self.slots.len() {
            let slot = &mut self.slots[e.index];
            if slot.generation == e.generation {
                match &mut slot.fields {
                    Some(f) => {
                        f.text = Some(text);
                        assert(self@ =~= replaced(
                            old(self)@,
                            e,
                            (FieldsView { text: Some(text@), ..fields_of(old(self)@, e) }),
                        ));
                        return true;
                    },
                    None => {},
                }
            }
        }
        assert(self@ =~= old(self)@);
        false
    }
}

} // verus!
