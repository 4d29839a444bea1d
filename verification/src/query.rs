use vstd::prelude::*;
use crate::store::{fields_of, handle, live, Entities, Entity, Fields, FieldsView, SlotView};

verus! {

/// The names of the fields that an entity can have.
#[derive(Clone, Copy, Debug, PartialEq, Eq, Structural)]
pub enum Field {
    Position,
    Velocity,
    Aabb,
    Texture,
    Color,
    Lives,
    Bounty,
    Tags,
    Text,
    Font,
    ScoreTag,
    GameOverTag,
    LivesTag,
}

/// Whether the field named `field` is present in `f`.
pub open spec fn present(f: FieldsView, field: Field) -> bool {
    match field {
        Field::Position => f.position is Some,
        Field::Velocity => f.velocity is Some,
        Field::Aabb => f.aabb is Some,
        Field::Texture => f.texture is Some,
        Field::Color => f.color is Some,
        Field::Lives => f.lives is Some,
        Field::Bounty => f.bounty is Some,
        Field::Tags => f.tags is Some,
        Field::Text => f.text is Some,
        Field::Font => f.font is Some,
        Field::ScoreTag => f.score_tag is Some,
        Field::GameOverTag => f.game_over_tag is Some,
        Field::LivesTag => f.lives_tag is Some,
    }
}

/// Whether every field named in `fields` is present in `f`.
pub open spec fn has_all(f: FieldsView, fields: Seq<Field>) -> bool {
    forall|i: int| 0 <= i < fields.len() ==> present(f, #[trigger] fields[i])
}

/// Whether no field named in `fields` is present in `f`.
pub open spec fn has_none(f: FieldsView, fields: Seq<Field>) -> bool {
    forall|i: int| 0 <= i < fields.len() ==> !present(f, #[trigger] fields[i])
}

/// Whether an entity with the fields `f` answers a query for the entities
/// that have all of `with` and none of `without`.
pub open spec fn answers(f: FieldsView, with: Seq<Field>, without: Seq<Field>) -> bool {
    has_all(f, with) && has_none(f, without)
}

/// The entities among the first `n` slots that have all of `with` and none
/// of `without`, in the order of the slots.
pub open spec fn matching(s: Seq<SlotView>, with: Seq<Field>, without: Seq<Field>, n: int) -> Seq<
    Entity,
>
    decreases n,
{
    if n <= 0 {
        Seq::empty()
    } else if s[n - 1].fields is Some && answers(s[n - 1].fields.unwrap(), with, without) {
        matching(s, with, without, n - 1).push(handle(s, n - 1))
    } else {
        matching(s, with, without, n - 1)
    }
}

impl Fields {
    /// Whether the field named `field` is present.
    pub fn has_field(&self, field: Field) -> (r: bool)
        ensures
            r == present(self@, field),
    {
        match field {
            Field::Position => self.position.is_some(),
            Field::Velocity => self.velocity.is_some(),
            Field::Aabb => self.aabb.is_some(),
            Field::Texture => self.texture.is_some(),
            Field::Color => self.color.is_some(),
            Field::Lives => self.lives.is_some(),
            Field::Bounty => self.bounty.is_some(),
            Field::Tags => self.tags.is_some(),
            Field::Text => self.text.is_some(),
            Field::Font => self.font.is_some(),
            Field::ScoreTag => self.score_tag.is_some(),
            Field::GameOverTag => self.game_over_tag.is_some(),
            Field::LivesTag => self.lives_tag.is_some(),
        }
    }

    /// Whether all of `with` and none of `without` are present.
    pub fn answers(&self, with: &Vec<Field>, without: &Vec<Field>) -> (r: bool)
        ensures
            r == answers(self@, with@, without@),
    {
        let mut i: usize = 0;
        while i < with.len()
            invariant
                i <= with@.len(),
                forall|j: int| 0 <= j < i ==> present(self@, #[trigger] with@[j]),
            decreases with@.len() - i,
        {
            if !self.has_field(with[i]) {
                return false;
            }
            i += 1;
        }
        let mut k: usize = 0;
        while k < without.len()
            invariant
                k <= without@.len(),
                has_all(self@, with@),
                forall|j: int| 0 <= j < k ==> !present(self@, #[trigger] without@[j]),
            decreases without@.len() - k,
        {
            if self.has_field(without[k]) {
                return false;
            }
            k += 1;
        }
        true
    }
}

impl Entities {
    /// The entities that have all of the fields named in `with` and none of
    /// those named in `without`, in the order of their slots.
    pub fn query(&self, with: &Vec<Field>, without: &Vec<Field>) -> (r: Vec<Entity>)
        ensures
            r@ == matching(self@, with@, without@, self@.len() as int),
    {
        let n: usize = self.slot_count();
        let mut r: Vec<Entity> = Vec::new();
        let mut i: usize = 0;
        while i < n
            invariant
                i <= n,
                n == self@.len(),
                r@ == matching(self@, with@, without@, i as int),
            decreases n - i,
        {
            let found: bool = match self.fields_at(i) {
                Some(f) => f.answers(with, without),
                None => false,
            };
            match self.entity_at(i) {
                Some(e) => {
                    if found {
                        r.push(e);
                    }
                },
                None => {},
            }
            i += 1;
        }
        r
    }
}

/// The player is what has a position, a bounding box and lives, and no tag.
pub proof fn lemma_player_query(f: FieldsView)
    ensures
        is_player(f) == answers(
            f,
            seq![Field::Position, Field::Aabb, Field::Lives],
            seq![Field::Tags],
        ),
{
    let with = seq![Field::Position, Field::Aabb, Field::Lives];
    let without = seq![Field::Tags];
    if answers(f, with, without) {
        assert(present(f, with[0]) && present(f, with[1]) && present(f, with[2]));
        assert(!present(f, without[0]));
    }
}

/// Whether these are the fields of the player: a position, a bounding box
/// and lives, and no tag.
pub open spec fn is_player(f: FieldsView) -> bool {
    f.tags is None && f.lives is Some && f.aabb is Some && f.position is Some
}

/// Whether the player lives in this slot.
pub open spec fn holds_player(slot: SlotView) -> bool {
    slot.fields is Some && is_player(slot.fields.unwrap())
}

/// How many of the first `n` slots hold a player.
pub open spec fn player_count(s: Seq<SlotView>, n: int) -> nat
    decreases n,
{
    if n <= 0 || n > s.len() {
        0
    } else if holds_player(s[n - 1]) {
        player_count(s, n - 1) + 1
    } else {
        player_count(s, n - 1)
    }
}

/// The first slot at or after `from` that holds a player, or the number of
/// slots if there is none.
pub open spec fn first_player(s: Seq<SlotView>, from: int) -> int
    decreases s.len() - from,
{
    if from < 0 || from >= s.len() {
        s.len() as int
    } else if holds_player(s[from]) {
        from
    } else {
        first_player(s, from + 1)
    }
}

/// The slot of the player, where the store holds exactly one.
pub open spec fn single_player(s: Seq<SlotView>) -> Option<int> {
    if player_count(s, s.len() as int) == 1 {
        Some(first_player(s, 0))
    } else {
        None
    }
}

impl Fields {
    /// Whether these are the fields of the player.
    pub fn is_player(&self) -> (r: bool)
        ensures
            r == is_player(self@),
    {
        self.tags.is_none() && self.lives.is_some() && self.aabb.is_some()
            && self.position.is_some()
    }
}

/// The handle of the player, where the store holds exactly one.
pub open spec fn player_of(s: Seq<SlotView>) -> Option<Entity> {
    match single_player(s) {
        Some(k) => Some(handle(s, k)),
        None => None,
    }
}

impl Entities {
    /// The player, if the store holds exactly one; `None` if it holds none
    /// or several.
    pub fn find_player(&self) -> (r: Option<Entity>)
        ensures
            r == player_of(self@),
            r matches Some(e) ==> live(self@, e) && is_player(fields_of(self@, e)) && Some(
                e.index as int,
            ) == single_player(self@),
    {
        let n: usize = self.slot_count();
        let mut found: Option<Entity> = None;
        let mut several: bool = false;
        let mut i: usize = 0;
        while i < n
            invariant
                n == self@.len(),
                i <= n,
                found is None ==> player_count(self@, i as int) == 0 && !several,
                found is Some && !several ==> player_count(self@, i as int) == 1,
                several ==> player_count(self@, i as int) >= 2,
                found is Some ==> found.unwrap().index < i && found.unwrap() == handle(
                    self@,
                    first_player(self@, 0),
                ) && first_player(self@, 0) == found.unwrap().index,
                found is None ==> forall|j: int| 0 <= j < i ==> !holds_player(#[trigger] self@[j]),
            decreases n - i,
        {
            match self.fields_at(i) {
                Some(f) => {
                    if f.is_player() {
                        if found.is_some() {
                            several = true;
                        } else {
                            proof {
                                lemma_first_player(self@, 0);
                            }
                            found = self.entity_at(i);
                        }
                    }
                },
                None => {},
            }
            i += 1;
        }
        if several {
            None
        } else {
            proof {
                if found is Some {
                    lemma_single_player(self@);
                }
            }
            found
        }
    }
}

/// Whether the text that announces the end of the game lives in this slot.
pub open spec fn announces_game_over(slot: SlotView) -> bool {
    slot.fields is Some && slot.fields.unwrap().game_over_tag is Some
}

/// Whether the store holds a text that announces the end of the game.
pub open spec fn has_game_over_text(s: Seq<SlotView>) -> bool {
    exists|j: int| 0 <= j < s.len() && announces_game_over(#[trigger] s[j])
}

impl Entities {
    /// Whether the store holds a text that announces the end of the game.
    pub fn has_game_over_text(&self) -> (r: bool)
        ensures
            r == has_game_over_text(self@),
    {
        let n: usize = self.slot_count();
        let mut i: usize = 0;
        while i < n
            invariant
                n == self@.len(),
                i <= n,
                forall|j: int| 0 <= j < i ==> !announces_game_over(#[trigger] self@[j]),
            decreases n - i,
        {
            match self.fields_at(i) {
                Some(f) => {
                    if f.game_over_tag.is_some() {
                        return true;
                    }
                },
                None => {},
            }
            i += 1;
        }
        false
    }
}

/// Where exactly one slot holds a player, that slot is the first that does,
/// it lies within the store, and no other slot holds one.
pub proof fn lemma_single_player(s: Seq<SlotView>)
    requires
        single_player(s) is Some,
    ensures
        0 <= single_player(s).unwrap() < s.len(),
        holds_player(s[single_player(s).unwrap()]),
        forall|j: int| 0 <= j < s.len() && holds_player(#[trigger] s[j]) ==> j == single_player(s).unwrap(),
{
    lemma_count_bounds(s, s.len() as int, 0);
    let k = first_player(s, 0);
    assert forall|j: int| 0 <= j < s.len() && holds_player(#[trigger] s[j]) implies j == k by {
        if j != k {
            lemma_first_player(s, 0);
            lemma_two_players(s, s.len() as int, k, j);
        }
    }
    lemma_first_player(s, 0);
    if k >= s.len() {
        lemma_no_player(s, s.len() as int);
    }
}

/// Where slot `k` holds a player and no other slot does, the store holds
/// exactly one player, in slot `k`.
pub proof fn lemma_only_player(s: Seq<SlotView>, k: int)
    requires
        0 <= k < s.len(),
        holds_player(s[k]),
        forall|j: int| 0 <= j < s.len() && holds_player(#[trigger] s[j]) ==> j == k,
    ensures
        single_player(s) == Some(k),
{
    lemma_count_one(s, k, s.len() as int);
    lemma_first_player(s, 0);
}

/// Where only slot `k` holds a player, the first `n` slots hold one player
/// if `k` is among them, and none otherwise.
pub proof fn lemma_count_one(s: Seq<SlotView>, k: int, n: int)
    requires
        0 <= k < s.len(),
        0 <= n <= s.len(),
        holds_player(s[k]),
        forall|j: int| 0 <= j < s.len() && holds_player(#[trigger] s[j]) ==> j == k,
    ensures
        player_count(s, n) == if k < n {
            1nat
        } else {
            0nat
        },
    decreases n,
{
    if n > 0 {
        lemma_count_one(s, k, n - 1);
    }
}

/// The first player at or after `from` lies at or after `from`, holds a
/// player if it lies within the store, and nothing between does.
pub proof fn lemma_first_player(s: Seq<SlotView>, from: int)
    requires
        0 <= from,
    ensures
        from <= first_player(s, from) || first_player(s, from) == s.len(),
        first_player(s, from) <= s.len(),
        first_player(s, from) < s.len() ==> holds_player(s[first_player(s, from)]),
        forall|j: int| from <= j < first_player(s, from) && j < s.len() ==> !holds_player(#[trigger] s[j]),
    decreases s.len() - from,
{
    if from < s.len() && !holds_player(s[from]) {
        lemma_first_player(s, from + 1);
    }
}

/// Where none of the slots holds a player, the count is zero.
pub proof fn lemma_no_player(s: Seq<SlotView>, n: int)
    requires
        n <= s.len(),
        forall|j: int| 0 <= j < n ==> !holds_player(#[trigger] s[j]),
    ensures
        player_count(s, n) == 0,
    decreases n,
{
    if n > 0 {
        lemma_no_player(s, n - 1);
    }
}

/// The count over a prefix is at most the count over the whole.
pub proof fn lemma_count_bounds(s: Seq<SlotView>, n: int, m: int)
    requires
        0 <= m <= n <= s.len(),
    ensures
        player_count(s, m) <= player_count(s, n),
    decreases n - m,
{
    if m < n {
        lemma_count_bounds(s, n - 1, m);
    }
}

/// Two different slots that hold a player make the count at least two.
pub proof fn lemma_two_players(s: Seq<SlotView>, n: int, a: int, b: int)
    requires
        0 <= a < n <= s.len(),
        0 <= b < n,
        a != b,
        holds_player(s[a]),
        holds_player(s[b]),
    ensures
        player_count(s, n) >= 2,
    decreases n,
{
    if a == n - 1 {
        lemma_one_player(s, n - 1, b);
    } else if b == n - 1 {
        lemma_one_player(s, n - 1, a);
    } else {
        lemma_two_players(s, n - 1, a, b);
    }
}

/// A slot that holds a player makes the count at least one.
pub proof fn lemma_one_player(s: Seq<SlotView>, n: int, a: int)
    requires
        0 <= a < n <= s.len(),
        holds_player(s[a]),
    ensures
        player_count(s, n) >= 1,
    decreases n,
{
    if a < n - 1 {
        lemma_one_player(s, n - 1, a);
    }
}

} // verus!
