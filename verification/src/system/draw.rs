use vstd::prelude::*;
use crate::component::{Color, Texture};
use crate::geometry::{Rect, Vec2};
use crate::store::{FieldsView, SlotView};
use crate::system::text::DrawTextView;
use crate::world::{World, WorldView};

verus! {

/// An image to draw: the region `source` of `texture`, at `position`, tinted
/// with `color`.
#[derive(Clone, Copy, Debug, PartialEq, Eq, Structural)]
pub struct DrawSprite {
    pub texture: Texture,
    pub source: Rect,
    pub position: Vec2,
    pub color: Color,
}

/// Whether these are the fields of something with an image: a position, a
/// texture and a tint.
pub open spec fn is_sprite(f: FieldsView) -> bool {
    f.position is Some && f.texture is Some && f.color is Some
}

/// The images to draw among the first `n` slots, in the order of the slots.
pub open spec fn sprites(s: Seq<SlotView>, n: int) -> Seq<DrawSprite>
    decreases n,
{
    if n <= 0 {
        Seq::empty()
    } else {
        let slot = s[n - 1];
        if slot.fields is Some && is_sprite(slot.fields.unwrap()) {
            let f = slot.fields.unwrap();
            sprites(s, n - 1).push(
                DrawSprite {
                    texture: f.texture.unwrap().texture,
                    source: f.texture.unwrap().source,
                    position: f.position.unwrap().0,
                    color: f.color.unwrap().0,
                },
            )
        } else {
            sprites(s, n - 1)
        }
    }
}

/// The draw system: adds the image of every entity that has one to the
/// images to draw, in the order of the slots.
pub fn system(world: &mut World)
    ensures
        final(world)@ == (WorldView {
            sprites: old(world)@.sprites + sprites(
                old(world)@.entities,
                old(world)@.entities.len() as int,
            ),
            ..old(world)@
        }),
{
    let n: usize = world.entities.slot_count();
    let mut i: usize = 0;
    while i < n
        invariant
            i <= n,
            n == world@.entities.len(),
            world@ == (WorldView {
                sprites: old(world)@.sprites + sprites(old(world)@.entities, i as int),
                ..old(world)@
            }),
        decreases n - i,
    {
        let found = match world.entities.fields_at(i) {
            Some(f) => match (f.position, f.texture, f.color) {
                (Some(p), Some(t), Some(c)) => Some(
                    DrawSprite {
                        texture: t.texture,
                        source: t.source,
                        position: p.0,
                        color: c.0,
                    },
                ),
                _ => None,
            },
            None => None,
        };
        match found {
            Some(d) => {
                world.sprites.push(d);
                assert(world@.sprites =~= old(world)@.sprites + sprites(
                    old(world)@.entities,
                    i + 1,
                ));
            },
            None => {},
        }
        i += 1;
    }
}

/// Starts the drawing of a frame: nothing is to be drawn yet.
pub fn pre_system(world: &mut World)
    ensures
        final(world)@ == (WorldView {
            texts: Seq::empty(),
            sprites: Seq::empty(),
            ..old(world)@
        }),
{
    world.texts.clear();
    world.sprites.clear();
    assert(world@.texts =~= Seq::<DrawTextView>::empty());
}

} // verus!
