//! Sprites: an animated part of a texture at a position on the screen.

use std::rc::Rc;
use vstd::prelude::*;
use crate::animation::{Animation, AnimationData};
use crate::blit::{blend, source_pixel, target};
use crate::objects::{Rect, Vec2};
use crate::screen::Screen;
use crate::shared::share;
use crate::texture::Texture;

verus! {

/// A texture that the sprite shares with others, the animation that picks
/// the part of it to show, and the position of its top left corner on the
/// screen.
pub struct Sprite {
    pub image: Rc<Texture>,
    pub animation: Animation,
    pub position: Vec2,
}

impl Sprite {
    /// The texture that the sprite shows parts of.
    pub open spec fn texture(&self) -> &Texture {
        &*self.image
    }

    /// The box of the texture that the sprite shows now: the image of the
    /// current frame of its animation.
    pub open spec fn frame(&self) -> Rect {
        self.animation.clip().frames[self.animation.cursor().0].0
    }

    /// A sprite can be drawn when its current frame is a box of its texture:
    /// see [`Texture::holds`].
    pub open spec fn drawable(&self) -> bool {
        self.texture().holds(self.frame())
    }

    pub fn new(image: &Rc<Texture>, animation: Animation, position: Vec2) -> (s: Self)
        ensures
            s.texture() == &**image,
            s.animation == animation,
            s.position == position,
    {
        Self { image: share(image), animation, position }
    }

    /// Switches the animation to the clip `data`, as
    /// [`Animation::set_animation`] does. Texture and position stay.
    pub fn set_animation(&mut self, data: &Rc<AnimationData>, force: bool)
        requires
            data@.playable(),
        ensures
            final(self).texture() == old(self).texture(),
            final(self).position == old(self).position,
            final(self).animation.clip() == data@,
            final(self).animation.cursor() == (if force || data@ != old(self).animation.clip() {
                (0int, 0int)
            } else {
                old(self).animation.cursor()
            }),
    {
        self.animation.set_animation(data, force);
    }

    /// Decides whether the sprite is [drawable](Sprite::drawable).
    pub fn is_drawable(&self) -> (b: bool)
        ensures
            b == self.drawable(),
    {
        let frame: Rect = self.animation.get_current_frame();
        self.image.contains(&frame)
    }
}

/// Drawing sprites, for whatever can be drawn on.
pub trait DrawSpriteExt {
    /// What must hold of the target and the sprite for the sprite to be
    /// drawn.
    spec fn can_draw(&self, s: &Sprite) -> bool;

    fn draw_sprite(&mut self, s: &Sprite)
        requires
            old(self).can_draw(s),
    ;
}

impl<'fb> DrawSpriteExt for Screen<'fb> {
    /// The screen is well formed and the sprite is drawable.
    open spec fn can_draw(&self, s: &Sprite) -> bool {
        self.wf() && s.drawable()
    }

    /// Composites the current frame of the sprite onto the screen at the
    /// sprite's position, as [`Screen::bitblt`] does.
    fn draw_sprite(&mut self, s: &Sprite)
        ensures
            final(self).redraws(old(self)),
            final(final(self).framebuffer)@ == final(old(self).framebuffer)@,
            forall|px: int, py: int|
                old(self).in_bounds(px, py) ==> #[trigger] final(self).pixel(px, py) == (if target(
                    s.frame(),
                    s.position,
                ).covers(px, py) {
                    blend(
                        source_pixel(s.texture(), s.frame(), s.position, px, py),
                        old(self).pixel(px, py),
                    )
                } else {
                    old(self).pixel(px, py)
                }),
            old(self).misses(target(s.frame(), s.position)) ==> final(self)@ == old(self)@,
    {
        self.bitblt(&s.image, s.animation.get_current_frame(), s.position);
    }
}

} // verus!
