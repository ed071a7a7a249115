//! Frame animation: clips of timed frames, and the cursor that plays one.

use std::rc::Rc;
use vstd::prelude::*;
use crate::objects::Rect;
use crate::shared::share;

verus! {

/// A clip: the frames of an animation, each with the box of its image in a
/// texture and the number of ticks it is shown for, and whether the clip
/// starts over when it has run out. A clip is made once and shared by every
/// animation that plays it.
#[derive(Debug)]
pub struct AnimationData {
    pub frames: Vec<(Rect, usize)>,
    pub looping: bool,
}

/// The position of a playback: the index of the current frame, and the
/// number of ticks it has been shown for.
pub type Cursor = (int, int);

/// A clip as a value: its frames and whether it loops.
pub struct Clip {
    pub frames: Seq<(Rect, usize)>,
    pub looping: bool,
}

impl Clip {
    /// A clip can be played if it has a frame and every frame lasts for at
    /// least one tick.
    pub open spec fn playable(self) -> bool {
        &&& self.frames.len() > 0
        &&& forall|i: int| 0 <= i < self.frames.len() ==> (#[trigger] self.frames[i]).1 >= 1
    }

    /// Whether `c` is a position in this clip: a frame of it, and a count of
    /// ticks that the frame has not yet used up.
    pub open spec fn has(self, c: Cursor) -> bool {
        0 <= c.0 < self.frames.len() && 0 <= c.1 < self.frames[c.0].1
    }

    /// The frame that follows frame `i`: the next one; after the last, the
    /// first if the clip loops, and the last again if it does not.
    pub open spec fn after(self, i: int) -> int {
        if i + 1 < self.frames.len() {
            i + 1
        } else if self.looping {
            0
        } else {
            i
        }
    }

    /// The position one tick after `c`. The tick is counted; when the frame
    /// has then been shown for its whole duration, the next frame starts.
    pub open spec fn tick(self, c: Cursor) -> Cursor {
        if c.1 + 1 == self.frames[c.0].1 {
            (self.after(c.0), 0)
        } else {
            (c.0, c.1 + 1)
        }
    }

    /// The position `n` ticks after `c`.
    pub open spec fn ticks(self, c: Cursor, n: nat) -> Cursor
        decreases n,
    {
        if n == 0 {
            c
        } else {
            self.tick(self.ticks(c, (n - 1) as nat))
        }
    }

    /// A tick leads from a position in a playable clip to a position in it:
    /// the frame index never leaves the clip.
    pub proof fn lemma_tick_stays(self, c: Cursor)
        requires
            self.playable(),
            self.has(c),
        ensures
            self.has(self.tick(c)),
    {
    }

    /// Any number of ticks leads from a position in a playable clip to a
    /// position in it.
    pub proof fn lemma_ticks_stay(self, c: Cursor, n: nat)
        requires
            self.playable(),
            self.has(c),
        ensures
            self.has(self.ticks(c, n)),
        decreases n,
    {
        if n > 0 {
            self.lemma_ticks_stay(c, (n - 1) as nat);
            self.lemma_tick_stays(self.ticks(c, (n - 1) as nat));
        }
    }

    /// A clip that does not loop holds its last frame: from the last frame,
    /// no number of ticks leads to another.
    pub proof fn lemma_holds_last_frame(self, c: Cursor, n: nat)
        requires
            self.playable(),
            self.has(c),
            !self.looping,
            c.0 == self.frames.len() - 1,
        ensures
            self.ticks(c, n).0 == self.frames.len() - 1,
        decreases n,
    {
        if n > 0 {
            self.lemma_holds_last_frame(c, (n - 1) as nat);
            self.lemma_ticks_stay(c, (n - 1) as nat);
        }
    }

    /// The number of ticks that the first `i` frames last for together.
    pub open spec fn span(self, i: int) -> int
        decreases i,
    {
        if i <= 0 {
            0
        } else {
            self.span(i - 1) + self.frames[i - 1].1
        }
    }

    /// The number of ticks that lead from the start of the clip to `c`.
    pub open spec fn elapsed(self, c: Cursor) -> int {
        self.span(c.0) + c.1
    }

    /// The number of ticks that the whole clip lasts for.
    pub open spec fn duration(self) -> int {
        self.span(self.frames.len() as int)
    }

    /// Every frame of a playable clip adds to the span.
    pub proof fn lemma_span_grows(self, i: int, j: int)
        requires
            self.playable(),
            0 <= i <= j <= self.frames.len(),
        ensures
            self.span(i) + (j - i) <= self.span(j),
            i <= self.span(i),
        decreases j,
    {
        if i < j {
            self.lemma_span_grows(i, j - 1);
        } else if i > 0 {
            self.lemma_span_grows(i - 1, j - 1);
        }
    }

    /// A position lies before the end of the clip, and two positions that are
    /// as many ticks from the start are one position.
    pub proof fn lemma_elapsed_names_position(self, c: Cursor, d: Cursor)
        requires
            self.playable(),
            self.has(c),
            self.has(d),
        ensures
            0 <= self.elapsed(c) < self.duration(),
            self.elapsed(c) == self.elapsed(d) ==> c == d,
    {
        self.lemma_span_grows(0, c.0);
        self.lemma_span_grows(c.0 + 1, self.frames.len() as int);
        if c.0 < d.0 {
            self.lemma_span_grows(c.0 + 1, d.0);
        } else if d.0 < c.0 {
            self.lemma_span_grows(0, d.0);
            self.lemma_span_grows(d.0 + 1, c.0);
        }
    }

    /// In a clip that loops, a tick moves the position one tick on, and from
    /// the end of the clip to its start.
    pub proof fn lemma_tick_counts(self, c: Cursor)
        requires
            self.playable(),
            self.looping,
            self.has(c),
        ensures
            self.elapsed(self.tick(c)) == (self.elapsed(c) + 1) % self.duration(),
    {
        let total = self.duration();
        self.lemma_elapsed_names_position(c, c);
        self.lemma_tick_stays(c);
        self.lemma_elapsed_names_position(self.tick(c), c);
        if c.1 + 1 == self.frames[c.0].1 && c.0 + 1 == self.frames.len() {
            assert(self.elapsed(c) + 1 == total);
            assert(total % total == 0) by (nonlinear_arith)
                requires
                    total > 0,
            ;
        } else {
            assert(self.elapsed(self.tick(c)) == self.elapsed(c) + 1);
            vstd::arithmetic::div_mod::lemma_small_mod((self.elapsed(c) + 1) as nat, total as nat);
        }
    }

    /// A clip that loops is periodic: from any position, as many ticks as
    /// the clip lasts for lead back to that position.
    pub proof fn lemma_loop_returns(self, c: Cursor)
        requires
            self.playable(),
            self.looping,
            self.has(c),
        ensures
            self.ticks(c, self.duration() as nat) == c,
    {
        let total = self.duration();
        self.lemma_elapsed_names_position(c, c);
        self.lemma_ticks_count(c, total as nat);
        self.lemma_ticks_stay(c, total as nat);
        vstd::arithmetic::div_mod::lemma_mod_add_multiples_vanish(self.elapsed(c), total);
        vstd::arithmetic::div_mod::lemma_small_mod(self.elapsed(c) as nat, total as nat);
        self.lemma_elapsed_names_position(self.ticks(c, total as nat), c);
    }

    /// In a clip that loops, `n` ticks move the position `n` ticks on, round
    /// the clip.
    pub proof fn lemma_ticks_count(self, c: Cursor, n: nat)
        requires
            self.playable(),
            self.looping,
            self.has(c),
        ensures
            self.elapsed(self.ticks(c, n)) == (self.elapsed(c) + n) % self.duration(),
        decreases n,
    {
        let total = self.duration();
        self.lemma_elapsed_names_position(c, c);
        if n == 0 {
            vstd::arithmetic::div_mod::lemma_small_mod(self.elapsed(c) as nat, total as nat);
        } else {
            let before = self.ticks(c, (n - 1) as nat);
            self.lemma_ticks_count(c, (n - 1) as nat);
            self.lemma_ticks_stay(c, (n - 1) as nat);
            self.lemma_tick_counts(before);
            vstd::arithmetic::div_mod::lemma_add_mod_noop(self.elapsed(c) + n - 1, 1, total);
            vstd::arithmetic::div_mod::lemma_mod_twice(self.elapsed(c) + n - 1, total);
            vstd::arithmetic::div_mod::lemma_add_mod_noop(
                (self.elapsed(c) + n - 1) % total,
                1,
                total,
            );
        }
    }
}

impl View for AnimationData {
    type V = Clip;

    open spec fn view(&self) -> Clip {
        Clip { frames: self.frames@, looping: self.looping }
    }
}

impl AnimationData {
    /// Decides whether the clip is [playable](Clip::playable).
    pub fn is_valid(&self) -> (b: bool)
        ensures
            b == self@.playable(),
    {
        if self.frames.len() == 0 {
            return false;
        }
        let mut i: usize = 0;
        while i < self.frames.len()
            invariant
                i <= self.frames.len(),
                forall|j: int| 0 <= j < i ==> (#[trigger] self.frames@[j]).1 >= 1,
            decreases self.frames.len() - i,
        {
            if self.frames[i].1 == 0 {
                return false;
            }
            i = i + 1;
        }
        true
    }

    /// Decides whether two clips are the same: as many frames, with the same
    /// boxes and durations in the same order, and both looping or neither.
    pub fn same_as(&self, other: &AnimationData) -> (b: bool)
        ensures
            b == (self@ == other@),
    {
        if self.looping != other.looping || self.frames.len() != other.frames.len() {
            return false;
        }
        let mut i: usize = 0;
        while i < self.frames.len()
            invariant
                i <= self.frames.len(),
                self.frames.len() == other.frames.len(),
                self.looping == other.looping,
                forall|j: int| 0 <= j < i ==> self.frames@[j] == other.frames@[j],
            decreases self.frames.len() - i,
        {
            let a: (Rect, usize) = self.frames[i];
            let b: (Rect, usize) = other.frames[i];
            if a.0 != b.0 || a.1 != b.1 {
                return false;
            }
            i = i + 1;
        }
        assert(self.frames@ =~= other.frames@);
        true
    }
}

/// A playback of a clip: the clip, and a cursor into it. The clip is
/// playable and the cursor is a position in it, always.
pub struct Animation {
    current_frame: (usize, usize),
    data: Rc<AnimationData>,
}

impl Animation {
    #[verifier::type_invariant]
    spec fn sound(self) -> bool {
        &&& self.data@.playable()
        &&& self.data@.has((self.current_frame.0 as int, self.current_frame.1 as int))
    }

    /// The clip that is played.
    pub closed spec fn clip(&self) -> Clip {
        self.data@
    }

    /// Where the playback stands.
    pub closed spec fn cursor(&self) -> Cursor {
        (self.current_frame.0 as int, self.current_frame.1 as int)
    }

    /// Starts a playback of `data` at its first frame.
    pub fn new(data: &Rc<AnimationData>) -> (a: Self)
        requires
            data@.playable(),
        ensures
            a.clip() == data@,
            a.cursor() == (0int, 0int),
    {
        Self { current_frame: (0, 0), data: share(data) }
    }

    /// Switches to the clip `data`. With `force`, or when `data` is not the
    /// clip that is played, the playback starts the new clip at its first
    /// frame. Otherwise nothing changes: a playback in progress is not
    /// started over.
    pub fn set_animation(&mut self, data: &Rc<AnimationData>, force: bool)
        requires
            data@.playable(),
        ensures
            final(self).clip() == data@,
            final(self).cursor() == (if force || data@ != old(self).clip() {
                (0int, 0int)
            } else {
                old(self).cursor()
            }),
    {
        if force || !data.same_as(&self.data) {
            *self = Self { current_frame: (0, 0), data: share(data) };
        }
    }

    /// Advances the playback by one tick.
    pub fn animate(&mut self)
        ensures
            final(self).clip() == old(self).clip(),
            final(self).cursor() == old(self).clip().tick(old(self).cursor()),
            final(self).clip().has(final(self).cursor()),
    {
        proof {
            use_type_invariant(&*self);
        }
        let (index, timer) = self.current_frame;
        let count: usize = self.data.frames.len();
        let shown: usize = timer + 1;
        if shown == self.data.frames[index].1 {
            let next: usize = if index + 1 < count {
                index + 1
            } else if self.data.looping {
                0
            } else {
                index
            };
            self.current_frame = (next, 0);
        } else {
            self.current_frame = (index, shown);
        }
    }

    /// The box of the current frame's image.
    pub fn get_current_frame(&self) -> (r: Rect)
        ensures
            self.clip().has(self.cursor()),
            r == self.clip().frames[self.cursor().0].0,
    {
        proof {
            use_type_invariant(self);
        }
        self.data.frames[self.current_frame.0].0
    }

    /// The index of the current frame.
    pub fn frame_index(&self) -> (i: usize)
        ensures
            i == self.cursor().0,
            i < self.clip().frames.len(),
    {
        proof {
            use_type_invariant(self);
        }
        self.current_frame.0
    }

    /// The number of ticks for which the current frame has been shown.
    pub fn frame_ticks(&self) -> (t: usize)
        ensures
            t == self.cursor().1,
    {
        self.current_frame.1
    }
}

} // verus!
