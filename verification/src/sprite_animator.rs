//! Sprite animations: a sprite sheet's tiles shown one after another, each for
//! its own time.

use vstd::prelude::*;
use std::time::{Duration, Instant};
use crate::sprite::SpriteSheetSprite;

verus! {

#[verifier::external_type_specification]
#[verifier::external_body]
pub struct ExInstant(Instant);

/// `Instant::now()`. The time it gives is not modelled.
#[verifier::external_body]
fn instant_now() -> Instant {
    Instant::now()
}

/// `since.elapsed() > duration`. Whether it holds depends on the clock, so
/// nothing is stated of it.
#[verifier::external_body]
fn elapsed_longer_than(since: &Instant, duration: Duration) -> bool {
    since.elapsed() > duration
}

/// A looping animation over sprite sheet tiles.
#[derive(Clone)]
pub struct SpriteAnimation {
    frames: Vec<(Duration, (u32, u32))>,
    current_frame: usize,
    last_frame_time: Option<Instant>,
}

impl SpriteAnimation {
    /// The frames: how long each shows and which tile it shows.
    pub closed spec fn frames(&self) -> Seq<(Duration, (u32, u32))> {
        self.frames@
    }

    /// The index of the frame shown.
    pub closed spec fn current(&self) -> int {
        self.current_frame as int
    }

    /// When the frame shown began to show, once the animation has started.
    pub closed spec fn frame_start(&self) -> Option<Instant> {
        self.last_frame_time
    }

    /// The animation has shown its first frame.
    pub open spec fn started(&self) -> bool {
        self.frame_start() is Some
    }

    /// The frame index lies within the frames, or is 0 when there are none.
    pub open spec fn wf(&self) -> bool {
        &&& self.frames().len() == 0 ==> self.current() == 0
        &&& self.frames().len() > 0 ==> 0 <= self.current() < self.frames().len()
    }

    /// An animation showing each of the tiles for `duration`.
    pub fn new_constant_time(duration: Duration, frames: Vec<(u32, u32)>) -> (r: Self)
        ensures
            r.frames().len() == frames@.len(),
            forall|i: int| 0 <= i < frames@.len() ==> #[trigger] r.frames()[i] == (duration, frames@[i]),
            r.current() == 0,
            !r.started(),
            r.wf(),
    {
        let mut timed_frames: Vec<(Duration, (u32, u32))> = Vec::new();
        let mut i: usize = 0;
        while i < frames.len()
            invariant
                i <= frames@.len(),
                timed_frames@.len() == i,
                forall|j: int| 0 <= j < i ==> #[trigger] timed_frames@[j] == (duration, frames@[j]),
            decreases frames@.len() - i,
        {
            timed_frames.push((duration, frames[i]));
            i = i + 1;
        }
        Self { frames: timed_frames, current_frame: 0, last_frame_time: None }
    }

    /// An animation of the given frames.
    pub fn new(timed_frames: Vec<(Duration, (u32, u32))>) -> (r: Self)
        ensures
            r.frames() == timed_frames@,
            r.current() == 0,
            !r.started(),
            r.wf(),
    {
        Self { frames: timed_frames, current_frame: 0, last_frame_time: None }
    }

    /// How long the frame shown lasts.
    pub fn frame_duration(&self) -> (d: Duration)
        requires
            self.wf(),
            self.frames().len() > 0,
        ensures
            d == self.frames()[self.current()].0,
    {
        self.frames[self.current_frame].0
    }

    /// One update given whether the shown frame's time is up: an animation that
    /// has not started shows its first frame; a started one whose frame's time is
    /// up shows the next frame, after the last the first again. The sprite is set
    /// to the tile shown; `now` becomes the time the frame began.
    pub fn step(&mut self, sprite: &mut SpriteSheetSprite, frame_time_up: bool, now: Instant)
        requires
            old(self).wf(),
            old(self).frames().len() > 0,
        ensures
            final(self).wf(),
            final(self).frames() == old(self).frames(),
            final(self).started(),
            !old(self).started() ==> final(self).current() == 0,
            old(self).started() && frame_time_up ==> final(self).current() == (old(self).current() + 1)
                % (old(self).frames().len() as int),
            !old(self).started() || frame_time_up ==> final(self).frame_start() == Some(now),
            old(self).started() && !frame_time_up ==> final(self).current() == old(self).current()
                && *final(self) == *old(self) && *final(sprite) == *old(sprite),
            !old(self).started() || frame_time_up ==> *final(sprite) == (SpriteSheetSprite {
                tile_x: final(self).frames()[final(self).current()].1.0,
                tile_y: final(self).frames()[final(self).current()].1.1,
                ..*old(sprite)
            }),
    {
        if self.last_frame_time.is_some() {
            if frame_time_up {
                let n = self.frames.len();
                self.current_frame = (self.current_frame + 1) % n;
                self.last_frame_time = Some(now);
                let (_, tile) = self.frames[self.current_frame];
                sprite.set_tile(tile.0, tile.1);
            }
        } else {
            self.current_frame = 0;
            let (_, tile) = self.frames[self.current_frame];
            sprite.set_tile(tile.0, tile.1);
            self.last_frame_time = Some(now);
        }
    }
}

/// The animation update of a shown sprite: starts the animation, or moves it to
/// its next frame once the shown frame's time is up.
pub fn animation_update(sprite: &mut SpriteSheetSprite, animation: &mut SpriteAnimation)
    requires
        old(animation).wf(),
        old(animation).frames().len() > 0,
    ensures
        final(animation).wf(),
        final(animation).frames() == old(animation).frames(),
        final(animation).started(),
        !old(animation).started() ==> final(animation).current() == 0 && *final(sprite) == (SpriteSheetSprite {
            tile_x: final(animation).frames()[0].1.0,
            tile_y: final(animation).frames()[0].1.1,
            ..*old(sprite)
        }),
        old(animation).started() ==> (*final(animation) == *old(animation) && *final(sprite) == *old(sprite))
            || (final(animation).current() == (old(animation).current() + 1) % (old(
            animation).frames().len() as int) && *final(sprite) == (SpriteSheetSprite {
            tile_x: final(animation).frames()[final(animation).current()].1.0,
            tile_y: final(animation).frames()[final(animation).current()].1.1,
            ..*old(sprite)
        })),
{
    let due = match &animation.last_frame_time {
        Some(last) => elapsed_longer_than(last, animation.frame_duration()),
        None => false,
    };
    let now = instant_now();
    animation.step(sprite, due, now);
}

} // verus!
