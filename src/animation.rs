//! Animation definitions, the playback state of one animation, and the
//! clock that turns elapsed time into the frame on screen.

use vstd::prelude::*;
use crate::geometry::{is_usable, IRect, ImageSizeResult};
use crate::source::AnimationSource;
use vstd::arithmetic::div_mod::lemma_fundamental_div_mod;

verus! {

/// The number of whole frames played after `timer` microseconds, when each
/// frame lasts `interval / interval_div` microseconds.
pub open spec fn frames_played(timer: int, interval: int, interval_div: int) -> int {
    (timer * interval_div) / interval
}

/// The frame shown after `timer` microseconds of playback, with frames of
/// `interval / interval_div` microseconds and `frames` frames: it wraps around
/// when looping and stays on the last frame otherwise.
pub open spec fn clock_frame(
    timer: int,
    interval: int,
    interval_div: int,
    frames: int,
    looping: bool,
) -> int {
    let idx = frames_played(timer, interval, interval_div);
    if looping {
        idx % frames
    } else if idx >= frames {
        frames - 1
    } else {
        idx
    }
}

/// A one-shot animation is finished once it has run past its last frame.
pub open spec fn clock_finished(
    timer: int,
    interval: int,
    interval_div: int,
    frames: int,
    looping: bool,
) -> bool {
    !looping && frames_played(timer, interval, interval_div) >= frames
}

/// `timer + delta`, held at the largest `u64` rather than overflowing.
pub open spec fn clock_add(timer: int, delta: int) -> int {
    if timer + delta <= u64::MAX {
        timer + delta
    } else {
        u64::MAX as int
    }
}

/// The ratio `elapsed / duration`: time played over the length of one pass
/// through all frames, both scaled by the interval's divisor so that the
/// ratio is exact. It is not clamped and exceeds one after a one-shot
/// animation has finished.
#[derive(Clone, Copy, Debug, PartialEq, Eq, Structural)]
pub struct Progress {
    pub elapsed: u128,
    pub duration: u128,
}

/// Looks up texture sizes for spritesheets. The lookup must not block: a
/// texture that is still loading is answered with `LoadingInProgress`.
pub trait TextureSizes {
    /// The size of the texture named `name`, as far as it is known now.
    fn image_size(&self, name: &str) -> ImageSizeResult;

    /// Told of a texture whose size could not be had; rendering goes on.
    fn report_missing(&self, name: &str);
}

/// An immutable animation definition: a name, its frames, whether it loops,
/// and how many microseconds each frame lasts.
#[derive(Debug)]
pub struct Animation {
    pub name: String,
    pub source: AnimationSource,
    pub looping: bool,
    /// Microseconds per frame.
    pub frame_time: u64,
}

impl Clone for Animation {
    fn clone(&self) -> (r: Self)
        ensures
            r == *self,
    {
        Animation {
            name: self.name.clone(),
            source: self.source.clone(),
            looping: self.looping,
            frame_time: self.frame_time,
        }
    }
}

impl Animation {
    /// A valid source and a positive frame time.
    pub open spec fn wf(&self) -> bool {
        self.source.wf() && self.frame_time > 0
    }

    /// The playback state at the start of this animation.
    pub open spec fn initial_state(&self) -> AnimationState {
        AnimationState {
            animation_name: self.name,
            source: self.source,
            interval: self.frame_time,
            interval_div: 1,
            looping: self.looping,
            timer: 0,
            current_frame: 0,
        }
    }

    /// Whether the definition is well formed: a valid source and a positive
    /// frame time.
    pub fn is_valid(&self) -> (r: bool)
        ensures
            r == self.wf(),
    {
        self.frame_time > 0 && self.source.is_valid()
    }

    /// Starts playing this animation from its first frame.
    pub fn to_state(&self) -> (r: AnimationState)
        requires
            self.wf(),
        ensures
            r == self.initial_state(),
            r.wf(),
    {
        proof {
            self.source.lemma_frame_count_positive();
        }
        AnimationState {
            animation_name: self.name.clone(),
            source: self.source.clone(),
            interval: self.frame_time,
            interval_div: 1,
            looping: self.looping,
            timer: 0,
            current_frame: 0,
        }
    }
}

/// The playback of one animation: which one, its frames, its clock.
#[derive(Debug)]
pub struct AnimationState {
    pub animation_name: String,
    pub source: AnimationSource,
    /// Each frame lasts `interval / interval_div` microseconds.
    pub interval: u64,
    pub interval_div: u64,
    pub looping: bool,
    /// Microseconds played so far.
    pub timer: u64,
    pub current_frame: i32,
}

impl Clone for AnimationState {
    fn clone(&self) -> (r: Self)
        ensures
            r == *self,
    {
        AnimationState {
            animation_name: self.animation_name.clone(),
            source: self.source.clone(),
            interval: self.interval,
            interval_div: self.interval_div,
            looping: self.looping,
            timer: self.timer,
            current_frame: self.current_frame,
        }
    }
}

impl AnimationState {
    /// A valid source, a positive frame length, and a frame within the source.
    pub open spec fn wf(&self) -> bool {
        &&& self.source.wf()
        &&& self.interval > 0
        &&& self.interval_div > 0
        &&& 0 <= self.current_frame < self.source.frame_count()
    }

    /// The frame the clock gives for `timer` microseconds of playback.
    pub open spec fn frame_at(&self, timer: int) -> int {
        clock_frame(
            timer,
            self.interval as int,
            self.interval_div as int,
            self.source.frame_count(),
            self.looping,
        )
    }

    /// Whether the clock reports the animation finished at its current time.
    pub open spec fn is_finished(&self) -> bool {
        clock_finished(
            self.timer as int,
            self.interval as int,
            self.interval_div as int,
            self.source.frame_count(),
            self.looping,
        )
    }

    /// `after` is `before` advanced by `delta` microseconds.
    pub open spec fn advanced(before: AnimationState, after: AnimationState, delta: int) -> bool {
        &&& after.animation_name == before.animation_name
        &&& after.source == before.source
        &&& after.interval == before.interval
        &&& after.interval_div == before.interval_div
        &&& after.looping == before.looping
        &&& after.timer == clock_add(before.timer as int, delta)
        &&& after.current_frame == after.frame_at(after.timer as int)
    }

    /// Whether the state is well formed: its source is, its frame length is
    /// positive, and its current frame is one of the source's.
    pub fn is_valid(&self) -> (r: bool)
        ensures
            r == self.wf(),
    {
        if !self.source.is_valid() {
            return false;
        }
        self.interval > 0 && self.interval_div > 0 && 0 <= self.current_frame
            && self.current_frame < self.source.frames()
    }

    /// A state at the start of `source`, whose whole clip lasts `time`
    /// microseconds: each frame lasts exactly `time / frame count`
    /// microseconds, kept as that fraction.
    pub fn new(animation_name: String, source: AnimationSource, time: u64, looping: bool) -> (r: Self)
        requires
            source.wf(),
            time > 0,
        ensures
            r.wf(),
            r.animation_name == animation_name,
            r.source == source,
            r.interval == time,
            r.interval_div == source.frame_count(),
            r.interval * source.frame_count() == time * r.interval_div,
            r.looping == looping,
            r.timer == 0,
            r.current_frame == 0,
    {
        let frames = source.frames() as u64;
        AnimationState {
            animation_name,
            looping,
            interval: time,
            interval_div: frames,
            timer: 0,
            current_frame: 0,
            source,
        }
    }

    /// The same state with its clock set to `timer` microseconds.
    pub fn with_timer(self, timer: u64) -> (r: Self)
        ensures
            r == (AnimationState { timer, ..self }),
    {
        AnimationState { timer, ..self }
    }

    /// Time played over the length of one pass through all frames.
    pub fn progress(&self) -> (r: Progress)
        requires
            self.wf(),
        ensures
            r.elapsed == self.timer * self.interval_div,
            r.duration == self.interval * self.source.frame_count(),
    {
        let frames = self.source.frames() as u128;
        proof {
            assert(self.interval * frames <= u64::MAX * i32::MAX) by (nonlinear_arith)
                requires self.interval <= u64::MAX, 0 <= frames <= i32::MAX;
            assert(self.timer * self.interval_div <= u64::MAX * u64::MAX) by (nonlinear_arith)
                requires self.timer <= u64::MAX, self.interval_div <= u64::MAX;
        }
        Progress {
            elapsed: self.timer as u128 * self.interval_div as u128,
            duration: self.interval as u128 * frames,
        }
    }

    /// Advances the clock by `delta` microseconds, moves to the frame the
    /// clock gives, and tells whether a one-shot animation has finished. The
    /// clock stops at the largest `u64` rather than overflowing.
    pub fn update_and_finished(&mut self, delta: u64) -> (finished: bool)
        requires
            old(self).wf(),
        ensures
            final(self).wf(),
            AnimationState::advanced(*old(self), *final(self), delta as int),
            final(self).timer == clock_add(old(self).timer as int, delta as int),
            final(self).current_frame == clock_frame(
                final(self).timer as int,
                final(self).interval as int,
                final(self).interval_div as int,
                final(self).source.frame_count(),
                final(self).looping,
            ),
            finished == final(self).is_finished(),
    {
        self.timer = if delta <= u64::MAX - self.timer {
            self.timer + delta
        } else {
            u64::MAX
        };
        proof {
            assert(self.timer * self.interval_div <= u64::MAX * u64::MAX) by (nonlinear_arith)
                requires self.timer <= u64::MAX, self.interval_div <= u64::MAX;
        }
        let idx = (self.timer as u128 * self.interval_div as u128) / self.interval as u128;
        let frames = self.source.frames();
        let count = frames as u128;
        let finished = idx >= count && !self.looping;
        if self.looping {
            self.current_frame = (idx % count) as i32;
        } else if idx >= count {
            self.current_frame = frames - 1;
        } else {
            self.current_frame = idx as i32;
        }
        finished
    }

    /// Texture name and source rectangle of the current frame. For a
    /// spritesheet the texture's size is asked of `textures`, and the sheet is
    /// cut as [`AnimationSource::rect_for`] says for that answer; an answer
    /// that is neither a usable size nor `LoadingInProgress` is reported to
    /// `textures`.
    pub fn current_rect<T: TextureSizes>(&self, textures: &T) -> (r: (String, Option<IRect>))
        requires
            self.wf(),
        ensures
            r.0@ == self.source.texture_of(self.current_frame as int),
            exists|size: ImageSizeResult| self.source.rect_of(self.current_frame as int, size, r.1),
    {
        let size = match &self.source {
            AnimationSource::Spritesheet { name, .. } => {
                let size = textures.image_size(name.as_str());
                let loading = match size {
                    ImageSizeResult::LoadingInProgress => true,
                    _ => false,
                };
                if !loading && !is_usable(size) {
                    textures.report_missing(name.as_str());
                }
                size
            },
            _ => ImageSizeResult::LoadingInProgress,
        };
        let r = self.source.rect_for(self.current_frame, size);
        assert(self.source.rect_of(self.current_frame as int, size, r.1));
        r
    }
}

/// A one-shot animation reports finished exactly when its time reaches frame
/// count times the frame length, shows its last frame from then on, and never
/// shows a frame past the last.
pub proof fn lemma_one_shot_finish(timer: nat, interval: nat, interval_div: nat, frames: nat)
    requires
        interval > 0,
        interval_div > 0,
        frames >= 1,
    ensures
        clock_finished(timer as int, interval as int, interval_div as int, frames as int, false)
            == (timer * interval_div >= frames * interval),
        timer * interval_div >= frames * interval ==> clock_frame(
            timer as int,
            interval as int,
            interval_div as int,
            frames as int,
            false,
        ) == frames - 1,
        0 <= clock_frame(timer as int, interval as int, interval_div as int, frames as int, false)
            <= frames - 1,
{
    let t = timer * interval_div;
    assert(t >= 0) by (nonlinear_arith)
        requires t == timer * interval_div, timer >= 0, interval_div >= 0;
    lemma_fundamental_div_mod(t as int, interval as int);
    let q = t as int / interval as int;
    let m = t as int % interval as int;
    assert((q >= frames) == (t >= frames * interval)) by (nonlinear_arith)
        requires
            t == interval * q + m,
            0 <= m < interval,
            interval > 0;
    assert(q >= 0) by (nonlinear_arith)
        requires
            t == interval * q + m,
            0 <= m < interval,
            t >= 0;
}

/// The sum of a sequence of time steps.
pub open spec fn total(deltas: Seq<int>) -> int
    decreases deltas.len(),
{
    if deltas.len() == 0 {
        0
    } else {
        total(deltas.drop_last()) + deltas.last()
    }
}

/// After any sequence of advances of a looping animation, however many frames
/// each step skips, the clock holds the sum of the steps (while that fits a
/// `u64`) and the frame shown is the number of whole frames played, modulo
/// the frame count.
pub proof fn lemma_looping_any_deltas(states: Seq<AnimationState>, deltas: Seq<int>)
    requires
        deltas.len() >= 1,
        states.len() == deltas.len() + 1,
        states[0].looping,
        forall|i: int| 0 <= i < deltas.len() ==> #[trigger] deltas[i] >= 0,
        states[0].timer + total(deltas) <= u64::MAX,
        forall|i: int|
            0 <= i < deltas.len() ==> AnimationState::advanced(
                #[trigger] states[i],
                states[i + 1],
                deltas[i],
            ),
    ensures
        states.last().looping,
        states.last().interval == states[0].interval,
        states.last().interval_div == states[0].interval_div,
        states.last().source == states[0].source,
        states.last().timer == states[0].timer + total(deltas),
        states.last().current_frame == frames_played(
            states.last().timer as int,
            states[0].interval as int,
            states[0].interval_div as int,
        ) % states[0].source.frame_count(),
    decreases deltas.len(),
{
    let n = deltas.len() as int;
    assert(AnimationState::advanced(states[n - 1], states[n], deltas[n - 1]));
    assert(deltas[n - 1] >= 0);
    if n > 1 {
        let earlier = states.drop_last();
        let fewer = deltas.drop_last();
        assert forall|i: int| 0 <= i < fewer.len() implies #[trigger] fewer[i] >= 0 by {
            assert(deltas[i] >= 0);
        }
        assert forall|i: int| 0 <= i < fewer.len() implies AnimationState::advanced(
            #[trigger] earlier[i],
            earlier[i + 1],
            fewer[i],
        ) by {
            assert(AnimationState::advanced(states[i], states[i + 1], deltas[i]));
        }
        lemma_looping_any_deltas(earlier, fewer);
        assert(earlier.last() == states[n - 1]);
    } else {
        assert(total(deltas.drop_last()) == 0);
    }
}

/// Advancing by zero right after an advance changes neither the frame shown
/// nor whether the animation is finished.
pub proof fn lemma_zero_delta(s0: AnimationState, s1: AnimationState, s2: AnimationState, delta: int)
    requires
        AnimationState::advanced(s0, s1, delta),
        AnimationState::advanced(s1, s2, 0),
    ensures
        s2.current_frame == s1.current_frame,
        s2.is_finished() == s1.is_finished(),
{
}

} // verus!
