//! Tile animations: a sequence of frames, each shown for a number of
//! milliseconds, played once or in a loop. Time passes in microseconds.
use crate::tiles::tileset::{TileData, TileId, TilesetData, frames_view};
use std::collections::HashMap;
use std::sync::Arc;
use vstd::prelude::*;

verus! {

broadcast use vstd::std_specs::hash::group_hash_axioms;

/// A frame of an animation: the tile shown and for how many milliseconds.
#[derive(Clone, Copy, Debug, PartialEq, Eq, Structural)]
pub struct Frame {
    pub tile_id: u32,
    pub duration: u32,
}

/// What an animation is at a moment.
pub struct AnimationView {
    pub is_paused: bool,
    pub is_finished: bool,
    pub should_loop: bool,
    pub current_frame: nat,
    /// Microseconds spent on the current frame.
    pub frame_time: nat,
    pub frames: Seq<Frame>,
}

impl AnimationView {
    /// The invariant of every animation: the current frame is one of the
    /// frames (the first, where there is none), and only an animation with
    /// frames that does not loop can be finished.
    pub open spec fn wf(self) -> bool {
        &&& self.current_frame < self.frames.len() || (self.frames.len() == 0
            && self.current_frame == 0)
        &&& self.is_finished ==> self.frames.len() > 0 && !self.should_loop
        &&& self.frame_time <= u64::MAX
    }

    /// Whether the animation advances when time passes.
    pub open spec fn is_playing(self) -> bool {
        !self.is_paused && !self.is_finished
    }

    /// The animation after `dt` microseconds more: a playing animation adds
    /// `dt` to the time spent on its frame (saturating at the largest `u64`),
    /// and once that time reaches the frame's duration it subtracts the duration
    /// and moves to the next frame, once per step at most. Past the last frame a
    /// looping animation starts again at the first, any other one finishes
    /// (and keeps its last frame as the current one).
    pub open spec fn updated(self, dt: nat) -> AnimationView {
        if !self.is_playing() {
            self
        } else {
            let time = if self.frame_time + dt > u64::MAX {
                u64::MAX as nat
            } else {
                self.frame_time + dt
            };
            let duration = self.frames[self.current_frame as int].duration * 1000;
            if time >= duration {
                let next = self.current_frame + 1;
                if next == self.frames.len() {
                    if self.should_loop {
                        AnimationView { current_frame: 0, frame_time: (time - duration) as nat, ..self }
                    } else {
                        AnimationView {
                            frame_time: (time - duration) as nat,
                            is_finished: true,
                            ..self
                        }
                    }
                } else {
                    AnimationView { current_frame: next, frame_time: (time - duration) as nat, ..self }
                }
            } else {
                AnimationView { frame_time: time, ..self }
            }
        }
    }
}

/// A tile animation. Its view always meets `AnimationView::wf`: the
/// methods that read an animation say so.
pub struct Animation {
    is_paused: bool,
    is_finished: bool,
    should_loop: bool,
    current_frame: usize,
    frame_time: u64,
    frames: Arc<Vec<Frame>>,
}

impl View for Animation {
    type V = AnimationView;

    closed spec fn view(&self) -> AnimationView {
        AnimationView {
            is_paused: self.is_paused,
            is_finished: self.is_finished,
            should_loop: self.should_loop,
            current_frame: self.current_frame as nat,
            frame_time: self.frame_time as nat,
            frames: self.frames@,
        }
    }
}

impl Animation {
    #[verifier::type_invariant]
    closed spec fn inv(self) -> bool {
        self@.wf()
    }

    pub fn builder(frames: Arc<Vec<Frame>>) -> (builder: AnimationBuilder)
        ensures
            builder.frames@ == frames@,
            !builder.should_loop,
            !builder.is_paused,
    {
        AnimationBuilder::new(frames)
    }

    /// The tile of the current frame.
    pub fn get_current_tile_id(&self) -> (tile_id: TileId)
        requires
            !self@.is_finished,
            self@.frames.len() > 0,
        ensures
            self@.current_frame < self@.frames.len(),
            tile_id == self@.frames[self@.current_frame as int].tile_id,
    {
        proof {
            use_type_invariant(self);
        }
        self.frames[self.current_frame].tile_id
    }

    pub fn play(&mut self)
        ensures
            final(self)@ == (AnimationView { is_paused: false, ..old(self)@ }),
    {
        proof {
            use_type_invariant(&*self);
        }
        self.is_paused = false;
    }

    pub fn pause(&mut self)
        ensures
            final(self)@ == (AnimationView { is_paused: true, ..old(self)@ }),
    {
        proof {
            use_type_invariant(&*self);
        }
        self.is_paused = true;
    }

    pub fn is_playing(&self) -> (playing: bool)
        ensures
            playing == self@.is_playing(),
            self@.wf(),
    {
        proof {
            use_type_invariant(self);
        }
        !self.is_paused && !self.is_finished
    }

    pub fn number_of_frames(&self) -> (n: usize)
        ensures
            n == self@.frames.len(),
            self@.wf(),
    {
        proof {
            use_type_invariant(self);
        }
        self.frames.len()
    }

    pub fn is_finished(&self) -> (finished: bool)
        ensures
            finished == self@.is_finished,
            self@.wf(),
    {
        proof {
            use_type_invariant(self);
        }
        self.is_finished
    }

    /// Lets `dt` microseconds pass.
    pub fn update(&mut self, dt: u64)
        requires
            old(self)@.is_playing() ==> old(self)@.frames.len() > 0,
        ensures
            final(self)@ == old(self)@.updated(dt as nat),
    {
        proof {
            use_type_invariant(&*self);
        }
        if self.is_paused || self.is_finished {
            return ;
        }
        let number_of_frames = self.frames.len();
        let time = self.frame_time.saturating_add(dt);
        let frame_duration = self.frames[self.current_frame].duration as u64 * 1000;
        if time >= frame_duration {
            let next = self.current_frame + 1;
            if next == number_of_frames {
                if self.should_loop {
                    self.frame_time = time - frame_duration;
                    self.current_frame = 0;
                } else {
                    self.frame_time = time - frame_duration;
                    self.is_finished = true;
                }
            } else {
                self.frame_time = time - frame_duration;
                self.current_frame = next;
            }
        } else {
            self.frame_time = time;
        }
    }

    /// The animation frames of the animated tiles of `tileset`, under their
    /// global ids, or their ids local to the tileset where `from_tilemap`.
    pub fn load_animation_frames_from_tileset(tileset: &TilesetData, from_tilemap: bool) -> (frames:
        HashMap<u32, Arc<Vec<Frame>>>)
        requires
            from_tilemap || animated_ids_fit(tileset.tiles@, tileset.first_gid),
            from_tilemap || frame_ids_fit(tileset.tiles@, tileset.first_gid),
        ensures
            frames_view(frames@) == tile_animation_frames(
                tileset.tiles@,
                if from_tilemap {
                    0
                } else {
                    tileset.first_gid
                },
            ),
    {
        let offset: u32 = if from_tilemap {
            0
        } else {
            tileset.first_gid
        };
        let mut frames: HashMap<u32, Arc<Vec<Frame>>> = HashMap::new();
        for i in 0..tileset.tiles.len()
            invariant
                animated_ids_fit(tileset.tiles@, offset),
                frame_ids_fit(tileset.tiles@, offset),
                frames_view(frames@) == tile_animation_frames(tileset.tiles@.take(i as int), offset),
        {
            let tile = &tileset.tiles[i];
            assert(tileset.tiles@.take(i + 1).drop_last() =~= tileset.tiles@.take(i as int));
            match &tile.animation {
                Some(tile_frames) => {
                    let converted = Self::convert_tiled_frames(tile_frames, offset);
                    let tile_id = tile.id + offset;
                    let ghost before = frames@;
                    frames.insert(tile_id, Arc::new(converted));
                    assert(frames_view(frames@) =~= frames_view(before).insert(
                        tile_id,
                        shifted_frames(tile_frames@, offset),
                    ));
                },
                None => {},
            }
        }
        assert(tileset.tiles@.take(tileset.tiles@.len() as int) =~= tileset.tiles@);
        frames
    }

    /// The frames `frames` with each tile id offset by `offset`.
    fn convert_tiled_frames(frames: &Vec<Frame>, offset: u32) -> (converted: Vec<Frame>)
        requires
            forall|j: int| 0 <= j < frames@.len() ==> #[trigger] frames@[j].tile_id + offset <= u32::MAX,
        ensures
            converted@ == shifted_frames(frames@, offset),
    {
        let mut converted: Vec<Frame> = Vec::new();
        for j in 0..frames.len()
            invariant
                forall|k: int| 0 <= k < frames@.len() ==> #[trigger] frames@[k].tile_id + offset <= u32::MAX,
                converted@ == shifted_frames(frames@.take(j as int), offset),
        {
            let frame = frames[j];
            converted.push(Frame { tile_id: frame.tile_id + offset, duration: frame.duration });
            assert(converted@ =~= shifted_frames(frames@.take(j + 1), offset));
        }
        assert(frames@.take(frames@.len() as int) =~= frames@);
        converted
    }
}

/// Time passing keeps the invariant of an animation.
pub proof fn lemma_update_keeps_wf(animation: AnimationView, dt: nat)
    requires
        animation.wf(),
        animation.is_playing() ==> animation.frames.len() > 0,
    ensures
        animation.updated(dt).wf(),
        animation.updated(dt).frames == animation.frames,
        animation.updated(dt).should_loop == animation.should_loop,
        animation.updated(dt).is_paused == animation.is_paused,
{
}

/// A looping animation never finishes.
pub proof fn lemma_looping_never_finishes(animation: AnimationView, dt: nat)
    requires
        animation.wf(),
        animation.should_loop,
        animation.frames.len() > 0,
    ensures
        !animation.updated(dt).is_finished,
{
}

/// A paused or finished animation stays as it is while time passes.
pub proof fn lemma_stopped_animation_unchanged(animation: AnimationView, dt: nat)
    requires
        !animation.is_playing(),
    ensures
        animation.updated(dt) == animation,
{
}

/// Frames follow each other in order: after time passes, the current frame is
/// the same, the next one, or the first again after the last one of a looping
/// animation.
pub proof fn lemma_frames_in_order(animation: AnimationView, dt: nat)
    requires
        animation.wf(),
        animation.frames.len() > 0,
    ensures
        ({
            let next = animation.updated(dt).current_frame;
            ||| next == animation.current_frame
            ||| next == animation.current_frame + 1
            ||| (next == 0 && animation.should_loop && animation.current_frame + 1
                == animation.frames.len())
        }),
{
}

/// A frame stays while less time than its duration has passed on it, and the
/// animation moves on once its duration has passed.
pub proof fn lemma_frame_shown_for_its_duration(animation: AnimationView, dt: nat)
    requires
        animation.wf(),
        animation.frames.len() > 0,
        animation.is_playing(),
        animation.frame_time + dt <= u64::MAX,
    ensures
        animation.frame_time + dt < animation.frames[animation.current_frame as int].duration
            * 1000 ==> animation.updated(dt).current_frame == animation.current_frame
            && animation.updated(dt).frame_time == animation.frame_time + dt,
        animation.frame_time + dt >= animation.frames[animation.current_frame as int].duration
            * 1000 ==> animation.updated(dt).frame_time == animation.frame_time + dt
            - animation.frames[animation.current_frame as int].duration * 1000 && (
        animation.updated(dt).current_frame != animation.current_frame
            || animation.updated(dt).is_finished || animation.frames.len() == 1),
{
}

/// An animation that does not loop finishes once the duration of its last
/// frame has passed.
pub proof fn lemma_finishes_after_last_frame(animation: AnimationView, dt: nat)
    requires
        animation.wf(),
        animation.is_playing(),
        !animation.should_loop,
        animation.current_frame + 1 == animation.frames.len(),
        animation.frame_time + dt >= animation.frames[animation.current_frame as int].duration
            * 1000,
    ensures
        animation.updated(dt).is_finished,
        animation.updated(dt).current_frame == animation.current_frame,
{
}

/// A call on an animation: time passing (in microseconds), `play` or `pause`.
pub enum AnimationCall {
    Update(nat),
    Play,
    Pause,
}

impl AnimationView {
    /// The animation after `call`, as `update`, `play` and `pause` leave it.
    pub open spec fn called(self, call: AnimationCall) -> AnimationView {
        match call {
            AnimationCall::Update(dt) => self.updated(dt),
            AnimationCall::Play => AnimationView { is_paused: false, ..self },
            AnimationCall::Pause => AnimationView { is_paused: true, ..self },
        }
    }

    /// The animation after `calls`, made first to last.
    pub open spec fn after_calls(self, calls: Seq<AnimationCall>) -> AnimationView
        decreases calls.len(),
    {
        if calls.len() == 0 {
            self
        } else {
            self.after_calls(calls.drop_last()).called(calls.last())
        }
    }

    /// The animation that a builder of `frames` builds.
    pub open spec fn built(frames: Seq<Frame>, should_loop: bool, is_paused: bool) -> AnimationView {
        AnimationView {
            is_paused,
            is_finished: false,
            should_loop,
            current_frame: 0,
            frame_time: 0,
            frames,
        }
    }
}

/// How many of `calls` let time pass.
pub open spec fn count_updates(calls: Seq<AnimationCall>) -> nat
    decreases calls.len(),
{
    if calls.len() == 0 {
        0
    } else {
        count_updates(calls.drop_last()) + if calls.last() is Update {
            1nat
        } else {
            0nat
        }
    }
}

/// A call keeps the invariant, the frames and whether the animation loops.
pub proof fn lemma_call_keeps_wf(animation: AnimationView, call: AnimationCall)
    requires
        animation.wf(),
        animation.frames.len() > 0,
    ensures
        animation.called(call).wf(),
        animation.called(call).frames == animation.frames,
        animation.called(call).should_loop == animation.should_loop,
        animation.is_finished ==> animation.called(call).is_finished
            && animation.called(call).current_frame == animation.current_frame,
{
}

/// An animation finishes exactly at the call that lets the duration of the
/// last frame pass on an animation that plays and does not loop.
pub proof fn lemma_finishes_exactly_after_last_frame(animation: AnimationView, call: AnimationCall)
    requires
        animation.wf(),
        animation.frames.len() > 0,
        !animation.is_finished,
    ensures
        animation.called(call).is_finished <==> (call is Update && animation.is_playing()
            && !animation.should_loop && animation.current_frame + 1 == animation.frames.len()
            && min_time(animation.frame_time + call->Update_0)
            >= animation.frames[animation.current_frame as int].duration * 1000),
{
}

/// `time`, saturated at the largest `u64`.
pub open spec fn min_time(time: nat) -> nat {
    if time > u64::MAX {
        u64::MAX as nat
    } else {
        time
    }
}

/// Any calls keep the invariant, the frames and whether the animation loops;
/// a finished animation stays finished, on the same frame, and never plays
/// again.
pub proof fn lemma_calls_keep_wf(animation: AnimationView, calls: Seq<AnimationCall>)
    requires
        animation.wf(),
        animation.frames.len() > 0,
    ensures
        animation.after_calls(calls).wf(),
        animation.after_calls(calls).frames == animation.frames,
        animation.after_calls(calls).should_loop == animation.should_loop,
        animation.is_finished ==> animation.after_calls(calls).is_finished
            && !animation.after_calls(calls).is_playing()
            && animation.after_calls(calls).current_frame == animation.current_frame,
    decreases calls.len(),
{
    if calls.len() > 0 {
        lemma_calls_keep_wf(animation, calls.drop_last());
        lemma_call_keeps_wf(animation.after_calls(calls.drop_last()), calls.last());
    }
}

/// Once an animation has finished, it stays finished and stopped whatever
/// calls follow.
pub proof fn lemma_finished_stays_finished(
    animation: AnimationView,
    calls: Seq<AnimationCall>,
    i: int,
)
    requires
        animation.wf(),
        animation.frames.len() > 0,
        0 <= i <= calls.len(),
        animation.after_calls(calls.take(i)).is_finished,
    ensures
        animation.after_calls(calls).is_finished,
        !animation.after_calls(calls).is_playing(),
{
    lemma_after_calls_split(animation, calls, i);
    lemma_calls_keep_wf(animation, calls.take(i));
    lemma_calls_keep_wf(animation.after_calls(calls.take(i)), calls.skip(i));
}

/// Making `calls` is making their first `i`, then the rest.
pub proof fn lemma_after_calls_split(animation: AnimationView, calls: Seq<AnimationCall>, i: int)
    requires
        0 <= i <= calls.len(),
    ensures
        animation.after_calls(calls) == animation.after_calls(calls.take(i)).after_calls(
            calls.skip(i),
        ),
    decreases calls.len(),
{
    if calls.len() > i {
        lemma_after_calls_split(animation, calls.drop_last(), i);
        assert(calls.drop_last().take(i) =~= calls.take(i));
        assert(calls.skip(i).drop_last() =~= calls.drop_last().skip(i));
        assert(calls.skip(i).last() == calls.last());
    } else {
        assert(calls.take(i) =~= calls);
        assert(calls.skip(i) =~= Seq::<AnimationCall>::empty());
    }
}

/// An animation built not to loop, from some frames, can only have finished
/// after at least as many calls that let time pass as it has frames.
pub proof fn lemma_finishing_takes_every_frame(
    frames: Seq<Frame>,
    is_paused: bool,
    calls: Seq<AnimationCall>,
)
    requires
        frames.len() > 0,
    ensures
        AnimationView::built(frames, false, is_paused).after_calls(calls).is_finished
            ==> count_updates(calls) >= frames.len(),
{
    lemma_frames_counted(frames, is_paused, calls);
}

/// The frames that an animation built not to loop has moved past are at
/// most the calls that let time pass.
proof fn lemma_frames_counted(frames: Seq<Frame>, is_paused: bool, calls: Seq<AnimationCall>)
    requires
        frames.len() > 0,
    ensures
        ({
            let after = AnimationView::built(frames, false, is_paused).after_calls(calls);
            &&& after.current_frame + (if after.is_finished {
                1nat
            } else {
                0nat
            }) <= count_updates(calls)
            &&& after.is_finished ==> after.current_frame + 1 == frames.len()
        }),
    decreases calls.len(),
{
    let start = AnimationView::built(frames, false, is_paused);
    lemma_calls_keep_wf(start, calls);
    if calls.len() > 0 {
        lemma_frames_counted(frames, is_paused, calls.drop_last());
        lemma_calls_keep_wf(start, calls.drop_last());
    }
}

/// An animation built to loop, from some frames, never finishes whatever
/// calls are made, and its current frame is always one of its frames.
pub proof fn lemma_looping_plays_forever(
    frames: Seq<Frame>,
    is_paused: bool,
    calls: Seq<AnimationCall>,
)
    requires
        frames.len() > 0,
    ensures
        !AnimationView::built(frames, true, is_paused).after_calls(calls).is_finished,
        AnimationView::built(frames, true, is_paused).after_calls(calls).current_frame
            < frames.len(),
        AnimationView::built(frames, true, is_paused).after_calls(calls).frames == frames,
{
    lemma_calls_keep_wf(AnimationView::built(frames, true, is_paused), calls);
}

/// `frames` with each tile id offset by `offset`.
pub open spec fn shifted_frames(frames: Seq<Frame>, offset: u32) -> Seq<Frame> {
    frames.map_values(|f: Frame| Frame { tile_id: (f.tile_id + offset) as u32, duration: f.duration })
}

/// Whether every animated tile of `tiles` gets an id when offset by `offset`.
pub open spec fn animated_ids_fit(tiles: Seq<TileData>, offset: u32) -> bool {
    forall|i: int| 0 <= i < tiles.len() && (#[trigger] tiles[i]).animation is Some ==> tiles[i].id + offset <= u32::MAX
}

/// Whether every frame of an animated tile of `tiles` shows a tile that gets an
/// id when offset by `offset`.
pub open spec fn frame_ids_fit(tiles: Seq<TileData>, offset: u32) -> bool {
    forall|i: int|
        0 <= i < tiles.len() ==> match (#[trigger] tiles[i]).animation {
            Some(frames) => forall|j: int|
                0 <= j < frames@.len() ==> #[trigger] frames@[j].tile_id + offset <= u32::MAX,
            None => true,
        }
}

/// The animations of `tiles`, each under the tile's id offset by `offset`; a
/// later tile replaces an earlier one of the same id.
pub open spec fn tile_animation_frames(tiles: Seq<TileData>, offset: u32) -> Map<TileId, Seq<Frame>>
    decreases tiles.len(),
{
    if tiles.len() == 0 {
        Map::empty()
    } else {
        let earlier = tile_animation_frames(tiles.drop_last(), offset);
        match tiles.last().animation {
            Some(frames) => earlier.insert(
                (tiles.last().id + offset) as u32,
                shifted_frames(frames@, offset),
            ),
            None => earlier,
        }
    }
}

/// Builds an animation: by default it neither loops nor starts paused.
pub struct AnimationBuilder {
    pub frames: Arc<Vec<Frame>>,
    pub should_loop: bool,
    pub is_paused: bool,
}

impl AnimationBuilder {
    pub fn new(frames: Arc<Vec<Frame>>) -> (builder: Self)
        ensures
            builder.frames@ == frames@,
            !builder.should_loop,
            !builder.is_paused,
    {
        Self { frames, should_loop: false, is_paused: false }
    }

    pub fn looping(self, looping: bool) -> (builder: Self)
        ensures
            builder.frames@ == self.frames@,
            builder.should_loop == looping,
            builder.is_paused == self.is_paused,
    {
        let mut builder = self;
        builder.should_loop = looping;
        builder
    }

    pub fn paused(self, paused: bool) -> (builder: Self)
        ensures
            builder.frames@ == self.frames@,
            builder.should_loop == self.should_loop,
            builder.is_paused == paused,
    {
        let mut builder = self;
        builder.is_paused = paused;
        builder
    }

    /// The animation at its first frame, with no time spent on it.
    pub fn build(self) -> (animation: Animation)
        ensures
            animation@ == (AnimationView {
                is_paused: self.is_paused,
                is_finished: false,
                should_loop: self.should_loop,
                current_frame: 0,
                frame_time: 0,
                frames: self.frames@,
            }),
    {
        Animation {
            is_paused: self.is_paused,
            is_finished: false,
            should_loop: self.should_loop,
            current_frame: 0,
            frame_time: 0,
            frames: self.frames,
        }
    }
}

} // verus!
