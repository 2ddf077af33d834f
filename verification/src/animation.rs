//! The animation clock: frames that refer to each other by id, a table that
//! resolves the ids, and a per-entity clock that walks the frame graph as
//! time accumulates.

use vstd::hash_map::StringHashMap;
use vstd::prelude::*;

verus! {

/// One frame of an animation: the sprite to draw, how long the frame lasts,
/// and the frame that follows it.
#[derive(Clone, Debug, PartialEq, Eq)]
pub struct AnimationFrame {
    pub sprite_id: String,
    pub delay: u64,
    pub next_frame_id: String,
}

/// An [`AnimationFrame`] with its ids as sequences of characters.
pub struct FrameView {
    pub sprite_id: Seq<char>,
    pub delay: u64,
    pub next_frame_id: Seq<char>,
}

impl View for AnimationFrame {
    type V = FrameView;

    open spec fn view(&self) -> FrameView {
        FrameView {
            sprite_id: self.sprite_id@,
            delay: self.delay,
            next_frame_id: self.next_frame_id@,
        }
    }
}

impl AnimationFrame {
    pub fn new(sprite_id: String, delay: u64, next_frame_id: String) -> (frame: AnimationFrame)
        ensures
            frame@ == (FrameView {
                sprite_id: sprite_id@,
                delay,
                next_frame_id: next_frame_id@,
            }),
    {
        AnimationFrame { sprite_id, delay, next_frame_id }
    }
}

/// Why a frame was not taken into a table.
#[derive(Clone, Copy, Debug, PartialEq, Eq, Structural)]
pub enum FrameError {
    /// The frame lasts no time at all: a clock could pass through it without
    /// ever coming to rest.
    ZeroDelay,
}

/// The frames of all animations, keyed by frame id. Every frame in a table
/// has a delay above zero.
pub struct FrameTable {
    frames: StringHashMap<AnimationFrame>,
}

impl View for FrameTable {
    type V = Map<Seq<char>, FrameView>;

    closed spec fn view(&self) -> Map<Seq<char>, FrameView> {
        Map::new(
            |id: Seq<char>| self.frames@.contains_key(id),
            |id: Seq<char>| self.frames@[id]@,
        )
    }
}

impl FrameTable {
    #[verifier::type_invariant]
    spec fn delays_positive(self) -> bool {
        forall|id: Seq<char>| #[trigger]
            self.frames@.contains_key(id) ==> self.frames@[id].delay > 0
    }

    /// A table without frames.
    pub fn new() -> (table: FrameTable)
        ensures
            table@ == Map::<Seq<char>, FrameView>::empty(),
    {
        let table = FrameTable { frames: StringHashMap::new() };
        assert(table@ =~= Map::<Seq<char>, FrameView>::empty());
        table
    }

    /// Puts `frame` under `frame_id`, in place of any frame that was there.
    /// A frame with a delay of zero is refused and the table stays as it is.
    pub fn insert(&mut self, frame_id: String, frame: AnimationFrame) -> (done: Result<
        (),
        FrameError,
    >)
        ensures
            done is Ok <==> frame.delay > 0,
            done is Err ==> done == Err::<(), FrameError>(FrameError::ZeroDelay),
            final(self)@ == if frame.delay > 0 {
                old(self)@.insert(frame_id@, frame@)
            } else {
                old(self)@
            },
    {
        proof {
            use_type_invariant(&*self);
        }
        if frame.delay == 0 {
            Err(FrameError::ZeroDelay)
        } else {
            let ghost id = frame_id@;
            let ghost added = frame@;
            // The map leaves the table while it grows, so that the table is
            // whole at every moment.
            let mut frames = StringHashMap::new();
            std::mem::swap(&mut self.frames, &mut frames);
            frames.insert(frame_id, frame);
            std::mem::swap(&mut self.frames, &mut frames);
            assert(self@ =~= old(self)@.insert(id, added));
            Ok(())
        }
    }

    /// The frame under `frame_id`, if the table has one.
    pub fn get(&self, frame_id: &str) -> (frame: Option<&AnimationFrame>)
        ensures
            frame is Some <==> self@.contains_key(frame_id@),
            frame matches Some(f) ==> f@ == self@[frame_id@] && f.delay > 0,
    {
        proof {
            use_type_invariant(self);
        }
        self.frames.get(frame_id)
    }

    /// Whether the table has a frame under `frame_id`.
    pub fn contains_key(&self, frame_id: &str) -> (found: bool)
        ensures
            found == self@.contains_key(frame_id@),
    {
        self.frames.contains_key(frame_id)
    }

    /// The number of frames.
    pub fn len(&self) -> (count: usize)
        ensures
            count == self@.len(),
    {
        broadcast use vstd::hash_map::axiom_string_hash_map_spec_len;

        let count = self.frames.len();
        assert(self@.dom() =~= self.frames@.dom());
        count
    }
}

/// Where a clock comes to rest.
pub struct Settled {
    /// The frame the clock stops in.
    pub frame_id: Seq<char>,
    /// The time spent in that frame so far.
    pub elapsed: nat,
    /// How many frames the clock left on the way.
    pub transitions: nat,
}

/// Whether a clock that has spent `elapsed` in frame `frame_id` leaves it: the
/// frame is known and its delay has passed.
pub open spec fn leaves(
    frames: Map<Seq<char>, FrameView>,
    frame_id: Seq<char>,
    elapsed: nat,
) -> bool {
    frames.contains_key(frame_id) && 0 < frames[frame_id].delay <= elapsed
}

/// Walks the frame graph from `frame_id` with `elapsed` time to spend: as
/// long as the current frame is left, its delay is paid and the clock moves
/// to the frame that follows. A frame that the table does not know is never
/// left. (No table holds a frame without delay; the definition lets a clock
/// rest in one so that it is total.)
pub open spec fn settle(
    frames: Map<Seq<char>, FrameView>,
    frame_id: Seq<char>,
    elapsed: nat,
) -> Settled
    decreases elapsed,
{
    if leaves(frames, frame_id, elapsed) {
        let rest = settle(
            frames,
            frames[frame_id].next_frame_id,
            (elapsed - frames[frame_id].delay) as nat,
        );
        Settled { transitions: rest.transitions + 1, ..rest }
    } else {
        Settled { frame_id, elapsed, transitions: 0 }
    }
}

/// The clock of one entity.
#[derive(Clone, Debug, PartialEq, Eq)]
pub struct Animation {
    /// Time since the current frame was entered.
    pub frame_time: u64,
    pub current_frame_id: String,
    /// Whether the last update entered a frame. A new clock counts as having
    /// just entered its first frame.
    pub entered_new_frame: bool,
}

/// An [`Animation`] with its frame id as a sequence of characters.
pub struct AnimationView {
    pub frame_time: u64,
    pub current_frame_id: Seq<char>,
    pub entered_new_frame: bool,
}

impl View for Animation {
    type V = AnimationView;

    open spec fn view(&self) -> AnimationView {
        AnimationView {
            frame_time: self.frame_time,
            current_frame_id: self.current_frame_id@,
            entered_new_frame: self.entered_new_frame,
        }
    }
}

impl AnimationView {
    /// The clock after `dt` more time units.
    pub open spec fn advance(self, dt: u64, frames: Map<Seq<char>, FrameView>) -> AnimationView {
        let rest = settle(frames, self.current_frame_id, (self.frame_time + dt) as nat);
        AnimationView {
            frame_time: rest.elapsed as u64,
            current_frame_id: rest.frame_id,
            entered_new_frame: rest.transitions > 0,
        }
    }

    /// Whether the clock has just entered the frame `frame_id`.
    pub open spec fn entered_frame(self, frame_id: Seq<char>) -> bool {
        self.entered_new_frame && self.current_frame_id == frame_id
    }
}

impl Animation {
    /// A clock that has just entered `frame_id` and has already spent
    /// `frame_time` in it.
    pub fn new(frame_id: String, frame_time: u64) -> (clock: Animation)
        ensures
            clock@ == (AnimationView {
                frame_time,
                current_frame_id: frame_id@,
                entered_new_frame: true,
            }),
    {
        Animation { frame_time, current_frame_id: frame_id, entered_new_frame: true }
    }

    /// Lets `dt` time units pass. The clock leaves every frame whose delay
    /// has passed, paying the delay each time, and notes whether it entered a
    /// frame at all.
    pub fn update(&mut self, dt: u64, animations: &FrameTable)
        requires
            old(self).frame_time + dt <= u64::MAX,
        ensures
            final(self)@ == old(self)@.advance(dt, animations@),
    {
        self.frame_time = self.frame_time + dt;
        self.entered_new_frame = false;
        let ghost goal = settle(
            animations@,
            old(self).current_frame_id@,
            (old(self).frame_time + dt) as nat,
        );
        let ghost mut left: nat = 0;
        loop
            invariant
                ({
                    let now = settle(animations@, self.current_frame_id@, self.frame_time as nat);
                    goal == Settled { transitions: now.transitions + left, ..now }
                }),
                self.entered_new_frame == (left > 0),
            ensures
                !leaves(animations@, self.current_frame_id@, self.frame_time as nat),
            decreases self.frame_time,
        {
            let next = match animations.get(self.current_frame_id.as_str()) {
                Some(frame) => {
                    if self.frame_time >= frame.delay {
                        Some((frame.delay, frame.next_frame_id.clone()))
                    } else {
                        None
                    }
                },
                None => None,
            };
            match next {
                Some((delay, frame_id)) => {
                    self.frame_time = self.frame_time - delay;
                    self.entered_new_frame = true;
                    self.current_frame_id = frame_id;
                    proof {
                        left = left + 1;
                    }
                },
                None => {
                    break ;
                },
            }
        }
    }

    /// The sprite to draw for the current frame, if the table knows the
    /// frame.
    pub fn sprite_id<'a>(&self, animations: &'a FrameTable) -> (sprite: Option<&'a String>)
        ensures
            sprite is Some <==> animations@.contains_key(self.current_frame_id@),
            sprite matches Some(id) ==> id@ == animations@[self.current_frame_id@].sprite_id,
    {
        match animations.get(self.current_frame_id.as_str()) {
            Some(frame) => Some(&frame.sprite_id),
            None => None,
        }
    }

    /// Whether the clock has just entered the frame `frame_id`.
    pub fn entered_frame(&self, frame_id: String) -> (entered: bool)
        ensures
            entered == self@.entered_frame(frame_id@),
    {
        self.entered_new_frame && self.current_frame_id == frame_id
    }
}

} // verus!
