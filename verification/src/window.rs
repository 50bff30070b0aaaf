//! The window of the host: the frames that were sent and are not yet fully
//! verified, oldest first.

use std::collections::VecDeque;
use vstd::prelude::*;
use crate::frame::{Frame, FrameView};

verus! {

/// Mathematical value of a window. Its entries are the frames together
/// with the mark that says whether the host still waits for its own copy of
/// the frame: the first `confirmed` entries are the ones whose copy has come.
pub struct WindowView {
    /// The most entries that the window may hold.
    pub capacity: nat,
    /// The frames, in the order in which they were sent.
    pub frames: Seq<FrameView>,
    /// How many of the oldest frames have had their own copy matched.
    pub confirmed: nat,
}

impl WindowView {
    /// A window holds no more than its capacity, and no more confirmed
    /// entries than entries.
    pub open spec fn wf(self) -> bool {
        self.confirmed <= self.frames.len() <= self.capacity
    }

    /// The empty window of the given capacity.
    pub open spec fn empty(capacity: nat) -> WindowView {
        WindowView { capacity, frames: Seq::empty(), confirmed: 0 }
    }

    /// Whether the window holds as many entries as it may.
    pub open spec fn is_full(self) -> bool {
        self.frames.len() >= self.capacity
    }

    /// Whether entry `i` still waits for the host's own copy of its frame.
    pub open spec fn awaiting_self_echo(self, i: int) -> bool {
        i >= self.confirmed
    }

    /// The entries: each frame with the mark that says whether the host
    /// still waits for its own copy of it.
    pub open spec fn entries(self) -> Seq<(FrameView, bool)> {
        Seq::new(self.frames.len(), |i: int| (self.frames[i], self.awaiting_self_echo(i)))
    }

    /// The window with `frame` added at the tail, waiting for its own copy.
    pub open spec fn pushed(self, frame: FrameView) -> WindowView {
        WindowView { frames: self.frames.push(frame), ..self }
    }

    /// The oldest frame that still waits for its own copy.
    pub open spec fn next_awaiting(self) -> Option<FrameView> {
        if self.confirmed < self.frames.len() {
            Some(self.frames[self.confirmed as int])
        } else {
            None
        }
    }

    /// The window in which the oldest waiting entry has had its copy matched.
    pub open spec fn confirmed_next(self) -> WindowView {
        WindowView { confirmed: self.confirmed + 1, ..self }
    }

    /// The oldest frame, if its own copy has been matched.
    pub open spec fn confirmed_head(self) -> Option<FrameView> {
        if self.confirmed > 0 && self.frames.len() > 0 {
            Some(self.frames[0])
        } else {
            None
        }
    }

    /// The window without its oldest entry.
    pub open spec fn popped(self) -> WindowView {
        WindowView {
            frames: self.frames.drop_first(),
            confirmed: (self.confirmed - 1) as nat,
            ..self
        }
    }
}

/// A bounded first-in, first-out window of frames.
#[derive(Debug)]
pub struct Window {
    frames: VecDeque<Frame>,
    confirmed: usize,
    capacity: usize,
}

impl View for Window {
    type V = WindowView;

    closed spec fn view(&self) -> WindowView {
        WindowView {
            capacity: self.capacity as nat,
            frames: Seq::new(self.frames@.len(), |i: int| self.frames@[i]@),
            confirmed: self.confirmed as nat,
        }
    }
}

impl Window {
    #[verifier::type_invariant]
    spec fn inv(self) -> bool {
        self.confirmed <= self.frames@.len() <= self.capacity
    }

    /// An empty window that may hold up to `capacity` frames.
    pub fn new(capacity: usize) -> (w: Window)
        ensures
            w@ == WindowView::empty(capacity as nat),
            w@.wf(),
    {
        let w = Window { frames: VecDeque::new(), confirmed: 0, capacity };
        assert(w@.frames =~= Seq::empty());
        w
    }

    /// The most entries that the window may hold.
    pub fn capacity(&self) -> (n: usize)
        ensures
            n == self@.capacity,
            self@.wf(),
    {
        proof {
            use_type_invariant(self);
        }
        self.capacity
    }

    /// The number of entries.
    pub fn len(&self) -> (n: usize)
        ensures
            n == self@.frames.len(),
            self@.wf(),
    {
        proof {
            use_type_invariant(self);
        }
        self.frames.len()
    }

    /// Whether the window holds as many entries as it may.
    pub fn is_full(&self) -> (b: bool)
        ensures
            b == self@.is_full(),
            self@.wf(),
    {
        proof {
            use_type_invariant(self);
        }
        self.frames.len() >= self.capacity
    }

    /// Adds `frame` at the tail, unless the window is full. Says whether it was added.
    pub fn push(self, frame: Frame) -> (r: (Window, bool))
        ensures
            r.1 == !self@.is_full(),
            r.0@ == (if r.1 {
                self@.pushed(frame@)
            } else {
                self@
            }),
            r.0@.wf(),
    {
        proof {
            use_type_invariant(&self);
        }
        if self.frames.len() >= self.capacity {
            return (self, false);
        }
        let mut frames = self.frames;
        frames.push_back(frame);
        let w = Window { frames, confirmed: self.confirmed, capacity: self.capacity };
        assert(w@.frames =~= self@.frames.push(frame@));
        (w, true)
    }

    /// The oldest frame that still waits for its own copy.
    pub fn next_awaiting(&self) -> (r: Option<Frame>)
        ensures
            match r {
                Some(f) => self@.next_awaiting() == Some(f@),
                None => self@.next_awaiting() is None,
            },
    {
        proof {
            use_type_invariant(self);
        }
        if self.confirmed < self.frames.len() {
            Some(self.frames[self.confirmed])
        } else {
            None
        }
    }

    /// Marks the oldest waiting entry as one whose copy has come. Says
    /// whether there was such an entry.
    pub fn confirm_next(self) -> (r: (Window, bool))
        ensures
            r.1 == self@.next_awaiting().is_some(),
            r.0@ == (if r.1 {
                self@.confirmed_next()
            } else {
                self@
            }),
            r.0@.wf(),
    {
        proof {
            use_type_invariant(&self);
        }
        if self.confirmed < self.frames.len() {
            let w = Window {
                frames: self.frames,
                confirmed: self.confirmed + 1,
                capacity: self.capacity,
            };
            (w, true)
        } else {
            (self, false)
        }
    }

    /// The oldest frame, if its own copy has been matched.
    pub fn confirmed_head(&self) -> (r: Option<Frame>)
        ensures
            match r {
                Some(f) => self@.confirmed_head() == Some(f@),
                None => self@.confirmed_head() is None,
            },
    {
        proof {
            use_type_invariant(self);
        }
        if self.confirmed > 0 && self.frames.len() > 0 {
            Some(self.frames[0])
        } else {
            None
        }
    }

    /// Removes the oldest entry if its own copy has been matched, and returns its frame.
    pub fn pop(self) -> (r: (Window, Option<Frame>))
        ensures
            match r.1 {
                Some(f) => self@.confirmed_head() == Some(f@) && r.0@ == self@.popped(),
                None => self@.confirmed_head() is None && r.0@ == self@,
            },
            r.0@.wf(),
    {
        proof {
            use_type_invariant(&self);
        }
        if self.confirmed == 0 || self.frames.len() == 0 {
            return (self, None);
        }
        let mut frames = self.frames;
        let head = frames.pop_front();
        let w = Window { frames, confirmed: self.confirmed - 1, capacity: self.capacity };
        assert(w@.frames =~= self@.frames.drop_first());
        (w, head)
    }
}

} // verus!
