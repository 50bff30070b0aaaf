//! The CAN frame as the echo test sees it: an identifier, up to eight payload
//! bytes and two flags, together with the step that derives the next frame of
//! the test sequence from a given one.

use vstd::prelude::*;

verus! {

/// Largest identifier of a standard (11-bit) frame.
pub const SFF_MASK: u32 = 0x7ff;

/// Largest identifier of an extended (29-bit) frame.
pub const EFF_MASK: u32 = 0x1fff_ffff;

/// Largest number of payload bytes in a classic CAN frame.
pub const MAX_DLEN: usize = 8;

/// Why a frame could not be built.
#[derive(Clone, Copy, Debug, PartialEq, Eq, Structural)]
pub enum ConstructionError {
    /// The identifier does not fit in 29 bits.
    IdTooLarge,
    /// More than eight payload bytes were given.
    TooMuchData,
}

/// Mathematical value of a frame.
pub struct FrameView {
    /// The identifier, without flags.
    pub id: u32,
    /// The payload.
    pub data: Seq<u8>,
    /// Whether the frame is a remote transmission request.
    pub remote: bool,
    /// Whether the identifier is a 29-bit one.
    pub extended: bool,
}

impl FrameView {
    /// A frame is valid when its payload has at most eight bytes and its
    /// identifier fits the identifier space that the `extended` flag selects:
    /// 29 bits for an extended frame, 11 bits for a standard one.
    pub open spec fn valid(self) -> bool {
        &&& self.data.len() <= MAX_DLEN
        &&& self.id <= EFF_MASK
        &&& (self.id > SFF_MASK ==> self.extended)
    }
}

/// What `Frame::new` returns for the given arguments.
pub open spec fn frame_new(id: u32, data: Seq<u8>, remote: bool, extended: bool) -> Result<
    FrameView,
    ConstructionError,
> {
    if data.len() > MAX_DLEN {
        Err(ConstructionError::TooMuchData)
    } else if id > EFF_MASK {
        Err(ConstructionError::IdTooLarge)
    } else {
        Ok(FrameView { id, data, remote, extended: extended || id > SFF_MASK })
    }
}

/// A classic CAN frame. Values are immutable once built and always valid.
#[derive(Clone, Copy, Debug)]
pub struct Frame {
    id: u32,
    len: usize,
    bytes: [u8; 8],
    remote: bool,
    extended: bool,
}

impl View for Frame {
    type V = FrameView;

    closed spec fn view(&self) -> FrameView {
        FrameView {
            id: self.id,
            data: self.bytes@.take(self.len as int),
            remote: self.remote,
            extended: self.extended,
        }
    }
}

impl PartialEq for Frame {
    /// Two frames are equal when their identifiers, payloads and flags are.
    fn eq(&self, other: &Frame) -> (r: bool) {
        proof {
            use_type_invariant(self);
            use_type_invariant(other);
        }
        assert(self@.data.len() == self.len && other@.data.len() == other.len);
        if self.id != other.id || self.len != other.len || self.remote != other.remote
            || self.extended != other.extended {
            return false;
        }
        let mut i: usize = 0;
        while i < self.len
            invariant
                i <= self.len == other.len <= MAX_DLEN,
                forall|j: int| 0 <= j < i ==> self.bytes[j] == other.bytes[j],
            decreases self.len - i,
        {
            if self.bytes[i] != other.bytes[i] {
                assert(self@.data[i as int] != other@.data[i as int]);
                return false;
            }
            i += 1;
        }
        assert(self@.data =~= other@.data);
        true
    }
}

impl Eq for Frame {

}

impl vstd::std_specs::cmp::PartialEqSpecImpl for Frame {
    open spec fn obeys_eq_spec() -> bool {
        true
    }

    open spec fn eq_spec(&self, other: &Frame) -> bool {
        self@ == other@
    }
}

impl Frame {
    #[verifier::type_invariant]
    spec fn inv(self) -> bool {
        &&& self.len <= MAX_DLEN
        &&& self.id <= EFF_MASK
        &&& (self.id > SFF_MASK ==> self.extended)
    }

    /// Builds a frame. The payload may hold at most eight bytes and the
    /// identifier at most 29 bits; an identifier above 11 bits makes the frame
    /// an extended one whatever `extended` says.
    pub fn new(id: u32, data: &[u8], remote: bool, extended: bool) -> (r: Result<
        Frame,
        ConstructionError,
    >)
        ensures
            r is Ok <==> data@.len() <= MAX_DLEN && id <= EFF_MASK,
            match (r, frame_new(id, data@, remote, extended)) {
                (Ok(f), Ok(v)) => f@ == v,
                (Err(e), Err(k)) => e == k,
                _ => false,
            },
            r matches Ok(f) ==> f@.valid(),
    {
        if data.len() > MAX_DLEN {
            return Err(ConstructionError::TooMuchData);
        }
        if id > EFF_MASK {
            return Err(ConstructionError::IdTooLarge);
        }
        let mut bytes: [u8; 8] = [0u8; 8];
        let mut i: usize = 0;
        while i < data.len()
            invariant
                i <= data.len() <= MAX_DLEN,
                forall|j: int| 0 <= j < i ==> bytes[j] == data[j],
            decreases data.len() - i,
        {
            bytes[i] = data[i];
            i += 1;
        }
        let f = Frame { id, len: data.len(), bytes, remote, extended: extended || id > SFF_MASK };
        assert(f@.data =~= data@);
        Ok(f)
    }

    /// The identifier, without flags.
    pub fn id(&self) -> (r: u32)
        ensures
            r == self@.id,
            self@.valid(),
    {
        proof {
            use_type_invariant(self);
        }
        self.id
    }

    /// The payload.
    pub fn data(&self) -> (r: &[u8])
        ensures
            r@ == self@.data,
            self@.valid(),
    {
        proof {
            use_type_invariant(self);
        }
        let r = &self.bytes[0..self.len];
        r
    }

    /// Whether this is a remote transmission request.
    pub fn is_rtr(&self) -> (r: bool)
        ensures
            r == self@.remote,
    {
        self.remote
    }

    /// Whether the identifier is a 29-bit one.
    pub fn is_extended(&self) -> (r: bool)
        ensures
            r == self@.extended,
    {
        self.extended
    }
}

/// A payload byte one step further in the test sequence: one more, and 0 after 255.
pub open spec fn bumped(b: u8) -> u8 {
    ((b + 1) % 256) as u8
}

/// The frame that follows `f` in the test sequence: the identifier is one
/// higher and every payload byte is bumped on its own, without carry. It is a
/// data frame, extended only where the new identifier needs it. There is no
/// next frame when the new identifier would not fit in 29 bits.
pub open spec fn incremented(f: FrameView) -> Option<FrameView> {
    match frame_new(
        (f.id + 1) as u32,
        Seq::new(f.data.len(), |i: int| bumped(f.data[i])),
        false,
        false,
    ) {
        Ok(g) if f.id < u32::MAX => Some(g),
        _ => None,
    }
}

/// Derives the next frame of the test sequence from `frame`.
pub fn increment_frame(frame: Frame) -> (r: Option<Frame>)
    ensures
        match r {
            Some(g) => incremented(frame@) == Some(g@),
            None => incremented(frame@) is None,
        },
        r is Some <==> frame@.id < EFF_MASK,
        r matches Some(g) ==> {
            &&& g@.id == frame@.id + 1
            &&& g@.data.len() == frame@.data.len()
            &&& forall|i: int|
                0 <= i < g@.data.len() ==> g@.data[i] == (frame@.data[i] + 1) % 256
            &&& !g@.remote
            &&& g@.extended == (g@.id > SFF_MASK)
        },
{
    let id = frame.id();
    let data = frame.data();
    let mut next: [u8; 8] = [0u8; 8];
    let mut i: usize = 0;
    while i < data.len()
        invariant
            i <= data.len() <= MAX_DLEN,
            forall|j: int| 0 <= j < i ==> next[j] == bumped(data[j]),
        decreases data.len() - i,
    {
        next[i] = if data[i] == 255 {
            0
        } else {
            data[i] + 1
        };
        i += 1;
    }
    let bytes = &next[0..data.len()];
    assert(bytes@ =~= Seq::new(frame@.data.len(), |i: int| bumped(frame@.data[i])));
    match Frame::new(id + 1, bytes, false, false) {
        Ok(g) => Some(g),
        Err(_) => None,
    }
}

/// Incrementing a valid frame whose identifier is below the largest one
/// gives a valid data frame with the next identifier, the same number of
/// payload bytes, and each byte one higher modulo 256.
pub proof fn lemma_increment_steps_id_and_bytes(f: FrameView)
    requires
        f.valid(),
        f.id < EFF_MASK,
    ensures
        incremented(f) is Some,
        incremented(f).unwrap().valid(),
        incremented(f).unwrap().id == f.id + 1,
        incremented(f).unwrap().data.len() == f.data.len(),
        forall|i: int|
            0 <= i < f.data.len() ==> incremented(f).unwrap().data[i] == (f.data[i] + 1) % 256,
        !incremented(f).unwrap().remote,
{
}

} // verus!
