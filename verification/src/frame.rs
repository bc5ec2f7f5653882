//! CAN frames as plain values: an address, up to eight payload bytes and the
//! addressing-mode flag.

use vstd::prelude::*;

verus! {

/// Largest payload, in bytes, that a single CAN frame carries.
pub const MAX_PAYLOAD: usize = 8;

/// Mathematical value of a [`CanFrame`].
pub struct FrameView {
    pub address: u32,
    pub data: Seq<u8>,
    pub extended: bool,
}

/// A single CAN bus message. Immutable once constructed.
#[derive(Clone, Copy, Debug, PartialEq, Eq)]
pub struct CanFrame {
    id: u32,
    dlc: u8,
    data: [u8; 8],
    ext: bool,
}

/// Payload that a frame built from `data` carries: the first eight bytes at most.
pub open spec fn payload_of(data: Seq<u8>) -> Seq<u8> {
    if data.len() <= MAX_PAYLOAD {
        data
    } else {
        data.subrange(0, MAX_PAYLOAD as int)
    }
}

/// `ecu_diagnostics::channel::CanFrame::new` followed by the frame's three
/// getters (`get_address`, `get_data`, `is_extended`). The outside constructor
/// keeps the address and the flag as given and copies the first
/// `min(8, data.len())` bytes of `data`; the getters hand back exactly those.
#[verifier::external_body]
fn channel_frame_parts(id: u32, data: &[u8], is_ext: bool) -> (parts: (u32, Vec<u8>, bool))
    ensures
        parts.0 == id,
        parts.1@ == payload_of(data@),
        parts.2 == is_ext,
{
    let frame = ecu_diagnostics::channel::CanFrame::new(id, data, is_ext);
    (
        ecu_diagnostics::channel::Packet::get_address(&frame),
        ecu_diagnostics::channel::Packet::get_data(&frame).to_vec(),
        frame.is_extended(),
    )
}

/// The values of a list of frames.
pub open spec fn frame_views(frames: Seq<CanFrame>) -> Seq<FrameView> {
    frames.map_values(|frame: CanFrame| frame@)
}

impl View for CanFrame {
    type V = FrameView;

    closed spec fn view(&self) -> FrameView {
        FrameView {
            address: self.id,
            data: self.data@.subrange(0, self.dlc as int),
            extended: self.ext,
        }
    }
}

impl CanFrame {
    #[verifier::type_invariant]
    spec fn well_formed(self) -> bool {
        &&& self.dlc as int <= MAX_PAYLOAD
        &&& forall|i: int| self.dlc <= i < 8 ==> self.data@[i] == 0
    }

    /// Builds a frame. A payload longer than eight bytes is cut to its first
    /// eight.
    pub fn new(id: u32, data: &[u8], is_ext: bool) -> (frame: CanFrame)
        ensures
            frame@ == (FrameView { address: id, data: payload_of(data@), extended: is_ext }),
    {
        let parts = channel_frame_parts(id, data, is_ext);
        let bytes = parts.1;
        let mut buf = [0u8; 8];
        let mut i: usize = 0;
        while i < bytes.len()
            invariant
                bytes@.len() <= 8,
                i <= bytes@.len(),
                forall|j: int| 0 <= j < i ==> buf@[j] == bytes@[j],
                forall|j: int| i <= j < 8 ==> buf@[j] == 0,
            decreases bytes@.len() - i,
        {
            buf[i] = bytes[i];
            i += 1;
        }
        let frame = CanFrame { id: parts.0, dlc: bytes.len() as u8, data: buf, ext: parts.2 };
        assert(frame@.data =~= payload_of(data@));
        frame
    }

    /// The frame's identifier.
    pub fn get_address(&self) -> (address: u32)
        ensures
            address == self@.address,
    {
        self.id
    }

    /// A copy of the payload bytes.
    pub fn get_data(&self) -> (data: Vec<u8>)
        ensures
            data@ == self@.data,
            data@.len() <= MAX_PAYLOAD,
    {
        proof {
            use_type_invariant(self);
        }
        let mut out: Vec<u8> = Vec::new();
        let mut i: usize = 0;
        while i < self.dlc as usize
            invariant
                self.dlc <= 8,
                i <= self.dlc,
                out@ == self.data@.subrange(0, i as int),
            decreases self.dlc - i,
        {
            out.push(self.data[i]);
            i += 1;
        }
        out
    }

    /// Whether the frame uses extended (29-bit) addressing.
    pub fn is_extended(&self) -> (extended: bool)
        ensures
            extended == self@.extended,
    {
        self.ext
    }
}

} // verus!
