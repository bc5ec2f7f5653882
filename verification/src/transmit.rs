//! The frame that the operator asked to send periodically, and the decision
//! whether a given moment is one to send it at.

use vstd::prelude::*;
use crate::frame::{payload_of, CanFrame, FrameView, MAX_PAYLOAD};

verus! {

/// Mathematical value of a [`TxSpec`].
pub struct TxView {
    pub address: u32,
    pub payload: Seq<u8>,
    pub interval_ms: u32,
    pub enabled: bool,
    pub last_sent: u64,
}

/// Milliseconds from `last_sent` to `now_ms`; zero where the clock reads
/// earlier than the last transmission.
pub open spec fn elapsed_ms(last_sent: u64, now_ms: u64) -> nat {
    if now_ms >= last_sent {
        (now_ms - last_sent) as nat
    } else {
        0
    }
}

impl TxView {
    /// A payload can be sent if it has between one and eight bytes.
    pub open spec fn valid(self) -> bool {
        1 <= self.payload.len() <= MAX_PAYLOAD
    }

    /// Whether a frame is sent at `now_ms`: transmission is switched on, the
    /// payload can be sent, and the interval has passed since the last one.
    pub open spec fn due(self, now_ms: u64) -> bool {
        self.enabled && self.valid() && elapsed_ms(self.last_sent, now_ms) >= self.interval_ms
    }

    /// The frame that is sent: the payload under the address, with standard
    /// addressing.
    pub open spec fn frame(self) -> FrameView {
        FrameView { address: self.address, data: payload_of(self.payload), extended: false }
    }
}

/// A frame to send periodically.
#[derive(Debug, PartialEq, Eq)]
pub struct TxSpec {
    pub address: u32,
    pub payload: Vec<u8>,
    pub interval_ms: u32,
    pub enabled: bool,
    pub last_sent: u64,
}

impl View for TxSpec {
    type V = TxView;

    open spec fn view(&self) -> TxView {
        TxView {
            address: self.address,
            payload: self.payload@,
            interval_ms: self.interval_ms,
            enabled: self.enabled,
            last_sent: self.last_sent,
        }
    }
}

/// Why nothing is sent, or the frame to send.
#[derive(Debug, Clone, Copy, PartialEq, Eq)]
pub enum TxDecision {
    /// Transmission is switched off.
    Disabled,
    /// The payload is empty or longer than eight bytes.
    InvalidPayload,
    /// The interval has not passed yet.
    NotDue,
    /// Send this frame now.
    Send(CanFrame),
}

impl TxSpec {
    /// Whether the payload can be sent.
    pub fn is_valid(&self) -> (valid: bool)
        ensures
            valid == self@.valid(),
    {
        1 <= self.payload.len() && self.payload.len() <= MAX_PAYLOAD
    }

    /// Decides whether a frame is sent at `now_ms`. An invalid payload is
    /// refused here, before anything is handed to a channel.
    pub fn decide(&self, now_ms: u64) -> (decision: TxDecision)
        ensures
            match decision {
                TxDecision::Disabled => !self@.enabled,
                TxDecision::InvalidPayload => self@.enabled && !self@.valid(),
                TxDecision::NotDue => self@.enabled && self@.valid() && elapsed_ms(
                    self@.last_sent,
                    now_ms,
                ) < self@.interval_ms,
                TxDecision::Send(frame) => self@.due(now_ms) && frame@ == self@.frame(),
            },
    {
        if !self.enabled {
            TxDecision::Disabled
        } else if !self.is_valid() {
            TxDecision::InvalidPayload
        } else {
            let elapsed: u64 = if now_ms >= self.last_sent {
                now_ms - self.last_sent
            } else {
                0
            };
            if elapsed >= self.interval_ms as u64 {
                TxDecision::Send(CanFrame::new(self.address, self.payload.as_slice(), false))
            } else {
                TxDecision::NotDue
            }
        }
    }
}

/// Nothing is sent before the interval has passed since the last
/// transmission.
pub proof fn lemma_not_due_before_interval(tx: TxView, now_ms: u64)
    requires
        elapsed_ms(tx.last_sent, now_ms) < tx.interval_ms,
    ensures
        !tx.due(now_ms),
{
}

/// With transmission on and a valid payload, a frame is sent at the first
/// moment at which the interval has passed, and at every later one until the
/// next transmission is recorded.
pub proof fn lemma_due_from_interval_on(tx: TxView, now_ms: u64)
    requires
        tx.enabled,
        tx.valid(),
        elapsed_ms(tx.last_sent, now_ms) >= tx.interval_ms,
    ensures
        tx.due(now_ms),
        forall|later: u64| later >= now_ms ==> tx.due(later),
{
}

/// An empty payload, or one of nine bytes or more, is never sent.
pub proof fn lemma_invalid_payload_never_due(tx: TxView, now_ms: u64)
    requires
        tx.payload.len() == 0 || tx.payload.len() > MAX_PAYLOAD,
    ensures
        !tx.due(now_ms),
{
}

/// The frame of a valid specification carries the whole payload.
pub proof fn lemma_valid_frame_is_whole(tx: TxView)
    requires
        tx.valid(),
    ensures
        tx.frame().data == tx.payload,
{
}

} // verus!
