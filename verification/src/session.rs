//! The tracer session as a value, and what each event makes of it.
//!
//! A session is created disconnected. A connection attempt goes through three
//! channel requests (create, configure, open) and connects on the third
//! success. While connected, each tick is a write (where a transmission is due),
//! then a read, then the bookkeeping. The session asks for channel requests and
//! is told their outcomes; it makes none itself.

use vstd::prelude::*;
use crate::activity::ActivityView;
use crate::filter::{FilterSpec, MASK_ALL};
use crate::frame::{CanFrame, FrameView, frame_views};
use crate::table::keyed_by_address;
use crate::text::{bits_text, byte_list, decimal_u32, hex_digits, hex_u32};
use crate::transmit::TxView;

verus! {

/// Baud rate selected before the operator chooses one.
pub const DEFAULT_BAUD: u32 = 500_000;

/// Longest wait for a frame to be written, in milliseconds.
pub const WRITE_TIMEOUT_MS: u32 = 50;

/// Longest wait for inbound frames, in milliseconds.
pub const READ_TIMEOUT_MS: u32 = 15;

/// Most frames taken from the channel in one read.
pub const READ_MAX_FRAMES: usize = 1000;

/// Digits that a selected row's address is written with, at least.
pub const ADDRESS_DIGITS: usize = 4;

/// Whether `baud` is one of the standard automotive CAN bit rates.
pub open spec fn supported_baud(baud: u32) -> bool {
    baud == 5_000 || baud == 10_000 || baud == 20_000 || baud == 31_250 || baud == 33_333 || baud
        == 40_000 || baud == 50_000 || baud == 80_000 || baud == 83_333 || baud == 100_000 || baud
        == 125_000 || baud == 200_000 || baud == 250_000 || baud == 500_000 || baud == 1_000_000
}

/// Tests a baud rate against the standard set.
pub fn is_supported_baud(baud: u32) -> (supported: bool)
    ensures
        supported == supported_baud(baud),
{
    baud == 5_000 || baud == 10_000 || baud == 20_000 || baud == 31_250 || baud == 33_333 || baud
        == 40_000 || baud == 50_000 || baud == 80_000 || baud == 83_333 || baud == 100_000 || baud
        == 125_000 || baud == 200_000 || baud == 250_000 || baud == 500_000 || baud == 1_000_000
}

/// The standard rates, in rising order.
pub open spec fn standard_bauds() -> Seq<u32> {
    seq![
        5_000u32,
        10_000u32,
        20_000u32,
        31_250u32,
        33_333u32,
        40_000u32,
        50_000u32,
        80_000u32,
        83_333u32,
        100_000u32,
        125_000u32,
        200_000u32,
        250_000u32,
        500_000u32,
        1_000_000u32,
    ]
}

/// The rates that a session can be configured with, for a selection list.
pub fn baud_rates() -> (rates: Vec<u32>)
    ensures
        rates@ == standard_bauds(),
        forall|baud: u32| rates@.contains(baud) <==> supported_baud(baud),
{
    let rates: Vec<u32> = vec![
        5_000,
        10_000,
        20_000,
        31_250,
        33_333,
        40_000,
        50_000,
        80_000,
        83_333,
        100_000,
        125_000,
        200_000,
        250_000,
        500_000,
        1_000_000,
    ];
    assert(rates@ =~= standard_bauds());
    assert forall|baud: u32| supported_baud(baud) implies rates@.contains(baud) by {
        assert(rates@[0] == 5_000 && rates@[1] == 10_000 && rates@[2] == 20_000 && rates@[3]
            == 31_250 && rates@[4] == 33_333 && rates@[5] == 40_000 && rates@[6] == 50_000
            && rates@[7] == 80_000 && rates@[8] == 83_333 && rates@[9] == 100_000 && rates@[10]
            == 125_000 && rates@[11] == 200_000 && rates@[12] == 250_000 && rates@[13] == 500_000
            && rates@[14] == 1_000_000);
    }
    rates
}

/// The operation that an error came from.
#[derive(Debug, Clone, Copy, PartialEq, Eq, Structural)]
pub enum ErrorKind {
    /// Creating, configuring or opening the channel, or losing it afterwards.
    Connect,
    /// Writing the periodic frame.
    Write,
    /// Reading inbound frames.
    Read,
}

/// The channel request of a connection attempt that is waiting for its
/// outcome.
#[derive(Debug, Clone, Copy, PartialEq, Eq, Structural)]
pub enum ConnectStage {
    Create,
    Configure,
    Open,
}

/// What the session is waiting for.
#[derive(Debug, Clone, Copy, PartialEq, Eq, Structural)]
pub enum Phase {
    /// Nothing: the next event is the operator's or the next tick.
    Idle,
    /// The outcome of a step of a connection attempt.
    Connecting(ConnectStage),
    /// The outcome of this tick's write.
    AwaitingWrite,
    /// The outcome of this tick's read.
    AwaitingRead,
}

/// Mathematical value of a [`CanTracerPage`].
pub struct PageView {
    pub connected: bool,
    pub phase: Phase,
    /// The frame of this tick's transmission: handed out for writing, or
    /// written and waiting to be recorded.
    pub pending: Option<FrameView>,
    /// The time of the tick that `pending` belongs to.
    pub pending_since: u64,
    pub selected_baud: u32,
    pub last_error: Option<(ErrorKind, Seq<char>)>,
    pub table: Map<u32, FrameView>,
    pub activity: ActivityView,
    pub filter: FilterSpec,
    pub mask_text: Seq<char>,
    pub filter_text: Seq<char>,
    pub tx: TxView,
    pub tx_id_text: Seq<char>,
    pub tx_data_text: Seq<char>,
    pub tx_interval_text: Seq<char>,
    pub tx_bin_text: Seq<char>,
}

/// `value` replaced by what `text` reads as, where it reads as anything.
pub open spec fn updated(value: u32, parsed: Option<u32>) -> u32 {
    match parsed {
        Some(v) => v,
        None => value,
    }
}

impl PageView {
    /// The session as it is created: disconnected, accepting every address,
    /// nothing seen, transmission off.
    pub open spec fn initial() -> PageView {
        PageView {
            connected: false,
            phase: Phase::Idle,
            pending: None,
            pending_since: 0,
            selected_baud: DEFAULT_BAUD,
            last_error: None,
            table: Map::empty(),
            activity: ActivityView::empty(),
            filter: FilterSpec { mask: 0, filter: 0 },
            mask_text: "0000"@,
            filter_text: "0000"@,
            tx: TxView {
                address: 1,
                payload: seq![0u8, 0u8, 0u8, 0u8, 0u8, 0u8, 0u8, 0u8],
                interval_ms: 50,
                enabled: false,
                last_sent: 0,
            },
            tx_id_text: "0001"@,
            tx_data_text: "01 02 03 04 05 06 07 08"@,
            tx_interval_text: "50"@,
            tx_bin_text: Seq::empty(),
        }
    }

    /// The mask field holds `text`. Text that is no hexadecimal number leaves
    /// the mask in force as it was.
    pub open spec fn with_mask_text(self, text: Seq<char>) -> PageView {
        PageView {
            mask_text: text,
            filter: FilterSpec { mask: updated(self.filter.mask, hex_u32(text)), ..self.filter },
            ..self
        }
    }

    /// The filter field holds `text`. Text that is no hexadecimal number
    /// leaves the filter in force as it was.
    pub open spec fn with_filter_text(self, text: Seq<char>) -> PageView {
        PageView {
            filter_text: text,
            filter: FilterSpec {
                filter: updated(self.filter.filter, hex_u32(text)),
                ..self.filter
            },
            ..self
        }
    }

    /// Mask and filter back to zero, in the fields and in force.
    pub open spec fn with_filter_reset(self) -> PageView {
        PageView {
            mask_text: "0000"@,
            filter_text: "0000"@,
            filter: FilterSpec { mask: 0, filter: 0 },
            ..self
        }
    }

    /// The view narrowed to the one address of a selected row.
    pub open spec fn with_row_selected(self, address: u32) -> PageView {
        PageView {
            mask_text: "FFFFFFFF"@,
            filter_text: hex_digits(address as nat, ADDRESS_DIGITS as nat),
            filter: FilterSpec { mask: MASK_ALL, filter: address },
            ..self
        }
    }

    /// The transmit address field holds `text`.
    pub open spec fn with_tx_id_text(self, text: Seq<char>) -> PageView {
        PageView {
            tx_id_text: text,
            tx: TxView { address: updated(self.tx.address, hex_u32(text)), ..self.tx },
            ..self
        }
    }

    /// The transmit interval field holds `text`.
    pub open spec fn with_tx_interval_text(self, text: Seq<char>) -> PageView {
        PageView {
            tx_interval_text: text,
            tx: TxView { interval_ms: updated(self.tx.interval_ms, decimal_u32(text)), ..self.tx },
            ..self
        }
    }

    /// The transmit payload field holds `text`. Only a list of one to eight
    /// bytes replaces the payload; the binary rendering then shows it, and
    /// otherwise says what is wrong with the text.
    pub open spec fn with_tx_data_text(self, text: Seq<char>) -> PageView {
        match byte_list(vstd::utf8::encode_utf8(text)) {
            None => PageView { tx_data_text: text, tx_bin_text: "INVALID DATA"@, ..self },
            Some(bytes) => if bytes.len() > 8 {
                PageView { tx_data_text: text, tx_bin_text: "DATA TOO BIG (Max 8 bytes)"@, ..self }
            } else {
                PageView {
                    tx_data_text: text,
                    tx_bin_text: bits_text(bytes),
                    tx: TxView { payload: bytes, ..self.tx },
                    ..self
                }
            },
        }
    }

    /// Periodic transmission switched on or off.
    pub open spec fn with_sending(self, enabled: bool) -> PageView {
        PageView { tx: TxView { enabled, ..self.tx }, ..self }
    }

    /// Whether a baud rate may be selected now: only while disconnected with
    /// no attempt under way, and only one of the standard set.
    pub open spec fn accepts_baud(self, baud: u32) -> bool {
        !self.connected && self.phase == Phase::Idle && supported_baud(baud)
    }

    /// The baud rate selected, where the selection is accepted.
    pub open spec fn with_baud(self, baud: u32) -> PageView {
        if self.accepts_baud(baud) {
            PageView { selected_baud: baud, ..self }
        } else {
            self
        }
    }
}

/// The error on display after an operation of kind `kind` went well: an
/// earlier error of the same kind is gone, one of another kind stays.
pub open spec fn cleared(
    error: Option<(ErrorKind, Seq<char>)>,
    kind: ErrorKind,
) -> Option<(ErrorKind, Seq<char>)> {
    match error {
        Some((k, _)) => if k == kind {
            None
        } else {
            error
        },
        None => None,
    }
}

/// The table after the inbound frames of one read were filed: each frame that
/// the filter accepts goes under its address, in order of arrival, so that of
/// two frames for one address the later one stays.
pub open spec fn fold_inbound(
    table: Map<u32, FrameView>,
    frames: Seq<FrameView>,
    filter: FilterSpec,
) -> Map<u32, FrameView>
    decreases frames.len(),
{
    if frames.len() == 0 {
        table
    } else {
        let earlier = fold_inbound(table, frames.drop_last(), filter);
        if filter.accepts(frames.last().address) {
            earlier.insert(frames.last().address, frames.last())
        } else {
            earlier
        }
    }
}

/// The count recorded for a tick: the frame sent, if one was, and every
/// inbound frame, accepted by the filter or not.
pub open spec fn tick_count(sent: bool, inbound: nat) -> usize {
    let total: nat = inbound + if sent {
        1nat
    } else {
        0nat
    };
    if total > usize::MAX {
        usize::MAX
    } else {
        total as usize
    }
}

/// The outcome of a write or of a step of a connection attempt, as values.
pub open spec fn step_view(outcome: Result<(), String>) -> Result<(), Seq<char>> {
    match outcome {
        Ok(_) => Ok(()),
        Err(cause) => Err(cause@),
    }
}

/// The outcome of a read, as values.
pub open spec fn read_view(outcome: Result<Vec<CanFrame>, String>) -> Result<
    Seq<FrameView>,
    Seq<char>,
> {
    match outcome {
        Ok(frames) => Ok(frame_views(frames@)),
        Err(cause) => Err(cause@),
    }
}

/// What a failed connection attempt puts on display.
pub open spec fn connect_failure_text(cause: Seq<char>) -> Seq<char> {
    "Could not open CAN channel!: "@ + cause
}

/// The next request to make of the channel during a connection attempt.
#[derive(Debug, Clone, Copy, PartialEq, Eq, Structural)]
pub enum ConnectAction {
    /// The event does not fit the session's state; nothing changed.
    Rejected,
    /// Ask the hardware for a channel.
    CreateChannel,
    /// Configure the channel.
    Configure { baud: u32, extended: bool },
    /// Open the channel.
    Open,
    /// The attempt failed: close and release whatever channel there is.
    Discard,
    /// The channel is open and the session connected.
    Ready,
}

/// The next request to make of the channel during a tick.
#[derive(Debug, Clone, Copy, PartialEq, Eq)]
pub enum TickAction {
    /// The event does not fit the session's state; nothing changed.
    Rejected,
    /// Write this one frame.
    Write { frame: CanFrame, timeout_ms: u32 },
    /// Read what has arrived.
    Read { max_count: usize, timeout_ms: u32 },
}

impl PageView {
    /// Whether a connection attempt may start: the session is disconnected
    /// and waits for nothing.
    pub open spec fn may_connect(self) -> bool {
        !self.connected && self.phase == Phase::Idle
    }

    /// The session after the operator asked to connect.
    pub open spec fn after_connect_request(self) -> PageView {
        if self.may_connect() {
            PageView { phase: Phase::Connecting(ConnectStage::Create), last_error: None, ..self }
        } else {
            self
        }
    }

    /// The session after the pending step of a connection attempt came back
    /// with `outcome` at time `now_ms`. A failure at any step ends the attempt
    /// and leaves the session disconnected with the cause on display. Success
    /// of the last step connects, with nothing seen yet and the transmission
    /// clock started.
    pub open spec fn after_channel_step(self, outcome: Result<(), Seq<char>>, now_ms: u64)
        -> PageView {
        match self.phase {
            Phase::Connecting(stage) => match outcome {
                Err(cause) => PageView {
                    phase: Phase::Idle,
                    last_error: Some((ErrorKind::Connect, connect_failure_text(cause))),
                    ..self
                },
                Ok(_) => match stage {
                    ConnectStage::Create => PageView {
                        phase: Phase::Connecting(ConnectStage::Configure),
                        ..self
                    },
                    ConnectStage::Configure => PageView {
                        phase: Phase::Connecting(ConnectStage::Open),
                        ..self
                    },
                    ConnectStage::Open => PageView {
                        connected: true,
                        phase: Phase::Idle,
                        pending: None,
                        table: Map::empty(),
                        activity: ActivityView::empty(),
                        tx: TxView { last_sent: now_ms, ..self.tx },
                        ..self
                    },
                },
            },
            _ => self,
        }
    }

    /// The request that follows the pending step's `outcome`.
    pub open spec fn channel_step_action(self, outcome: Result<(), Seq<char>>) -> ConnectAction {
        match self.phase {
            Phase::Connecting(stage) => match outcome {
                Err(_) => ConnectAction::Discard,
                Ok(_) => match stage {
                    ConnectStage::Create => ConnectAction::Configure {
                        baud: self.selected_baud,
                        extended: false,
                    },
                    ConnectStage::Configure => ConnectAction::Open,
                    ConnectStage::Open => ConnectAction::Ready,
                },
            },
            _ => ConnectAction::Rejected,
        }
    }

    /// Whether a channel may exist that has to be closed on disconnect.
    pub open spec fn holds_channel(self) -> bool {
        self.connected || self.phase is Connecting
    }

    /// The session after a disconnect: nothing seen, nothing pending, no
    /// transmission history. What the operator typed stays.
    pub open spec fn after_disconnect(self) -> PageView {
        PageView {
            connected: false,
            phase: Phase::Idle,
            pending: None,
            table: Map::empty(),
            activity: ActivityView::empty(),
            tx: TxView { last_sent: 0, ..self.tx },
            ..self
        }
    }

    /// The session after its channel was lost for good: disconnected as by a
    /// disconnect, with the cause on display.
    pub open spec fn after_channel_lost(self, cause: Seq<char>) -> PageView {
        PageView { last_error: Some((ErrorKind::Connect, cause)), ..self.after_disconnect() }
    }

    /// Whether a tick may begin: the session is connected and waits for
    /// nothing.
    pub open spec fn ticks(self) -> bool {
        self.connected && self.phase == Phase::Idle
    }

    /// Whether the tick that begins at `now_ms` starts with a write.
    pub open spec fn transmits_at(self, now_ms: u64) -> bool {
        self.ticks() && self.tx.due(now_ms)
    }

    /// The session after a tick began at `now_ms`.
    pub open spec fn after_tick_begins(self, now_ms: u64) -> PageView {
        if !self.ticks() {
            self
        } else if self.tx.due(now_ms) {
            PageView {
                phase: Phase::AwaitingWrite,
                pending: Some(self.tx.frame()),
                pending_since: now_ms,
                ..self
            }
        } else {
            PageView { phase: Phase::AwaitingRead, pending: None, pending_since: now_ms, ..self }
        }
    }

    /// The session after this tick's write came back. A written frame waits to
    /// be recorded and restarts the transmission clock at the tick's time; a
    /// failed write is put on display and leaves transmission switched on and
    /// the clock as it was.
    pub open spec fn after_write(self, outcome: Result<(), Seq<char>>) -> PageView {
        if self.phase != Phase::AwaitingWrite {
            self
        } else {
            match outcome {
                Ok(_) => PageView {
                    phase: Phase::AwaitingRead,
                    tx: TxView { last_sent: self.pending_since, ..self.tx },
                    last_error: cleared(self.last_error, ErrorKind::Write),
                    ..self
                },
                Err(cause) => PageView {
                    phase: Phase::AwaitingRead,
                    pending: None,
                    last_error: Some((ErrorKind::Write, cause)),
                    ..self
                },
            }
        }
    }

    /// The frames that a read brought in; none where it failed.
    pub open spec fn inbound(outcome: Result<Seq<FrameView>, Seq<char>>) -> Seq<FrameView> {
        match outcome {
            Ok(frames) => frames,
            Err(_) => Seq::empty(),
        }
    }

    /// The session after this tick's read came back. The frame written in
    /// this tick is filed unfiltered, the inbound frames through the filter;
    /// the activity record takes the count of all of them. A failed read counts
    /// as no inbound frame and is put on display; the session stays connected.
    pub open spec fn after_read(self, outcome: Result<Seq<FrameView>, Seq<char>>) -> PageView {
        if self.phase != Phase::AwaitingRead {
            self
        } else {
            let inbound = Self::inbound(outcome);
            let with_sent = match self.pending {
                Some(frame) => self.table.insert(frame.address, frame),
                None => self.table,
            };
            PageView {
                phase: Phase::Idle,
                pending: None,
                table: fold_inbound(with_sent, inbound, self.filter),
                activity: self.activity.pushed(tick_count(self.pending is Some, inbound.len())),
                last_error: match outcome {
                    Ok(_) => cleared(self.last_error, ErrorKind::Read),
                    Err(cause) => Some((ErrorKind::Read, cause)),
                },
                ..self
            }
        }
    }
}

/// How far the caller's channel has come, as far as the session was told.
#[derive(Debug, Clone, Copy, PartialEq, Eq, Structural)]
pub enum ChannelStage {
    /// There is no channel, or it is to be released.
    Absent,
    Created,
    Configured,
    Open,
}

/// Whether a request of a connection attempt can be made of a channel that
/// has come as far as `channel`: creating needs none to exist, configuring
/// needs a created one, opening a configured one.
pub open spec fn connect_request_fits(action: ConnectAction, channel: ChannelStage) -> bool {
    match action {
        ConnectAction::CreateChannel => channel == ChannelStage::Absent,
        ConnectAction::Configure { .. } => channel == ChannelStage::Created,
        ConnectAction::Open => channel == ChannelStage::Configured,
        ConnectAction::Ready => channel == ChannelStage::Open,
        ConnectAction::Discard => channel == ChannelStage::Absent,
        ConnectAction::Rejected => true,
    }
}

/// Whether a request of a tick can be made of a channel that has come as far
/// as `channel`: reading and writing need an open one.
pub open spec fn tick_request_fits(action: TickAction, channel: ChannelStage) -> bool {
    match action {
        TickAction::Write { .. } => channel == ChannelStage::Open,
        TickAction::Read { .. } => channel == ChannelStage::Open,
        TickAction::Rejected => true,
    }
}

impl PageView {
    /// The stage of the channel once every outcome reported so far has taken
    /// effect and the request now pending has not.
    pub open spec fn channel(self) -> ChannelStage {
        match self.phase {
            Phase::Connecting(ConnectStage::Create) => ChannelStage::Absent,
            Phase::Connecting(ConnectStage::Configure) => ChannelStage::Created,
            Phase::Connecting(ConnectStage::Open) => ChannelStage::Configured,
            _ => if self.connected {
                ChannelStage::Open
            } else {
                ChannelStage::Absent
            },
        }
    }
}

impl PageView {
    /// What holds of a session in every state it can reach.
    pub open spec fn consistent(self) -> bool {
        &&& keyed_by_address(self.table)
        &&& self.table.dom().finite()
        &&& self.activity.valid()
        &&& self.tx.valid()
        &&& supported_baud(self.selected_baud)
        &&& (!self.connected ==> self.table == Map::<u32, FrameView>::empty() && self.activity
            == ActivityView::empty())
        &&& (self.phase is Connecting ==> !self.connected)
        &&& (self.phase == Phase::AwaitingWrite ==> self.connected && self.pending is Some)
        &&& (self.phase == Phase::AwaitingRead ==> self.connected)
    }
}

/// Filing inbound frames keeps every entry under its own address and the
/// table finite.
pub proof fn lemma_fold_keeps_keying(
    table: Map<u32, FrameView>,
    frames: Seq<FrameView>,
    filter: FilterSpec,
)
    requires
        keyed_by_address(table),
        table.dom().finite(),
    ensures
        keyed_by_address(fold_inbound(table, frames, filter)),
        fold_inbound(table, frames, filter).dom().finite(),
    decreases frames.len(),
{
    if frames.len() > 0 {
        lemma_fold_keeps_keying(table, frames.drop_last(), filter);
    }
}

/// An address has an entry after a read exactly if it had one before or an
/// accepted inbound frame carries it; where no accepted inbound frame carries
/// it, its entry is the one from before.
pub proof fn lemma_fold_domain(
    table: Map<u32, FrameView>,
    frames: Seq<FrameView>,
    filter: FilterSpec,
    address: u32,
)
    ensures
        fold_inbound(table, frames, filter).contains_key(address) <==> table.contains_key(address)
            || exists|i: int|
            0 <= i < frames.len() && (#[trigger] frames[i]).address == address && filter.accepts(
                address,
            ),
        !(exists|i: int|
            0 <= i < frames.len() && (#[trigger] frames[i]).address == address && filter.accepts(
                address,
            )) && table.contains_key(address) ==> fold_inbound(table, frames, filter)[address]
            == table[address],
    decreases frames.len(),
{
    if frames.len() > 0 {
        let earlier = frames.drop_last();
        lemma_fold_domain(table, earlier, filter, address);
        let last: int = frames.len() - 1;
        if exists|i: int|
            0 <= i < earlier.len() && (#[trigger] earlier[i]).address == address && filter.accepts(
                address,
            ) {
            let i: int = choose|i: int|
                0 <= i < earlier.len() && (#[trigger] earlier[i]).address == address
                    && filter.accepts(address);
            assert(frames[i] == earlier[i]);
        }
        if frames[last].address == address && filter.accepts(address) {
            assert(frames[last].address == address);
        }
        assert forall|i: int|
            0 <= i < frames.len() && (#[trigger] frames[i]).address == address && filter.accepts(
                address,
            ) && i != last implies exists|k: int|
            0 <= k < earlier.len() && (#[trigger] earlier[k]).address == address && filter.accepts(
                address,
            ) by {
            assert(earlier[i] == frames[i]);
        }
    }
}

/// Of the accepted inbound frames for one address the last one is the entry
/// after the read: an accepted frame that no later accepted frame for the same
/// address follows is what the table holds under its address.
pub proof fn lemma_fold_latest_wins(
    table: Map<u32, FrameView>,
    frames: Seq<FrameView>,
    filter: FilterSpec,
    at: int,
)
    requires
        0 <= at < frames.len(),
        filter.accepts(frames[at].address),
        forall|j: int|
            at < j < frames.len() ==> (#[trigger] frames[j]).address != frames[at].address,
    ensures
        fold_inbound(table, frames, filter).contains_key(frames[at].address),
        fold_inbound(table, frames, filter)[frames[at].address] == frames[at],
    decreases frames.len(),
{
    let last: int = frames.len() - 1;
    if at < last {
        let earlier = frames.drop_last();
        assert(earlier[at] == frames[at]);
        assert forall|j: int| at < j < earlier.len() implies (#[trigger] earlier[j]).address
            != earlier[at].address by {
            assert(earlier[j] == frames[j]);
        }
        lemma_fold_latest_wins(table, earlier, filter, at);
        assert(frames[last].address != frames[at].address);
    }
}

/// A session starts consistent, and no event makes it inconsistent.
pub proof fn lemma_initial_consistent()
    ensures
        PageView::initial().consistent(),
{
}

/// Operator input keeps a session consistent.
pub proof fn lemma_input_keeps_consistent(
    page: PageView,
    text: Seq<char>,
    address: u32,
    baud: u32,
    enabled: bool,
)
    requires
        page.consistent(),
    ensures
        page.with_mask_text(text).consistent(),
        page.with_filter_text(text).consistent(),
        page.with_filter_reset().consistent(),
        page.with_row_selected(address).consistent(),
        page.with_tx_id_text(text).consistent(),
        page.with_tx_interval_text(text).consistent(),
        page.with_tx_data_text(text).consistent(),
        page.with_sending(enabled).consistent(),
        page.with_baud(baud).consistent(),
{
    crate::text::lemma_byte_list_nonempty(vstd::utf8::encode_utf8(text));
}

/// Connecting and disconnecting keep a session consistent.
pub proof fn lemma_connection_keeps_consistent(
    page: PageView,
    outcome: Result<(), Seq<char>>,
    now_ms: u64,
)
    requires
        page.consistent(),
    ensures
        page.after_connect_request().consistent(),
        page.after_channel_step(outcome, now_ms).consistent(),
        page.after_disconnect().consistent(),
        forall|cause: Seq<char>| (#[trigger] page.after_channel_lost(cause)).consistent(),
{
}

/// Every step of a tick keeps a session consistent.
pub proof fn lemma_tick_keeps_consistent(
    page: PageView,
    now_ms: u64,
    written: Result<(), Seq<char>>,
    read: Result<Seq<FrameView>, Seq<char>>,
)
    requires
        page.consistent(),
    ensures
        page.after_tick_begins(now_ms).consistent(),
        page.after_write(written).consistent(),
        page.after_read(read).consistent(),
{
    if page.phase == Phase::AwaitingRead {
        let with_sent = match page.pending {
            Some(frame) => page.table.insert(frame.address, frame),
            None => page.table,
        };
        lemma_fold_keeps_keying(with_sent, PageView::inbound(read), page.filter);
    }
}

/// The channel is asked for in a fixed order: it is configured only after it
/// was created, with the selected rate and standard addressing; opened only
/// after it was configured; and the session connects only when it was opened.
pub proof fn lemma_connect_order(page: PageView, outcome: Result<(), Seq<char>>, now_ms: u64)
    requires
        page.consistent(),
    ensures
        page.channel_step_action(outcome) is Configure ==> page.phase == Phase::Connecting(
            ConnectStage::Create,
        ) && outcome is Ok && page.channel_step_action(outcome) == (ConnectAction::Configure {
            baud: page.selected_baud,
            extended: false,
        }),
        page.channel_step_action(outcome) == ConnectAction::Open ==> page.phase
            == Phase::Connecting(ConnectStage::Configure) && outcome is Ok,
        page.channel_step_action(outcome) == ConnectAction::Ready <==> page.phase
            == Phase::Connecting(ConnectStage::Open) && outcome is Ok,
        !page.connected && page.after_channel_step(outcome, now_ms).connected
            ==> page.channel_step_action(outcome) == ConnectAction::Ready,
        page.phase is Connecting && outcome is Err ==> page.channel_step_action(outcome)
            == ConnectAction::Discard && !page.after_channel_step(outcome, now_ms).connected
            && page.after_channel_step(outcome, now_ms).phase == Phase::Idle,
{
}

/// Every request that the session hands out fits the channel as the outcomes
/// reported so far have left it: the channel is configured before it is
/// opened and open before it is read or written, and a failed attempt or a
/// disconnect leaves none behind.
pub proof fn lemma_requests_fit_channel(
    page: PageView,
    outcome: Result<(), Seq<char>>,
    now_ms: u64,
)
    requires
        page.consistent(),
    ensures
        page.may_connect() ==> connect_request_fits(
            ConnectAction::CreateChannel,
            page.after_connect_request().channel(),
        ),
        connect_request_fits(
            page.channel_step_action(outcome),
            page.after_channel_step(outcome, now_ms).channel(),
        ),
        page.after_tick_begins(now_ms).phase == Phase::AwaitingWrite
            || page.after_tick_begins(now_ms).phase == Phase::AwaitingRead
            ==> page.after_tick_begins(now_ms).channel() == ChannelStage::Open,
        page.after_write(outcome).phase == Phase::AwaitingRead ==> page.after_write(
            outcome,
        ).channel() == ChannelStage::Open,
        page.after_disconnect().channel() == ChannelStage::Absent,
        page.channel() != ChannelStage::Absent ==> page.holds_channel(),
{
}

/// A tick without a transmission files the accepted inbound frames and
/// records how many frames came in, accepted or not.
pub proof fn lemma_quiet_tick(page: PageView, now_ms: u64, frames: Seq<FrameView>)
    requires
        page.ticks(),
        !page.tx.due(now_ms),
    ensures
        ({
            let after = page.after_tick_begins(now_ms).after_read(Ok(frames));
            &&& after.ticks()
            &&& after.table == fold_inbound(page.table, frames, page.filter)
            &&& after.activity == page.activity.pushed(tick_count(false, frames.len()))
            &&& frames.len() <= usize::MAX ==> after.activity.counts[0] == frames.len()
        }),
{
}

/// A disconnected session holds no frame and no activity, and begins no
/// tick: a read or a write is asked for only while connected.
pub proof fn lemma_disconnected_is_empty(page: PageView, now_ms: u64)
    requires
        page.consistent(),
        !page.connected,
    ensures
        page.table == Map::<u32, FrameView>::empty(),
        page.activity == ActivityView::empty(),
        !page.ticks(),
        page.after_tick_begins(now_ms) == page,
        page.phase != Phase::AwaitingWrite,
        page.phase != Phase::AwaitingRead,
{
}

/// The running maximum never drops during a tick, and a read raises it to the
/// tick's count where that is larger.
pub proof fn lemma_max_y_monotonic(
    page: PageView,
    now_ms: u64,
    written: Result<(), Seq<char>>,
    read: Result<Seq<FrameView>, Seq<char>>,
)
    ensures
        page.after_tick_begins(now_ms).activity.max_y == page.activity.max_y,
        page.after_write(written).activity.max_y == page.activity.max_y,
        page.after_read(read).activity.max_y >= page.activity.max_y,
{
}

/// The running maximum is back at its baseline after a disconnect and after
/// a connection attempt succeeded.
pub proof fn lemma_max_y_resets(page: PageView, now_ms: u64)
    ensures
        page.after_disconnect().activity.max_y == crate::activity::BASELINE_MAX,
        page.phase == Phase::Connecting(ConnectStage::Open) ==> page.after_channel_step(
            Ok(()),
            now_ms,
        ).activity.max_y == crate::activity::BASELINE_MAX,
{
}

/// After a reset the filter accepts every address, whatever it was before.
pub proof fn lemma_reset_accepts_all(page: PageView, address: u32)
    ensures
        page.with_filter_reset().filter == (FilterSpec { mask: 0, filter: 0 }),
        page.with_filter_reset().filter.accepts(address),
{
    crate::filter::lemma_accept_all_accepts(address);
}

/// After a row was selected the filter accepts the row's address and no
/// other.
pub proof fn lemma_selected_row_accepts_only(page: PageView, selected: u32, address: u32)
    ensures
        page.with_row_selected(selected).filter == (FilterSpec {
            mask: MASK_ALL,
            filter: selected,
        }),
        page.with_row_selected(selected).filter.accepts(address) <==> address == selected,
{
    crate::filter::lemma_only_accepts_exactly(selected, address);
}

/// A tick starts with a write exactly if the session is connected and idle,
/// transmission is on, the payload is valid and the interval has passed since
/// the last transmission. So no write is asked for earlier, and one is asked
/// for in the first tick that comes late enough.
pub proof fn lemma_transmit_timing(page: PageView, now_ms: u64)
    ensures
        page.transmits_at(now_ms) <==> page.connected && page.phase == Phase::Idle
            && page.tx.enabled && page.tx.valid() && crate::transmit::elapsed_ms(
            page.tx.last_sent,
            now_ms,
        ) >= page.tx.interval_ms,
        page.transmits_at(now_ms) <==> page.after_tick_begins(now_ms).phase == Phase::AwaitingWrite
            && page.phase == Phase::Idle,
{
}

/// A written frame restarts the clock at its tick's time: the next write is
/// not asked for before the interval has passed since then.
pub proof fn lemma_written_restarts_clock(page: PageView, later_ms: u64)
    requires
        page.phase == Phase::AwaitingWrite,
        crate::transmit::elapsed_ms(page.pending_since, later_ms) < page.tx.interval_ms,
    ensures
        page.after_write(Ok(())).tx.last_sent == page.pending_since,
        !page.after_write(Ok(())).tx.due(later_ms),
{
}

/// A failed write switches nothing off and leaves the clock alone, so the
/// next tick tries again.
pub proof fn lemma_failed_write_retries(page: PageView, cause: Seq<char>)
    requires
        page.phase == Phase::AwaitingWrite,
    ensures
        page.after_write(Err(cause)).tx == page.tx,
        page.after_write(Err(cause)).connected == page.connected,
        page.after_write(Err(cause)).pending is None,
{
}

/// A payload that is empty or longer than eight bytes is never written: the
/// tick goes straight to its read.
pub proof fn lemma_invalid_payload_never_written(page: PageView, now_ms: u64)
    requires
        page.tx.payload.len() == 0 || page.tx.payload.len() > crate::frame::MAX_PAYLOAD,
    ensures
        !page.transmits_at(now_ms),
        page.ticks() ==> page.after_tick_begins(now_ms).phase == Phase::AwaitingRead
            && page.after_tick_begins(now_ms).pending is None,
{
}

/// A failed read changes nothing but the activity record, which takes the
/// tick's count without inbound frames, and the error on display; the session
/// stays connected.
pub proof fn lemma_failed_read_is_absorbed(page: PageView, cause: Seq<char>)
    requires
        page.phase == Phase::AwaitingRead,
    ensures
        page.after_read(Err(cause)).connected == page.connected,
        page.after_read(Err(cause)).last_error == Some((ErrorKind::Read, cause)),
        page.after_read(Err(cause)).table == match page.pending {
            Some(frame) => page.table.insert(frame.address, frame),
            None => page.table,
        },
        page.after_read(Err(cause)).activity == page.activity.pushed(
            if page.pending is Some {
                1usize
            } else {
                0usize
            },
        ),
{
    let with_sent = match page.pending {
        Some(frame) => page.table.insert(frame.address, frame),
        None => page.table,
    };
    assert(fold_inbound(with_sent, Seq::<FrameView>::empty(), page.filter) == with_sent);
}

/// The texts that a reset and a row selection put into the mask and filter
/// fields read back as the values put in force, so that taking the fields'
/// content again changes nothing.
pub proof fn lemma_fields_agree_with_filter(page: PageView, selected: u32)
    ensures
        ({
            let reset = page.with_filter_reset();
            reset.with_mask_text(reset.mask_text).with_filter_text(reset.filter_text) == reset
        }),
        ({
            let narrowed = page.with_row_selected(selected);
            narrowed.with_mask_text(narrowed.mask_text).with_filter_text(narrowed.filter_text)
                == narrowed
        }),
{
    reveal_strlit("0000");
    reveal_strlit("FFFFFFFF");
    reveal_with_fuel(hex_digits, 9);
    assert("0000"@ =~= hex_digits(0, 4));
    assert("FFFFFFFF"@ =~= hex_digits(0xFFFF_FFFF, 4));
    crate::text::lemma_hex_round_trip(0, 4);
    crate::text::lemma_hex_round_trip(0xFFFF_FFFF, 4);
    crate::text::lemma_hex_round_trip(selected, 4);
}

} // verus!
