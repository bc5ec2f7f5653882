//! The tracer session in executable form: what the operator typed, the
//! filter in force, the frames seen so far and the transmission schedule,
//! advanced one event at a time.
//!
//! The session never touches a channel. It hands out the next request to make
//! of the channel and is told afterwards how the request went. Within one tick
//! the order is fixed: a due transmission first, then one read, then the
//! bookkeeping.

use vstd::prelude::*;
use vstd::string::StringExecFns;
use crate::activity::ActivityBuffer;
use crate::filter::{FilterSpec, MASK_ALL};
use crate::frame::{frame_views, CanFrame};
use crate::session::{
    cleared, connect_request_fits, fold_inbound, is_supported_baud,
    lemma_connection_keeps_consistent, tick_request_fits,
    lemma_input_keeps_consistent, lemma_tick_keeps_consistent, read_view, step_view, ConnectAction,
    ConnectStage,
    ErrorKind, PageView, Phase, TickAction, ADDRESS_DIGITS, DEFAULT_BAUD, READ_MAX_FRAMES,
    READ_TIMEOUT_MS, WRITE_TIMEOUT_MS,
};
use crate::table::{keyed_by_address, lists_accepted, FrameTable};
use crate::text::{
    binary_text, hex_text, parse_decimal_u32, parse_hex_u32, parse_payload, PayloadText,
};
use crate::transmit::{TxDecision, TxSpec};

verus! {

/// A copy of what a renderer shows of a session at one moment.
#[derive(Debug)]
pub struct Snapshot {
    pub connected: bool,
    /// The table's entries that the filter in force accepts.
    pub rows: Vec<CanFrame>,
    /// The recorded per-tick counts, newest first.
    pub counts: Vec<usize>,
    pub max_y: usize,
    /// The error on display: the operation it came from, and its text.
    pub last_error: Option<(ErrorKind, String)>,
}

impl Snapshot {
    /// Whether this is a snapshot of `page`.
    pub open spec fn shows(self, page: PageView) -> bool {
        &&& self.connected == page.connected
        &&& lists_accepted(frame_views(self.rows@), page.table, page.filter)
        &&& self.counts@ == page.activity.counts
        &&& self.max_y == page.activity.max_y
        &&& match self.last_error {
            Some((kind, text)) => page.last_error == Some((kind, text@)),
            None => page.last_error is None,
        }
    }
}

/// A tracer session.
#[derive(Debug)]
pub struct CanTracerPage {
    connected: bool,
    phase: Phase,
    pending: Option<CanFrame>,
    pending_since: u64,
    selected_baud: u32,
    last_error: Option<(ErrorKind, String)>,
    can_map: FrameTable,
    activity: ActivityBuffer,
    filter: FilterSpec,
    mask_str: String,
    filt_str: String,
    tx: TxSpec,
    tx_id_str: String,
    tx_data_str: String,
    tx_interval_str: String,
    tx_bin_str: String,
}

impl View for CanTracerPage {
    type V = PageView;

    closed spec fn view(&self) -> PageView {
        PageView {
            connected: self.connected,
            phase: self.phase,
            pending: match self.pending {
                Some(frame) => Some(frame@),
                None => None,
            },
            pending_since: self.pending_since,
            selected_baud: self.selected_baud,
            last_error: match self.last_error {
                Some((kind, message)) => Some((kind, message@)),
                None => None,
            },
            table: self.can_map@,
            activity: self.activity@,
            filter: self.filter,
            mask_text: self.mask_str@,
            filter_text: self.filt_str@,
            tx: self.tx@,
            tx_id_text: self.tx_id_str@,
            tx_data_text: self.tx_data_str@,
            tx_interval_text: self.tx_interval_str@,
            tx_bin_text: self.tx_bin_str@,
        }
    }
}

impl CanTracerPage {
    /// A fresh session.
    pub fn new() -> (page: CanTracerPage)
        ensures
            page@ == PageView::initial(),
            page@.consistent(),
    {
        let mut payload: Vec<u8> = Vec::new();
        let mut i: usize = 0;
        while i < 8
            invariant
                i <= 8,
                payload@.len() == i,
                forall|j: int| 0 <= j < i ==> payload@[j] == 0,
            decreases 8 - i,
        {
            payload.push(0);
            i += 1;
        }
        assert(payload@ =~= seq![0u8, 0u8, 0u8, 0u8, 0u8, 0u8, 0u8, 0u8]);
        CanTracerPage {
            connected: false,
            phase: Phase::Idle,
            pending: None,
            pending_since: 0,
            selected_baud: DEFAULT_BAUD,
            last_error: None,
            can_map: FrameTable::new(),
            activity: ActivityBuffer::new(),
            filter: FilterSpec::accept_all(),
            mask_str: String::from_str("0000"),
            filt_str: String::from_str("0000"),
            tx: TxSpec { address: 1, payload, interval_ms: 50, enabled: false, last_sent: 0 },
            tx_id_str: String::from_str("0001"),
            tx_data_str: String::from_str("01 02 03 04 05 06 07 08"),
            tx_interval_str: String::from_str("50"),
            tx_bin_str: String::new(),
        }
    }

    /// Takes the content of the mask field.
    pub fn set_mask_text(&mut self, text: &str)
        ensures
            final(self)@ == old(self)@.with_mask_text(text@),
            old(self)@.consistent() ==> final(self)@.consistent(),
    {
        proof {
            if self@.consistent() {
                lemma_input_keeps_consistent(self@, text@, 0, 0, false);
            }
        }
        self.mask_str = String::from_str(text);
        match parse_hex_u32(text) {
            Some(mask) => {
                self.filter.mask = mask;
            },
            None => {},
        }
    }

    /// Takes the content of the filter field.
    pub fn set_filter_text(&mut self, text: &str)
        ensures
            final(self)@ == old(self)@.with_filter_text(text@),
            old(self)@.consistent() ==> final(self)@.consistent(),
    {
        proof {
            if self@.consistent() {
                lemma_input_keeps_consistent(self@, text@, 0, 0, false);
            }
        }
        self.filt_str = String::from_str(text);
        match parse_hex_u32(text) {
            Some(filter) => {
                self.filter.filter = filter;
            },
            None => {},
        }
    }

    /// Puts mask and filter back to zero, whatever they were.
    pub fn reset_filter(&mut self)
        ensures
            final(self)@ == old(self)@.with_filter_reset(),
            final(self)@.filter == (FilterSpec { mask: 0, filter: 0 }),
            old(self)@.consistent() ==> final(self)@.consistent(),
    {
        proof {
            if self@.consistent() {
                lemma_input_keeps_consistent(self@, Seq::empty(), 0, 0, false);
            }
        }
        self.mask_str = String::from_str("0000");
        self.filt_str = String::from_str("0000");
        self.filter = FilterSpec::accept_all();
    }

    /// Narrows the view to the address of a row.
    pub fn select_row(&mut self, address: u32)
        ensures
            final(self)@ == old(self)@.with_row_selected(address),
            final(self)@.filter == (FilterSpec { mask: MASK_ALL, filter: address }),
            old(self)@.consistent() ==> final(self)@.consistent(),
    {
        proof {
            if self@.consistent() {
                lemma_input_keeps_consistent(self@, Seq::empty(), address, 0, false);
            }
        }
        self.mask_str = String::from_str("FFFFFFFF");
        self.filt_str = hex_text(address, ADDRESS_DIGITS);
        self.filter = FilterSpec::only(address);
    }

    /// Takes the content of the transmit address field.
    pub fn set_tx_id_text(&mut self, text: &str)
        ensures
            final(self)@ == old(self)@.with_tx_id_text(text@),
            old(self)@.consistent() ==> final(self)@.consistent(),
    {
        proof {
            if self@.consistent() {
                lemma_input_keeps_consistent(self@, text@, 0, 0, false);
            }
        }
        self.tx_id_str = String::from_str(text);
        match parse_hex_u32(text) {
            Some(address) => {
                self.tx.address = address;
            },
            None => {},
        }
    }

    /// Takes the content of the transmit interval field.
    pub fn set_tx_interval_text(&mut self, text: &str)
        ensures
            final(self)@ == old(self)@.with_tx_interval_text(text@),
            old(self)@.consistent() ==> final(self)@.consistent(),
    {
        proof {
            if self@.consistent() {
                lemma_input_keeps_consistent(self@, text@, 0, 0, false);
            }
        }
        self.tx_interval_str = String::from_str(text);
        match parse_decimal_u32(text) {
            Some(interval_ms) => {
                self.tx.interval_ms = interval_ms;
            },
            None => {},
        }
    }

    /// Takes the content of the transmit payload field.
    pub fn set_tx_data_text(&mut self, text: &str)
        ensures
            final(self)@ == old(self)@.with_tx_data_text(text@),
            old(self)@.consistent() ==> final(self)@.consistent(),
    {
        proof {
            if self@.consistent() {
                lemma_input_keeps_consistent(self@, text@, 0, 0, false);
            }
        }
        self.tx_data_str = String::from_str(text);
        match parse_payload(text) {
            PayloadText::Invalid => {
                self.tx_bin_str = String::from_str("INVALID DATA");
            },
            PayloadText::TooBig => {
                self.tx_bin_str = String::from_str("DATA TOO BIG (Max 8 bytes)");
            },
            PayloadText::Bytes(bytes) => {
                self.tx_bin_str = binary_text(bytes.as_slice());
                self.tx.payload = bytes;
            },
        }
    }

    /// Switches periodic transmission on or off.
    pub fn set_sending(&mut self, enabled: bool)
        ensures
            final(self)@ == old(self)@.with_sending(enabled),
            old(self)@.consistent() ==> final(self)@.consistent(),
    {
        proof {
            if self@.consistent() {
                lemma_input_keeps_consistent(self@, Seq::empty(), 0, 0, enabled);
            }
        }
        self.tx.enabled = enabled;
    }

    /// Selects a baud rate. Says whether the selection was accepted.
    pub fn set_baud(&mut self, baud: u32) -> (accepted: bool)
        ensures
            accepted == old(self)@.accepts_baud(baud),
            final(self)@ == old(self)@.with_baud(baud),
            old(self)@.consistent() ==> final(self)@.consistent(),
    {
        proof {
            if self@.consistent() {
                lemma_input_keeps_consistent(self@, Seq::empty(), 0, baud, false);
            }
        }
        if !self.connected && self.phase == Phase::Idle && is_supported_baud(baud) {
            self.selected_baud = baud;
            true
        } else {
            false
        }
    }
    fn clear_error(&mut self, kind: ErrorKind)
        ensures
            final(self)@ == (PageView {
                last_error: cleared(old(self)@.last_error, kind),
                ..old(self)@
            }),
    {
        let same = match &self.last_error {
            Some(report) => report.0 == kind,
            None => false,
        };
        if same {
            self.last_error = None;
        }
    }

    /// Starts a connection attempt.
    pub fn connect(&mut self) -> (action: ConnectAction)
        ensures
            final(self)@ == old(self)@.after_connect_request(),
            action == if old(self)@.may_connect() {
                ConnectAction::CreateChannel
            } else {
                ConnectAction::Rejected
            },
            old(self)@.consistent() ==> final(self)@.consistent(),
    {
        proof {
            if self@.consistent() {
                lemma_connection_keeps_consistent(self@, Ok(()), 0);
            }
        }
        if !self.connected && self.phase == Phase::Idle {
            self.phase = Phase::Connecting(ConnectStage::Create);
            self.last_error = None;
            ConnectAction::CreateChannel
        } else {
            ConnectAction::Rejected
        }
    }

    /// Takes the outcome of the pending step of a connection attempt, at time
    /// `now_ms`, and says what to ask of the channel next.
    pub fn open_can_channel(&mut self, outcome: Result<(), String>, now_ms: u64) -> (action:
        ConnectAction)
        ensures
            final(self)@ == old(self)@.after_channel_step(step_view(outcome), now_ms),
            action == old(self)@.channel_step_action(step_view(outcome)),
            old(self)@.consistent() ==> final(self)@.consistent(),
            old(self)@.consistent() ==> connect_request_fits(action, final(self)@.channel()),
    {
        proof {
            if self@.consistent() {
                lemma_connection_keeps_consistent(self@, step_view(outcome), now_ms);
            }
        }
        let stage = match self.phase {
            Phase::Connecting(stage) => stage,
            _ => {
                return ConnectAction::Rejected;
            },
        };
        match outcome {
            Err(cause) => {
                let mut message = String::from_str("Could not open CAN channel!: ");
                message.append(cause.as_str());
                self.phase = Phase::Idle;
                self.last_error = Some((ErrorKind::Connect, message));
                ConnectAction::Discard
            },
            Ok(_) => match stage {
                ConnectStage::Create => {
                    self.phase = Phase::Connecting(ConnectStage::Configure);
                    ConnectAction::Configure { baud: self.selected_baud, extended: false }
                },
                ConnectStage::Configure => {
                    self.phase = Phase::Connecting(ConnectStage::Open);
                    ConnectAction::Open
                },
                ConnectStage::Open => {
                    self.connected = true;
                    self.phase = Phase::Idle;
                    self.pending = None;
                    self.can_map.clear();
                    self.activity.clear();
                    self.tx.last_sent = now_ms;
                    ConnectAction::Ready
                },
            },
        }
    }

    /// Disconnects. Says whether a channel may exist that the caller has to
    /// close. May be called in any state; outcomes that arrive afterwards for
    /// requests made before are rejected.
    pub fn disconnect(&mut self) -> (close: bool)
        ensures
            final(self)@ == old(self)@.after_disconnect(),
            close == old(self)@.holds_channel(),
            old(self)@.consistent() ==> final(self)@.consistent(),
    {
        proof {
            if self@.consistent() {
                lemma_connection_keeps_consistent(self@, Ok(()), 0);
            }
        }
        let close = self.connected || match self.phase {
            Phase::Connecting(_) => true,
            _ => false,
        };
        self.connected = false;
        self.phase = Phase::Idle;
        self.pending = None;
        self.can_map.clear();
        self.activity.clear();
        self.tx.last_sent = 0;
        close
    }

    /// Takes the news that the channel is gone for good, as distinct from a
    /// read or write that failed once. Says whether a channel may exist that
    /// the caller has to release.
    pub fn channel_lost(&mut self, cause: String) -> (close: bool)
        ensures
            final(self)@ == old(self)@.after_channel_lost(cause@),
            close == old(self)@.holds_channel(),
            old(self)@.consistent() ==> final(self)@.consistent(),
    {
        proof {
            if self@.consistent() {
                lemma_connection_keeps_consistent(self@, Ok(()), 0);
            }
        }
        let close = self.disconnect();
        self.last_error = Some((ErrorKind::Connect, cause));
        close
    }

    /// Begins a tick at time `now_ms`: a write where a transmission is due,
    /// else the read.
    pub fn begin_tick(&mut self, now_ms: u64) -> (action: TickAction)
        ensures
            final(self)@ == old(self)@.after_tick_begins(now_ms),
            tick_request_fits(action, final(self)@.channel()),
            match action {
                TickAction::Rejected => !old(self)@.ticks(),
                TickAction::Write { frame, timeout_ms } => old(self)@.transmits_at(now_ms) && frame@
                    == old(self)@.tx.frame() && timeout_ms == WRITE_TIMEOUT_MS,
                TickAction::Read { max_count, timeout_ms } => old(self)@.ticks() && !old(
                    self,
                )@.tx.due(now_ms) && max_count == READ_MAX_FRAMES && timeout_ms == READ_TIMEOUT_MS,
            },
            old(self)@.consistent() ==> final(self)@.consistent(),
    {
        proof {
            if self@.consistent() {
                lemma_tick_keeps_consistent(self@, now_ms, Ok(()), Ok(Seq::empty()));
            }
        }
        if !(self.connected && self.phase == Phase::Idle) {
            return TickAction::Rejected;
        }
        self.pending_since = now_ms;
        match self.tx.decide(now_ms) {
            TxDecision::Send(frame) => {
                self.phase = Phase::AwaitingWrite;
                self.pending = Some(frame);
                TickAction::Write { frame, timeout_ms: WRITE_TIMEOUT_MS }
            },
            _ => {
                self.phase = Phase::AwaitingRead;
                self.pending = None;
                TickAction::Read { max_count: READ_MAX_FRAMES, timeout_ms: READ_TIMEOUT_MS }
            },
        }
    }

    /// Takes the outcome of this tick's write and asks for the read.
    pub fn write_done(&mut self, outcome: Result<(), String>) -> (action: TickAction)
        ensures
            final(self)@ == old(self)@.after_write(step_view(outcome)),
            action == if old(self)@.phase == Phase::AwaitingWrite {
                TickAction::Read { max_count: READ_MAX_FRAMES, timeout_ms: READ_TIMEOUT_MS }
            } else {
                TickAction::Rejected
            },
            old(self)@.consistent() ==> final(self)@.consistent(),
    {
        proof {
            if self@.consistent() {
                lemma_tick_keeps_consistent(self@, 0, step_view(outcome), Ok(Seq::empty()));
            }
        }
        if self.phase != Phase::AwaitingWrite {
            return TickAction::Rejected;
        }
        self.phase = Phase::AwaitingRead;
        match outcome {
            Ok(_) => {
                self.tx.last_sent = self.pending_since;
                self.clear_error(ErrorKind::Write);
            },
            Err(cause) => {
                self.pending = None;
                self.last_error = Some((ErrorKind::Write, cause));
            },
        }
        TickAction::Read { max_count: READ_MAX_FRAMES, timeout_ms: READ_TIMEOUT_MS }
    }

    /// Takes the outcome of this tick's read and does the tick's bookkeeping.
    /// Says whether the outcome was expected.
    pub fn read_done(&mut self, outcome: Result<Vec<CanFrame>, String>) -> (accepted: bool)
        ensures
            final(self)@ == old(self)@.after_read(read_view(outcome)),
            accepted == (old(self)@.phase == Phase::AwaitingRead),
            old(self)@.consistent() ==> final(self)@.consistent(),
    {
        proof {
            if self@.consistent() {
                lemma_tick_keeps_consistent(self@, 0, Ok(()), read_view(outcome));
            }
        }
        if self.phase != Phase::AwaitingRead {
            return false;
        }
        let sent: usize = if self.pending.is_some() { 1 } else { 0 };
        let mut table = FrameTable::new();
        std::mem::swap(&mut table, &mut self.can_map);
        match self.pending {
            Some(frame) => {
                table.insert(frame);
            },
            None => {},
        }
        let ghost with_sent = table@;
        let ghost before = self@;
        let mut received: usize = 0;
        match outcome {
            Ok(frames) => {
                let ghost views = frame_views(frames@);
                let filter = self.filter;
                let mut i: usize = 0;
                while i < frames.len()
                    invariant
                        i <= frames@.len(),
                        views == frame_views(frames@),
                        table@ == fold_inbound(with_sent, views.subrange(0, i as int), filter),
                    decreases frames@.len() - i,
                {
                    let frame: CanFrame = frames[i];
                    proof {
                        let next = views.subrange(0, i + 1);
                        assert(next.drop_last() =~= views.subrange(0, i as int));
                        assert(next.last() == frame@);
                    }
                    if filter.passes(&frame) {
                        table.insert(frame);
                    }
                    i += 1;
                }
                assert(views.subrange(0, i as int) =~= views);
                received = frames.len();
                self.clear_error(ErrorKind::Read);
            },
            Err(cause) => {
                self.last_error = Some((ErrorKind::Read, cause));
            },
        }
        let count: usize = if received == usize::MAX { usize::MAX } else { received + sent };
        self.can_map = table;
        self.activity.push(count);
        self.phase = Phase::Idle;
        self.pending = None;
        true
    }
    /// Whether the session is connected.
    pub fn is_connected(&self) -> (connected: bool)
        ensures
            connected == self@.connected,
    {
        self.connected
    }

    /// What the session is waiting for.
    pub fn phase(&self) -> (phase: Phase)
        ensures
            phase == self@.phase,
    {
        self.phase
    }

    /// The baud rate that the next connection attempt configures.
    pub fn selected_baud(&self) -> (baud: u32)
        ensures
            baud == self@.selected_baud,
    {
        self.selected_baud
    }

    /// The filter in force.
    pub fn filter(&self) -> (filter: FilterSpec)
        ensures
            filter == self@.filter,
    {
        self.filter
    }

    /// The specification of the periodic frame.
    pub fn tx(&self) -> (tx: &TxSpec)
        ensures
            tx@ == self@.tx,
    {
        &self.tx
    }

    /// The kind of the error on display, if there is one.
    pub fn last_error_kind(&self) -> (kind: Option<ErrorKind>)
        ensures
            kind == match self@.last_error {
                Some((kind, _)) => Some(kind),
                None => None,
            },
    {
        match &self.last_error {
            Some(report) => Some(report.0),
            None => None,
        }
    }

    /// The text of the error on display, if there is one.
    pub fn last_error(&self) -> (message: Option<String>)
        ensures
            match message {
                Some(text) => self@.last_error is Some && self@.last_error.unwrap().1 == text@,
                None => self@.last_error is None,
            },
    {
        match &self.last_error {
            Some(report) => Some(report.1.clone()),
            None => None,
        }
    }

    /// The content of the mask field.
    pub fn mask_text(&self) -> (text: &str)
        ensures
            text@ == self@.mask_text,
    {
        self.mask_str.as_str()
    }

    /// The content of the filter field.
    pub fn filter_text(&self) -> (text: &str)
        ensures
            text@ == self@.filter_text,
    {
        self.filt_str.as_str()
    }

    /// The content of the transmit address field.
    pub fn tx_id_text(&self) -> (text: &str)
        ensures
            text@ == self@.tx_id_text,
    {
        self.tx_id_str.as_str()
    }

    /// The content of the transmit payload field.
    pub fn tx_data_text(&self) -> (text: &str)
        ensures
            text@ == self@.tx_data_text,
    {
        self.tx_data_str.as_str()
    }

    /// The content of the transmit interval field.
    pub fn tx_interval_text(&self) -> (text: &str)
        ensures
            text@ == self@.tx_interval_text,
    {
        self.tx_interval_str.as_str()
    }

    /// The payload in binary, or what is wrong with the payload field.
    pub fn tx_bin_text(&self) -> (text: &str)
        ensures
            text@ == self@.tx_bin_text,
    {
        self.tx_bin_str.as_str()
    }

    /// Number of addresses in the table, which holds one frame for each.
    pub fn address_count(&self) -> (n: usize)
        ensures
            n == self@.table.dom().len(),
            self@.table.dom().finite(),
            keyed_by_address(self@.table),
    {
        self.can_map.len()
    }

    /// The table's entry for `address`, if there is one.
    pub fn entry(&self, address: u32) -> (entry: Option<CanFrame>)
        ensures
            match entry {
                Some(frame) => self@.table.contains_key(address) && self@.table[address] == frame@,
                None => !self@.table.contains_key(address),
            },
    {
        self.can_map.get(address)
    }

    /// The table's entries that the filter in force accepts, each once, in no
    /// particular order.
    pub fn visible_rows(&self) -> (rows: Vec<CanFrame>)
        ensures
            lists_accepted(frame_views(rows@), self@.table, self@.filter),
    {
        self.can_map.rows(&self.filter)
    }

    /// The recorded per-tick counts, newest first.
    pub fn activity_counts(&self) -> (counts: Vec<usize>)
        ensures
            counts@ == self@.activity.counts,
    {
        self.activity.counts()
    }

    /// The count of the most recent tick, if any was recorded.
    pub fn newest_count(&self) -> (count: Option<usize>)
        ensures
            count == (if self@.activity.counts.len() > 0 {
                Some(self@.activity.counts[0])
            } else {
                None
            }),
    {
        self.activity.newest()
    }

    /// The running maximum of the per-tick counts.
    pub fn max_y(&self) -> (max_y: usize)
        ensures
            max_y == self@.activity.max_y,
    {
        self.activity.max_y()
    }

    /// Copies what a renderer shows. The session keeps its state to itself;
    /// the copy does not change with it.
    pub fn snapshot(&self) -> (snapshot: Snapshot)
        ensures
            snapshot.shows(self@),
    {
        Snapshot {
            connected: self.connected,
            rows: self.visible_rows(),
            counts: self.activity_counts(),
            max_y: self.max_y(),
            last_error: match &self.last_error {
                Some(report) => Some((report.0, report.1.clone())),
                None => None,
            },
        }
    }
}

} // verus!
