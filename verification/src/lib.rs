//! Live CAN bus tracing as a state machine over plain values.
//!
//! The crate holds the decisions of a tracer: which frames pass the address
//! filter, which frame is the latest for each address, how busy the bus was in
//! each of the last hundred polls, and when the operator's periodic frame is
//! due. It opens no driver and touches no channel. A caller owns the channel,
//! asks the session what to do next, does it, and tells the session how it
//! went.
//!
//! * [`frame`]: a CAN frame.
//! * [`filter`]: the mask and filter rule.
//! * [`table`]: the latest frame per address.
//! * [`activity`]: the rolling record of per-poll frame counts.
//! * [`transmit`]: the periodic frame and its schedule.
//! * [`text`]: reading and writing the operator's text fields.
//! * [`session`]: the session as a value, its events, and what holds of them.
//! * [`tracer`]: the session in executable form.
//! * [`launcher`]: choosing a driver before a session starts.

pub mod activity;
pub mod filter;
pub mod frame;
pub mod launcher;
pub mod session;
pub mod table;
pub mod text;
pub mod tracer;
pub mod transmit;
