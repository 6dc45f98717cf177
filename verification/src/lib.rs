//! The protocol layer of a bridge between control clients and a flying
//! robot that speaks text over UDP.
//!
//! * `cmd` and `keyword`: commands, the ranges of their arguments, and their
//!   text on the wire.
//! * `state`: the telemetry snapshot and the record it is read from.
//! * `channel`: the single-flight conversation with the robot, as a state
//!   machine.
//! * `session`: how a frame of a client becomes commands, and what is
//!   written back.
//! * `relay`: the subscribers of the telemetry stream.
//! * `text`, `number`, `measurement`: the text and numeral primitives under
//!   the codecs.
//! * `error`: the failures that all of them report.
//!
//! Nothing here touches a socket or a clock: the owner of the sockets hands
//! in text and times, and carries out what the functions return.

pub mod channel;
pub mod cmd;
pub mod error;
pub mod keyword;
pub mod measurement;
pub mod number;
pub mod relay;
pub mod session;
pub mod state;
pub mod text;
