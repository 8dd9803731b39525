//! Guest-side serial control agent: frames commands arriving over a serial
//! byte stream, dispatches them to a process supervisor, a signal relay or a
//! poll aggregator, and encodes the response frames sent back to the host.

pub mod b64;
pub mod decimal;
pub mod dispatch;
pub mod envparse;
pub mod framer;
pub mod poll;
pub mod process;
pub mod records;
pub mod text;
