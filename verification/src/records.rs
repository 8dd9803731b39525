//! The units of poll data: what a supervisor worker captures from a child
//! process and queues for the host to drain.

use vstd::prelude::*;

verus! {

/// The kind of one poll record.
#[derive(Clone, Copy, PartialEq, Eq, Structural, Debug)]
pub enum PollType {
    PidExit,
    Stdout,
    Stderr,
}

impl PollType {
    /// The wire token of this kind.
    pub open spec fn spec_label(self) -> Seq<char> {
        match self {
            PollType::PidExit => "pidexit"@,
            PollType::Stdout => "stdout"@,
            PollType::Stderr => "stderr"@,
        }
    }

    /// Returns the wire token written in front of each record line.
    pub fn label(&self) -> (r: &'static str)
        ensures
            r@ == self.spec_label(),
    {
        match self {
            PollType::PidExit => "pidexit",
            PollType::Stdout => "stdout",
            PollType::Stderr => "stderr",
        }
    }
}

/// One captured unit of child output or exit status, queued until the host
/// drains it with a `poll` command. For `Stdout`/`Stderr` the payload is the
/// base64 rendering of the captured bytes; for `PidExit` it is the decimal
/// exit encoding.
pub struct PollData {
    pub typ: PollType,
    pub pid: u32,
    pub data: String,
}

} // verus!
