//! The process supervisor's decision logic: decoding a run command's three
//! base64 blobs into a validated request, splitting the argument blob, and
//! encoding how a child ended into the single wire integer of its terminal
//! record.

use vstd::prelude::*;
use vstd::utf8::{decode_utf8, valid_utf8};
use crate::b64::{b64_parse, decode_b64};
use crate::decimal::{dec_str, u32_to_string};
use crate::envparse::{parse_env, parse_env_spec, EnvError};
use crate::records::{PollData, PollType};
use crate::text::{push_char, string_from_utf8};

verus! {

/// A decoded, validated run request, ready to be spawned.
pub struct RunRequest {
    /// The executable path.
    pub process: String,
    /// The argument vector: the args blob split on NUL bytes.
    pub args: Vec<String>,
    /// Environment entries, to be merged into the agent's own environment.
    pub env_vars: Vec<(String, String)>,
}

/// Why a run command is rejected before anything is spawned. The `Decode*`
/// variants carry the base64 decoder's own description of the fault.
#[derive(Debug)]
pub enum RunError {
    DecodePath(String),
    DecodeArgs(String),
    DecodeEnv(String),
    Utf8Path,
    Utf8Args,
    Utf8Env,
    Env(EnvError),
}

impl RunError {
    /// The message reported over the wire for this error.
    pub open spec fn spec_message(self) -> Seq<char> {
        match self {
            RunError::DecodePath(d) => "Error decoding exec path: "@ + d@,
            RunError::DecodeArgs(d) => "Error decoding exec args: "@ + d@,
            RunError::DecodeEnv(d) => "Error decoding exec env vars: "@ + d@,
            RunError::Utf8Path => "Invalid UTF8 for exec path"@,
            RunError::Utf8Args => "Invalid UTF8 for exec args"@,
            RunError::Utf8Env => "Invalid UTF8 for exec env args"@,
            RunError::Env(e) => e.spec_message(),
        }
    }

    /// Renders the message reported over the wire.
    pub fn message(&self) -> (r: String)
        ensures
            r@ == self.spec_message(),
    {
        match self {
            RunError::DecodePath(d) => {
                let mut m = String::from_str("Error decoding exec path: ");
                m.append(d.as_str());
                m
            },
            RunError::DecodeArgs(d) => {
                let mut m = String::from_str("Error decoding exec args: ");
                m.append(d.as_str());
                m
            },
            RunError::DecodeEnv(d) => {
                let mut m = String::from_str("Error decoding exec env vars: ");
                m.append(d.as_str());
                m
            },
            RunError::Utf8Path => String::from_str("Invalid UTF8 for exec path"),
            RunError::Utf8Args => String::from_str("Invalid UTF8 for exec args"),
            RunError::Utf8Env => String::from_str("Invalid UTF8 for exec env args"),
            RunError::Env(e) => String::from_str(e.message()),
        }
    }
}

/// The splitter's step function: `cur` is the argument being read; a NUL
/// closes it and opens the next.
pub open spec fn split_rec(s: Seq<char>, cur: Seq<char>) -> Seq<Seq<char>>
    decreases s.len(),
{
    if s.len() == 0 {
        seq![cur]
    } else if s[0] == '\u{0}' {
        seq![cur] + split_rec(s.skip(1), Seq::empty())
    } else {
        split_rec(s.skip(1), cur.push(s[0]))
    }
}

/// How the args blob divides into the argument vector: an empty blob yields
/// no arguments at all; otherwise the blob splits on every NUL byte, so
/// arguments may hold spaces.
pub open spec fn spec_split_args(s: Seq<char>) -> Seq<Seq<char>> {
    if s.len() == 0 {
        Seq::empty()
    } else {
        split_rec(s, Seq::empty())
    }
}

/// Splits a decoded args blob into the argument vector, exactly as
/// `spec_split_args` describes.
pub fn split_args(s: &str) -> (r: Vec<String>)
    ensures
        r.deep_view() == spec_split_args(s@),
{
    let n = s.unicode_len();
    let mut out: Vec<String> = Vec::new();
    if n == 0 {
        proof {
            assert(out.deep_view() =~= spec_split_args(s@));
        }
        return out;
    }
    let mut cur = String::new();
    let mut i: usize = 0;
    proof {
        assert(s@.skip(0) =~= s@);
        assert(out.deep_view() + split_rec(s@, cur@) =~= split_rec(s@, Seq::empty()));
    }
    while i < n
        invariant
            i <= n,
            n == s@.len(),
            n > 0,
            spec_split_args(s@) == out.deep_view() + split_rec(s@.skip(i as int), cur@),
        decreases n - i,
    {
        let ghost rem = s@.skip(i as int);
        let c = s.get_char(i);
        assert(rem[0] == c);
        proof {
            assert(rem.skip(1) =~= s@.skip(i + 1));
        }
        if c == '\u{0}' {
            let ghost prev = out.deep_view();
            let ghost cg = cur@;
            out.push(cur);
            cur = String::new();
            proof {
                assert(out.deep_view() =~= prev.push(cg));
                assert(prev.push(cg) =~= prev + seq![cg]);
                assert(out.deep_view() + split_rec(s@.skip(i + 1), cur@) =~= prev + (seq![cg]
                    + split_rec(rem.skip(1), Seq::empty())));
            }
        } else {
            push_char(&mut cur, c);
        }
        i = i + 1;
    }
    proof {
        assert(s@.skip(i as int).len() == 0);
        assert(split_rec(s@.skip(i as int), cur@) == seq![cur@]);
    }
    let ghost prev = out.deep_view();
    let ghost cg = cur@;
    out.push(cur);
    proof {
        assert(out.deep_view() =~= prev.push(cg));
        assert(prev.push(cg) =~= prev + seq![cg]);
    }
    out
}

/// Assembles the request from the three decoded, UTF-8-validated blobs: the
/// path is taken whole, the args blob splits on NUL, and the env blob must
/// parse; an env error rejects the request and nothing else can fail.
pub fn build_run_request(process: String, args_blob: String, env_blob: String) -> (r: Result<
    RunRequest,
    EnvError,
>)
    ensures
        match r {
            Ok(req) => {
                &&& req.process@ == process@
                &&& req.args.deep_view() == spec_split_args(args_blob@)
                &&& parse_env_spec(env_blob@) matches Ok(pairs)
                &&& req.env_vars.deep_view() == pairs
            },
            Err(e) => parse_env_spec(env_blob@) == Err::<Seq<(Seq<char>, Seq<char>)>, _>(e),
        },
{
    let args = split_args(args_blob.as_str());
    let env_vars = match parse_env(env_blob.as_str()) {
        Ok(p) => p,
        Err(e) => {
            return Err(e);
        },
    };
    Ok(RunRequest { process, args, env_vars })
}

/// When the given `RunError` is the one a run command with these three
/// base64 tokens is rejected with: the first decode, UTF-8 or env failure,
/// checked in the order path, args, env blob.
pub open spec fn run_error_matches(p: Seq<char>, a: Seq<char>, ev: Seq<char>, e: RunError) -> bool {
    match e {
        RunError::DecodePath(_) => b64_parse(p) is None,
        RunError::Utf8Path => {
            &&& b64_parse(p) matches Some(pb)
            &&& !valid_utf8(pb)
        },
        RunError::DecodeArgs(_) => {
            &&& b64_parse(p) matches Some(pb)
            &&& valid_utf8(pb)
            &&& b64_parse(a) is None
        },
        RunError::Utf8Args => {
            &&& b64_parse(p) matches Some(pb)
            &&& valid_utf8(pb)
            &&& b64_parse(a) matches Some(ab)
            &&& !valid_utf8(ab)
        },
        RunError::DecodeEnv(_) => {
            &&& b64_parse(p) matches Some(pb)
            &&& valid_utf8(pb)
            &&& b64_parse(a) matches Some(ab)
            &&& valid_utf8(ab)
            &&& b64_parse(ev) is None
        },
        RunError::Utf8Env => {
            &&& b64_parse(p) matches Some(pb)
            &&& valid_utf8(pb)
            &&& b64_parse(a) matches Some(ab)
            &&& valid_utf8(ab)
            &&& b64_parse(ev) matches Some(evb)
            &&& !valid_utf8(evb)
        },
        RunError::Env(ee) => {
            &&& b64_parse(p) matches Some(pb)
            &&& valid_utf8(pb)
            &&& b64_parse(a) matches Some(ab)
            &&& valid_utf8(ab)
            &&& b64_parse(ev) matches Some(evb)
            &&& valid_utf8(evb)
            &&& parse_env_spec(decode_utf8(evb)) == Err::<Seq<(Seq<char>, Seq<char>)>, _>(ee)
        },
    }
}

/// Decodes a run command's three base64 blobs — executable path, args blob,
/// env blob, in that order — and builds the request the supervisor will
/// spawn. Never spawns anything itself: it returns the validated request, or
/// the first decode, UTF-8 or env error met.
pub fn process(b_process: &str, b_args: &str, b_env_vars: &str) -> (r: Result<
    RunRequest,
    RunError,
>)
    ensures
        match r {
            Ok(req) => {
                &&& b64_parse(b_process@) matches Some(p)
                &&& valid_utf8(p)
                &&& req.process@ == decode_utf8(p)
                &&& b64_parse(b_args@) matches Some(a)
                &&& valid_utf8(a)
                &&& req.args.deep_view() == spec_split_args(decode_utf8(a))
                &&& b64_parse(b_env_vars@) matches Some(ev)
                &&& valid_utf8(ev)
                &&& parse_env_spec(decode_utf8(ev)) matches Ok(pairs)
                &&& req.env_vars.deep_view() == pairs
            },
            Err(e) => run_error_matches(b_process@, b_args@, b_env_vars@, e),
        },
{
    let process_bytes = match decode_b64(b_process) {
        Ok(v) => v,
        Err(d) => {
            return Err(RunError::DecodePath(d));
        },
    };
    let process_str = match string_from_utf8(process_bytes) {
        Some(s) => s,
        None => {
            return Err(RunError::Utf8Path);
        },
    };
    let args_bytes = match decode_b64(b_args) {
        Ok(v) => v,
        Err(d) => {
            return Err(RunError::DecodeArgs(d));
        },
    };
    let args_str = match string_from_utf8(args_bytes) {
        Some(s) => s,
        None => {
            return Err(RunError::Utf8Args);
        },
    };
    let env_bytes = match decode_b64(b_env_vars) {
        Ok(v) => v,
        Err(d) => {
            return Err(RunError::DecodeEnv(d));
        },
    };
    let env_str = match string_from_utf8(env_bytes) {
        Some(s) => s,
        None => {
            return Err(RunError::Utf8Env);
        },
    };
    match build_run_request(process_str, args_str, env_str) {
        Ok(req) => Ok(req),
        Err(e) => Err(RunError::Env(e)),
    }
}

/// The success payload of a `run` command: the spawned child's pid in
/// decimal — which is never empty, all digits, and reads back as the pid
/// (`lemma_dec_str_value`) — followed by a line break. The exit status is
/// never part of it: `run` is fire-and-forget and exit is reported via
/// `poll`.
pub fn run_payload(pid: u32) -> (r: String)
    ensures
        r@ == dec_str(pid as nat).push('\n'),
{
    let mut r = u32_to_string(pid);
    push_char(&mut r, '\n');
    r
}

/// How a child ended, as the supervisor's non-blocking poll of the exit
/// status reports it.
#[derive(Clone, Copy, PartialEq, Eq, Structural, Debug)]
pub enum ProcExit {
    /// A normal exit with the given code.
    Exited(u32),
    /// Termination by the given signal.
    Signaled(u8),
    /// The child is gone but how it ended could not be determined.
    Undetermined,
}

/// The wire encoding of an exit: a normal exit code maps to itself, an
/// undetermined end to `256`, termination by signal `S` to `256 + S`.
pub open spec fn exit_wire_code(e: ProcExit) -> nat {
    match e {
        ProcExit::Exited(c) => c as nat,
        ProcExit::Undetermined => 256,
        ProcExit::Signaled(s) => 256 + s as nat,
    }
}

/// Computes the wire encoding of an exit.
pub fn exit_code(e: &ProcExit) -> (r: u32)
    ensures
        r as nat == exit_wire_code(*e),
{
    match e {
        ProcExit::Exited(c) => *c,
        ProcExit::Undetermined => 256,
        ProcExit::Signaled(s) => 256 + (*s as u32),
    }
}

/// Queues the terminal record of one child: exactly one `PidExit` record,
/// appended after everything already pending, carrying the decimal wire
/// encoding of how the child ended.
pub fn push_exit_record(pid: u32, status: &ProcExit, poll_data: &mut Vec<PollData>)
    ensures
        old(poll_data)@.is_prefix_of(final(poll_data)@),
        final(poll_data)@.len() == old(poll_data)@.len() + 1,
        final(poll_data)@.last().typ == PollType::PidExit,
        final(poll_data)@.last().pid == pid,
        final(poll_data)@.last().data@ == dec_str(exit_wire_code(*status)),
{
    let code = exit_code(status);
    let data = u32_to_string(code);
    poll_data.push(PollData { typ: PollType::PidExit, pid, data });
}

} // verus!
