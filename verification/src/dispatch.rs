//! The command dispatcher: a decoded frame is read as UTF-8 (lossily), split
//! on single spaces, and routed by its exact token shape to the process
//! supervisor, the signal relay or the poll aggregator.

use vstd::prelude::*;
use vstd::utf8::{decode_utf8, valid_utf8};
use crate::b64::b64_parse;
use crate::decimal::{parse_i32, parse_i32_spec};
use crate::envparse::parse_env_spec;
use crate::poll::{render_records, send_poll_data, Aggregator};
use crate::process::{process, run_error_matches, spec_split_args, RunError, RunRequest};
use crate::records::PollData;
use crate::text::{push_char, string_from_utf8_lossy, utf8_lossy};

verus! {

/// The tokenizer's step function: a space closes the token being read and
/// opens the next, so consecutive spaces yield empty tokens.
pub open spec fn tokens_rec(s: Seq<char>, cur: Seq<char>) -> Seq<Seq<char>>
    decreases s.len(),
{
    if s.len() == 0 {
        seq![cur]
    } else if s[0] == ' ' {
        seq![cur] + tokens_rec(s.skip(1), Seq::empty())
    } else {
        tokens_rec(s.skip(1), cur.push(s[0]))
    }
}

/// A command line split on single spaces. The empty line yields one empty
/// token, so there is always at least one token.
pub open spec fn spec_tokens(s: Seq<char>) -> Seq<Seq<char>> {
    tokens_rec(s, Seq::empty())
}

/// Splits a command line into tokens, exactly as `spec_tokens` describes.
pub fn tokenize(s: &str) -> (r: Vec<String>)
    ensures
        r.deep_view() == spec_tokens(s@),
{
    let n = s.unicode_len();
    let mut out: Vec<String> = Vec::new();
    let mut cur = String::new();
    let mut i: usize = 0;
    proof {
        assert(s@.skip(0) =~= s@);
        assert(out.deep_view() + tokens_rec(s@, cur@) =~= tokens_rec(s@, Seq::empty()));
    }
    while i < n
        invariant
            i <= n,
            n == s@.len(),
            spec_tokens(s@) == out.deep_view() + tokens_rec(s@.skip(i as int), cur@),
        decreases n - i,
    {
        let ghost rem = s@.skip(i as int);
        let c = s.get_char(i);
        assert(rem[0] == c);
        proof {
            assert(rem.skip(1) =~= s@.skip(i + 1));
        }
        if c == ' ' {
            let ghost prev = out.deep_view();
            let ghost cg = cur@;
            out.push(cur);
            cur = String::new();
            proof {
                assert(out.deep_view() =~= prev.push(cg));
                assert(prev.push(cg) =~= prev + seq![cg]);
                assert(out.deep_view() + tokens_rec(s@.skip(i + 1), cur@) =~= prev + (seq![cg]
                    + tokens_rec(rem.skip(1), Seq::empty())));
            }
        } else {
            push_char(&mut cur, c);
        }
        i = i + 1;
    }
    proof {
        assert(s@.skip(i as int).len() == 0);
        assert(tokens_rec(s@.skip(i as int), cur@) == seq![cur@]);
    }
    let ghost prev = out.deep_view();
    let ghost cg = cur@;
    out.push(cur);
    proof {
        assert(out.deep_view() =~= prev.push(cg));
        assert(prev.push(cg) =~= prev + seq![cg]);
    }
    out
}

/// True when the tokens form a `run` command: exact arity, no more, no less.
pub open spec fn run_shape(toks: Seq<Seq<char>>) -> bool {
    toks.len() == 4 && toks[0] == "run"@
}

/// True when the tokens form a `signal` command.
pub open spec fn signal_shape(toks: Seq<Seq<char>>) -> bool {
    toks.len() == 3 && toks[0] == "signal"@
}

/// True when the tokens form a `poll` command.
pub open spec fn poll_shape(toks: Seq<Seq<char>>) -> bool {
    toks.len() == 1 && toks[0] == "poll"@
}

/// One parsed command, still carrying its raw string arguments.
pub enum Command {
    Run { process_b64: String, args_b64: String, env_b64: String },
    Signal { pid: String, signal: String },
    Poll,
    Unknown,
}

/// Parses a decoded command line into the closed command type: any token
/// arrangement other than the three fixed shapes, wrong arity included, is
/// `Unknown`.
pub fn parse_command(cmd: &str) -> (r: Command)
    ensures
        ({
            let toks = spec_tokens(cmd@);
            match r {
                Command::Run { process_b64, args_b64, env_b64 } => run_shape(toks) && process_b64@
                    == toks[1] && args_b64@ == toks[2] && env_b64@ == toks[3],
                Command::Signal { pid, signal } => signal_shape(toks) && pid@ == toks[1] && signal@
                    == toks[2],
                Command::Poll => poll_shape(toks),
                Command::Unknown => !run_shape(toks) && !signal_shape(toks) && !poll_shape(toks),
            }
        }),
{
    let mut tokens = tokenize(cmd);
    let ghost toks = spec_tokens(cmd@);
    if tokens.len() == 4 && tokens[0].eq(&String::from_str("run")) {
        assert(toks[0] == "run"@ && toks.len() == 4);
        let env_b64 = tokens.pop().unwrap();
        let args_b64 = tokens.pop().unwrap();
        let process_b64 = tokens.pop().unwrap();
        assert(process_b64@ == toks[1] && args_b64@ == toks[2] && env_b64@ == toks[3]);
        Command::Run { process_b64, args_b64, env_b64 }
    } else if tokens.len() == 3 && tokens[0].eq(&String::from_str("signal")) {
        let signal = tokens.pop().unwrap();
        let pid = tokens.pop().unwrap();
        assert(pid@ == toks[1] && signal@ == toks[2]);
        Command::Signal { pid, signal }
    } else if tokens.len() == 1 && tokens[0].eq(&String::from_str("poll")) {
        Command::Poll
    } else {
        Command::Unknown
    }
}

/// What a dispatched frame asks of the unverified rim around the library:
/// spawn a child, deliver a signal, or send a response straight back.
pub enum DispatchOutcome {
    /// Spawn this validated request and respond with the child's pid.
    Spawn(RunRequest),
    /// Deliver the named signal to the pid and respond with the result.
    Deliver { pid: i32, signal: String },
    /// Respond success with this payload (a `poll` drain).
    Reply(String),
    /// Respond failure with this message.
    Reject(String),
}

/// True when all three blobs of a `run` command decode: valid base64, valid
/// UTF-8, and an env blob the two-state parser accepts. Exactly then does a
/// `run` frame produce a spawn.
pub open spec fn run_decodes(p: Seq<char>, a: Seq<char>, ev: Seq<char>) -> bool {
    &&& b64_parse(p) is Some
    &&& valid_utf8(b64_parse(p)->0)
    &&& b64_parse(a) is Some
    &&& valid_utf8(b64_parse(a)->0)
    &&& b64_parse(ev) is Some
    &&& valid_utf8(b64_parse(ev)->0)
    &&& parse_env_spec(decode_utf8(b64_parse(ev)->0)) is Ok
}

/// Routes one decoded frame. A `run` command that decodes yields `Spawn` and
/// never touches the store; a well-formed `signal` command yields `Deliver`;
/// `poll` drains the store into `Reply`; everything else is `Reject` with
/// the exact message the host will see (still to be base64-wrapped by the
/// response encoder), and only a `poll` ever changes the store.
pub fn process_cmds(serial_buf: &[u8], poll_data: &mut Vec<PollData>) -> (r: DispatchOutcome)
    ensures
        ({
            let cmd = utf8_lossy(serial_buf@);
            let toks = spec_tokens(cmd);
            match r {
                DispatchOutcome::Spawn(req) => {
                    &&& run_shape(toks)
                    &&& run_decodes(toks[1], toks[2], toks[3])
                    &&& req.process@ == decode_utf8(b64_parse(toks[1])->0)
                    &&& req.args.deep_view() == spec_split_args(decode_utf8(b64_parse(toks[2])->0))
                    &&& parse_env_spec(decode_utf8(b64_parse(toks[3])->0)) matches Ok(pairs)
                    &&& req.env_vars.deep_view() == pairs
                    &&& final(poll_data)@ == old(poll_data)@
                },
                DispatchOutcome::Deliver { pid, signal } => {
                    &&& signal_shape(toks)
                    &&& parse_i32_spec(toks[1]) == Some(pid)
                    &&& signal@ == toks[2]
                    &&& final(poll_data)@ == old(poll_data)@
                },
                DispatchOutcome::Reply(s) => {
                    &&& poll_shape(toks)
                    &&& s@ == render_records(old(poll_data)@)
                    &&& final(poll_data)@.len() == 0
                },
                DispatchOutcome::Reject(m) => {
                    &&& final(poll_data)@ == old(poll_data)@
                    &&& ({
                        ||| ((!run_shape(toks) && !signal_shape(toks) && !poll_shape(toks)) && m@
                            == "Unknown cmd: "@ + cmd)
                        ||| (run_shape(toks) && (exists|e: RunError|
                            #[trigger] run_error_matches(toks[1], toks[2], toks[3], e) && m@
                                == e.spec_message()))
                        ||| (signal_shape(toks) && parse_i32_spec(toks[1]) is None && m@
                            == "Malformed pid"@)
                    })
                },
            }
        }),
{
    let cmd = string_from_utf8_lossy(serial_buf);
    let ghost toks = spec_tokens(cmd@);
    match parse_command(cmd.as_str()) {
        Command::Run { process_b64, args_b64, env_b64 } => {
            match process(process_b64.as_str(), args_b64.as_str(), env_b64.as_str()) {
                Ok(req) => DispatchOutcome::Spawn(req),
                Err(e) => {
                    let m = e.message();
                    proof {
                        assert(run_error_matches(toks[1], toks[2], toks[3], e));
                    }
                    DispatchOutcome::Reject(m)
                },
            }
        },
        Command::Signal { pid, signal } => {
            match parse_i32(pid.as_str()) {
                Some(p) => DispatchOutcome::Deliver { pid: p, signal },
                None => DispatchOutcome::Reject(String::from_str("Malformed pid")),
            }
        },
        Command::Poll => DispatchOutcome::Reply(send_poll_data(poll_data)),
        Command::Unknown => {
            let mut m = String::from_str("Unknown cmd: ");
            m.append(cmd.as_str());
            DispatchOutcome::Reject(m)
        },
    }
}

/// Routes one decoded frame against the shared aggregator, holding its lock
/// for the length of the dispatch: a `poll`'s drain is atomic with respect
/// to the workers. What `Reply` carries cannot be pinned here — it renders
/// whatever the store held at the moment the lock was taken — but every
/// other clause of `process_cmds` still holds of the outcome.
pub fn dispatch_frame(aggregator: &Aggregator, serial_buf: &[u8]) -> (r: DispatchOutcome)
    ensures
        ({
            let cmd = utf8_lossy(serial_buf@);
            let toks = spec_tokens(cmd);
            match r {
                DispatchOutcome::Spawn(req) => {
                    &&& run_shape(toks)
                    &&& run_decodes(toks[1], toks[2], toks[3])
                    &&& req.process@ == decode_utf8(b64_parse(toks[1])->0)
                    &&& req.args.deep_view() == spec_split_args(decode_utf8(b64_parse(toks[2])->0))
                    &&& parse_env_spec(decode_utf8(b64_parse(toks[3])->0)) matches Ok(pairs)
                    &&& req.env_vars.deep_view() == pairs
                },
                DispatchOutcome::Deliver { pid, signal } => {
                    &&& signal_shape(toks)
                    &&& parse_i32_spec(toks[1]) == Some(pid)
                    &&& signal@ == toks[2]
                },
                DispatchOutcome::Reply(s) => poll_shape(toks),
                DispatchOutcome::Reject(m) => {
                    ||| ((!run_shape(toks) && !signal_shape(toks) && !poll_shape(toks)) && m@
                        == "Unknown cmd: "@ + cmd)
                    ||| (run_shape(toks) && (exists|e: RunError|
                        #[trigger] run_error_matches(toks[1], toks[2], toks[3], e) && m@
                            == e.spec_message()))
                    ||| (signal_shape(toks) && parse_i32_spec(toks[1]) is None && m@
                        == "Malformed pid"@)
                },
            }
        }),
{
    let (mut store, handle) = aggregator.acquire_store();
    let r = process_cmds(serial_buf, &mut store);
    handle.release_write(store);
    r
}

} // verus!
