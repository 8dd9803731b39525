//! The poll aggregator: an ordered store of `PollData` records, filled by
//! supervisor workers and drained whole by the `poll` command.

use vstd::prelude::*;
use vstd::rwlock::{RwLock, RwLockPredicate, WriteHandle};
use vstd::utf8::encode_utf8;
use crate::b64::{b64_of, encode_b64};
use crate::decimal::{dec_str, u32_to_string};
use crate::process::{push_exit_record, ProcExit};
use crate::records::{PollData, PollType};
use crate::text::push_char;

verus! {

/// The wire line of one record: `<kind> <pid> <payload>` and a newline.
pub open spec fn render_record(r: PollData) -> Seq<char> {
    r.typ.spec_label() + seq![' '] + dec_str(r.pid as nat) + seq![' '] + r.data@ + seq!['\n']
}

/// The drained form of a store: every record's line, in insertion order.
pub open spec fn render_records(rs: Seq<PollData>) -> Seq<char>
    decreases rs.len(),
{
    if rs.len() == 0 {
        Seq::empty()
    } else {
        render_record(rs[0]) + render_records(rs.skip(1))
    }
}

/// Drains the store: renders every pending record in insertion order, clears
/// the store, and returns the concatenation (empty when nothing is pending).
pub fn send_poll_data(data: &mut Vec<PollData>) -> (out: String)
    ensures
        out@ == render_records(old(data)@),
        final(data)@ == Seq::<PollData>::empty(),
{
    let ghost orig = data@;
    let mut out = String::new();
    let mut i: usize = 0;
    proof {
        assert(orig.skip(0) =~= orig);
        assert(render_records(orig) =~= out@ + render_records(orig.skip(0)));
    }
    while i < data.len()
        invariant
            data@ == orig,
            i <= orig.len(),
            render_records(orig) == out@ + render_records(orig.skip(i as int)),
        decreases orig.len() - i,
    {
        let ghost prev_out = out@;
        let rec = &data[i];
        out.append(rec.typ.label());
        push_char(&mut out, ' ');
        let pid_str = u32_to_string(rec.pid);
        out.append(pid_str.as_str());
        push_char(&mut out, ' ');
        out.append(rec.data.as_str());
        push_char(&mut out, '\n');
        proof {
            assert(out@ =~= prev_out + render_record(orig[i as int]));
            assert(orig.skip(i as int)[0] == orig[i as int]);
            assert(orig.skip(i as int).skip(1) =~= orig.skip(i as int + 1));
            assert(render_records(orig) =~= out@ + render_records(orig.skip(i as int + 1)));
        }
        i = i + 1;
    }
    proof {
        assert(orig.skip(orig.len() as int) =~= Seq::<PollData>::empty());
        assert(out@ =~= render_records(orig));
    }
    data.clear();
    out
}

/// True when a captured stream actually carries bytes: only then does the
/// worker take the store and add a record for it.
pub open spec fn has_payload(o: Option<String>) -> bool {
    o matches Some(s) && s@.len() > 0
}

/// Queues captured stdout/stderr data, if any: one `Stdout` record and then
/// one `Stderr` record, each only when its stream is non-empty, each carrying
/// the base64 rendering of the captured text's bytes. Records already pending
/// are untouched and stay in front.
pub fn push_possible_output(
    stdout: Option<String>,
    stderr: Option<String>,
    pid: u32,
    poll_data: &mut Vec<PollData>,
)
    ensures
        old(poll_data)@.is_prefix_of(final(poll_data)@),
        final(poll_data)@.len() == old(poll_data)@.len() + (if has_payload(stdout) {
            1int
        } else {
            0int
        }) + (if has_payload(stderr) {
            1int
        } else {
            0int
        }),
        has_payload(stdout) ==> {
            let r = final(poll_data)@[old(poll_data)@.len() as int];
            r.typ == PollType::Stdout && r.pid == pid && r.data@ == b64_of(
                encode_utf8(stdout->0@),
            )
        },
        has_payload(stderr) ==> {
            let r = final(poll_data)@.last();
            r.typ == PollType::Stderr && r.pid == pid && r.data@ == b64_of(
                encode_utf8(stderr->0@),
            )
        },
{
    let out_dat = match stdout {
        Some(s) => s,
        None => String::new(),
    };
    let err_dat = match stderr {
        Some(s) => s,
        None => String::new(),
    };
    if !out_dat.as_str().is_empty() {
        let payload = encode_b64(out_dat.as_str().as_bytes());
        poll_data.push(PollData { typ: PollType::Stdout, pid, data: payload });
    }
    if !err_dat.as_str().is_empty() {
        let payload = encode_b64(err_dat.as_str().as_bytes());
        poll_data.push(PollData { typ: PollType::Stderr, pid, data: payload });
    }
}

/// The aggregator lock's predicate: any record store is a valid value.
pub struct StorePred;

impl RwLockPredicate<Vec<PollData>> for StorePred {
    open spec fn inv(self, v: Vec<PollData>) -> bool {
        true
    }
}

/// The shared poll aggregator: the ordered record store behind a verified
/// mutual-exclusion lock, handed by reference to every supervisor worker and
/// to the dispatcher. Concurrent pushes and drains may interleave in any
/// order, but each method holds the lock for its whole operation, so no
/// record is lost, duplicated or torn, and a drain is all-or-nothing.
pub struct Aggregator {
    lock: RwLock<Vec<PollData>, StorePred>,
}

impl Aggregator {
    /// A fresh aggregator with nothing pending.
    pub fn new() -> Aggregator {
        Aggregator { lock: RwLock::new(Vec::new(), Ghost(StorePred)) }
    }

    /// Takes the store's lock and hands out the store; the holder gives it
    /// back through the handle's release. Internal: the dispatcher holds it
    /// for the length of one frame, the operations below for one push or
    /// drain.
    pub(crate) fn acquire_store(&self) -> (Vec<PollData>, WriteHandle<'_, Vec<PollData>, StorePred>) {
        self.lock.acquire_write()
    }

    /// Queues captured output atomically, as `push_possible_output` does.
    /// When both streams are empty the lock is never taken, so an idle child
    /// causes no contention.
    pub fn push_output(&self, stdout: Option<String>, stderr: Option<String>, pid: u32) {
        let out_empty = match &stdout {
            Some(s) => s.as_str().is_empty(),
            None => true,
        };
        let err_empty = match &stderr {
            Some(s) => s.as_str().is_empty(),
            None => true,
        };
        if out_empty && err_empty {
            return;
        }
        let (mut store, handle) = self.lock.acquire_write();
        push_possible_output(stdout, stderr, pid, &mut store);
        handle.release_write(store);
    }

    /// Queues a child's terminal record atomically, as `push_exit_record`
    /// does: the worker's last push for that child.
    pub fn push_exit(&self, pid: u32, status: &ProcExit) {
        let (mut store, handle) = self.lock.acquire_write();
        push_exit_record(pid, status, &mut store);
        handle.release_write(store);
    }

    /// Drains atomically, as `send_poll_data` does: every pending record is
    /// rendered and removed in one critical section, so nothing written
    /// before the drain is missed and nothing is returned twice.
    pub fn drain(&self) -> String {
        let (mut store, handle) = self.lock.acquire_write();
        let out = send_poll_data(&mut store);
        handle.release_write(store);
        out
    }
}

/// Appending one record to a store appends exactly its line to the drained
/// form.
pub proof fn lemma_render_push(rs: Seq<PollData>, r: PollData)
    ensures
        render_records(rs.push(r)) == render_records(rs) + render_record(r),
    decreases rs.len(),
{
    if rs.len() == 0 {
        assert(rs.push(r)[0] == r);
        assert(rs.push(r).skip(1) =~= Seq::<PollData>::empty());
        assert(render_records(rs.push(r)) == render_record(r) + render_records(
            Seq::<PollData>::empty(),
        ));
        assert(render_records(rs.push(r)) =~= render_records(rs) + render_record(r));
    } else {
        assert(rs.push(r)[0] == rs[0]);
        assert(rs.push(r).skip(1) =~= rs.skip(1).push(r));
        lemma_render_push(rs.skip(1), r);
        assert(render_records(rs.push(r)) == render_record(rs[0]) + render_records(
            rs.skip(1).push(r),
        ));
        assert(render_records(rs.push(r)) =~= render_records(rs) + render_record(r));
    }
}

/// FIFO: when a worker queues record `a` and later record `b`, any drain that
/// observes both renders `a`'s line before `b`'s, after everything that was
/// already pending.
pub proof fn lemma_poll_fifo(rs: Seq<PollData>, a: PollData, b: PollData)
    ensures
        render_records(rs.push(a).push(b)) == render_records(rs) + render_record(a)
            + render_record(b),
{
    lemma_render_push(rs, a);
    lemma_render_push(rs.push(a), b);
}

/// Draining is destructive and emptiness is stable: a drain leaves the store
/// empty, and a drained (empty) store renders as the empty string, so a second
/// drain with no intervening write returns nothing.
pub proof fn lemma_drained_store_renders_empty()
    ensures
        render_records(Seq::<PollData>::empty()) == Seq::<char>::empty(),
{
}

} // verus!
