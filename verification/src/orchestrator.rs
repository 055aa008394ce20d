//! Automation orchestrator: the decision core that gates, frames and queues
//! commands bound for the external worker process.
//!
//! The worker's input stream is a single exclusively-owned resource, so the
//! orchestrator is modelled as a message queue: `send_command` either drops a
//! command (policy denial), fails (worker gone) or appends exactly one
//! complete newline-terminated record to the outbox. A single writer drains
//! the outbox with `take_pending` and writes each line whole, so the bytes of
//! two commands can never interleave. Denials and worker output go to the
//! observability sink, never to the worker.
use vstd::prelude::*;

use crate::policy::spec_url_allowed;
use crate::policy::str_eq;
use crate::policy::SecurityPolicy;
use crate::wire::encode_line;
use crate::wire::spec_line;
use crate::wire::FieldValue;
use crate::wire::Payload;
use crate::wire::PayloadField;

verus! {

/// Why a command could not be handed to the worker at all.
#[derive(Clone, Copy, Debug, PartialEq, Eq, Structural)]
pub enum DispatchError {
    /// The worker process is not running or its input stream is broken.
    /// The caller may restart the worker and retry.
    WorkerUnavailable,
}

/// The URL carried by a string field, if the field holds one.
pub open spec fn spec_url_of_value(v: FieldValue) -> Option<Seq<char>> {
    match v {
        FieldValue::Str(s) => Option::Some(s@),
        _ => Option::None,
    }
}

/// The value of the first `url` field of the field list, when that field
/// holds a string.
pub open spec fn spec_first_url(fs: Seq<PayloadField>) -> Option<Seq<char>>
    decreases fs.len(),
{
    if fs.len() == 0 {
        Option::None
    } else if fs[0].key@ == "url"@ {
        spec_url_of_value(fs[0].value)
    } else {
        spec_first_url(fs.drop_first())
    }
}

/// The navigation target named by a payload, if any.
pub open spec fn spec_payload_url(p: Option<Payload>) -> Option<Seq<char>> {
    match p {
        Option::None => Option::None,
        Option::Some(pl) => spec_first_url(pl.fields@),
    }
}

/// A command is dropped exactly when it is a `navigate` whose payload names
/// a URL that the security policy refuses.
pub open spec fn spec_denied(action: Seq<char>, payload: Option<Payload>) -> bool {
    action == "navigate"@ && match spec_payload_url(payload) {
        Option::Some(u) => !spec_url_allowed(u),
        Option::None => false,
    }
}

/// The URL a denied command was dropped over.
pub open spec fn spec_denied_url(payload: Option<Payload>) -> Seq<char> {
    match spec_payload_url(payload) {
        Option::Some(u) => u,
        Option::None => Seq::empty(),
    }
}

/// The note written to the observability sink when a command is dropped.
pub open spec fn spec_denial_note(u: Seq<char>) -> Seq<char> {
    "navigation denied by policy: "@ + u
}

/// Looks up the `url` field of a payload, as `dispatch` does before a
/// `navigate` command is let through.
pub fn payload_url<'a>(p: &'a Option<Payload>) -> (r: Option<&'a String>)
    ensures
        match r {
            Option::Some(s) => spec_payload_url(*p) == Option::Some(s@),
            Option::None => spec_payload_url(*p) is None,
        },
{
    match p {
        Option::None => Option::None,
        Option::Some(pl) => {
            let n = pl.fields.len();
            let mut i: usize = 0;
            proof {
                assert(pl.fields@.skip(0) =~= pl.fields@);
            }
            while i < n
                invariant
                    *p == Option::Some(*pl),
                    n == pl.fields@.len(),
                    i <= n,
                    spec_first_url(pl.fields@) == spec_first_url(pl.fields@.skip(i as int)),
                decreases n - i,
            {
                proof {
                    assert(pl.fields@.skip(i as int)[0] == pl.fields@[i as int]);
                }
                let f = &pl.fields[i];
                if str_eq(f.key.as_str(), "url") {
                    proof {
                        assert(spec_first_url(pl.fields@.skip(i as int)) == spec_url_of_value(
                            pl.fields@[i as int].value,
                        ));
                    }
                    match &f.value {
                        FieldValue::Str(s) => {
                            return Option::Some(s);
                        }
                        _ => {
                            return Option::None;
                        }
                    }
                }
                proof {
                    assert(pl.fields@.skip(i as int).drop_first() =~= pl.fields@.skip(i as int + 1));
                }
                i += 1;
            }
            proof {
                assert(pl.fields@.skip(n as int) =~= Seq::<PayloadField>::empty());
            }
            Option::None
        }
    }
}

/// The command half of the automation orchestrator.
///
/// It owns the queue of lines bound for the worker's input stream and the
/// observability sink. The process handles themselves live with the caller:
/// a writer loop drains `take_pending` and writes each line whole, and the
/// output reader reports the worker's lines through `note_worker_line`.
pub struct Orchestrator {
    outbox: Vec<String>,
    sink: Vec<String>,
    worker_available: bool,
}

impl Orchestrator {
    /// The newline-terminated records queued for the worker, oldest first.
    pub closed spec fn pending_lines(self) -> Seq<Seq<char>> {
        self.outbox.deep_view()
    }

    /// Everything reported to the observability sink, oldest first.
    pub closed spec fn sink_lines(self) -> Seq<Seq<char>> {
        self.sink.deep_view()
    }

    /// Whether the worker is believed able to take input.
    pub closed spec fn worker_ok(self) -> bool {
        self.worker_available
    }

    /// A fresh orchestrator with an empty queue, an empty sink and a worker
    /// presumed alive.
    pub fn new() -> (r: Orchestrator)
        ensures
            r.pending_lines() == Seq::<Seq<char>>::empty(),
            r.sink_lines() == Seq::<Seq<char>>::empty(),
            r.worker_ok(),
    {
        let r = Orchestrator { outbox: Vec::new(), sink: Vec::new(), worker_available: true };
        proof {
            assert(r.pending_lines() =~= Seq::<Seq<char>>::empty());
            assert(r.sink_lines() =~= Seq::<Seq<char>>::empty());
        }
        r
    }

    /// Fire-and-forget dispatch of one command.
    ///
    /// A `navigate` command whose payload names a URL that the policy
    /// refuses is dropped whole: nothing is queued for the worker and the
    /// denial goes to the sink, not to the caller. Any other command becomes
    /// exactly one newline-terminated record on the queue, carrying the
    /// action and payload unchanged. When the worker is gone the command is
    /// refused with `WorkerUnavailable` and nothing changes.
    pub fn send_command(&mut self, action: &str, payload: Option<Payload>) -> (r: Result<
        (),
        DispatchError,
    >)
        ensures
            r is Ok <==> old(self).worker_ok(),
            final(self).worker_ok() == old(self).worker_ok(),
            !old(self).worker_ok() ==> *final(self) == *old(self),
            old(self).worker_ok() && spec_denied(action@, payload) ==> {
                &&& final(self).pending_lines() == old(self).pending_lines()
                &&& final(self).sink_lines() == old(self).sink_lines().push(
                    spec_denial_note(spec_denied_url(payload)),
                )
            },
            old(self).worker_ok() && !spec_denied(action@, payload) ==> {
                &&& final(self).pending_lines() == old(self).pending_lines().push(
                    spec_line(action@, payload),
                )
                &&& final(self).sink_lines() == old(self).sink_lines()
            },
    {
        if !self.worker_available {
            return Result::Err(DispatchError::WorkerUnavailable);
        }
        if str_eq(action, "navigate") {
            let denied_url: Option<String> = match payload_url(&payload) {
                Option::Some(u) => {
                    if !SecurityPolicy::is_url_allowed(u.as_str()) {
                        Option::Some(u.clone())
                    } else {
                        Option::None
                    }
                }
                Option::None => Option::None,
            };
            if let Option::Some(u) = denied_url {
                let mut note = String::new();
                note.append("navigation denied by policy: ");
                note.append(u.as_str());
                self.sink.push(note);
                proof {
                    assert(self.sink.deep_view() =~= old(self).sink.deep_view().push(
                        spec_denial_note(spec_denied_url(payload)),
                    ));
                }
                return Result::Ok(());
            }
        }
        let line = encode_line(action, &payload);
        self.outbox.push(line);
        proof {
            assert(self.outbox.deep_view() =~= old(self).outbox.deep_view().push(
                spec_line(action@, payload),
            ));
        }
        Result::Ok(())
    }

    /// Hands the queued lines to the writer, oldest first, leaving the
    /// queue empty. The writer must write each returned line whole, in
    /// order, so that records never interleave on the stream.
    pub fn take_pending(&mut self) -> (v: Vec<String>)
        ensures
            v.deep_view() == old(self).pending_lines(),
            final(self).pending_lines() == Seq::<Seq<char>>::empty(),
            final(self).sink_lines() == old(self).sink_lines(),
            final(self).worker_ok() == old(self).worker_ok(),
    {
        let mut out: Vec<String> = Vec::new();
        core::mem::swap(&mut out, &mut self.outbox);
        proof {
            assert(self.outbox.deep_view() =~= Seq::<Seq<char>>::empty());
        }
        out
    }

    /// Reports one line of the worker's output to the observability sink.
    /// The stream is opaque log text: nothing is parsed and no line is ever
    /// attributed to a command.
    pub fn note_worker_line(&mut self, line: String)
        ensures
            final(self).sink_lines() == old(self).sink_lines().push(line@),
            final(self).pending_lines() == old(self).pending_lines(),
            final(self).worker_ok() == old(self).worker_ok(),
    {
        let ghost l = line@;
        self.sink.push(line);
        proof {
            assert(self.sink.deep_view() =~= old(self).sink.deep_view().push(l));
        }
    }

    /// Records that a write to the worker failed: the worker is gone until
    /// the caller restarts it. Later commands fail with `WorkerUnavailable`
    /// instead of aborting the process.
    pub fn mark_worker_unavailable(&mut self)
        ensures
            !final(self).worker_ok(),
            final(self).pending_lines() == old(self).pending_lines(),
            final(self).sink_lines() == old(self).sink_lines(),
    {
        self.worker_available = false;
    }

    /// Records that the caller has restarted the worker process.
    pub fn mark_worker_restarted(&mut self)
        ensures
            final(self).worker_ok(),
            final(self).pending_lines() == old(self).pending_lines(),
            final(self).sink_lines() == old(self).sink_lines(),
    {
        self.worker_available = true;
    }

    /// How many records are queued for the worker.
    pub fn pending_count(&self) -> (n: usize)
        ensures
            n == self.pending_lines().len(),
    {
        self.outbox.len()
    }

    /// A view of the observability sink, oldest line first.
    pub fn sink_entries(&self) -> (v: &Vec<String>)
        ensures
            v.deep_view() == self.sink_lines(),
    {
        &self.sink
    }
}

} // verus!
