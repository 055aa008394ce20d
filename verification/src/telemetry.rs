//! Telemetry: events rendered as single-line structured-text records.
//!
//! The manager is the in-process end of the observability log: it stamps
//! each event, renders it to one line of JSON text and appends it to its
//! record list. Whoever owns the log file drains `take_entries` and writes
//! each entry as one line. `lemma_event_record_one_line` proves that a
//! rendered event never contains a raw newline, so the line-per-record
//! layout of the log can never be broken by event content.
use vstd::prelude::*;
use vstd::string::StringExecFns;

verus! {

use crate::wire::append_quoted;
use crate::wire::lemma_one_line_concat;
use crate::wire::lemma_quote_one_line;
use crate::wire::one_line;
use crate::wire::push_char;
use crate::wire::spec_quote;

/// One observability event: when it happened, what kind it is, and its
/// free-form details.
pub struct TelemetryEvent {
    pub timestamp: String,
    pub event_type: String,
    pub details: String,
}

/// The single-line record an event is written as.
pub open spec fn spec_event_record(ts: Seq<char>, event_type: Seq<char>, details: Seq<char>) -> Seq<
    char,
> {
    "{\"timestamp\":"@ + spec_quote(ts) + ",\"event_type\":"@ + spec_quote(event_type)
        + ",\"details\":"@ + spec_quote(details) + seq!['}']
}

impl TelemetryEvent {
    /// Renders the event as its single-line record.
    pub fn render(&self) -> (r: String)
        ensures
            r@ == spec_event_record(self.timestamp@, self.event_type@, self.details@),
    {
        let mut out = String::new();
        out.append("{\"timestamp\":");
        append_quoted(&mut out, self.timestamp.as_str());
        out.append(",\"event_type\":");
        append_quoted(&mut out, self.event_type.as_str());
        out.append(",\"details\":");
        append_quoted(&mut out, self.details.as_str());
        push_char(&mut out, '}');
        proof {
            assert(out@ =~= spec_event_record(self.timestamp@, self.event_type@, self.details@));
        }
        out
    }
}

/// Relies on `chrono::Local::now`, rendered with `DateTime::to_rfc3339`:
/// the current local time as an RFC 3339 string. Nothing can be promised
/// of the clock's value.
#[verifier::external_body]
fn current_timestamp() -> String {
    chrono::Local::now().to_rfc3339()
}

/// Collects rendered telemetry records, oldest first, for an owner that
/// appends them line by line to the log file.
pub struct TelemetryManager {
    entries: Vec<String>,
}

impl TelemetryManager {
    /// The rendered records, oldest first.
    pub closed spec fn log(self) -> Seq<Seq<char>> {
        self.entries.deep_view()
    }

    /// A fresh manager with an empty record list.
    pub fn new() -> (r: TelemetryManager)
        ensures
            r.log() == Seq::<Seq<char>>::empty(),
    {
        let r = TelemetryManager { entries: Vec::new() };
        proof {
            assert(r.log() =~= Seq::<Seq<char>>::empty());
        }
        r
    }

    /// Stamps and appends one event. Exactly one record is added, carrying
    /// the given kind and details under a timestamp read from the clock.
    pub fn log_event(&mut self, event_type: &str, details: &str)
        ensures
            exists|ts: Seq<char>|
                final(self).log() == old(self).log().push(
                    spec_event_record(ts, event_type@, details@),
                ),
    {
        let event = TelemetryEvent {
            timestamp: current_timestamp(),
            event_type: String::from_str(event_type),
            details: String::from_str(details),
        };
        let ghost ts = event.timestamp@;
        let line = event.render();
        self.entries.push(line);
        proof {
            assert(self.entries.deep_view() =~= old(self).entries.deep_view().push(
                spec_event_record(ts, event_type@, details@),
            ));
        }
    }

    /// Hands the accumulated records to the log writer, oldest first,
    /// leaving the list empty.
    pub fn take_entries(&mut self) -> (v: Vec<String>)
        ensures
            v.deep_view() == old(self).log(),
            final(self).log() == Seq::<Seq<char>>::empty(),
    {
        let mut out: Vec<String> = Vec::new();
        core::mem::swap(&mut out, &mut self.entries);
        proof {
            assert(self.entries.deep_view() =~= Seq::<Seq<char>>::empty());
        }
        out
    }

    /// A view of the accumulated records, oldest first.
    pub fn entries(&self) -> (v: &Vec<String>)
        ensures
            v.deep_view() == self.log(),
    {
        &self.entries
    }
}

/// Log integrity: a rendered event is always exactly one line, whatever
/// newlines or control characters its fields contain.
pub proof fn lemma_event_record_one_line(ts: Seq<char>, event_type: Seq<char>, details: Seq<char>)
    ensures
        one_line(spec_event_record(ts, event_type, details)),
{
    reveal_strlit("{\"timestamp\":");
    reveal_strlit(",\"event_type\":");
    reveal_strlit(",\"details\":");
    lemma_quote_one_line(ts);
    lemma_quote_one_line(event_type);
    lemma_quote_one_line(details);
    let a = "{\"timestamp\":"@;
    let b = ",\"event_type\":"@;
    let c = ",\"details\":"@;
    lemma_one_line_concat(a, spec_quote(ts));
    lemma_one_line_concat(a + spec_quote(ts), b);
    lemma_one_line_concat(a + spec_quote(ts) + b, spec_quote(event_type));
    lemma_one_line_concat(a + spec_quote(ts) + b + spec_quote(event_type), c);
    lemma_one_line_concat(
        a + spec_quote(ts) + b + spec_quote(event_type) + c,
        spec_quote(details),
    );
    lemma_one_line_concat(
        a + spec_quote(ts) + b + spec_quote(event_type) + c + spec_quote(details),
        seq!['}'],
    );
}

} // verus!
