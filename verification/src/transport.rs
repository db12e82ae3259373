//! Request-scoped auditing of streamed HTTP responses: a registry of audit
//! sinks by thread, and the raw header block that they are handed.

use vstd::prelude::*;
use crate::action::str_eq;
use crate::assoc::{assoc_map, has_key, keys_unique, lemma_assoc_lookup, lemma_assoc_push, lemma_assoc_remove, lemma_assoc_update};

verus! {

/// Receives unparsed streaming HTTP response data for request-scoped auditing.
/// Implementations persist each callback on its own and never alter the bytes.
pub trait StreamResponseAudit {
    fn record_response_headers(&self, headers: &[u8]);

    fn record_response_chunk(&self, chunk: &[u8]);
}

/// The audit sinks registered per thread.
pub struct StreamResponseAudits<A> {
    entries: Vec<(String, A)>,
}

impl<A> StreamResponseAudits<A> {
    /// The entries, keyed by the view of their thread id.
    pub closed spec fn entry_views(&self) -> Seq<(Seq<char>, A)> {
        self.entries@.map_values(|p: (String, A)| (p.0@, p.1))
    }

    /// No thread has two sinks.
    pub closed spec fn wf(&self) -> bool {
        keys_unique(self.entry_views())
    }

    /// The sink of each thread.
    pub closed spec fn sinks(&self) -> Map<Seq<char>, A> {
        assoc_map(self.entry_views())
    }

    /// A registry with no sinks.
    pub fn new() -> (r: Self)
        ensures
            r.wf(),
            r.sinks() == Map::<Seq<char>, A>::empty(),
    {
        let r = StreamResponseAudits { entries: Vec::new() };
        assert(r.entry_views() =~= Seq::<(Seq<char>, A)>::empty());
        assert(r.sinks() =~= Map::<Seq<char>, A>::empty());
        r
    }

    fn find(&self, thread_id: &str) -> (r: Option<usize>)
        requires
            self.wf(),
        ensures
            match r {
                Some(i) => i < self.entries.len() && self.entries@[i as int].0@ == thread_id@
                    && self.sinks().contains_key(thread_id@) && self.sinks()[thread_id@]
                    == self.entries@[i as int].1,
                None => !self.sinks().contains_key(thread_id@),
            },
    {
        let ghost views = self.entry_views();
        for i in 0..self.entries.len()
            invariant
                views == self.entry_views(),
                keys_unique(views),
                views.len() == self.entries.len(),
                forall|k: int| 0 <= k < i ==> views[k].0 != thread_id@,
        {
            if str_eq(self.entries[i].0.as_str(), thread_id) {
                proof {
                    lemma_assoc_lookup(views, i as int);
                }
                return Some(i);
            }
        }
        proof {
            if has_key(views, thread_id@) {
                let k = choose|k: int| 0 <= k < views.len() && #[trigger] views[k].0 == thread_id@;
                assert(views[k].0 != thread_id@);
            }
        }
        None
    }
}

/// Registers `audit` as the sink of `thread_id`, replacing an earlier one.
pub fn register_stream_response_audit<A: StreamResponseAudit>(
    audits: &mut StreamResponseAudits<A>,
    thread_id: String,
    audit: A,
)
    requires
        old(audits).wf(),
    ensures
        final(audits).wf(),
        final(audits).sinks() == old(audits).sinks().insert(thread_id@, audit),
{
    match audits.find(thread_id.as_str()) {
        Some(i) => {
            let ghost before = audits.entry_views();
            proof {
                lemma_assoc_update(before, i as int, audit);
            }
            audits.entries.set(i, (thread_id, audit));
            assert(audits.entry_views() =~= before.update(i as int, (before[i as int].0, audit)));
        },
        None => {
            let ghost before = audits.entry_views();
            proof {
                if has_key(before, thread_id@) {
                    let k = choose|k: int| 0 <= k < before.len() && #[trigger] before[k].0 == thread_id@;
                    lemma_assoc_lookup(before, k);
                }
                lemma_assoc_push(before, thread_id@, audit);
            }
            let ghost key = thread_id@;
            audits.entries.push((thread_id, audit));
            assert(audits.entry_views() =~= before.push((key, audit)));
        },
    }
}

/// Removes the sink of `thread_id`, if any.
pub fn unregister_stream_response_audit<A>(audits: &mut StreamResponseAudits<A>, thread_id: &str)
    requires
        old(audits).wf(),
    ensures
        final(audits).wf(),
        final(audits).sinks() == old(audits).sinks().remove(thread_id@),
{
    match audits.find(thread_id) {
        Some(i) => {
            let ghost before = audits.entry_views();
            proof {
                lemma_assoc_remove(before, i as int);
            }
            audits.entries.remove(i);
            assert(audits.entry_views() =~= before.remove(i as int));
        },
        None => {
            assert(audits.sinks() =~= audits.sinks().remove(thread_id@));
        },
    }
}

/// The sink registered for the thread that a request names, if any.
pub fn stream_response_audit<'a, A>(audits: &'a StreamResponseAudits<A>, thread_id: Option<&str>) -> (r:
    Option<&'a A>)
    requires
        audits.wf(),
    ensures
        match thread_id {
            Some(t) => if audits.sinks().contains_key(t@) {
                r == Some(&audits.sinks()[t@])
            } else {
                r is None
            },
            None => r is None,
        },
{
    match thread_id {
        Some(t) => match audits.find(t) {
            Some(i) => Some(&audits.entries[i].1),
            None => None,
        },
        None => None,
    }
}

/// The header block handed to a sink: each header as its name, ": ", its
/// value and CRLF.
pub open spec fn header_block(headers: Seq<(Seq<u8>, Seq<u8>)>) -> Seq<u8>
    decreases headers.len(),
{
    if headers.len() == 0 {
        Seq::empty()
    } else {
        header_block(headers.drop_last()) + headers.last().0 + seq![58u8, 32u8] + headers.last().1
            + seq![13u8, 10u8]
    }
}

/// The views of header name/value pairs.
pub open spec fn header_views(headers: Seq<(Vec<u8>, Vec<u8>)>) -> Seq<(Seq<u8>, Seq<u8>)> {
    headers.map_values(|h: (Vec<u8>, Vec<u8>)| (h.0@, h.1@))
}

fn append_bytes(out: &mut Vec<u8>, bytes: &[u8])
    ensures
        final(out)@ == old(out)@ + bytes@,
{
    for i in 0..bytes.len()
        invariant
            out@ == old(out)@ + bytes@.take(i as int),
    {
        out.push(bytes[i]);
        assert(bytes@.take(i + 1) =~= bytes@.take(i as int).push(bytes@[i as int]));
    }
    assert(bytes@.take(bytes@.len() as int) =~= bytes@);
}

/// The raw header block of a streamed response, as handed to its audit sink.
pub fn response_headers_for_audit(headers: &Vec<(Vec<u8>, Vec<u8>)>) -> (r: Vec<u8>)
    ensures
        r@ == header_block(header_views(headers@)),
{
    let ghost hs = header_views(headers@);
    let mut out: Vec<u8> = Vec::new();
    for i in 0..headers.len()
        invariant
            hs == header_views(headers@),
            hs.len() == headers.len(),
            out@ == header_block(hs.take(i as int)),
    {
        let ghost before = out@;
        append_bytes(&mut out, headers[i].0.as_slice());
        out.push(58u8);
        out.push(32u8);
        append_bytes(&mut out, headers[i].1.as_slice());
        out.push(13u8);
        out.push(10u8);
        assert(hs.take(i + 1).drop_last() =~= hs.take(i as int));
        assert(out@ =~= before + hs[i as int].0 + seq![58u8, 32u8] + hs[i as int].1 + seq![13u8, 10u8]);
    }
    assert(hs.take(hs.len() as int) =~= hs);
    out
}


/// After a registration, the thread's sink is the one registered and every
/// other thread keeps its own.
pub proof fn law_registered_audit_is_found<A>(
    before: StreamResponseAudits<A>,
    after: StreamResponseAudits<A>,
    thread_id: Seq<char>,
    audit: A,
    other: Seq<char>,
)
    requires
        after.sinks() == before.sinks().insert(thread_id, audit),
        other != thread_id,
    ensures
        after.sinks().contains_key(thread_id),
        after.sinks()[thread_id] == audit,
        after.sinks().contains_key(other) == before.sinks().contains_key(other),
        before.sinks().contains_key(other) ==> after.sinks()[other] == before.sinks()[other],
{
}

/// After an unregistration, the thread has no sink and every other thread
/// keeps its own.
pub proof fn law_unregistered_audit_is_gone<A>(
    before: StreamResponseAudits<A>,
    after: StreamResponseAudits<A>,
    thread_id: Seq<char>,
    other: Seq<char>,
)
    requires
        after.sinks() == before.sinks().remove(thread_id),
        other != thread_id,
    ensures
        !after.sinks().contains_key(thread_id),
        after.sinks().contains_key(other) == before.sinks().contains_key(other),
        before.sinks().contains_key(other) ==> after.sinks()[other] == before.sinks()[other],
{
}

} // verus!
