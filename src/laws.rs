//! Properties that relate several operations of the resolution stack and of
//! the session, proved over their specifications.

use crate::digest::md5_of;
use crate::events::EventView;
use crate::format::{format_extensions, has_extension, has_file_name, with_extension, FileFormat};
use crate::handle::{
    getc_spec, input_fingerprint, input_wf, read_exact_spec, seek_spec, seek_target, ungetc_spec,
    InputOrigin, InputView, SeekFrom,
};
use crate::provider::{
    accepts_output, input_answer, lemma_store_lookup, stored, Answer, ProviderView,
};
use crate::session::{
    input_close_spec, input_open_primary_spec, input_open_spec, live_input, live_output, misused, output_close_spec,
    output_open_spec, output_write_spec, session_wf, SessionView,
};
use crate::stack::{candidates_answer, first_answer, first_primary, output_target, resolve, resolve_gz};
use crate::status::{Problem, ReportView, Severity};
use vstd::prelude::*;

verus! {

/// Resolution answers what the first provider that does not answer
/// `NotFound` answers, be it `Found` or `Failed`, and the providers after it
/// are never consulted: whatever follows it, the answer is the same.
pub proof fn law_first_answer_wins(ps: Seq<ProviderView>, more: Seq<ProviderView>, name: Seq<u8>, i: int)
    requires
        0 <= i < ps.len(),
        forall|k: int| 0 <= k < i ==> input_answer(#[trigger] ps[k], name) is NotFound,
        !(input_answer(ps[i], name) is NotFound),
    ensures
        first_answer(ps, name) == input_answer(ps[i], name),
        first_answer(ps.subrange(0, i + 1) + more, name) == input_answer(ps[i], name),
    decreases i,
{
    let front = ps.subrange(0, i + 1) + more;
    if i > 0 {
        let rest = ps.drop_first();
        assert(input_answer(ps[0], name) is NotFound);
        assert forall|k: int| 0 <= k < i - 1 implies input_answer(#[trigger] rest[k], name) is NotFound by {
            assert(rest[k] == ps[k + 1]);
        }
        assert(rest[i - 1] == ps[i]);
        law_first_answer_wins(rest, more, name, i - 1);
        assert(front[0] == ps[0]);
        assert(front.drop_first() =~= rest.subrange(0, i) + more);
    } else {
        assert(front[0] == ps[0]);
    }
}

/// An answer found for a name carries that very name.
pub proof fn lemma_first_answer_name(ps: Seq<ProviderView>, name: Seq<u8>)
    ensures
        first_answer(ps, name) matches Answer::Found { name: n, .. } ==> n == name,
    decreases ps.len(),
{
    if ps.len() > 0 {
        lemma_first_answer_name(ps.drop_first(), name);
    }
}

/// A request whose name carries an extension is answered for that name as
/// given: no other extension is ever tried, whatever the providers hold.
pub proof fn law_explicit_extension_kept(ps: Seq<ProviderView>, name: Seq<u8>, format: FileFormat)
    requires
        has_extension(name),
    ensures
        resolve(ps, name, format) == first_answer(ps, name),
        resolve(ps, name, format) matches Answer::Found { name: n, .. } ==> n == name,
{
    lemma_first_answer_name(ps, name);
}

/// Candidate extensions are tried in order: where the first `j` give
/// nothing and the next one is answered, that answer is the result.
pub proof fn lemma_candidates_in_order(ps: Seq<ProviderView>, name: Seq<u8>, exts: Seq<Seq<u8>>, j: int)
    requires
        0 <= j < exts.len(),
        forall|k: int| 0 <= k < j ==> first_answer(ps, with_extension(name, #[trigger] exts[k])) is NotFound,
        !(first_answer(ps, with_extension(name, exts[j])) is NotFound),
    ensures
        candidates_answer(ps, name, exts) == first_answer(ps, with_extension(name, exts[j])),
    decreases j,
{
    if j > 0 {
        let rest = exts.drop_first();
        assert(first_answer(ps, with_extension(name, exts[0])) is NotFound);
        assert forall|k: int| 0 <= k < j - 1 implies first_answer(ps, with_extension(name, #[trigger] rest[k])) is NotFound by {
            assert(rest[k] == exts[k + 1]);
        }
        assert(rest[j - 1] == exts[j]);
        lemma_candidates_in_order(ps, name, rest, j - 1);
    }
}

/// A request without an extension that no provider has as given tries the
/// format's extensions in their declared order and succeeds on the first
/// that a provider answers.
pub proof fn law_candidates_in_declared_order(ps: Seq<ProviderView>, name: Seq<u8>, format: FileFormat, j: int)
    requires
        !has_extension(name),
        has_file_name(name),
        first_answer(ps, name) is NotFound,
        0 <= j < format_extensions(format).len(),
        forall|k: int|
            0 <= k < j ==> first_answer(ps, with_extension(name, #[trigger] format_extensions(format)[k]))
                is NotFound,
        first_answer(ps, with_extension(name, format_extensions(format)[j])) is Found,
    ensures
        resolve(ps, name, format) == first_answer(ps, with_extension(name, format_extensions(format)[j])),
        resolve(ps, name, format) matches Answer::Found { name: n, .. } ==> n == with_extension(
            name,
            format_extensions(format)[j],
        ),
{
    lemma_candidates_in_order(ps, name, format_extensions(format), j);
    lemma_first_answer_name(ps, with_extension(name, format_extensions(format)[j]));
}

/// The position of the first provider that takes outputs is within the
/// stack, takes outputs, and none before it does.
pub proof fn lemma_output_target(ps: Seq<ProviderView>)
    ensures
        output_target(ps) matches Some(i) ==> 0 <= i < ps.len() && accepts_output(ps[i]),
        output_target(ps) matches Some(i) ==> forall|k: int| 0 <= k < i ==> !accepts_output(#[trigger] ps[k]),
    decreases ps.len(),
{
    if ps.len() > 0 && !accepts_output(ps[0]) {
        let rest = ps.drop_first();
        lemma_output_target(rest);
        assert forall|k: int| 1 <= k < ps.len() implies ps[k] == rest[k - 1] by {}
    }
}

/// Writing a name through the scratch store's output path and then asking
/// for the same name as input, in one session, gives back the bytes
/// written, provided no provider before the store answers for that name.
pub proof fn law_scratch_round_trip(s: SessionView, name: Seq<u8>, buf: Seq<u8>, format: FileFormat, i: int)
    requires
        session_wf(s),
        output_target(s.stack) == Some(i),
        forall|k: int| 0 <= k < i ==> input_answer(#[trigger] s.stack[k], name) is NotFound,
    ensures
        ({
            let (t, s1) = output_open_spec(s, name, false);
            let (_, s2) = output_write_spec(s1, t->Some_0, buf);
            let (_, s3) = output_close_spec(s2, t->Some_0);
            let (u, s4) = input_open_spec(s3, name, format, false);
            &&& t is Some
            &&& u is Some
            &&& s4.inputs[u->Some_0] == Some(
                InputView { name, origin: InputOrigin::Memory, data: buf, pos: 0, pushback: None, seeked: false },
            )
        }),
{
    lemma_output_target(s.stack);
    let (t, s1) = output_open_spec(s, name, false);
    let tt = t->Some_0;
    assert(live_output(s1, tt));
    let (_, s2) = output_write_spec(s1, tt, buf);
    assert(s2.outputs[tt]->Some_0.data =~= buf);
    let (_, s3) = output_close_spec(s2, tt);
    let ps = s3.stack;
    assert(ps == s.stack.update(i, stored(s.stack[i], name, buf)));
    let files = s.stack[i]->Memory_0;
    lemma_store_lookup(files, name, buf);
    assert(input_answer(ps[i], name) == Answer::Found { name, data: buf, origin: InputOrigin::Memory });
    assert forall|k: int| 0 <= k < i implies input_answer(#[trigger] ps[k], name) is NotFound by {
        assert(ps[k] == s.stack[k]);
    }
    law_first_answer_wins(ps, Seq::empty(), name, i);
}

/// Closing an input handle announces its fingerprint exactly once and takes
/// it out of the table; closing it again is a protocol violation, reported
/// as fatal, and announces nothing.
pub proof fn law_input_close_once(s: SessionView, t: int)
    requires
        live_input(s, t),
    ensures
        ({
            let h = s.inputs[t]->Some_0;
            let (failed1, s1) = input_close_spec(s, t);
            let (failed2, s2) = input_close_spec(s1, t);
            &&& !failed1
            &&& !live_input(s1, t)
            &&& s1.events == s.events.push(EventView::InputClosed(h.name, input_fingerprint(h)))
            &&& failed2
            &&& s2 == misused(s1)
            &&& s2.events == s1.events
            &&& s2.reports.last() == (ReportView {
                severity: Severity::Fatal,
                problem: Problem::UnknownHandle,
                subject: Seq::empty(),
            })
        }),
{
}

/// Closing an output handle delivers and announces it exactly once and takes
/// it out of the table; closing it again is a protocol violation, reported
/// as fatal, and announces nothing.
pub proof fn law_output_close_once(s: SessionView, t: int)
    requires
        live_output(s, t),
    ensures
        ({
            let h = s.outputs[t]->Some_0;
            let (_, s1) = output_close_spec(s, t);
            let (failed2, s2) = output_close_spec(s1, t);
            &&& !live_output(s1, t)
            &&& s1.events == s.events.push(EventView::OutputClosed(h.name, md5_of(h.data)))
            &&& failed2
            &&& s2 == misused(s1)
            &&& s2.events == s1.events
        }),
{
}

/// The fingerprint announced when an output is closed is the digest of
/// exactly the bytes streamed through it.
pub proof fn law_output_fingerprint(s: SessionView, name: Seq<u8>, gz: bool, buf: Seq<u8>)
    requires
        output_target(s.stack) is Some,
    ensures
        ({
            let (t, s1) = output_open_spec(s, name, gz);
            let (_, s2) = output_write_spec(s1, t->Some_0, buf);
            let (_, s3) = output_close_spec(s2, t->Some_0);
            s3.events.last() == EventView::OutputClosed(name, md5_of(buf))
        }),
{
    let (t, s1) = output_open_spec(s, name, gz);
    let (_, s2) = output_write_spec(s1, t->Some_0, buf);
    assert(s2.outputs[t->Some_0]->Some_0.data =~= buf);
}

/// Once a seek has lost an input's fingerprint, no later read, pushback or
/// seek brings it back.
pub proof fn lemma_fingerprint_stays_lost(h: InputView)
    requires
        h.seeked,
    ensures
        input_fingerprint(h) is None,
        getc_spec(h).1.seeked,
        forall|b: u8| (#[trigger] ungetc_spec(h, b)).1.seeked,
        forall|p: SeekFrom| (#[trigger] seek_spec(h, p)).1.seeked,
        forall|n: nat| (#[trigger] read_exact_spec(h, n)) matches Some(q) ==> q.1.seeked,
{
}

/// A backward seek on an input handle makes its reported fingerprint absent,
/// now and after any later operation on it.
pub proof fn law_backward_seek_loses_fingerprint(h: InputView, pos: SeekFrom)
    requires
        input_wf(h),
        seek_target(h, pos) matches Some(t) && t < h.pos,
    ensures
        seek_spec(h, pos).1.seeked,
        input_fingerprint(seek_spec(h, pos).1) is None,
{
    lemma_fingerprint_stays_lost(seek_spec(h, pos).1);
}

/// A primary input that no provider has is a fatal report, not a quiet
/// absence, and opens no handle.
pub proof fn law_missing_primary_is_fatal(s: SessionView)
    requires
        first_primary(s.stack) is NotFound,
    ensures
        ({
            let (t, s1) = input_open_primary_spec(s);
            &&& t is None
            &&& s1.inputs == s.inputs
            &&& s1.events == s.events
            &&& s1.reports == s.reports.push(
                ReportView { severity: Severity::Fatal, problem: Problem::PrimaryInputMissing, subject: Seq::empty() },
            )
        }),
{
}

/// An ordinary input that no provider has, under any candidate name, gives
/// the absent sentinel and exactly one notification, for the name as
/// requested, and no report.
pub proof fn law_missing_input_announced_once(s: SessionView, name: Seq<u8>, format: FileFormat, gz: bool)
    requires
        resolve_gz(s.stack, name, format, gz) is NotFound,
    ensures
        ({
            let (t, s1) = input_open_spec(s, name, format, gz);
            &&& t is None
            &&& s1.inputs == s.inputs
            &&& s1.events == s.events.push(EventView::InputNotAvailable(name))
            &&& s1.reports == s.reports
        }),
{
}

} // verus!
