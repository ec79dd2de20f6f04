//! Mathematical model of the boot-sequence analyzer: the abstract state, the
//! per-read-cycle transition, whole runs over a chunk stream, and the laws
//! the analyzer obeys.

use crate::sanitize::lemma_sanitize_app;
use crate::sanitize::sanitize_spec;
use crate::search::has_substring;
use crate::search::lemma_has_substring_app;
use vstd::prelude::*;

verus! {

/// Spec-level image of the secondary probe: the prompt marker that ends
/// response collection and the fault signature scanned for in the response.
pub struct ProbeSig {
    pub prompt: Seq<u8>,
    pub signature: Seq<u8>,
}

/// Spec-level configuration of one analysis run: the ordered milestone
/// patterns, the idle-cycle threshold, and the optional probe.
pub struct Params {
    pub patterns: Seq<Seq<u8>>,
    pub threshold: nat,
    pub probe: Option<ProbeSig>,
}

/// A configuration is well formed when at least one idle cycle is allowed
/// before a timeout.
pub open spec fn params_wf(p: Params) -> bool {
    p.threshold >= 1
}

/// Terminal outcome of a run, without the human-readable descriptions that
/// the executable diagnosis carries alongside.
pub enum Outcome {
    /// Every milestone was detected and no probe was configured.
    AllPassed,
    /// Milestone `idx` timed out; later milestones were never evaluated.
    FailedAt { idx: nat },
    /// The probe's response carried the fault signature.
    Fault,
    /// Every milestone passed and the probe found nothing.
    NoIssues,
}

/// Progress of a run: waiting for the next unconfirmed milestone, collecting
/// the probe response that started at buffer offset `start`, or finished.
pub enum Phase {
    Awaiting,
    Probing { start: nat },
    Done { outcome: Outcome },
}

/// Abstract analyzer state: the sanitized session buffer, the count of
/// consecutive idle read cycles, the number of confirmed milestones, and the
/// phase.
pub struct State {
    pub buffer: Seq<u8>,
    pub idle: nat,
    pub detected: nat,
    pub phase: Phase,
}

/// The state at the start of a run: empty buffer, no idle cycles, no
/// milestone confirmed.
pub open spec fn start_state() -> State {
    State { buffer: Seq::empty(), idle: 0, detected: 0, phase: Phase::Awaiting }
}

/// Scans the buffer for the milestones from index `d` on, strictly in order:
/// the index of the first milestone whose pattern the buffer does not
/// contain, or the checklist length when all remaining ones are present.
pub open spec fn advance_from(patterns: Seq<Seq<u8>>, buffer: Seq<u8>, d: nat) -> nat
    decreases patterns.len() - d,
{
    if d < patterns.len() && has_substring(buffer, patterns[d as int]) {
        advance_from(patterns, buffer, d + 1)
    } else {
        d
    }
}

/// One read cycle of the analyzer.  A chunk that sanitizes to non-empty text
/// is appended to the buffer and resets the idle counter; any other chunk
/// counts as an idle cycle.  While awaiting milestones, the checklist is
/// advanced in order over the whole buffer, then a timeout is declared if
/// the idle counter has reached the threshold.  While probing, the response
/// (the buffer past the probe start) is collected until the prompt marker
/// reappears in it or the idle threshold is hit, and is then scanned for the
/// fault signature.  A finished run never changes.
pub open spec fn spec_step(p: Params, st: State, chunk: Seq<u8>) -> State {
    if st.phase is Done {
        st
    } else {
        let text = sanitize_spec(chunk);
        let buffer = if text.len() > 0 {
            st.buffer + text
        } else {
            st.buffer
        };
        let idle: nat = if text.len() > 0 {
            0
        } else {
            st.idle + 1
        };
        match st.phase {
            Phase::Awaiting => {
                let d = advance_from(p.patterns, buffer, st.detected);
                if d == p.patterns.len() {
                    if p.probe is Some {
                        State { buffer, idle, detected: d, phase: Phase::Probing { start: buffer.len() } }
                    } else {
                        State {
                            buffer,
                            idle,
                            detected: d,
                            phase: Phase::Done { outcome: Outcome::AllPassed },
                        }
                    }
                } else if idle >= p.threshold {
                    State {
                        buffer,
                        idle,
                        detected: d,
                        phase: Phase::Done { outcome: Outcome::FailedAt { idx: d } },
                    }
                } else {
                    State { buffer, idle, detected: d, phase: Phase::Awaiting }
                }
            },
            Phase::Probing { start } => {
                let response = buffer.skip(start as int);
                if has_substring(response, p.probe.unwrap().prompt) || idle >= p.threshold {
                    if has_substring(response, p.probe.unwrap().signature) {
                        State {
                            buffer,
                            idle,
                            detected: st.detected,
                            phase: Phase::Done { outcome: Outcome::Fault },
                        }
                    } else {
                        State {
                            buffer,
                            idle,
                            detected: st.detected,
                            phase: Phase::Done { outcome: Outcome::NoIssues },
                        }
                    }
                } else {
                    State { buffer, idle, detected: st.detected, phase: Phase::Probing { start } }
                }
            },
            Phase::Done { .. } => st,
        }
    }
}

/// A whole pass over a stream of chunks, one read cycle each, oldest first.
pub open spec fn run(p: Params, st: State, chunks: Seq<Seq<u8>>) -> State
    decreases chunks.len(),
{
    if chunks.len() == 0 {
        st
    } else {
        spec_step(p, run(p, st, chunks.drop_last()), chunks.last())
    }
}

/// `n` consecutive read cycles that yield no bytes, as a replayed or
/// exhausted byte source produces after its content has been delivered.
pub open spec fn feed_idle(p: Params, st: State, n: nat) -> State
    decreases n,
{
    if n == 0 {
        st
    } else {
        spec_step(p, feed_idle(p, st, (n - 1) as nat), Seq::empty())
    }
}

/// Concatenation of a stream of chunks, oldest first.
pub open spec fn concat_all(chunks: Seq<Seq<u8>>) -> Seq<u8>
    decreases chunks.len(),
{
    if chunks.len() == 0 {
        Seq::empty()
    } else {
        concat_all(chunks.drop_last()) + chunks.last()
    }
}

/// A finished run never changes, chunk by chunk.
pub proof fn lemma_run_done(p: Params, st: State, chunks: Seq<Seq<u8>>)
    requires
        st.phase is Done,
    ensures
        run(p, st, chunks) == st,
    decreases chunks.len(),
{
    if chunks.len() > 0 {
        lemma_run_done(p, st, chunks.drop_last());
    }
}

/// A finished run never changes, idle cycle by idle cycle.
pub proof fn lemma_feed_idle_done(p: Params, st: State, n: nat)
    requires
        st.phase is Done,
    ensures
        feed_idle(p, st, n) == st,
    decreases n,
{
    if n > 0 {
        lemma_feed_idle_done(p, st, (n - 1) as nat);
    }
}

/// Runs compose: feeding two streams back to back is one run over their
/// concatenation.
pub proof fn lemma_run_app(p: Params, st: State, a: Seq<Seq<u8>>, b: Seq<Seq<u8>>)
    ensures
        run(p, st, a + b) == run(p, run(p, st, a), b),
    decreases b.len(),
{
    if b.len() == 0 {
        assert(a + b =~= a);
    } else {
        assert((a + b).drop_last() =~= a + b.drop_last());
        lemma_run_app(p, st, a, b.drop_last());
    }
}

/// Idle stretches compose.
pub proof fn lemma_feed_idle_add(p: Params, st: State, a: nat, b: nat)
    ensures
        feed_idle(p, st, a + b) == feed_idle(p, feed_idle(p, st, a), b),
    decreases b,
{
    if b > 0 {
        lemma_feed_idle_add(p, st, a, (b - 1) as nat);
        assert(a + b - 1 == a + (b - 1) as nat);
    }
}

/// The checklist scan stays within the checklist.
pub proof fn lemma_advance_bounds(patterns: Seq<Seq<u8>>, buffer: Seq<u8>, d: nat)
    requires
        d <= patterns.len(),
    ensures
        d <= advance_from(patterns, buffer, d) <= patterns.len(),
    decreases patterns.len() - d,
{
    if d < patterns.len() && has_substring(buffer, patterns[d as int]) {
        lemma_advance_bounds(patterns, buffer, d + 1);
    }
}

/// When the buffer holds every remaining pattern, the scan confirms the
/// whole checklist.
pub proof fn lemma_advance_all(patterns: Seq<Seq<u8>>, buffer: Seq<u8>, d: nat)
    requires
        d <= patterns.len(),
        forall|j: int| d <= j < patterns.len() ==> has_substring(buffer, #[trigger] patterns[j]),
    ensures
        advance_from(patterns, buffer, d) == patterns.len(),
    decreases patterns.len() - d,
{
    if d < patterns.len() {
        lemma_advance_all(patterns, buffer, d + 1);
    }
}

/// The scan never passes a milestone whose pattern the buffer lacks.
pub proof fn lemma_advance_capped(patterns: Seq<Seq<u8>>, buffer: Seq<u8>, d: nat, k: nat)
    requires
        d <= k < patterns.len(),
        !has_substring(buffer, patterns[k as int]),
    ensures
        advance_from(patterns, buffer, d) <= k,
    decreases patterns.len() - d,
{
    if d < k && has_substring(buffer, patterns[d as int]) {
        lemma_advance_capped(patterns, buffer, d + 1, k);
    }
}

/// Concatenation distributes over appending streams.
pub proof fn lemma_concat_all_app(a: Seq<Seq<u8>>, b: Seq<Seq<u8>>)
    ensures
        concat_all(a + b) == concat_all(a) + concat_all(b),
    decreases b.len(),
{
    if b.len() == 0 {
        assert(a + b =~= a);
        assert(concat_all(a) + concat_all(b) =~= concat_all(a));
    } else {
        assert((a + b).drop_last() =~= a + b.drop_last());
        lemma_concat_all_app(a, b.drop_last());
        assert((concat_all(a) + concat_all(b.drop_last())) + b.last() =~= concat_all(a) + (
        concat_all(b.drop_last()) + b.last()));
    }
}

/// When the buffer holds the patterns up to milestone `k` but not `k`'s own,
/// the scan stops exactly at `k`.
pub proof fn lemma_advance_exact(patterns: Seq<Seq<u8>>, buffer: Seq<u8>, d: nat, k: nat)
    requires
        d <= k < patterns.len(),
        forall|j: int| 0 <= j < k ==> has_substring(buffer, #[trigger] patterns[j]),
        !has_substring(buffer, patterns[k as int]),
    ensures
        advance_from(patterns, buffer, d) == k,
    decreases patterns.len() - d,
{
    if d < k {
        lemma_advance_exact(patterns, buffer, d + 1, k);
    }
}

/// Every chunk of the stream carries text that survives sanitization: the
/// synthetic streams of the laws below arrive without idle gaps.
pub open spec fn all_chunks_live(chunks: Seq<Seq<u8>>) -> bool {
    forall|i: int| 0 <= i < chunks.len() ==> sanitize_spec(#[trigger] chunks[i]).len() > 0
}

/// Over a gap-free stream with no probe configured, a run is always either
/// still awaiting a milestone with the whole sanitized stream accumulated,
/// or has passed every milestone: it can neither time out nor probe.
proof fn lemma_run_live_no_probe(p: Params, chunks: Seq<Seq<u8>>)
    requires
        params_wf(p),
        p.probe is None,
        all_chunks_live(chunks),
    ensures
        ({
            let st = run(p, start_state(), chunks);
            &&& st.detected <= p.patterns.len()
            &&& (st.phase matches Phase::Done { outcome } ==> outcome == Outcome::AllPassed
                && st.detected == p.patterns.len())
            &&& (!(st.phase is Done) ==> st.phase is Awaiting && st.idle == 0 && st.buffer
                == sanitize_spec(concat_all(chunks)))
        }),
    decreases chunks.len(),
{
    if chunks.len() == 0 {
        assert(sanitize_spec(concat_all(chunks)) =~= Seq::<u8>::empty());
    } else {
        let head = chunks.drop_last();
        assert(all_chunks_live(head)) by {
            assert(forall|i: int| 0 <= i < head.len() ==> head[i] == chunks[i]);
        }
        lemma_run_live_no_probe(p, head);
        let prev = run(p, start_state(), head);
        if !(prev.phase is Done) {
            let text = sanitize_spec(chunks.last());
            lemma_sanitize_app(concat_all(head), chunks.last());
            assert(prev.buffer + text == sanitize_spec(concat_all(chunks)));
            lemma_advance_bounds(p.patterns, prev.buffer + text, prev.detected);
        }
    }
}

/// Law: a stream that arrives without idle gaps and whose sanitized text
/// holds every milestone pattern drives the analyzer, with no probe
/// configured, to the all-milestones-passed diagnosis, with the whole
/// checklist detected.
pub proof fn lemma_complete_stream_passes(p: Params, chunks: Seq<Seq<u8>>)
    requires
        params_wf(p),
        p.probe is None,
        chunks.len() >= 1,
        all_chunks_live(chunks),
        forall|j: int|
            0 <= j < p.patterns.len() ==> has_substring(
                sanitize_spec(concat_all(chunks)),
                #[trigger] p.patterns[j],
            ),
    ensures
        run(p, start_state(), chunks).phase == (Phase::Done { outcome: Outcome::AllPassed }),
        run(p, start_state(), chunks).detected == p.patterns.len(),
        forall|n: nat| feed_idle(p, run(p, start_state(), chunks), n) == run(
            p,
            start_state(),
            chunks,
        ),
{
    lemma_complete_stream_passes_inner(p, chunks);
    assert forall|n: nat| feed_idle(p, run(p, start_state(), chunks), n) == run(
        p,
        start_state(),
        chunks,
    ) by {
        lemma_feed_idle_done(p, run(p, start_state(), chunks), n);
    }
}

/// The terminal-state part of [`lemma_complete_stream_passes`].
proof fn lemma_complete_stream_passes_inner(p: Params, chunks: Seq<Seq<u8>>)
    requires
        params_wf(p),
        p.probe is None,
        chunks.len() >= 1,
        all_chunks_live(chunks),
        forall|j: int|
            0 <= j < p.patterns.len() ==> has_substring(
                sanitize_spec(concat_all(chunks)),
                #[trigger] p.patterns[j],
            ),
    ensures
        run(p, start_state(), chunks).phase == (Phase::Done { outcome: Outcome::AllPassed }),
        run(p, start_state(), chunks).detected == p.patterns.len(),
{
    let head = chunks.drop_last();
    assert(all_chunks_live(head)) by {
        assert(forall|i: int| 0 <= i < head.len() ==> head[i] == chunks[i]);
    }
    lemma_run_live_no_probe(p, head);
    let prev = run(p, start_state(), head);
    if !(prev.phase is Done) {
        let text = sanitize_spec(chunks.last());
        lemma_sanitize_app(concat_all(head), chunks.last());
        assert(prev.buffer + text == sanitize_spec(concat_all(chunks)));
        lemma_advance_all(p.patterns, prev.buffer + text, prev.detected);
    } else {
        lemma_run_live_no_probe(p, chunks);
    }
}

/// Over a gap-free stream whose sanitized text lacks milestone `k`'s
/// pattern, a run never confirms a milestone past `k` and never finishes:
/// it is still awaiting, with the whole sanitized stream accumulated.
proof fn lemma_run_live_capped(p: Params, chunks: Seq<Seq<u8>>, k: nat)
    requires
        params_wf(p),
        all_chunks_live(chunks),
        k < p.patterns.len(),
        !has_substring(sanitize_spec(concat_all(chunks)), p.patterns[k as int]),
    ensures
        ({
            let st = run(p, start_state(), chunks);
            &&& st.phase is Awaiting
            &&& st.idle == 0 || chunks.len() == 0
            &&& st.detected <= k
            &&& st.buffer == sanitize_spec(concat_all(chunks))
        }),
    decreases chunks.len(),
{
    if chunks.len() == 0 {
        assert(sanitize_spec(concat_all(chunks)) =~= Seq::<u8>::empty());
    } else {
        let head = chunks.drop_last();
        let text = sanitize_spec(chunks.last());
        lemma_sanitize_app(concat_all(head), chunks.last());
        assert(sanitize_spec(concat_all(chunks)) == sanitize_spec(concat_all(head)) + text);
        assert(all_chunks_live(head)) by {
            assert(forall|i: int| 0 <= i < head.len() ==> head[i] == chunks[i]);
        }
        assert(!has_substring(sanitize_spec(concat_all(head)), p.patterns[k as int])) by {
            if has_substring(sanitize_spec(concat_all(head)), p.patterns[k as int]) {
                lemma_has_substring_app(
                    sanitize_spec(concat_all(head)),
                    p.patterns[k as int],
                    text,
                );
            }
        }
        lemma_run_live_capped(p, head, k);
        let prev = run(p, start_state(), head);
        lemma_advance_capped(p.patterns, prev.buffer + text, prev.detected, k);
    }
}

/// After its content is exhausted, an idle stretch ticks the counter up and,
/// exactly when the threshold is reached, times milestone `k` out: the
/// buffer holds every pattern before `k` but not `k`'s own.
proof fn lemma_idle_times_out(p: Params, st: State, k: nat, n: nat)
    requires
        params_wf(p),
        st.phase is Awaiting,
        st.idle < p.threshold,
        st.detected <= k,
        k < p.patterns.len(),
        forall|j: int| 0 <= j < k ==> has_substring(st.buffer, #[trigger] p.patterns[j]),
        !has_substring(st.buffer, p.patterns[k as int]),
        st.idle + n <= p.threshold,
    ensures
        ({
            let fin = feed_idle(p, st, n);
            &&& fin.buffer == st.buffer
            &&& fin.detected <= k
            &&& (n >= 1 ==> fin.detected == k)
            &&& (st.idle + n < p.threshold ==> fin.phase is Awaiting && fin.idle == st.idle + n)
            &&& (st.idle + n == p.threshold ==> fin.phase == (Phase::Done {
                outcome: Outcome::FailedAt { idx: k },
            }))
        }),
    decreases n,
{
    if n > 0 {
        lemma_idle_times_out(p, st, k, (n - 1) as nat);
        let mid = feed_idle(p, st, (n - 1) as nat);
        assert(sanitize_spec(Seq::<u8>::empty()).len() == 0);
        lemma_advance_exact(p.patterns, mid.buffer, mid.detected, k);
    }
}

/// Law: a stream whose sanitized text holds the patterns of the milestones
/// before `k` but is missing milestone `k`'s own pattern, followed by idle
/// cycles up to the threshold, makes the run fail at milestone `k`; the
/// milestones after `k` are never evaluated at any point of the run.
pub proof fn lemma_missing_milestone_fails(p: Params, chunks: Seq<Seq<u8>>, k: nat)
    requires
        params_wf(p),
        all_chunks_live(chunks),
        k < p.patterns.len(),
        forall|j: int|
            0 <= j < k ==> has_substring(
                sanitize_spec(concat_all(chunks)),
                #[trigger] p.patterns[j],
            ),
        !has_substring(sanitize_spec(concat_all(chunks)), p.patterns[k as int]),
    ensures
        feed_idle(p, run(p, start_state(), chunks), p.threshold).phase == (Phase::Done {
            outcome: Outcome::FailedAt { idx: k },
        }),
        forall|n: nat|
            n >= p.threshold ==> feed_idle(p, run(p, start_state(), chunks), n).phase == (
            Phase::Done { outcome: Outcome::FailedAt { idx: k } }),
        forall|m: int|
            0 <= m <= chunks.len() ==> run(p, start_state(), #[trigger] chunks.take(m)).detected
                <= k,
        forall|n: nat|
            n <= p.threshold ==> feed_idle(p, run(p, start_state(), chunks), n).detected <= k,
{
    let st = run(p, start_state(), chunks);
    lemma_run_live_capped(p, chunks, k);
    lemma_idle_times_out(p, st, k, p.threshold);
    assert(st.idle + p.threshold == p.threshold || chunks.len() == 0);
    if chunks.len() == 0 {
        assert(st == start_state());
    }
    assert forall|n: nat| n >= p.threshold implies feed_idle(p, st, n).phase == (Phase::Done {
        outcome: Outcome::FailedAt { idx: k },
    }) by {
        let extra = (n - p.threshold) as nat;
        assert(p.threshold + extra == n);
        lemma_feed_idle_add(p, st, p.threshold, extra);
        lemma_feed_idle_done(p, feed_idle(p, st, p.threshold), extra);
    }
    assert forall|m: int| 0 <= m <= chunks.len() implies run(
        p,
        start_state(),
        #[trigger] chunks.take(m),
    ).detected <= k by {
        let front = chunks.take(m);
        let back = chunks.skip(m);
        assert(front + back =~= chunks);
        lemma_concat_all_app(front, back);
        assert(all_chunks_live(front)) by {
            assert(forall|i: int| 0 <= i < front.len() ==> front[i] == chunks[i]);
        }
        lemma_sanitize_app(concat_all(front), concat_all(back));
        assert(!has_substring(sanitize_spec(concat_all(front)), p.patterns[k as int])) by {
            if has_substring(sanitize_spec(concat_all(front)), p.patterns[k as int]) {
                lemma_has_substring_app(
                    sanitize_spec(concat_all(front)),
                    p.patterns[k as int],
                    sanitize_spec(concat_all(back)),
                );
            }
        }
        lemma_run_live_capped(p, front, k);
    }
    assert forall|n: nat| n <= p.threshold implies feed_idle(
        p,
        run(p, start_state(), chunks),
        n,
    ).detected <= k by {
        lemma_idle_times_out(p, st, k, n);
    }
}

} // verus!
