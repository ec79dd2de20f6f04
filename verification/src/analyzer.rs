//! The boot-sequence analyzer: a stateful, timeout-aware pattern matcher
//! over the console byte stream of the device under test.  Every step of the
//! executable analyzer refines the spec-level transition in [`crate::model`].

use crate::model::Outcome;
use crate::model::Params;
use crate::model::Phase;
use crate::model::ProbeSig;
use crate::model::State;
use crate::model::feed_idle;
use crate::model::lemma_feed_idle_add;
use crate::model::lemma_feed_idle_done;
use crate::model::lemma_run_app;
use crate::model::lemma_run_done;
use crate::model::run;
use crate::model::spec_step;
use crate::model::start_state;
use crate::sanitize::sanitize;
use crate::sanitize::sanitize_spec;
use crate::search::find_substr_from;
use crate::search::has_substring;
use vstd::prelude::*;

verus! {

/// One expected boot milestone: the pattern that must appear in the session
/// buffer, and the description reported when it times out.
pub struct Milestone {
    pub pattern: Vec<u8>,
    pub failure_description: String,
}

/// The secondary probe: a diagnostic command sent once every milestone has
/// passed, the prompt marker that ends response collection, the fault
/// signature scanned for, and the description reported when it is found.
pub struct Probe {
    pub command: Vec<u8>,
    pub prompt_marker: Vec<u8>,
    pub fault_signature: Vec<u8>,
    pub fault_description: String,
}

/// Per-milestone verdict; once resolved it is immutable for the run.
#[derive(Clone, Copy, PartialEq, Eq, Structural, Debug)]
pub enum Verdict {
    Detected,
    TimedOut,
}

/// Terminal diagnosis of one analysis run, its sole output artifact.
#[derive(Debug)]
pub enum Diagnosis {
    /// Every milestone was detected and no probe was configured.
    AllMilestonesPassed,
    /// The milestone at this index timed out; its failure description is
    /// carried along.
    FailedAtMilestone(usize, String),
    /// The probe's response carried the fault signature.
    SecondaryFault(String),
    /// Every milestone passed and the probe found nothing.
    NoIssuesFound,
}

/// What one read cycle decided: keep reading, send the probe command first,
/// or stop with the run's diagnosis.
#[derive(Debug)]
pub enum StepResult {
    Running,
    ProbeRequested,
    Finished(Diagnosis),
}

/// Executable twin of the model's phase.
#[derive(Clone, Copy)]
pub enum RunPhase {
    Awaiting,
    Probing { start: usize },
    Done,
}

/// The boot-sequence analyzer.  The milestone checklist, probe and idle
/// threshold are configuration, fixed for the run; the buffer, idle counter,
/// detected count, verdicts and phase are the run's state.
pub struct Analyzer {
    pub milestones: Vec<Milestone>,
    pub probe: Option<Probe>,
    pub idle_threshold: u64,
    pub buffer: Vec<u8>,
    pub idle: u64,
    pub detected: usize,
    pub verdicts: Vec<Verdict>,
    pub phase: RunPhase,
    pub outcome: Ghost<Outcome>,
}

/// The verdict sequence of `n` detected milestones.
pub open spec fn detected_seq(n: nat) -> Seq<Verdict> {
    Seq::new(n, |i: int| Verdict::Detected)
}

impl Analyzer {
    /// The spec-level configuration this analyzer runs under.
    pub open spec fn params(&self) -> Params {
        Params {
            patterns: self.milestones@.map_values(|m: Milestone| m.pattern@),
            threshold: self.idle_threshold as nat,
            probe: match self.probe {
                Option::Some(pr) => Option::Some(
                    ProbeSig { prompt: pr.prompt_marker@, signature: pr.fault_signature@ },
                ),
                Option::None => Option::None,
            },
        }
    }

    /// The spec-level state this analyzer is in.
    pub open spec fn abs(&self) -> State {
        State {
            buffer: self.buffer@,
            idle: self.idle as nat,
            detected: self.detected as nat,
            phase: match self.phase {
                RunPhase::Awaiting => Phase::Awaiting,
                RunPhase::Probing { start } => Phase::Probing { start: start as nat },
                RunPhase::Done => Phase::Done { outcome: self.outcome@ },
            },
        }
    }

    /// Internal invariant of a live analyzer.  The idle-counter bounds keep
    /// the counter within the machine word: a live awaiting run has not
    /// reached the threshold, and a probing run is at most one transition
    /// past it.
    pub open spec fn wf(&self) -> bool {
        &&& 1 <= self.idle_threshold < u64::MAX
        &&& self.detected <= self.milestones.len()
        &&& (self.phase is Awaiting ==> self.idle < self.idle_threshold)
        &&& (self.phase is Probing ==> self.idle <= self.idle_threshold)
        &&& (self.phase matches RunPhase::Probing { start } ==> self.probe is Some
            && self.detected == self.milestones.len() && start <= self.buffer.len())
        &&& match self.phase {
            RunPhase::Done => match self.outcome@ {
                Outcome::FailedAt { idx } => idx == self.detected && self.detected
                    < self.milestones.len() && self.verdicts@ == detected_seq(
                    self.detected as nat,
                ).push(Verdict::TimedOut),
                _ => self.detected == self.milestones.len() && self.verdicts@ == detected_seq(
                    self.detected as nat,
                ),
            },
            _ => self.verdicts@ == detected_seq(self.detected as nat),
        }
        &&& (self.phase is Done && (self.outcome@ is Fault || self.outcome@ is NoIssues)
            ==> self.probe is Some)
    }

    /// The diagnosis `d` reports exactly this analyzer's terminal outcome,
    /// with the failure description configured for it.
    pub open spec fn diag_matches(&self, d: Diagnosis) -> bool {
        match d {
            Diagnosis::AllMilestonesPassed => self.outcome@ is AllPassed,
            Diagnosis::FailedAtMilestone(i, s) => self.outcome@ == (Outcome::FailedAt {
                idx: i as nat,
            }) && i < self.milestones.len() && s@ == self.milestones[i as int].failure_description@,
            Diagnosis::SecondaryFault(s) => self.outcome@ is Fault && (self.probe matches Some(pr)
                && s@ == pr.fault_description@),
            Diagnosis::NoIssuesFound => self.outcome@ is NoIssues,
        }
    }

    /// A fresh analyzer for one run: empty session buffer, idle counter at
    /// zero, no milestone confirmed, awaiting the first milestone.
    pub fn new(milestones: Vec<Milestone>, probe: Option<Probe>, idle_threshold: u64) -> (r:
        Analyzer)
        requires
            1 <= idle_threshold < u64::MAX,
        ensures
            r.wf(),
            r.abs() == start_state(),
            r.milestones == milestones,
            r.probe == probe,
            r.idle_threshold == idle_threshold,
    {
        let r = Analyzer {
            milestones,
            probe,
            idle_threshold,
            buffer: Vec::new(),
            idle: 0,
            detected: 0,
            verdicts: Vec::new(),
            phase: RunPhase::Awaiting,
            outcome: Ghost(Outcome::AllPassed),
        };
        proof {
            assert(r.verdicts@ =~= detected_seq(0));
            assert(r.abs() =~= start_state());
        }
        r
    }

    /// One read cycle, fed with the chunk the byte source yielded (possibly
    /// empty).  Sanitizes and appends the chunk or counts an idle cycle,
    /// advances the milestone checklist strictly in order, detects a
    /// timeout, and drives the secondary probe.  A chunk that sanitizes to
    /// non-empty text resets the idle counter, whether or not it advances
    /// the checklist.
    pub fn step(&mut self, chunk: &[u8]) -> (r: StepResult)
        requires
            old(self).wf(),
            !(old(self).phase is Done),
        ensures
            final(self).wf(),
            final(self).milestones == old(self).milestones,
            final(self).probe == old(self).probe,
            final(self).idle_threshold == old(self).idle_threshold,
            final(self).abs() == spec_step(old(self).params(), old(self).abs(), chunk@),
            sanitize_spec(chunk@).len() > 0 ==> final(self).idle == 0,
            (r is Finished) <==> final(self).phase is Done,
            (r is ProbeRequested) <==> (final(self).phase is Probing && old(self).phase
                is Awaiting),
            (r is Running) ==> final(self).phase is Awaiting || (final(self).phase is Probing
                && old(self).phase is Probing),
            match r {
                StepResult::Finished(d) => final(self).diag_matches(d),
                _ => true,
            },
    {
        let ghost p = old(self).params();
        let ghost st0 = old(self).abs();
        let mut text = sanitize(chunk);
        if text.len() > 0 {
            self.buffer.append(&mut text);
            self.idle = 0;
        } else {
            self.idle = self.idle + 1;
        }
        let ghost buf = self.buffer@;
        let ghost idle_now = self.idle as nat;
        match self.phase {
            RunPhase::Awaiting => {
                loop
                    invariant
                        self.detected <= self.milestones.len(),
                        self.verdicts@ == detected_seq(self.detected as nat),
                        self.buffer@ == buf,
                        self.idle as nat == idle_now,
                        self.milestones == old(self).milestones,
                        self.probe == old(self).probe,
                        self.idle_threshold == old(self).idle_threshold,
                        self.phase == RunPhase::Awaiting,
                        self.outcome == old(self).outcome,
                        p == self.params(),
                        st0.detected <= self.detected as nat,
                        crate::model::advance_from(p.patterns, buf, self.detected as nat)
                            == crate::model::advance_from(p.patterns, buf, st0.detected),
                    ensures
                        self.detected as nat == crate::model::advance_from(
                            p.patterns,
                            buf,
                            st0.detected,
                        ),
                    decreases self.milestones.len() - self.detected,
                {
                    if self.detected >= self.milestones.len() {
                        break ;
                    }
                    let found = find_substr_from(
                        &self.buffer,
                        0,
                        &self.milestones[self.detected].pattern,
                    );
                    proof {
                        assert(self.buffer@.skip(0) =~= buf);
                        assert(p.patterns[self.detected as int]
                            == self.milestones[self.detected as int].pattern@);
                    }
                    if !found {
                        break ;
                    }
                    let ghost d_pre = self.detected as nat;
                    self.detected = self.detected + 1;
                    self.verdicts.push(Verdict::Detected);
                    proof {
                        assert(self.verdicts@ =~= detected_seq(self.detected as nat));
                        assert(crate::model::advance_from(p.patterns, buf, d_pre)
                            == crate::model::advance_from(p.patterns, buf, d_pre + 1));
                    }
                }
                if self.detected == self.milestones.len() {
                    if self.probe.is_some() {
                        let start = self.buffer.len();
                        self.phase = RunPhase::Probing { start };
                        return StepResult::ProbeRequested;
                    } else {
                        self.phase = RunPhase::Done;
                        self.outcome = Ghost(Outcome::AllPassed);
                        return StepResult::Finished(Diagnosis::AllMilestonesPassed);
                    }
                }
                if self.idle >= self.idle_threshold {
                    let idx = self.detected;
                    let desc = self.milestones[idx].failure_description.clone();
                    self.verdicts.push(Verdict::TimedOut);
                    self.phase = RunPhase::Done;
                    self.outcome = Ghost(Outcome::FailedAt { idx: idx as nat });
                    return StepResult::Finished(Diagnosis::FailedAtMilestone(idx, desc));
                }
                StepResult::Running
            },
            RunPhase::Probing { start } => {
                match &self.probe {
                    Option::Some(pr) => {
                        let prompt_found = find_substr_from(&self.buffer, start, &pr.prompt_marker);
                        if prompt_found || self.idle >= self.idle_threshold {
                            let fault_found = find_substr_from(
                                &self.buffer,
                                start,
                                &pr.fault_signature,
                            );
                            let d = if fault_found {
                                Diagnosis::SecondaryFault(pr.fault_description.clone())
                            } else {
                                Diagnosis::NoIssuesFound
                            };
                            self.phase = RunPhase::Done;
                            self.outcome = Ghost(
                                if fault_found {
                                    Outcome::Fault
                                } else {
                                    Outcome::NoIssues
                                },
                            );
                            return StepResult::Finished(d);
                        }
                        StepResult::Running
                    },
                    Option::None => {
                        // unreachable: a probing run always has a probe
                        proof {
                            assert(false);
                        }
                        StepResult::Running
                    },
                }
            },
            RunPhase::Done => {
                // unreachable: a finished run is never stepped
                proof {
                    assert(false);
                }
                StepResult::Running
            },
        }
    }

    /// Runs one whole analysis pass over a pre-chunked byte stream, as a
    /// replay-file or standard-input source delivers it: feeds every chunk
    /// in order, then counts idle read cycles until the run reaches a
    /// terminal diagnosis, which the idle threshold guarantees.  A probe
    /// request needs no transport here: a replayed stream already carries
    /// whatever response was captured.
    pub fn analyze(&mut self, chunks: &Vec<Vec<u8>>) -> (d: Diagnosis)
        requires
            old(self).wf(),
            !(old(self).phase is Done),
        ensures
            final(self).wf(),
            final(self).milestones == old(self).milestones,
            final(self).probe == old(self).probe,
            final(self).idle_threshold == old(self).idle_threshold,
            final(self).abs() == feed_idle(
                old(self).params(),
                run(old(self).params(), old(self).abs(), chunks.deep_view()),
                old(self).params().threshold + 1,
            ),
            final(self).phase is Done,
            final(self).diag_matches(d),
    {
        let ghost p = old(self).params();
        let ghost st0 = old(self).abs();
        let ghost dv = chunks.deep_view();
        let mut i: usize = 0;
        let mut decided: Option<Diagnosis> = Option::None;
        loop
            invariant_except_break
                decided is None,
                !(self.phase is Done),
            invariant
                self.wf(),
                self.milestones == old(self).milestones,
                self.probe == old(self).probe,
                self.idle_threshold == old(self).idle_threshold,
                p == old(self).params(),
                st0 == old(self).abs(),
                dv == chunks.deep_view(),
                i <= chunks.len(),
                self.abs() == run(p, st0, dv.take(i as int)),
            ensures
                self.wf(),
                self.milestones == old(self).milestones,
                self.probe == old(self).probe,
                self.idle_threshold == old(self).idle_threshold,
                i <= chunks.len(),
                self.abs() == run(p, st0, dv.take(i as int)),
                match decided {
                    Option::None => i == chunks.len() && !(self.phase is Done),
                    Option::Some(d0) => self.phase is Done && self.diag_matches(d0),
                },
            decreases chunks.len() - i,
        {
            if i >= chunks.len() {
                break ;
            }
            let r = self.step(chunks[i].as_slice());
            proof {
                assert(dv[i as int] =~= chunks@[i as int]@);
            }
            i = i + 1;
            proof {
                assert(dv.take(i as int).drop_last() =~= dv.take(i - 1));
            }
            match r {
                StepResult::Finished(d0) => {
                    decided = Option::Some(d0);
                    break ;
                },
                _ => {},
            }
        }
        proof {
            if !(decided is None) {
                assert(dv.take(i as int) + dv.skip(i as int) =~= dv);
                lemma_run_app(p, st0, dv.take(i as int), dv.skip(i as int));
                lemma_run_done(p, self.abs(), dv.skip(i as int));
                lemma_feed_idle_done(p, self.abs(), p.threshold + 1);
            } else {
                assert(dv.take(i as int) =~= dv);
            }
        }
        match decided {
            Option::Some(d0) => {
                return d0;
            },
            Option::None => {},
        }
        let ghost st1 = self.abs();
        let empty_chunk: Vec<u8> = Vec::new();
        let ghost mut m: nat = 0;
        loop
            invariant
                self.wf(),
                self.milestones == old(self).milestones,
                self.probe == old(self).probe,
                self.idle_threshold == old(self).idle_threshold,
                p == old(self).params(),
                st0 == old(self).abs(),
                dv == chunks.deep_view(),
                st1 == run(p, st0, dv),
                empty_chunk@ == Seq::<u8>::empty(),
                !(self.phase is Done),
                self.abs() == feed_idle(p, st1, m),
                self.idle as nat == st1.idle + m,
                m <= p.threshold,
            decreases p.threshold - m,
        {
            let r = self.step(empty_chunk.as_slice());
            proof {
                m = m + 1;
                assert(sanitize_spec(Seq::<u8>::empty()).len() == 0);
            }
            match r {
                StepResult::Finished(d1) => {
                    proof {
                        let rest = (p.threshold + 1 - m) as nat;
                        assert(m + rest == p.threshold + 1);
                        lemma_feed_idle_add(p, st1, m, rest);
                        lemma_feed_idle_done(p, self.abs(), rest);
                    }
                    return d1;
                },
                _ => {},
            }
        }
    }
    /// Analyzes a replayed capture: the replay source yields the whole file
    /// content as one chunk and then signals exhaustion as always-empty
    /// reads, so the run is this one chunk followed by idle cycles.
    pub fn analyze_replay(&mut self, content: Vec<u8>) -> (d: Diagnosis)
        requires
            old(self).wf(),
            !(old(self).phase is Done),
        ensures
            final(self).wf(),
            final(self).milestones == old(self).milestones,
            final(self).probe == old(self).probe,
            final(self).idle_threshold == old(self).idle_threshold,
            final(self).abs() == feed_idle(
                old(self).params(),
                run(old(self).params(), old(self).abs(), seq![content@]),
                old(self).params().threshold + 1,
            ),
            final(self).phase is Done,
            final(self).diag_matches(d),
    {
        let ghost c = content@;
        let mut chunks: Vec<Vec<u8>> = Vec::new();
        chunks.push(content);
        proof {
            assert(chunks.deep_view() =~~= seq![c]);
        }
        self.analyze(&chunks)
    }
}

impl PartialEq for Diagnosis {
    /// Two diagnoses are equal when they are the same variant carrying the
    /// same index and description.
    fn eq(&self, other: &Self) -> (r: bool) {
        match (self, other) {
            (Diagnosis::AllMilestonesPassed, Diagnosis::AllMilestonesPassed) => true,
            (Diagnosis::FailedAtMilestone(i, s), Diagnosis::FailedAtMilestone(j, t)) => *i == *j
                && *s == *t,
            (Diagnosis::SecondaryFault(s), Diagnosis::SecondaryFault(t)) => *s == *t,
            (Diagnosis::NoIssuesFound, Diagnosis::NoIssuesFound) => true,
            _ => false,
        }
    }
}

impl vstd::std_specs::cmp::PartialEqSpecImpl for Diagnosis {
    open spec fn obeys_eq_spec() -> bool {
        true
    }

    open spec fn eq_spec(&self, other: &Self) -> bool {
        match (self, other) {
            (Diagnosis::AllMilestonesPassed, Diagnosis::AllMilestonesPassed) => true,
            (Diagnosis::FailedAtMilestone(i, s), Diagnosis::FailedAtMilestone(j, t)) => i == j
                && s@ == t@,
            (Diagnosis::SecondaryFault(s), Diagnosis::SecondaryFault(t)) => s@ == t@,
            (Diagnosis::NoIssuesFound, Diagnosis::NoIssuesFound) => true,
            _ => false,
        }
    }
}

} // verus!
