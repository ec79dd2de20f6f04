use smart_garden_gateway_boot_analyzer::analyzer::Analyzer;
use smart_garden_gateway_boot_analyzer::analyzer::Diagnosis;
use smart_garden_gateway_boot_analyzer::analyzer::Milestone;
use smart_garden_gateway_boot_analyzer::analyzer::Probe;
use smart_garden_gateway_boot_analyzer::analyzer::StepResult;
use smart_garden_gateway_boot_analyzer::analyzer::Verdict;

fn milestone(pattern: &[u8], desc: &str) -> Milestone {
    Milestone {
        pattern: pattern.to_vec(),
        failure_description: desc.to_string(),
    }
}

fn boot_checklist() -> Vec<Milestone> {
    vec![
        milestone(b"U-Boot SPL", "Boot ROM did not start the SPL"),
        milestone(b"DRAM:  128 MiB", "Wrong RAM size detected"),
        milestone(b"Net:   eth0: eth@10110000", "Ethernet interface not detected"),
        milestone(b"=>", "Boot did not reach the U-Boot prompt"),
    ]
}

fn nand_probe() -> Probe {
    Probe {
        command: b"sf probe 0.1\n".to_vec(),
        prompt_marker: b"=>".to_vec(),
        fault_signature: b"Could not find a valid device for spi0.1".to_vec(),
        fault_description: "NAND flash faulty".to_string(),
    }
}

fn boot_chunks() -> Vec<Vec<u8>> {
    vec![
        b"U-Boot SPL\n".to_vec(),
        b"DRAM:  128 MiB\n".to_vec(),
        b"Net:   eth0: eth@10110000\n".to_vec(),
        b"=>".to_vec(),
    ]
}

#[test]
fn scenario_all_milestones_passed() {
    let mut a = Analyzer::new(boot_checklist(), None, 100);
    let d = a.analyze(&boot_chunks());
    assert_eq!(d, Diagnosis::AllMilestonesPassed);
    assert_eq!(a.verdicts, vec![Verdict::Detected; 4]);
    assert_eq!(a.detected, 4);
}

#[test]
fn scenario_timeout_after_first_milestone() {
    // Only the first milestone arrives, then 100 consecutive empty reads.
    let mut a = Analyzer::new(boot_checklist(), None, 100);
    let r = a.step(b"U-Boot SPL");
    assert!(matches!(r, StepResult::Running));
    for _ in 0..99 {
        let r = a.step(b"");
        assert!(matches!(r, StepResult::Running));
    }
    let r = a.step(b"");
    match r {
        StepResult::Finished(d) => {
            assert_eq!(
                d,
                Diagnosis::FailedAtMilestone(1, "Wrong RAM size detected".to_string())
            );
        }
        _ => panic!("run should have timed out on the hundredth empty read"),
    }
    assert_eq!(a.verdicts, vec![Verdict::Detected, Verdict::TimedOut]);
}

#[test]
fn scenario_timeout_via_analyze() {
    let mut a = Analyzer::new(boot_checklist(), None, 100);
    let d = a.analyze(&vec![b"U-Boot SPL".to_vec()]);
    assert_eq!(
        d,
        Diagnosis::FailedAtMilestone(1, "Wrong RAM size detected".to_string())
    );
}

#[test]
fn scenario_secondary_fault() {
    let mut a = Analyzer::new(boot_checklist(), Some(nand_probe()), 100);
    let mut chunks = boot_chunks();
    chunks.push(b"sf probe 0.1\nCould not find a valid device for spi0.1\n=>".to_vec());
    let d = a.analyze(&chunks);
    assert_eq!(d, Diagnosis::SecondaryFault("NAND flash faulty".to_string()));
}

#[test]
fn scenario_probe_finds_no_fault() {
    let mut a = Analyzer::new(boot_checklist(), Some(nand_probe()), 100);
    let mut chunks = boot_chunks();
    chunks.push(b"sf probe 0.1\nSF: Detected w25q128 with page size 256 Bytes\n=>".to_vec());
    let d = a.analyze(&chunks);
    assert_eq!(d, Diagnosis::NoIssuesFound);
}

#[test]
fn probe_requested_after_last_milestone() {
    let mut a = Analyzer::new(boot_checklist(), Some(nand_probe()), 100);
    let chunks = boot_chunks();
    for (i, c) in chunks.iter().enumerate() {
        let r = a.step(c.as_slice());
        if i + 1 < chunks.len() {
            assert!(matches!(r, StepResult::Running));
        } else {
            assert!(matches!(r, StepResult::ProbeRequested));
        }
    }
    assert_eq!(a.verdicts, vec![Verdict::Detected; 4]);
}

#[test]
fn scenario_replay_single_chunk_matches_live_stream() {
    // The same content, once as a single replayed chunk and once as the
    // live four-chunk stream, produces the same diagnosis.
    let mut live = Analyzer::new(boot_checklist(), None, 100);
    let live_diag = live.analyze(&boot_chunks());

    let mut content: Vec<u8> = Vec::new();
    for c in boot_chunks() {
        content.extend_from_slice(&c);
    }
    let mut replay = Analyzer::new(boot_checklist(), None, 100);
    let replay_diag = replay.analyze_replay(content);

    assert_eq!(live_diag, replay_diag);
    assert_eq!(replay_diag, Diagnosis::AllMilestonesPassed);
}

#[test]
fn idle_counter_resets_on_any_text() {
    let mut a = Analyzer::new(boot_checklist(), None, 100);
    // Text that matches no milestone still resets the counter.
    a.step(b"garbage that matches nothing");
    assert_eq!(a.idle, 0);
    a.step(b"");
    assert_eq!(a.idle, 1);
    // A chunk that sanitizes to empty text counts as an idle cycle.
    a.step(b"\x01\x02\x03");
    assert_eq!(a.idle, 2);
    a.step(b"more noise");
    assert_eq!(a.idle, 0);
}

#[test]
fn later_milestones_not_detected_when_one_is_missing() {
    // The stream carries the patterns of milestones 0 and 2 but not 1: the
    // run fails at 1 and milestone 2 is never marked detected, even though
    // its pattern is in the buffer.
    let mut a = Analyzer::new(boot_checklist(), None, 100);
    let d = a.analyze(&vec![
        b"U-Boot SPL\n".to_vec(),
        b"Net:   eth0: eth@10110000\n".to_vec(),
    ]);
    assert_eq!(
        d,
        Diagnosis::FailedAtMilestone(1, "Wrong RAM size detected".to_string())
    );
    assert_eq!(a.verdicts, vec![Verdict::Detected, Verdict::TimedOut]);
    assert_eq!(a.detected, 1);
}

#[test]
fn pattern_split_across_chunks_is_found() {
    let mut a = Analyzer::new(boot_checklist(), None, 100);
    let d = a.analyze(&vec![
        b"U-Boot S".to_vec(),
        b"PL\nDRAM:  128 MiB\nNet:   eth0: eth@10110000\n=>".to_vec(),
    ]);
    assert_eq!(d, Diagnosis::AllMilestonesPassed);
}

#[test]
fn empty_checklist_passes_on_first_read() {
    let mut a = Analyzer::new(Vec::new(), None, 100);
    let r = a.step(b"anything");
    match r {
        StepResult::Finished(d) => assert_eq!(d, Diagnosis::AllMilestonesPassed),
        _ => panic!("an empty checklist should pass on the first read cycle"),
    }
}

#[test]
fn control_bytes_never_reach_the_buffer() {
    let mut a = Analyzer::new(boot_checklist(), None, 100);
    a.step(b"\x1b[31mU-Boot SPL\x1b[0m\x00\x07");
    assert_eq!(a.buffer, b"[31mU-Boot SPL[0m".to_vec());
    assert_eq!(a.detected, 1);
}
