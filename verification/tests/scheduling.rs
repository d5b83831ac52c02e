use upmd::cli::output::BatchOutput;
use upmd::code::{Code, CodeId};
use upmd::scheduler::{AdvanceResult, BlockFailure, DependencyGraph, Scheduler};

/// Blocks by number, name and dependency list, with the names resolved.
fn blocks(items: &[(CodeId, &str, Option<&str>)]) -> Vec<Code> {
    let resolve = |name: &str| -> Result<CodeId, String> {
        let ids: Vec<CodeId> = items.iter().filter(|i| i.1 == name).map(|i| i.0).collect();
        match ids.len() {
            0 => Err(format!("dependency '{name}' not found")),
            1 => Ok(ids[0]),
            _ => Err(format!("dependency '{name}' is ambiguous")),
        }
    };
    items
        .iter()
        .map(|(id, name, deps)| Code {
            id: *id,
            name: name.to_string(),
            language: "sh".to_string(),
            language_name: "sh".to_string(),
            content: String::new(),
            deps_text: deps.unwrap_or("").to_string(),
            deps_tokens: None,
            dependencies: deps
                .map(|text| {
                    text.split(',')
                        .map(|group| group.split('|').map(|n| resolve(n.trim())).collect())
                        .collect()
                })
                .unwrap_or(Ok(Vec::new())),
        })
        .collect()
}

fn next(ids: &[CodeId]) -> AdvanceResult {
    AdvanceResult::NextBatch(ids.to_vec())
}

#[test]
fn target_batches_preserve_sequential_and_parallel_groups() {
    let codes = blocks(&[
        (1, "setup", None),
        (2, "build", None),
        (3, "lint", None),
        (4, "test", None),
        (5, "target", Some("setup, build | lint, test")),
    ]);
    let mut scheduler = Scheduler::for_target(&codes, 5).unwrap();
    assert_eq!(scheduler.start(), Some(vec![1]));
    assert_eq!(scheduler.advance(1, Some(0)), next(&[2, 3]));
    assert_eq!(scheduler.advance(2, Some(0)), AdvanceResult::Pending);
    assert_eq!(scheduler.advance(3, Some(0)), next(&[4]));
    assert_eq!(scheduler.advance(4, Some(0)), next(&[5]));
    assert_eq!(scheduler.advance(5, Some(0)), AdvanceResult::Finished { failed: false });
}

#[test]
fn target_rerun_executes_successful_dependencies_again() {
    let codes = blocks(&[(1, "setup", None), (2, "target", Some("setup"))]);
    let normal = Scheduler::for_target(&codes, 2).unwrap();
    assert!(!normal.should_execute(1, true));
    assert!(normal.should_execute(2, true));
    let rerun = Scheduler::for_target_rerun(&codes, 2).unwrap();
    assert!(rerun.should_execute(1, true));
    assert!(rerun.should_execute(2, true));
}

#[test]
fn nested_dependencies_are_ordered_before_the_target() {
    let codes = blocks(&[
        (1, "target", Some("build")),
        (2, "build", Some("setup")),
        (3, "setup", None),
    ]);
    let mut scheduler = Scheduler::for_target(&codes, 1).unwrap();
    assert_eq!(scheduler.start(), Some(vec![3]));
    assert_eq!(scheduler.advance(3, Some(0)), next(&[2]));
    assert_eq!(scheduler.advance(2, Some(0)), next(&[1]));
    assert_eq!(scheduler.advance(1, Some(0)), AdvanceResult::Finished { failed: false });
}

#[test]
fn all_mode_is_sequential_and_stably_sorted() {
    let codes = blocks(&[
        (1, "target", Some("setup")),
        (2, "unrelated", None),
        (3, "setup", None),
    ]);
    let mut scheduler = Scheduler::for_all(&codes, false).unwrap();
    assert_eq!(scheduler.start(), Some(vec![2]));
    assert_eq!(scheduler.advance(2, Some(0)), next(&[3]));
    assert_eq!(scheduler.advance(3, Some(0)), next(&[1]));
    assert_eq!(scheduler.advance(1, Some(0)), AdvanceResult::Finished { failed: false });
}

#[test]
fn graph_uses_scheduler_validation() {
    let codes = blocks(&[(1, "same", None), (2, "same", None), (3, "target", Some("same"))]);
    let error = DependencyGraph::for_target(&codes, 3).err().unwrap();
    assert!(error.contains("ambiguous"));
}

#[test]
fn graph_layers_contain_each_block_once() {
    let codes = blocks(&[(1, "a", None), (2, "b", Some("a")), (3, "target", Some("a, b"))]);
    let graph = DependencyGraph::for_target(&codes, 3).ok().unwrap();
    assert_eq!(graph.layers(), &[vec![1], vec![2], vec![3]]);
}

#[test]
fn all_mode_retains_its_complete_graph() {
    let codes = blocks(&[(1, "a", None), (2, "b", Some("a")), (3, "independent", None)]);
    let scheduler = Scheduler::for_all(&codes, false).unwrap();
    assert_eq!(scheduler.graph().layers(), &[vec![1, 3], vec![2]]);
    assert_eq!(scheduler.graph().target(), None);
}

#[test]
fn cycles_and_ambiguous_names_are_rejected() {
    let cycle = blocks(&[(1, "a", Some("b")), (2, "b", Some("a"))]);
    assert!(Scheduler::for_all(&cycle, false).err().unwrap().contains("cycle"));
    let ambiguous = blocks(&[(1, "same", None), (2, "same", None), (3, "target", Some("same"))]);
    assert!(Scheduler::for_target(&ambiguous, 3).err().unwrap().contains("ambiguous"));
}

#[test]
fn target_validation_ignores_unrelated_blocks() {
    let codes = blocks(&[(1, "target", None), (2, "broken", Some("missing"))]);
    assert!(Scheduler::for_target(&codes, 1).is_ok());
    assert!(Scheduler::for_all(&codes, false).is_err());
}

#[test]
fn target_failure_waits_for_its_parallel_batch() {
    let codes = blocks(&[(1, "a", None), (2, "b", None), (3, "target", Some("a | b"))]);
    let mut scheduler = Scheduler::for_target(&codes, 3).unwrap();
    assert_eq!(scheduler.start(), Some(vec![1, 2]));
    assert_eq!(scheduler.advance(1, Some(7)), AdvanceResult::Pending);
    assert_eq!(
        scheduler.advance(2, Some(0)),
        AdvanceResult::Stopped(BlockFailure { block: 1, exit_code: Some(7) })
    );
}

#[test]
fn all_mode_skips_failed_dependents_but_runs_other_blocks() {
    let codes = blocks(&[
        (1, "fail", None),
        (2, "dependent", Some("fail")),
        (3, "independent", None),
    ]);
    let mut scheduler = Scheduler::for_all(&codes, true).unwrap();
    assert_eq!(scheduler.start(), Some(vec![1]));
    assert_eq!(scheduler.advance(1, Some(1)), next(&[3]));
    assert_eq!(scheduler.advance(3, Some(0)), AdvanceResult::Finished { failed: true });
}

#[test]
fn unknown_targets_are_reported_and_strangers_change_nothing() {
    let codes = blocks(&[(1, "a", None)]);
    assert!(Scheduler::for_target(&codes, 9).is_err());
    let mut scheduler = Scheduler::for_target(&codes, 1).unwrap();
    assert_eq!(scheduler.start(), Some(vec![1]));
    assert!(scheduler.is_running(1));
    assert_eq!(scheduler.advance(4, Some(0)), AdvanceResult::Untracked);
    assert!(scheduler.is_running(1));
}

#[test]
fn an_empty_document_has_no_work() {
    let mut scheduler = Scheduler::for_all(&[], true).unwrap();
    assert_eq!(scheduler.start(), None);
}

#[test]
fn completed_batch_preserves_workflow_order() {
    let mut output = BatchOutput::new();
    output.select(&[1, 2]);
    output.track(1);
    output.track(2);
    output.complete(&AdvanceResult::Pending);
    assert!(output.take_pending().is_empty());
    output.complete(&next(&[3]));
    assert_eq!(output.take_pending(), std::collections::VecDeque::from([vec![1, 2]]));
}

#[test]
fn focus_cycles_only_through_executed_blocks() {
    let mut output = BatchOutput::new();
    output.select(&[1, 2, 3]);
    output.track(1);
    output.track(3);
    assert_eq!(output.focus_next(1), Some(3));
    assert_eq!(output.focus_next(3), Some(1));
    assert_eq!(output.focus_next(2), None);
}
