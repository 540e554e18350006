use numbat_proc::eval::{NumbatConfig, NumbatWrapper};
use numbat_proc::session::Session;

fn default_session() -> Session {
    let backend = NumbatWrapper::new(NumbatConfig::default()).unwrap();
    Session::with_default_marker(backend)
}

#[test]
fn marked_line_is_rewritten_with_its_result() {
    let mut session = default_session();
    let out = session.run(&vec!["1 + 1#=".to_string()]);
    assert!(out.error.is_none());
    assert_eq!(out.printed, "1 + 1#= 2\n".to_string());
    assert_eq!(out.codes, vec!["1 + 1".to_string()]);
    assert_eq!(out.results, vec!["2".to_string()]);
}

#[test]
fn binding_line_then_marked_echo_renders_bound_value() {
    let mut session = default_session();
    let lines = vec!["let voltage = 1 V + 1 V -> mV".to_string(), "voltage#=".to_string()];
    let out = session.run(&lines);
    assert!(out.error.is_none());
    assert_eq!(
        out.printed,
        "let voltage = 1 V + 1 V -> mV\nvoltage#= 2000 mV\n".to_string()
    );
    assert_eq!(out.results, vec!["2000 mV".to_string()]);
}

#[test]
fn marker_at_offset_zero_fails_cleanly() {
    let mut session = default_session();
    let out = session.run(&vec!["#=".to_string()]);
    assert!(out.error.is_some());
    assert_eq!(out.printed, "#=".to_string());
    assert_eq!(out.codes, vec!["".to_string()]);
    assert_eq!(out.results.len(), 0);
    assert_eq!(out.processed, 0);
}

#[test]
fn unmarked_lines_pass_through_verbatim_in_order() {
    let mut session = default_session();
    let lines = vec!["alpha".to_string(), "beta gamma".to_string(), "".to_string()];
    let out = session.run(&lines);
    assert!(out.error.is_none());
    assert_eq!(out.printed, "alpha\nbeta gamma\n\n".to_string());
    assert_eq!(out.results.len(), 0);
    assert_eq!(out.codes.len(), 0);
}

#[test]
fn trailing_unmarked_batch_is_never_evaluated() {
    let mut session = default_session();
    let lines = vec![
        "# a comment line".to_string(),
        "1 + 1#=".to_string(),
        "let unfinished = 3".to_string(),
    ];
    let out = session.run(&lines);
    assert!(out.error.is_none());
    // exactly one evaluation for exactly one marker occurrence
    assert_eq!(out.codes, vec!["# a comment line\n1 + 1".to_string()]);
    assert_eq!(out.results, vec!["2".to_string()]);
    assert_eq!(out.printed, "# a comment line\n1 + 1#= 2\nlet unfinished = 3\n".to_string());
}

#[test]
fn text_after_the_marker_is_discarded() {
    let mut session = default_session();
    let out = session.run(&vec!["1 + 1#= stale result".to_string()]);
    assert!(out.error.is_none());
    assert_eq!(out.printed, "1 + 1#= 2\n".to_string());
}

#[test]
fn first_marker_occurrence_wins() {
    let mut session = default_session();
    let out = session.run(&vec!["2 * 3#= junk #= more".to_string()]);
    assert!(out.error.is_none());
    assert_eq!(out.printed, "2 * 3#= 6\n".to_string());
    assert_eq!(out.codes, vec!["2 * 3".to_string()]);
}

#[test]
fn evaluation_failure_halts_the_run_and_keeps_prior_output() {
    let mut session = default_session();
    let lines = vec![
        "1 + 1#=".to_string(),
        "1 +#=".to_string(),
        "2 + 2#=".to_string(),
    ];
    let out = session.run(&lines);
    assert!(out.error.is_some());
    assert_eq!(out.processed, 1);
    assert_eq!(out.printed, "1 + 1#= 2\n1 +#=".to_string());
    assert_eq!(out.results, vec!["2".to_string()]);
    assert_eq!(out.codes.len(), 2);
}

#[test]
fn marker_is_configurable() {
    let backend = NumbatWrapper::new(NumbatConfig::default()).unwrap();
    let mut session = Session::new(backend, "?>".to_string());
    let out = session.run(&vec!["1 + 1?>".to_string()]);
    assert!(out.error.is_none());
    assert_eq!(out.printed, "1 + 1?> 2\n".to_string());
}

#[test]
fn whole_text_run_splits_lines_and_renders_inline() {
    let mut session = default_session();
    let out = session.run_text("1 + 1\n2 + 2#=\ndone\n");
    assert!(out.error.is_none());
    assert_eq!(out.printed, "1 + 1\n2 + 2#= 4\ndone\n".to_string());
    assert_eq!(out.codes, vec!["1 + 1\n2 + 2".to_string()]);
    assert_eq!(out.processed, 3);
}

#[test]
fn later_batches_see_bindings_made_by_earlier_ones() {
    let mut session = default_session();
    let first = session.run(&vec!["let width = 10#=".to_string()]);
    assert!(first.error.is_none());
    let second = session.run(&vec!["width + 5#=".to_string()]);
    assert!(second.error.is_none());
    assert_eq!(second.printed, "width + 5#= 15\n".to_string());
}
