use textutils::headr::config::{get_args, Config};
use textutils::headr::extract::ReadPlan;
use textutils::headr::header::{banner, decide};
use textutils::headr::policy::{ExtractionPolicy, HeadKind, InvalidCount};
use textutils::headr::runner::{run, Emission, Request, RunReport, Runner, SourceError};

fn names(list: &[&str]) -> Vec<String> {
    list.iter().map(|s| s.to_string()).collect()
}

fn default_config(list: &[&str]) -> Config {
    get_args(None, false, false, &names(list)).unwrap()
}

fn ok(data: &[u8]) -> Result<Vec<u8>, SourceError> {
    Ok(data.to_vec())
}

#[test]
fn banners_follow_flags_and_source_count() {
    assert!(decide(true, false, 0));
    assert!(decide(true, false, 1));
    assert!(decide(true, true, 5));
    assert!(!decide(false, true, 5));
    assert!(!decide(false, true, 1));
    assert!(!decide(false, false, 0));
    assert!(!decide(false, false, 1));
    assert!(decide(false, false, 2));
    assert!(decide(false, false, usize::MAX));
}

#[test]
fn banner_format_is_exact() {
    assert_eq!(banner("one.txt"), "==> one.txt <==\n");
    assert_eq!(banner(""), "==>  <==\n");
    assert_eq!(banner("dir/ü.txt"), "==> dir/ü.txt <==\n");
}

#[test]
fn arguments_give_policy_banners_and_sources() {
    let config = get_args(
        Some((HeadKind::Bytes, "-3".to_string())),
        false,
        false,
        &names(&["a", "-", "b"]),
    )
    .unwrap();
    assert_eq!(*config.policy(), ExtractionPolicy::new(HeadKind::Bytes, 3, true));
    assert!(config.print_headers());
    assert_eq!(
        *config.files(),
        vec![Some("a".to_string()), None, Some("b".to_string())]
    );
}

#[test]
fn no_names_mean_standard_input_alone() {
    let config = default_config(&[]);
    assert_eq!(*config.files(), vec![None]);
    assert!(!config.print_headers());
    assert_eq!(*config.policy(), ExtractionPolicy::default());
}

#[test]
fn only_a_single_dash_is_standard_input() {
    let config = default_config(&["-", "--", "-x", ""]);
    assert_eq!(
        *config.files(),
        vec![None, Some("--".to_string()), Some("-x".to_string()), Some(String::new())]
    );
}

#[test]
fn a_bad_count_is_the_only_configuration_error() {
    let r = get_args(
        Some((HeadKind::Lines, "many".to_string())),
        true,
        false,
        &names(&["a"]),
    );
    match r {
        Err(e) => {
            assert_eq!(e, InvalidCount { unit: HeadKind::Lines, token: "many".to_string() })
        }
        Ok(_) => panic!("a malformed count was accepted"),
    }
}

#[test]
fn two_sources_get_banners_one_blank_line_apart() {
    let config = default_config(&["one", "two"]);
    let report = run(config, vec![ok(b"1\n2\n"), ok(b"x\ny\nz\n")]);
    assert_eq!(
        report,
        RunReport {
            stdout: "==> one <==\n1\n2\n\n==> two <==\nx\ny\nz\n".to_string(),
            diagnostics: vec![],
            succeeded: true,
        }
    );
}

#[test]
fn three_sources_have_two_separators_and_none_at_the_end() {
    let config = get_args(
        Some((HeadKind::Lines, "1".to_string())),
        false,
        false,
        &names(&["a", "b", "c"]),
    )
    .unwrap();
    let report = run(config, vec![ok(b"1\n2\n"), ok(b""), ok(b"3")]);
    assert_eq!(report.stdout, "==> a <==\n1\n\n==> b <==\n\n==> c <==\n3\n");
    assert!(report.succeeded);
}

#[test]
fn a_single_source_has_no_banner_unless_asked_for() {
    let plain = run(default_config(&["one"]), vec![ok(b"1\n")]);
    assert_eq!(plain.stdout, "1\n");
    let verbose = get_args(None, true, false, &names(&["one"])).unwrap();
    assert_eq!(run(verbose, vec![ok(b"1\n")]).stdout, "==> one <==\n1\n");
}

#[test]
fn quiet_hides_banners_and_separators() {
    let config = get_args(None, false, true, &names(&["one", "two"])).unwrap();
    let report = run(config, vec![ok(b"1\n"), ok(b"2\n")]);
    assert_eq!(report.stdout, "1\n2\n");
}

#[test]
fn unreadable_source_then_readable_source() {
    let config = default_config(&["missing", "two"]);
    let results = vec![
        Err(SourceError::Open("No such file or directory (os error 2)".to_string())),
        ok(b"x\ny\n"),
    ];
    let report = run(config, results);
    assert_eq!(
        report,
        RunReport {
            stdout: "==> two <==\nx\ny\n".to_string(),
            diagnostics: vec![
                "Failed to open missing: No such file or directory (os error 2)".to_string()
            ],
            succeeded: false,
        }
    );
}

#[test]
fn a_failure_after_a_success_leaves_the_separator() {
    let config = default_config(&["one", "missing"]);
    let report = run(config, vec![ok(b"1\n"), Err(SourceError::Open("gone".to_string()))]);
    assert_eq!(report.stdout, "==> one <==\n1\n\n");
    assert_eq!(report.diagnostics, vec!["Failed to open missing: gone".to_string()]);
    assert!(!report.succeeded);
}

#[test]
fn a_read_failure_is_reported_and_the_run_goes_on() {
    let config = default_config(&["bad", "good"]);
    let report = run(config, vec![Err(SourceError::Read("broken pipe".to_string())), ok(b"g\n")]);
    assert_eq!(report.stdout, "==> bad <==\n\n==> good <==\ng\n");
    assert_eq!(report.diagnostics, vec!["Failed to read bad: broken pipe".to_string()]);
    assert!(!report.succeeded);
}

#[test]
fn standard_input_is_shown_under_the_empty_name() {
    let config = default_config(&["-", "f"]);
    let report = run(config, vec![ok(b"in\n"), Err(SourceError::Open("e".to_string()))]);
    assert_eq!(report.stdout, "==>  <==\nin\n\n");
    let failing = run(default_config(&["-"]), vec![Err(SourceError::Open("closed".to_string()))]);
    assert_eq!(failing.diagnostics, vec!["Failed to open : closed".to_string()]);
}

#[test]
fn bytes_that_are_not_text_are_shown_with_replacement_characters() {
    let config =
        get_args(Some((HeadKind::Bytes, "3".to_string())), false, false, &names(&["f"]))
            .unwrap();
    let report = run(config, vec![ok(b"a\xffb-rest")]);
    assert_eq!(report.stdout, "a\u{fffd}b");
    let cut = get_args(
        Some((HeadKind::Bytes, "1".to_string())),
        false,
        false,
        &names(&["f"]),
    )
    .unwrap();
    assert_eq!(run(cut, vec![ok("é".as_bytes())]).stdout, "\u{fffd}");
}

#[test]
fn text_that_is_valid_is_shown_unchanged() {
    let config = default_config(&["f"]);
    let report = run(config, vec![ok("grüße\n日本語\n".as_bytes())]);
    assert_eq!(report.stdout, "grüße\n日本語\n");
}

#[test]
fn zero_count_still_writes_banners_and_separators() {
    let config = get_args(
        Some((HeadKind::Lines, "0".to_string())),
        false,
        false,
        &names(&["a", "b"]),
    )
    .unwrap();
    let report = run(config, vec![ok(b""), ok(b"")]);
    assert_eq!(report.stdout, "==> a <==\n\n==> b <==\n");
}

#[test]
fn fewer_results_than_sources_stop_the_run_early() {
    let config = default_config(&["a", "b", "c"]);
    let report = run(config, vec![ok(b"1\n")]);
    assert_eq!(report.stdout, "==> a <==\n1\n\n");
    assert!(report.succeeded);
}

#[test]
fn more_results_than_sources_are_ignored() {
    let config = default_config(&["a"]);
    let report = run(config, vec![ok(b"1\n"), ok(b"2\n"), Err(SourceError::Open("x".to_string()))]);
    assert_eq!(report.stdout, "1\n");
    assert!(report.diagnostics.is_empty());
    assert!(report.succeeded);
}

#[test]
fn runner_asks_for_each_source_in_turn() {
    let config = get_args(
        Some((HeadKind::Bytes, "2".to_string())),
        false,
        false,
        &names(&["a", "b"]),
    )
    .unwrap();
    let mut runner = Runner::new(config);
    assert!(!runner.finished());
    assert_eq!(runner.pending(), Some(Request { index: 0, plan: ReadPlan::Bytes(2) }));
    let first = runner.accept(ok(b"abcdef"));
    assert_eq!(
        first,
        Emission { stdout: "==> a <==\nab\n".to_string(), diagnostic: None }
    );
    assert!(runner.succeeded());
    assert_eq!(runner.pending(), Some(Request { index: 1, plan: ReadPlan::Bytes(2) }));
    let second = runner.accept(Err(SourceError::Open("denied".to_string())));
    assert_eq!(
        second,
        Emission {
            stdout: String::new(),
            diagnostic: Some("Failed to open b: denied".to_string()),
        }
    );
    assert!(runner.finished());
    assert!(!runner.succeeded());
    assert_eq!(runner.pending(), None);
    let extra = runner.accept(ok(b"zz"));
    assert_eq!(extra, Emission { stdout: String::new(), diagnostic: None });
    assert!(runner.finished());
    assert!(!runner.succeeded());
    assert_eq!(runner.config().files().len(), 2);
}

#[test]
fn a_failure_is_remembered_to_the_end() {
    let config = default_config(&["a", "b", "c"]);
    let mut runner = Runner::new(config);
    runner.accept(Err(SourceError::Read("r".to_string())));
    assert!(!runner.succeeded());
    runner.accept(ok(b"fine\n"));
    runner.accept(ok(b"fine\n"));
    assert!(runner.finished());
    assert!(!runner.succeeded());
}
