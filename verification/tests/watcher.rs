use zwatch::batch::handle_message;
use zwatch::batch::BatchOutcome;
use zwatch::batch::DebounceBatch;
use zwatch::events::classify;
use zwatch::events::distinct_accepted;
use zwatch::events::should_rebuild;
use zwatch::events::EventKind;
use zwatch::events::RawChangeEvent;
use zwatch::path_model::has_zig_extension;
use zwatch::path_model::parent_of;
use zwatch::path_model::push_component;
use zwatch::prepare::prepare_path;
use zwatch::prepare::PathError;
use zwatch::report::handle_err_events;
use zwatch::target::decimal_string;
use zwatch::target::parse_exercise_number;
use zwatch::target::plan_rebuilds;
use zwatch::target::resolve_target;
use zwatch::target::ParseError;
use zwatch::target::TargetError;

fn changed(path: &str) -> RawChangeEvent {
    RawChangeEvent { path: path.to_string(), kind: EventKind::ContentChanged }
}

#[test]
fn non_zig_extension_never_accepted() {
    let candidate = "exercises/001_hello.txt".to_string();
    assert!(!classify(&candidate, &vec![], true));
    assert!(!classify(&candidate, &vec![], false));
    // An existing file with the wrong extension is rejected too.
    assert!(!should_rebuild(&"Cargo.toml".to_string(), &vec![]));
}

#[test]
fn already_accepted_path_rejected() {
    let candidate = "exercises/001_hello.zig".to_string();
    let accepted = vec![candidate.clone()];
    assert!(!classify(&candidate, &accepted, true));
    assert!(!should_rebuild(&candidate, &accepted));
}

#[test]
fn missing_file_rejected() {
    let candidate = "exercises/001_hello.zig".to_string();
    assert!(!classify(&candidate, &vec![], false));
    assert!(!should_rebuild(&"no/such/dir/001_hello.zig".to_string(), &vec![]));
}

#[test]
fn present_zig_candidate_accepted() {
    let candidate = "exercises/001_hello.zig".to_string();
    assert!(classify(&candidate, &vec![], true));
}

#[test]
fn duplicate_events_trigger_one_rebuild() {
    let path = "/root/ziglings/exercises/007_arrays.zig";
    let events = vec![changed(path), changed(path)];
    let present = vec![true, true];
    let accepted = distinct_accepted(&events, &present);
    assert_eq!(accepted.len(), 1);
    assert_eq!(accepted[0], path);
    let plan = plan_rebuilds(&accepted).unwrap();
    assert_eq!(plan.len(), 1);
    assert_eq!(plan[0].exercise, 7);
}

#[test]
fn delivery_order_kept() {
    let a = "/r/exercises/001_a.zig";
    let b = "/r/exercises/002_b.zig";
    let events = vec![changed(a), changed(b), changed(a)];
    let present = vec![true, true, true];
    let accepted = distinct_accepted(&events, &present);
    assert_eq!(accepted, vec![a.to_string(), b.to_string()]);
}

#[test]
fn non_content_changed_ignored() {
    let events = vec![RawChangeEvent {
        path: "/r/exercises/001_a.zig".to_string(),
        kind: EventKind::Other,
    }];
    let present = vec![true];
    let accepted = distinct_accepted(&events, &present);
    assert!(accepted.is_empty());
}

#[test]
fn target_resolved_from_numbered_name() {
    let path = "/home/user/ziglings/exercises/007_arrays.zig".to_string();
    let target = resolve_target(&path).unwrap();
    assert_eq!(target.exercise, 7);
    assert_eq!(target.working_dir, "/home/user/ziglings");
    assert_eq!(target.build_file_path(), "/home/user/ziglings/build.zig");
}

#[test]
fn name_without_underscore_fails() {
    let path = "/home/user/ziglings/exercises/arrays.zig".to_string();
    let err = resolve_target(&path).unwrap_err();
    assert_eq!(err, TargetError::InvalidExerciseNumber(ParseError::InvalidDigit));
}

#[test]
fn path_without_file_name_fails() {
    let err = resolve_target(&"/".to_string()).unwrap_err();
    assert_eq!(err, TargetError::InvalidFileName { path: "/".to_string() });
    assert_eq!(err.message(), "Invalid file name for path /");
}

#[test]
fn root_without_exercises_dir_refused() {
    // The package directory itself exists but holds no `exercises` subdirectory.
    match prepare_path(".") {
        Err(PathError::MissingExercisesDir { attempted }) => {
            assert!(attempted.ends_with("/exercises"));
            let err = PathError::MissingExercisesDir { attempted };
            assert!(err.message().starts_with("Cannot find ziglings exercises directory in "));
        },
        other => panic!("expected a missing exercises directory, got {:?}", other),
    }
}

#[test]
fn nonexistent_root_refused() {
    match prepare_path("/no/such/path/zwatch") {
        Err(PathError::InvalidPath { cause, requested }) => {
            assert_eq!(requested, "/no/such/path/zwatch");
            assert!(!cause.is_empty());
            let err = PathError::InvalidPath { cause, requested };
            assert!(err.message().ends_with("\nTargeting: /no/such/path/zwatch"));
        },
        other => panic!("expected an invalid path error, got {:?}", other),
    }
}

#[test]
fn error_batch_formats_report() {
    let batch = DebounceBatch::Errors(vec![
        "first failure".to_string(),
        "second failure".to_string(),
    ]);
    match handle_message(batch) {
        Ok(BatchOutcome::ErrorReport(report)) => {
            assert_eq!(report, "first failure\nsecond failure");
        },
        other => panic!("expected an error report, got {:?}", describe(&other)),
    }
}

#[test]
fn error_report_joins_without_trailing_newline() {
    assert_eq!(handle_err_events(&vec![]), "");
    assert_eq!(handle_err_events(&vec!["only".to_string()]), "only");
}

#[test]
fn events_batch_of_missing_files_plans_nothing() {
    let batch = DebounceBatch::Events(vec![changed("/no/such/exercises/001_a.zig")]);
    match handle_message(batch) {
        Ok(BatchOutcome::Rebuilds(targets)) => assert!(targets.is_empty()),
        other => panic!("expected an empty plan, got {:?}", describe(&other)),
    }
}

fn describe(outcome: &Result<BatchOutcome, TargetError>) -> String {
    match outcome {
        Ok(BatchOutcome::Rebuilds(ts)) => format!("a plan of {} rebuilds", ts.len()),
        Ok(BatchOutcome::ErrorReport(m)) => format!("the report {:?}", m),
        Err(e) => format!("the fatal error {:?}", e),
    }
}

#[test]
fn exercise_numbers_parse_exactly() {
    assert_eq!(parse_exercise_number("007"), Ok(7));
    assert_eq!(parse_exercise_number("0"), Ok(0));
    assert_eq!(parse_exercise_number("18446744073709551615"), Ok(usize::MAX));
    assert_eq!(parse_exercise_number(""), Err(ParseError::Empty));
    assert_eq!(parse_exercise_number("12a"), Err(ParseError::InvalidDigit));
    assert_eq!(parse_exercise_number("arrays.zig"), Err(ParseError::InvalidDigit));
    assert_eq!(parse_exercise_number("18446744073709551616"), Err(ParseError::Overflow));
}

#[test]
fn decimal_rendering_round_trips() {
    assert_eq!(decimal_string(0), "0");
    assert_eq!(decimal_string(7), "7");
    assert_eq!(decimal_string(10), "10");
    assert_eq!(decimal_string(190), "190");
    assert_eq!(decimal_string(1000), "1000");
    // A zero-padded segment parses to the number, which renders canonically.
    assert_eq!(parse_exercise_number("007").map(decimal_string), Ok("7".to_string()));
    assert_eq!(parse_exercise_number(&decimal_string(usize::MAX)), Ok(usize::MAX));
}

#[test]
fn extension_rules_follow_the_file_name() {
    assert!(has_zig_extension("exercises/001_hello.zig"));
    assert!(has_zig_extension("a.b.zig"));
    assert!(!has_zig_extension(".zig"));
    assert!(!has_zig_extension("001_hello.Zig"));
    assert!(!has_zig_extension("001_hello.zig.txt"));
    assert!(!has_zig_extension("dir.zig/file"));
    assert!(!has_zig_extension(""));
}

#[test]
fn parents_ascend_one_level() {
    assert_eq!(parent_of("/a/b/c"), "/a/b");
    assert_eq!(parent_of("/a"), "/");
    assert_eq!(parent_of("/"), "/");
    assert_eq!(parent_of("name"), "");
}

#[test]
fn components_append_with_one_separator() {
    assert_eq!(push_component("/", "exercises"), "/exercises");
    assert_eq!(push_component("/home/u", "exercises"), "/home/u/exercises");
    assert_eq!(push_component("", "exercises"), "exercises");
}

#[test]
fn target_error_messages_name_the_cause() {
    let no_name = TargetError::InvalidFileName { path: "exercises/".to_string() };
    assert_eq!(no_name.message(), "Invalid file name for path exercises/");
    assert_eq!(
        TargetError::InvalidExerciseNumber(ParseError::Overflow).message(),
        "Failed to convert exercise number: number too large to fit in target type"
    );
}

#[test]
fn path_error_messages_echo_the_paths() {
    let missing = PathError::MissingExercisesDir { attempted: "/x/exercises".to_string() };
    assert_eq!(missing.message(), "Cannot find ziglings exercises directory in /x/exercises");
    let invalid = PathError::InvalidPath {
        cause: "no such file or directory".to_string(),
        requested: "./ziglings".to_string(),
    };
    assert_eq!(invalid.message(), "no such file or directory\nTargeting: ./ziglings");
}
