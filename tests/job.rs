use std::collections::HashSet;

use scad_sweep::job::{
    classify_exit, compiler_args, fresh_output_file_name, output_file_name, summarize,
    total_assignments, BatchReport, JobError,
};
use scad_sweep::profile::{CompiledProfile, Profile, Settings};
use scad_sweep::scalar::Scalar;

fn sample() -> CompiledProfile {
    CompiledProfile::new(
        String::from("metric_bolts"),
        String::from("./label.scad"),
        String::from("drawLabel"),
        vec![String::from("width")],
        vec![Scalar::Number(String::from("2"))],
    )
}

#[test]
fn file_name_gets_the_artifact_extension() {
    assert_eq!(output_file_name("01ARZ3NDEKTSV4RRFFQ69G5FAV"), "01ARZ3NDEKTSV4RRFFQ69G5FAV.3mf");
}

#[test]
fn fresh_names_are_distinct() {
    let mut seen = HashSet::new();
    for _ in 0..10_000 {
        let name = fresh_output_file_name();
        assert_eq!(name.len(), 30);
        assert!(name.ends_with(".3mf"));
        assert!(seen.insert(name));
    }
    assert_eq!(seen.len(), 10_000);
}

#[test]
fn compiler_is_asked_for_3mf() {
    assert_eq!(
        compiler_args("out/p/x.3mf", "tmp/script"),
        vec!["--export-format", "3mf", "-o", "out/p/x.3mf", "tmp/script"]
    );
}

#[test]
fn exit_zero_is_success() {
    let r = classify_exit(&sample(), String::from("out/a.3mf"), Some(0));
    assert_eq!(r.unwrap(), "out/a.3mf");
}

#[test]
fn nonzero_exit_is_compiler_failure() {
    match classify_exit(&sample(), String::from("out/a.3mf"), Some(2)) {
        Err(JobError::CompilerFailed { code, profile_name, params }) => {
            assert_eq!(code, Some(2));
            assert_eq!(profile_name, "metric_bolts");
            assert_eq!(params, vec![Scalar::Number(String::from("2"))]);
        }
        other => panic!("unexpected {:?}", other),
    }
}

#[test]
fn signalled_exit_is_compiler_failure() {
    let r = classify_exit(&sample(), String::from("out/a.3mf"), None);
    assert!(matches!(r, Err(JobError::CompilerFailed { code: None, .. })));
}

#[test]
fn partial_failure_keeps_every_result() {
    let results = vec![
        classify_exit(&sample(), String::from("out/a.3mf"), Some(0)),
        classify_exit(&sample(), String::from("out/b.3mf"), Some(1)),
        Err(JobError::IoFailed(String::from("no space left"))),
        classify_exit(&sample(), String::from("out/d.3mf"), Some(0)),
    ];
    let report = summarize(&results);
    assert_eq!(report.succeeded, 2);
    assert_eq!(report.failed, 2);
    assert_ne!(report.exit_code(), 0);
}

#[test]
fn all_successes_exit_zero() {
    let results = vec![classify_exit(&sample(), String::from("out/a.3mf"), Some(0))];
    let report = summarize(&results);
    assert_eq!(report.succeeded, 1);
    assert_eq!(report.failed, 0);
    assert_eq!(report.exit_code(), 0);
    let empty = summarize(&vec![]);
    assert_eq!(empty.exit_code(), 0);
    let tally = BatchReport { succeeded: 0, failed: 3 };
    assert_eq!(tally.exit_code(), 1);
}

#[test]
fn total_counts_every_profile() {
    let a = Profile::new(
        String::from("a.scad"),
        String::from("A"),
        vec![(String::from("k"), vec![Scalar::Bool(true), Scalar::Bool(false)])],
    );
    let b = Profile::new(
        String::from("b.scad"),
        String::from("B"),
        vec![(
            String::from("k"),
            vec![
                Scalar::Number(String::from("1")),
                Scalar::Number(String::from("2")),
                Scalar::Number(String::from("3")),
            ],
        )],
    );
    let settings = Settings::new(vec![(String::from("a"), a), (String::from("b"), b)]);
    let profiles = settings.compile_profiles();
    assert_eq!(total_assignments(&profiles), 5);
    assert_eq!(total_assignments(&vec![]), 0);
}
