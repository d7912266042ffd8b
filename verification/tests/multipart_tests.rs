use obstore::error::BackendErrorKind;
use obstore::error::ErrorKind;
use obstore::multipart::{parse_write_mode, plan_parts, select_multipart, MultipartPipeline,
    WriteMode};
use obstore::range::ByteRange;

const MIB: u64 = 1024 * 1024;

#[test]
fn twelve_mib_payload_with_five_mib_parts_makes_three_parts() {
    let parts = plan_parts(12 * MIB, 5 * MIB);
    assert_eq!(
        parts,
        vec![
            ByteRange { start: 0, end: 5 * MIB },
            ByteRange { start: 5 * MIB, end: 10 * MIB },
            ByteRange { start: 10 * MIB, end: 12 * MIB },
        ]
    );
}

#[test]
fn plan_parts_of_empty_payload_is_empty() {
    assert_eq!(plan_parts(0, 5 * MIB), Vec::new());
}

#[test]
fn pipeline_respects_cap_of_two_and_commits_in_order() {
    // Write a 12 MiB payload with 5 MiB parts under a concurrency cap of
    // two: three parts are admitted, never more than two outstanding, and
    // the commit combines exactly the three parts in original order.
    let parts = plan_parts(12 * MIB, 5 * MIB);
    assert_eq!(parts.len(), 3);
    let mut p = MultipartPipeline::new("bucket/big-object".to_string(), 2);
    assert!(p.can_admit());
    let i0 = p.admit_part();
    assert!(p.can_admit());
    let i1 = p.admit_part();
    assert_eq!((i0, i1), (0, 1));
    // The cap is reached: the third part must wait.
    assert!(!p.can_admit());
    assert_eq!(p.outstanding(), 2);
    // Parts may finish out of order relative to submission.
    p.complete_part(i1);
    assert!(p.can_admit());
    let i2 = p.admit_part();
    assert_eq!(i2, 2);
    assert_eq!(p.outstanding(), 2);
    p.complete_part(i0);
    p.complete_part(i2);
    assert_eq!(p.outstanding(), 0);
    // The manifest lists the parts by logical position, not by
    // completion order.
    assert_eq!(p.finish_decision(), Ok(vec![0, 1, 2]));
}

#[test]
fn pipeline_never_commits_on_partial_failure() {
    let mut p = MultipartPipeline::new("bucket/object".to_string(), 2);
    let i0 = p.admit_part();
    let i1 = p.admit_part();
    p.complete_part(i0);
    p.fail_part(i1, BackendErrorKind::PermissionDenied);
    // An aborted pipeline admits nothing further.
    assert!(!p.can_admit());
    assert_eq!(p.finish_decision(), Err(BackendErrorKind::PermissionDenied));
}

#[test]
fn pipeline_reports_only_the_first_failure() {
    let mut p = MultipartPipeline::new("bucket/object".to_string(), 3);
    let i0 = p.admit_part();
    let i1 = p.admit_part();
    let i2 = p.admit_part();
    p.fail_part(i1, BackendErrorKind::Unauthenticated);
    p.fail_part(i2, BackendErrorKind::Generic);
    p.complete_part(i0);
    assert_eq!(p.finish_decision(), Err(BackendErrorKind::Unauthenticated));
}

#[test]
fn small_payload_takes_the_single_shot_path() {
    // A 1 KiB payload under the default 5 MiB threshold bypasses the
    // multipart pipeline entirely.
    assert!(!select_multipart(1024, 5 * MIB, None, &None));
    assert_eq!(plan_parts(1024, 5 * MIB).len(), 1);
}

#[test]
fn large_payload_takes_the_multipart_path() {
    assert!(select_multipart(12 * MIB, 5 * MIB, None, &None));
}

#[test]
fn explicit_choice_overrides_the_size_threshold() {
    assert!(select_multipart(1024, 5 * MIB, Some(true), &None));
    assert!(!select_multipart(12 * MIB, 5 * MIB, Some(false), &None));
}

#[test]
fn strict_modes_force_the_single_shot_path() {
    assert!(!select_multipart(12 * MIB, 5 * MIB, None, &Some(WriteMode::Create)));
    assert!(!select_multipart(
        12 * MIB,
        5 * MIB,
        Some(true),
        &Some(WriteMode::Update { e_tag: None, version: None })
    ));
    assert!(select_multipart(12 * MIB, 5 * MIB, None, &Some(WriteMode::Overwrite)));
}

#[test]
fn write_mode_parses_ignoring_case() {
    assert_eq!(parse_write_mode("create"), Ok(WriteMode::Create));
    assert_eq!(parse_write_mode("Overwrite"), Ok(WriteMode::Overwrite));
    assert_eq!(parse_write_mode("CREATE"), Ok(WriteMode::Create));
    assert_eq!(parse_write_mode("update"), Err(ErrorKind::InvalidInput));
}
