use obstore::attributes::{attribute_name, parse_attribute, Attribute};
use obstore::buffered::{seek_target, LineAggregator, SeekTarget};
use obstore::error::{map_backend_error, BackendErrorKind, ErrorKind};
use obstore::get::{check_preconditions, GetOptions};

fn options() -> GetOptions {
    GetOptions::plain()
}

#[test]
fn if_none_match_equal_to_current_tag_is_not_modified() {
    let mut opts = options();
    opts.if_none_match = Some("etag-123".to_string());
    let etag = "etag-123".to_string();
    assert_eq!(check_preconditions(&opts, Some(&etag), 1_000), Err(ErrorKind::NotModified));
}

#[test]
fn if_none_match_with_other_tag_succeeds() {
    let mut opts = options();
    opts.if_none_match = Some("etag-123".to_string());
    let etag = "etag-456".to_string();
    assert_eq!(check_preconditions(&opts, Some(&etag), 1_000), Ok(()));
}

#[test]
fn if_match_mismatch_is_precondition_failed() {
    let mut opts = options();
    opts.if_match = Some("expected".to_string());
    let etag = "actual".to_string();
    assert_eq!(
        check_preconditions(&opts, Some(&etag), 1_000),
        Err(ErrorKind::PreconditionFailed)
    );
    assert_eq!(check_preconditions(&opts, None, 1_000), Err(ErrorKind::PreconditionFailed));
}

#[test]
fn if_match_wildcard_accepts_any_tag() {
    let mut opts = options();
    opts.if_match = Some("*".to_string());
    let etag = "anything".to_string();
    assert_eq!(check_preconditions(&opts, Some(&etag), 1_000), Ok(()));
}

#[test]
fn time_conditions() {
    let mut opts = options();
    opts.if_unmodified_since = Some(500);
    assert_eq!(check_preconditions(&opts, None, 1_000), Err(ErrorKind::PreconditionFailed));
    assert_eq!(check_preconditions(&opts, None, 400), Ok(()));

    let mut opts = options();
    opts.if_modified_since = Some(1_500);
    assert_eq!(check_preconditions(&opts, None, 1_000), Err(ErrorKind::NotModified));
    assert_eq!(check_preconditions(&opts, None, 2_000), Ok(()));
}

#[test]
fn unconditioned_request_succeeds() {
    assert_eq!(check_preconditions(&options(), None, 0), Ok(()));
}

#[test]
fn attribute_names_parse_ignoring_case_and_hyphens() {
    assert_eq!(parse_attribute("Content-Type"), Attribute::ContentType);
    assert_eq!(parse_attribute("contenttype"), Attribute::ContentType);
    assert_eq!(parse_attribute("CACHE-CONTROL"), Attribute::CacheControl);
    assert_eq!(parse_attribute("Content-Disposition"), Attribute::ContentDisposition);
    assert_eq!(parse_attribute("Content-Encoding"), Attribute::ContentEncoding);
    assert_eq!(parse_attribute("Content-Language"), Attribute::ContentLanguage);
    assert_eq!(parse_attribute("X-Custom"), Attribute::Metadata("x-custom".to_string()));
}

#[test]
fn attribute_names_render_canonically() {
    assert_eq!(attribute_name(&Attribute::ContentType), "Content-Type");
    assert_eq!(attribute_name(&Attribute::CacheControl), "Cache-Control");
    assert_eq!(attribute_name(&Attribute::Metadata("x-custom".to_string())), "x-custom");
}

#[test]
fn seek_targets() {
    assert_eq!(seek_target(10, 0), Ok(SeekTarget::FromStart(10)));
    assert_eq!(seek_target(-5, 1), Ok(SeekTarget::FromCurrent(-5)));
    assert_eq!(seek_target(-1, 2), Ok(SeekTarget::FromEnd(-1)));
    assert_eq!(seek_target(0, 3), Err(ErrorKind::Io));
}

#[test]
fn line_aggregation_with_hint() {
    let mut agg = LineAggregator::new(10);
    assert!(agg.want_more());
    assert!(!agg.note_line(6));
    assert!(agg.want_more());
    assert!(!agg.note_line(6));
    // At least the hinted byte count has been read: stop asking.
    assert!(!agg.want_more());
}

#[test]
fn line_aggregation_without_hint_reads_to_the_end() {
    let mut agg = LineAggregator::new(-1);
    assert!(agg.want_more());
    assert!(!agg.note_line(100));
    assert!(agg.want_more());
    // An empty read signals the end of the source.
    assert!(agg.note_line(0));
}

#[test]
fn backend_errors_keep_their_category() {
    assert_eq!(map_backend_error(BackendErrorKind::NotFound), ErrorKind::NotFound);
    assert_eq!(
        map_backend_error(BackendErrorKind::Precondition),
        ErrorKind::PreconditionFailed
    );
    assert_eq!(map_backend_error(BackendErrorKind::NotModified), ErrorKind::NotModified);
    assert_eq!(map_backend_error(BackendErrorKind::AlreadyExists), ErrorKind::AlreadyExists);
    assert_eq!(
        map_backend_error(BackendErrorKind::UnknownConfigurationKey),
        ErrorKind::UnknownConfigurationKey
    );
    assert_eq!(map_backend_error(BackendErrorKind::Generic), ErrorKind::Generic);
}
