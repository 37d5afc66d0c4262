use shard_vault::range::{apply_range, evaluate_range, ContentRange, HttpStatus, RangeDecision};

fn kilo_asset() -> Vec<u8> {
    (0u32..1000).map(|i| (i % 256) as u8).collect()
}

#[test]
fn first_hundred_bytes() {
    let data = kilo_asset();
    let r = apply_range(data.clone(), "video/mp4".to_string(), Some("bytes=0-99"));
    assert_eq!(r.status, HttpStatus::PartialContent);
    assert_eq!(r.status.code(), 206);
    assert_eq!(r.body.len(), 100);
    assert_eq!(r.body, &data[0..100]);
    assert_eq!(
        r.content_range,
        Some(ContentRange::Span { start: 0, end: 99, total: 1000 })
    );
    assert_eq!(r.content_length, Some(100));
    assert_eq!(r.mime_type.as_deref(), Some("video/mp4"));
    assert!(r.accept_ranges);
}

#[test]
fn open_ended_tail() {
    let data = kilo_asset();
    let r = apply_range(data.clone(), "video/mp4".to_string(), Some("bytes=900-"));
    assert_eq!(r.status, HttpStatus::PartialContent);
    assert_eq!(r.body.len(), 100);
    assert_eq!(r.body, &data[900..1000]);
    assert_eq!(
        r.content_range,
        Some(ContentRange::Span { start: 900, end: 999, total: 1000 })
    );
    assert_eq!(r.content_length, Some(100));
}

#[test]
fn out_of_bounds_range_is_unsatisfiable() {
    let data = kilo_asset();
    let r = apply_range(data, "video/mp4".to_string(), Some("bytes=2000-3000"));
    assert_eq!(r.status, HttpStatus::RangeNotSatisfiable);
    assert_eq!(r.status.code(), 416);
    assert!(r.body.is_empty());
    assert_eq!(r.content_range, Some(ContentRange::Unbound { total: 1000 }));
    assert_eq!(r.content_length, None);
    assert_eq!(r.mime_type, None);
    assert!(!r.accept_ranges);
}

#[test]
fn no_header_returns_everything() {
    let data = kilo_asset();
    let r = apply_range(data.clone(), "image/png".to_string(), None);
    assert_eq!(r.status, HttpStatus::Okay);
    assert_eq!(r.status.code(), 200);
    assert_eq!(r.body, data);
    assert_eq!(r.content_range, None);
    assert_eq!(r.mime_type.as_deref(), Some("image/png"));
    assert!(r.accept_ranges);
}

#[test]
fn foreign_header_returns_everything() {
    let data = kilo_asset();
    let r = apply_range(data.clone(), "image/png".to_string(), Some("items=0-99"));
    assert_eq!(r.status, HttpStatus::Okay);
    assert_eq!(r.body, data);
}

#[test]
fn end_clamped_to_last_byte() {
    let data = kilo_asset();
    let r = apply_range(data, "audio/ogg".to_string(), Some("bytes=990-5000"));
    assert_eq!(r.status, HttpStatus::PartialContent);
    assert_eq!(r.body.len(), 10);
    assert_eq!(
        r.content_range,
        Some(ContentRange::Span { start: 990, end: 999, total: 1000 })
    );
}

#[test]
fn inverted_range_is_unsatisfiable() {
    assert_eq!(
        evaluate_range(Some("bytes=5-2"), 1000),
        RangeDecision::Unsatisfiable
    );
}

#[test]
fn unparsable_start_defaults_to_zero() {
    assert_eq!(
        evaluate_range(Some("bytes=abc-99"), 1000),
        RangeDecision::Partial { start: 0, end: 99 }
    );
}

#[test]
fn unparsable_end_defaults_to_last_byte() {
    assert_eq!(
        evaluate_range(Some("bytes=10-xyz"), 1000),
        RangeDecision::Partial { start: 10, end: 999 }
    );
    assert_eq!(
        evaluate_range(Some("bytes=10-"), 1000),
        RangeDecision::Partial { start: 10, end: 999 }
    );
}

#[test]
fn single_byte_range() {
    assert_eq!(
        evaluate_range(Some("bytes=0-0"), 1000),
        RangeDecision::Partial { start: 0, end: 0 }
    );
}

#[test]
fn range_on_empty_asset_is_unsatisfiable() {
    assert_eq!(
        evaluate_range(Some("bytes=0-10"), 0),
        RangeDecision::Unsatisfiable
    );
    assert_eq!(evaluate_range(None, 0), RangeDecision::Full);
}

#[test]
fn oversized_numeral_is_treated_as_unparsable() {
    // A start bound too large for u64 falls back to zero.
    assert_eq!(
        evaluate_range(Some("bytes=99999999999999999999-99"), 1000),
        RangeDecision::Partial { start: 0, end: 99 }
    );
}

#[test]
fn extra_dash_fields_are_ignored() {
    // Only the first two dash-separated fields count.
    assert_eq!(
        evaluate_range(Some("bytes=1-2-3"), 1000),
        RangeDecision::Partial { start: 1, end: 2 }
    );
    assert_eq!(
        evaluate_range(Some("bytes=5--7"), 1000),
        RangeDecision::Partial { start: 5, end: 999 }
    );
}
