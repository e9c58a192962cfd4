use memos_app::clock::{
    epoch_nanos_or_zero, epoch_secs_or_zero, epoch_timestamp, now_epoch_nanos, now_epoch_secs, now_timestamp,
};
use memos_app::error::CoreError;
use memos_app::lan::profile_name_from_field;
use memos_app::mcp::format_ts_or_raw;
use memos_app::officecli_watch::backslash_separators;
use memos_app::skill::{json_text_or_error, list_or_default};
use memos_app::workspace::workspace_id_from_uuid;

#[test]
fn time_text_or_number() {
    assert_eq!(format_ts_or_raw(5, Some("x".to_string())), "x");
    assert_eq!(format_ts_or_raw(-42, None), "-42");
}

#[test]
fn read_lists_or_nothing() {
    assert_eq!(list_or_default(Some(vec!["a".to_string()])), vec!["a".to_string()]);
    assert!(list_or_default(None).is_empty());
}

#[test]
fn write_errors_get_their_prefix() {
    assert_eq!(json_text_or_error(Ok("[]".to_string()), "p: ").unwrap(), "[]");
    match json_text_or_error(Err("bad".to_string()), "序列化 tools 失败: ") {
        Err(CoreError::Other(m)) => assert_eq!(m, "序列化 tools 失败: bad"),
        _ => panic!("expected error"),
    }
}

#[test]
fn profile_field_is_trimmed() {
    assert_eq!(profile_name_from_field(Some("  Ann ".to_string())), Some("Ann".to_string()));
    assert_eq!(profile_name_from_field(Some(" \t".to_string())), None);
    assert_eq!(profile_name_from_field(None), None);
}

#[test]
fn separators_and_ids() {
    assert_eq!(backslash_separators("c:/a/b"), "c:\\a\\b");
    assert_eq!(workspace_id_from_uuid("u"), "ws-u");
}

#[test]
fn clock_readings() {
    assert_eq!(epoch_secs_or_zero(Ok((12, 5))), 12);
    assert_eq!(epoch_secs_or_zero(Err((3, 0))), 0);
    assert_eq!(epoch_secs_or_zero(Ok((u64::MAX, 0))), -1);
    assert_eq!(epoch_nanos_or_zero(Ok((2, 7))), 2_000_000_007);
    assert_eq!(epoch_nanos_or_zero(Err((2, 7))), 0);
    assert_eq!(epoch_timestamp(Ok((12, 5))), 12);
    assert_eq!(epoch_timestamp(Err((3, 0))), -3);
    assert_eq!(epoch_timestamp(Err((3, 500))), -4);
    assert_eq!(epoch_timestamp(Err((0, 1))), -1);
    assert!(now_epoch_secs() > 1_600_000_000);
    assert!(now_timestamp() > 1_600_000_000);
    assert!(now_epoch_nanos() > 1_600_000_000_000_000_000);
}
