use memos_app::commands::ping_message;
use memos_app::shutdown::ShutdownFlags;

#[test]
fn cleanup_is_handed_out_once() {
    let mut f = ShutdownFlags::new();
    assert!(!f.shutdown);
    assert!(f.begin_shutdown());
    assert!(!f.begin_shutdown());
    assert!(!f.mark_shutdown());
    assert!(f.mark_shutdown());
    assert!(!f.begin_shutdown());
}

#[test]
fn health_check_messages() {
    assert_eq!(ping_message(Ok(3)), "Store 就绪，当前 memo 数: 3");
    assert_eq!(ping_message(Ok(-1)), "Store 就绪，当前 memo 数: -1");
    assert_eq!(ping_message(Err("locked".to_string())), "Store 错误: locked");
}

#[test]
fn cleanup_handed_out_once_among_many_calls() {
    let mut f = ShutdownFlags::new();
    let mut handed = Vec::new();
    for i in 0..20 {
        if i % 3 == 0 {
            f.mark_shutdown();
        }
        handed.push(f.begin_shutdown());
    }
    assert_eq!(handed.iter().filter(|b| **b).count(), 1);
    assert!(handed[0]);
    assert!(f.cleanup_started && f.shutdown);
}
