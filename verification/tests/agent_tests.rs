use memos_app::agent_loop::{is_any_running, start, AgentRuns};
use memos_app::pending_confirmations::{ConfirmRequest, PendingConfirmations};
use memos_app::tool::Permission;

#[test]
fn runs_are_counted() {
    let mut runs = AgentRuns::new();
    assert!(!is_any_running(&runs));
    let g1 = start(&mut runs);
    let g2 = start(&mut runs);
    assert!(is_any_running(&runs));
    runs.finish(g1);
    assert!(is_any_running(&runs));
    runs.finish(g2);
    assert!(!is_any_running(&runs));
}

#[test]
fn confirmations_are_answered_once() {
    let mut p: PendingConfirmations<&str> = PendingConfirmations::new();
    let a = p.register("first");
    let b = p.register("second");
    assert_eq!(a, 1);
    assert_eq!(b, 2);
    assert_eq!(p.respond(a), Some("first"));
    assert_eq!(p.respond(a), None);
    let mut rest = p.cancel_all();
    rest.sort();
    assert_eq!(rest, vec!["second"]);
    assert_eq!(p.respond(b), None);
    assert!(p.cancel_all().is_empty());
}

#[test]
fn confirm_request_names_the_level() {
    let r = ConfirmRequest::new(3, "rm_tool".to_string(), "rm -rf x".to_string(), Permission::Dangerous);
    assert_eq!(r.call_id, 3);
    assert_eq!(r.permission, "dangerous");
    assert_eq!(r.tool_name, "rm_tool");
    assert_eq!(r.command, "rm -rf x");
}
