use memos_app::officecli_watch::{
    normalize_path, normalize_windows_path, plan_after_probe, plan_starts_watch, plan_watch, plan_watch_windows,
    preview_url, same_document, same_document_windows, ChildStatus, WatchPlan,
};

fn b(s: &str) -> Vec<u8> {
    s.as_bytes().to_vec()
}

#[test]
fn test_normalize_path_windows() {
    let a = normalize_windows_path("C:/Users/Test/File.PPTX");
    let b = normalize_windows_path("c:\\users\\test\\file.pptx");
    assert_eq!(a, b);
}

#[test]
fn paths_compare_by_components_here() {
    assert_eq!(normalize_path(&b("/a/B.docx")), b("/a/B.docx"));
    assert!(same_document(&b("/a/b.docx"), &b("/a/b.docx")));
    assert!(!same_document(&b("/a/b.docx"), &b("/a/B.docx")));
    assert!(same_document(&b("/tmp/a.pptx"), &b("/tmp//a.pptx")));
    assert!(same_document(&b("/tmp/./a.pptx"), &b("/tmp/a.pptx/")));
    assert!(!same_document(&b("./a.pptx"), &b("a.pptx")));
    assert!(!same_document(&b("/a.pptx"), &b("a.pptx")));
    assert!(!same_document(&b("/tmp/../a.pptx"), &b("/a.pptx")));
    assert!(same_document(&b("./x/a"), &b(".//x/./a")));
    let odd_a = vec![b'/', 0xff, b'a'];
    let odd_b = vec![b'/', 0xfe, b'a'];
    assert!(!same_document(&odd_a, &odd_b));
    assert_eq!(normalize_windows_path("D:/Ä/x"), "d:\\ä\\x");
}

#[test]
fn windows_paths_compare_folded() {
    assert!(same_document_windows("C:/Users/Test/File.PPTX", "c:\\users\\test\\\\file.pptx"));
    assert!(same_document_windows("C:\\a\\.\\b.docx", "c:/a/b.docx"));
    assert!(!same_document_windows("C:\\a\\b.docx", "C:\\a\\c.docx"));
    assert_eq!(plan_watch_windows(Some("C:/A.pptx"), "c:\\a.pptx"), WatchPlan::Probe);
    assert_eq!(plan_watch_windows(Some("C:/A.pptx"), "c:\\b.pptx"), WatchPlan::Switch);
    assert_eq!(plan_watch_windows(None, "c:\\b.pptx"), WatchPlan::Start);
}

#[test]
fn watch_decisions() {
    assert_eq!(plan_watch(None, &b("/a.pptx")), WatchPlan::Start);
    assert_eq!(plan_watch(Some(&b("/a.pptx")), &b("/a.pptx")), WatchPlan::Probe);
    assert_eq!(plan_watch(Some(&b("/tmp/a.pptx")), &b("/tmp//a.pptx")), WatchPlan::Probe);
    assert_eq!(plan_watch(Some(&b("/a.pptx")), &b("/b.pptx")), WatchPlan::Switch);
    assert_eq!(plan_after_probe(ChildStatus::Running), WatchPlan::Keep);
    assert_eq!(plan_after_probe(ChildStatus::Exited), WatchPlan::Start);
    assert_eq!(plan_after_probe(ChildStatus::Unknown), WatchPlan::Start);
    assert!(!plan_starts_watch(WatchPlan::Keep));
    assert!(plan_starts_watch(WatchPlan::Start));
    assert!(plan_starts_watch(WatchPlan::Switch));
}

#[test]
fn preview_address() {
    assert_eq!(preview_url(), "http://localhost:26315/");
}
