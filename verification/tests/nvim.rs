use sg_agent::nvim::{as_md, notify_payload, str_eq, worker_event, NvimResponse, WorkerEvent};
use sg_agent::window_manager::WindowKind;

#[test]
fn as_md_fences_lines() {
    let content = vec!["fn main() {".to_string(), "}".to_string()];
    assert_eq!(as_md(&content, "rust"), "```rust\nfn main() {\n}\n```\n");
    assert_eq!(as_md(&vec![], ""), "```\n```\n");
}

#[test]
fn content_as_md_uses_filetype() {
    let r = NvimResponse {
        version: 1,
        filename: "a.lua".to_string(),
        filetype: "lua".to_string(),
        start: 1,
        stop: 2,
        content: vec!["print(1)".to_string()],
    };
    assert_eq!(r.content_as_md(), "```lua\nprint(1)\n```\n");
}

#[test]
fn worker_maps_notifications() {
    assert_eq!(worker_event("test"), WorkerEvent::Todo);
    assert_eq!(worker_event("ai"), WorkerEvent::OpenWindowRequested(WindowKind::Agent));
    assert_eq!(worker_event("init"), WorkerEvent::Noop);
    assert_eq!(worker_event("aii"), WorkerEvent::Noop);
    assert_eq!(notify_payload("init"), "init");
    assert_eq!(notify_payload("whatever"), "whatever");
    assert!(str_eq("é", "é"));
    assert!(!str_eq("a", "ab"));
}
