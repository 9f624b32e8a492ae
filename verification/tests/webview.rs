use appfront::webview::{
    bundle_file, ipc_rate, ipc_size_ok, mime_for, screen_ipc_action, screen_ipc_message, throttle,
    IpcVerdict, WebviewOptions, MAX_IPC_MESSAGE_BYTES,
};

fn allowed() -> Vec<String> {
    vec!["increment".to_string()]
}

#[test]
fn actions_outside_the_allowlist_are_refused() {
    assert_eq!(
        screen_ipc_action(Some(Some("reset_everything".to_string())), &allowed()),
        IpcVerdict::NotAllowed("reset_everything".to_string())
    );
    assert_eq!(
        screen_ipc_action(Some(Some("increment".to_string())), &allowed()),
        IpcVerdict::Allowed("increment".to_string())
    );
    assert_eq!(screen_ipc_action(None, &allowed()), IpcVerdict::Malformed);
    assert_eq!(screen_ipc_action(Some(None), &allowed()), IpcVerdict::NoAction);
}

#[test]
fn oversized_messages_are_not_parsed() {
    assert_eq!(MAX_IPC_MESSAGE_BYTES, 16 * 1024);
    assert!(ipc_size_ok(16 * 1024));
    assert!(!ipc_size_ok(16 * 1024 + 1));
    assert!(!ipc_size_ok(20 * 1024));
}

#[test]
fn zero_rate_falls_back_to_one() {
    assert_eq!(ipc_rate(0), 1);
    assert_eq!(ipc_rate(3), 3);
}

#[test]
fn content_types_by_extension() {
    assert_eq!(mime_for("index.html"), "text/html");
    assert_eq!(mime_for("INDEX.HTM"), "text/html");
    assert_eq!(mime_for("app.mjs"), "text/javascript");
    assert_eq!(mime_for("app_bg.wasm"), "application/wasm");
    assert_eq!(mime_for("photo.JPEG"), "image/jpeg");
    assert_eq!(mime_for("archive.tar.gz"), "application/octet-stream");
    assert_eq!(mime_for(".css"), "application/octet-stream");
    assert_eq!(mime_for("Makefile"), "application/octet-stream");
    assert_eq!(mime_for("favicon.ico"), "image/x-icon");
}

#[test]
fn options_hold_what_they_are_given() {
    let opts = WebviewOptions {
        title: "Counter".to_string(),
        width: 800,
        height: 600,
        dist_dir: std::path::PathBuf::from("dist"),
        allowed_actions: allowed(),
        max_commands_per_second: 10,
    };
    assert_eq!(opts.dist_dir, std::path::PathBuf::from("dist"));
    assert_eq!(opts.allowed_actions, allowed());
}

#[test]
fn bundle_paths_cannot_leave_the_bundle() {
    assert_eq!(bundle_file("/"), Some("index.html".to_string()));
    assert_eq!(bundle_file(""), Some("index.html".to_string()));
    assert_eq!(bundle_file("//app.js"), Some("app.js".to_string()));
    assert_eq!(bundle_file("/assets/logo.svg"), Some("assets/logo.svg".to_string()));
    assert_eq!(bundle_file("/../../etc/passwd"), None);
    assert_eq!(bundle_file("/assets/..hidden"), None);
    assert_eq!(bundle_file("/a/.."), None);
    assert_eq!(bundle_file("/a/.b/c.js"), Some("a/.b/c.js".to_string()));
}

#[test]
fn raw_messages_are_parsed_and_screened() {
    assert_eq!(
        screen_ipc_message(r#"{"action":"increment","params":{"by":2}}"#, &allowed()),
        IpcVerdict::Allowed("increment".to_string())
    );
    assert_eq!(
        screen_ipc_message(r#"{"action":"reset_everything"}"#, &allowed()),
        IpcVerdict::NotAllowed("reset_everything".to_string())
    );
    assert_eq!(screen_ipc_message("not json", &allowed()), IpcVerdict::Malformed);
    assert_eq!(screen_ipc_message(r#"{"params":{}}"#, &allowed()), IpcVerdict::NoAction);
    assert_eq!(screen_ipc_message(r#"{"action":7}"#, &allowed()), IpcVerdict::NoAction);
    assert_eq!(screen_ipc_message(r#"["increment"]"#, &allowed()), IpcVerdict::NoAction);
}

#[test]
fn rate_limit_applies_only_to_allowed_actions() {
    let allowed_verdict = IpcVerdict::Allowed("increment".to_string());
    assert_eq!(throttle(allowed_verdict.clone(), true), allowed_verdict);
    assert_eq!(throttle(allowed_verdict, false), IpcVerdict::Throttled("increment".to_string()));
    assert_eq!(
        throttle(IpcVerdict::NotAllowed("x".to_string()), false),
        IpcVerdict::NotAllowed("x".to_string())
    );
    assert_eq!(throttle(IpcVerdict::Malformed, false), IpcVerdict::Malformed);
}
