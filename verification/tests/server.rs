use appfront::server::nonce_from;
use appfront::html::render;
use appfront::server::{
    check_command, csp_for, hydration_page, inject_pwa, legacy_shell, replace_all, wasm_shell_template,
    CommandResponse, CommandVerdict, CorsPolicy, RateLimitConfig,
};
use appfront::ui_tree::{NodeKind, UITree};

type Msg = ();

fn hello() -> UITree<Msg> {
    let heading = UITree::leaf(NodeKind::Heading { level: 1, text: "Hello".to_string() });
    UITree::leaf(NodeKind::Container { children: vec![heading] })
}

#[test]
fn legacy_shell_escapes_title_and_description() {
    let html = legacy_shell(
        &wasm_shell_template(),
        "</title><script>alert(1)</script>",
        "<img src=x onerror=alert(1)>",
        "/pkg/app.js",
        "abc",
    );
    assert!(!html.contains("<script>alert(1)</script>"));
    assert!(!html.contains("<img src=x onerror=alert(1)>"));
    assert!(html.contains("<script type=\"module\" nonce=\"abc\">"));
    assert!(html.contains("import init from '/pkg/app.js';"));
    assert!(!html.contains("{TITLE}") && !html.contains("{DESC}") && !html.contains("{WASM}"));
}

#[test]
fn hydration_page_escapes_title_description_and_state() {
    let mut ui = hello();
    ui.assign_ids();
    let body = render(&ui);
    let state_json = "{\"signals\":{\"evil\":\"</script><script>alert(1)</script>\"}}";
    let html = hydration_page(
        "</title><script>alert(2)</script>",
        "<img src=x onerror=alert(2)>",
        &body,
        state_json,
        "/pkg/app.js",
        "n0",
    );
    assert!(!html.contains("<script>alert(1)</script>"));
    assert!(!html.contains("<script>alert(2)</script>"));
    assert!(!html.contains("<img src=x onerror=alert(2)>"));
    assert!(!html.contains("</script><script>alert(1)</script>"));
    assert!(html.contains("<div data-appfront-id=\"1\"><h1 data-appfront-id=\"2\">Hello</h1></div>"), "{html}");
    assert!(html.contains("<script type=\"module\" nonce=\"n0\">"));
}

#[test]
fn csp_binds_the_nonce() {
    assert_eq!(
        csp_for("n1"),
        "script-src 'self' 'nonce-n1' 'wasm-unsafe-eval'; object-src 'none'; base-uri 'self'"
    );
}

#[test]
fn replace_all_is_left_to_right_and_non_overlapping() {
    assert_eq!(replace_all("aaa", "aa", "b"), "ba");
    assert_eq!(replace_all("x{T}y{T}", "{T}", "1"), "x1y1");
    assert_eq!(replace_all("none here", "{T}", "1"), "none here");
}

#[test]
fn replace_all_with_empty_pattern_matches_str_replace() {
    assert_eq!(replace_all("abc", "", "-"), "abc".replace("", "-"));
    assert_eq!(replace_all("abc", "", "-"), "-a-b-c-");
    assert_eq!(replace_all("", "", "x"), "x");
}

#[test]
fn command_rejects_empty_action() {
    let v = check_command("   ", &None, true);
    assert_eq!(
        v,
        CommandVerdict::Reject {
            status: 400,
            response: CommandResponse::err("`action` must not be empty"),
        }
    );
}

#[test]
fn command_rejects_action_outside_allowlist() {
    let allow = Some(vec!["increment".to_string()]);
    match check_command("drop_tables", &allow, true) {
        CommandVerdict::Reject { status, response } => {
            assert_eq!(status, 403);
            assert!(!response.ok);
            assert_eq!(response.message, "action `drop_tables` is not in the configured allowlist");
        }
        other => panic!("unexpected {other:?}"),
    }
    assert_eq!(check_command("increment", &allow, true), CommandVerdict::Run);
}

#[test]
fn command_without_handler_returns_501() {
    match check_command("increment", &None, false) {
        CommandVerdict::Reject { status, .. } => assert_eq!(status, 501),
        other => panic!("unexpected {other:?}"),
    }
}

#[test]
fn defaults_are_throttled_and_permissive() {
    let r = RateLimitConfig::default();
    assert_eq!((r.per_second, r.burst), (5, 10));
    assert_eq!(CorsPolicy::default(), CorsPolicy::Permissive);
    let ok = CommandResponse::ok("done");
    assert!(ok.ok);
    assert_eq!(ok.message, "done");
}

#[test]
fn nonces_are_two_zero_padded_hex_fields() {
    assert_eq!(nonce_from(0x1f, 2), "000000000000001f0000000000000002");
    assert_eq!(nonce_from(0, 0), "00000000000000000000000000000000");
    let long = nonce_from(u128::MAX, u64::MAX);
    assert_eq!(long, format!("{:016x}{:016x}", u128::MAX, u64::MAX));
    assert_eq!(long.len(), 32 + 16);
}

#[test]
fn pwa_glue_goes_before_head_and_last_body_end() {
    let page = "<html><head><title>t</title></head><body>x</body><!-- </body> --></html>";
    let link = r#"<link rel="manifest" href="/app.webmanifest">"#;
    let script = "<script>sw()</script>";
    assert_eq!(
        inject_pwa(page, true, link, script),
        "<html><head><title>t</title>\n    <link rel=\"manifest\" href=\"/app.webmanifest\"></head><body>x</body><!-- \n    <script>sw()</script></body> --></html>"
    );
    assert_eq!(inject_pwa(page, false, link, script), page);
}

#[test]
fn pwa_glue_skips_missing_tags() {
    assert_eq!(inject_pwa("<p>no tags</p>", true, "L", "S"), "<p>no tags</p>");
    assert_eq!(inject_pwa("</head>", true, "L", "S"), "\n    L</head>");
    assert_eq!(inject_pwa("a</body>", true, "L", "S"), "a\n    S</body>");
}

#[test]
fn pwa_glue_on_a_real_shell() {
    let shell = legacy_shell(&wasm_shell_template(), "T", "D", "/pkg/app.js", "n1");
    let page = inject_pwa(&shell, true, "<link rel=\"manifest\">", "<script nonce=\"n1\">reg()</script>");
    assert!(page.contains("\n    <link rel=\"manifest\"></head>"), "{page}");
    assert!(page.contains("\n    <script nonce=\"n1\">reg()</script></body>"), "{page}");
}
