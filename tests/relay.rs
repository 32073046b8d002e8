use sms_forward::auth::{
    authorize_device, authorize_update, check_token, classify_body, extract_credential,
    fill_config, AuthorizedRequest, Credential, Method,
};
use sms_forward::command::{
    command_mail, dispatch, info_step, is_trusted, mail_message_id, parse_id_list,
    placeholder_text, version_reply, Chat, Dispatch, InfoStep, Message, MessageResponse,
    PendingCommand, Update, User,
};
use sms_forward::format::{
    highlight_code, mark_code, render_unknown, AppleMessageFilterQuery, StatusReport,
};
use sms_forward::liveness::{
    down_notification, record_ttl_seconds, refresh, sweep_alert, up_notification,
    HeartbeatStatus, HEARTBEAT_INTERVAL_SECONDS,
};
use sms_forward::text::{
    escape_html, i64_to_text, next_word, parse_i64, replace_all, split_at_first, split_commas,
    strip_prefix_repeats, text_after_last, trim, trim_char,
};

fn update(chat: i64, user: Option<i64>, text: &str) -> Update {
    Update {
        message: Message {
            message_id: 1,
            from: user.map(|id| User { id }),
            chat: Chat { id: chat },
            text: text.to_string(),
        },
    }
}

fn query(sender: &str, text: &str) -> AppleMessageFilterQuery {
    AppleMessageFilterQuery { sender: sender.to_string(), text: text.to_string() }
}

// ---------------------------------------------------------------- text

#[test]
fn escape_html_escapes_user_text() {
    let r = escape_html("A&B<script>");
    assert_eq!(r, "A&amp;B&lt;script&gt;");
    assert!(!r.contains('<') && !r.contains('>'));
    assert_eq!(escape_html("<a>&amp;"), "&lt;a&gt;&amp;amp;");
    assert_eq!(escape_html(""), "");
    assert_eq!(escape_html("plain"), "plain");
}

#[test]
fn integers_print_in_decimal() {
    assert_eq!(i64_to_text(0), "0");
    assert_eq!(i64_to_text(450), "450");
    assert_eq!(i64_to_text(-17), "-17");
    assert_eq!(i64_to_text(i64::MIN), "-9223372036854775808");
    assert_eq!(i64_to_text(i64::MAX), "9223372036854775807");
}

#[test]
fn integers_parse_like_std() {
    for s in ["0", "123", "-5", "+7", "", "-", "+", "12a", " 1", "9223372036854775807",
        "9223372036854775808", "-9223372036854775808", "-9223372036854775809",
        "00000000000000000000000000042"]
    {
        assert_eq!(parse_i64(s), s.parse::<i64>().ok(), "input {s:?}");
    }
}

#[test]
fn trimming_and_words() {
    assert_eq!(trim("  a b \t\n"), "a b");
    assert_eq!(trim("\u{3000}x\u{a0}"), "x");
    assert_eq!(trim("   "), "");
    assert_eq!(trim_char("//a/b//", '/'), "a/b");
    assert_eq!(trim_char("///", '/'), "");
    let (w, rest) = next_word("  /info  phone ");
    assert_eq!(w, "/info");
    assert_eq!(rest, "  phone ");
    let (w, rest) = next_word(" ");
    assert_eq!(w, "");
    assert_eq!(rest, "");
}

#[test]
fn splitting() {
    assert_eq!(split_commas("a,,b"), vec!["a", "", "b"]);
    assert_eq!(split_commas(""), vec![""]);
    assert_eq!(split_commas("a,"), vec!["a", ""]);
    assert_eq!(
        split_at_first("a/b/c", '/'),
        Some(("a".to_string(), "b/c".to_string()))
    );
    assert_eq!(split_at_first("abc", '/'), None);
    assert_eq!(text_after_last("a@b@c.org", '@'), Some("c.org".to_string()));
    assert_eq!(text_after_last("nobody", '@'), None);
    assert_eq!(strip_prefix_repeats("Bearer Bearer x", "Bearer "), "x");
}

#[test]
fn replacing_placeholders() {
    assert_eq!(replace_all("a{{t}}b{{t}}", "{{t}}", "X"), "aXbX");
    assert_eq!(replace_all("aaa", "aa", "b"), "ba");
    assert_eq!(replace_all("", "x", "y"), "");
    assert_eq!(
        fill_config("url: https://h/{{token}}\nagain: {{token}}", "phone", "s3"),
        "url: https://h/phone/s3\nagain: phone/s3"
    );
}

// ---------------------------------------------------------------- format

#[test]
fn code_is_highlighted() {
    let r = highlight_code("your code is 123456");
    assert!(r.contains("<code>123456</code>"));
    assert_eq!(r, "your code is  👉 <code>123456</code> 👈 ");
}

#[test]
fn no_code_no_highlight() {
    assert_eq!(highlight_code("no numbers here"), "no numbers here");
    assert!(!highlight_code("no numbers here").contains("<code>"));
    assert!(!highlight_code("call 123").contains("<code>"));
    assert!(!highlight_code("id 1234567890").contains("<code>"));
}

#[test]
fn code_with_prefix_and_first_only() {
    assert_eq!(highlight_code("G-123456 ok"), " 👉 <code>G-123456</code> 👈  ok");
    assert_eq!(
        highlight_code("1111 then 2222"),
        " 👉 <code>1111</code> 👈  then 2222"
    );
    assert_eq!(mark_code("a", "1", "b"), "a 👉 <code>1</code> 👈 b");
}

#[test]
fn forward_rendering_escapes_and_highlights() {
    let q = query("A&B<script>", "code <1234>");
    assert_eq!(q.sender(), "A&B<script>");
    assert_eq!(q.text(), "code <1234>");
    assert_eq!(
        q.render("phone"),
        "phone <code>A&amp;B&lt;script&gt;</code>\n\ncode &lt; 👉 <code>1234</code> 👈 &gt;"
    );
}

#[test]
fn status_rendering() {
    let charging = StatusReport { battery: 80, charger: true };
    assert_eq!(charging.render("phone"), "⚡️ phone 80% charging");
    let draining = StatusReport { battery: 5, charger: false };
    assert_eq!(draining.render("phone"), "🔋 phone 5% discharging");
}

#[test]
fn unknown_rendering() {
    assert_eq!(
        render_unknown("phone", "{\"x\":<1>}"),
        "phone\n\n<pre>{\"x\":&lt;1&gt;}</pre>"
    );
}

// ---------------------------------------------------------------- liveness

#[test]
fn liveness_boundaries() {
    let h = HEARTBEAT_INTERVAL_SECONDS;
    let last: i64 = 1_700_000_000_000;
    let rec = last.to_string();
    let at = |secs: i64| HeartbeatStatus::from_record(Some(&rec), last + secs * 1000, h);
    assert_eq!(at(449), HeartbeatStatus::Active);
    assert_eq!(at(450), HeartbeatStatus::Inactive);
    assert_eq!(at(451), HeartbeatStatus::Inactive);
    assert_eq!(at(749), HeartbeatStatus::Inactive);
    assert_eq!(at(750), HeartbeatStatus::Dead);
    assert_eq!(at(751), HeartbeatStatus::Dead);
    assert_eq!(HeartbeatStatus::from_record(None, last, h), HeartbeatStatus::Dead);
    assert_eq!(HeartbeatStatus::from_record(Some("junk"), last, h), HeartbeatStatus::Dead);
    assert_eq!(HeartbeatStatus::from_elapsed(-5, h), HeartbeatStatus::Active);
}

#[test]
fn refresh_alerts_once() {
    let now: i64 = 1_700_000_000_000;
    let first = refresh("phone", None, now, 300);
    assert_eq!(first.previous, HeartbeatStatus::Dead);
    assert_eq!(first.announcement.as_deref(), Some("🟢 phone is now up"));
    assert_eq!(first.record, now.to_string());
    assert_eq!(first.ttl_seconds, 750);
    let second = refresh("phone", Some(&first.record), now + 1000, 300);
    assert_eq!(second.previous, HeartbeatStatus::Active);
    assert!(second.announcement.is_none());
}

#[test]
fn refresh_after_inactive_alerts() {
    let now: i64 = 2_000_000;
    let rec = (now - 500_000).to_string();
    let r = refresh("tab", Some(&rec), now, 300);
    assert_eq!(r.previous, HeartbeatStatus::Inactive);
    assert_eq!(r.announcement.as_deref(), Some("🟢 tab is now up"));
}

#[test]
fn sweep_repeats_down_alert() {
    let last: i64 = 10_000_000;
    let rec = last.to_string();
    let now = last + 500_000;
    for _ in 0..2 {
        let status = HeartbeatStatus::from_record(Some(&rec), now, 300);
        assert_eq!(status, HeartbeatStatus::Inactive);
        assert_eq!(sweep_alert("phone", status).as_deref(), Some("🔴 phone is DOWN ⚠️"));
    }
    assert!(sweep_alert("phone", HeartbeatStatus::Dead).is_none());
    assert!(sweep_alert("phone", HeartbeatStatus::Active).is_none());
}

#[test]
fn notifications_and_ttl() {
    assert_eq!(up_notification("p"), "🟢 p is now up");
    assert_eq!(down_notification("p"), "🔴 p is DOWN ⚠️");
    assert_eq!(record_ttl_seconds(300), 750);
    assert_eq!(record_ttl_seconds(301), 752);
    assert_eq!(record_ttl_seconds(0), 0);
    assert_eq!(record_ttl_seconds(-4), 0);
}

// ---------------------------------------------------------------- auth

#[test]
fn credential_from_bearer_header() {
    match extract_credential(Method::Post, Some("  Bearer phone/s3cr/et "), "/ignored") {
        Credential::Device { device, token } => {
            assert_eq!(device, "phone");
            assert_eq!(token, "s3cr/et");
        }
        _ => panic!("expected a device credential"),
    }
    assert!(matches!(
        extract_credential(Method::Get, Some("Bearer nodevice"), "/"),
        Credential::Rejected
    ));
}

#[test]
fn credential_from_path() {
    match extract_credential(Method::Get, None, "/phone/secret/") {
        Credential::Device { device, token } => {
            assert_eq!(device, "phone");
            assert_eq!(token, "secret");
        }
        _ => panic!("expected a device credential"),
    }
    assert!(matches!(extract_credential(Method::Post, None, "/"), Credential::BotUpdate));
    assert!(matches!(extract_credential(Method::Get, None, "/"), Credential::Rejected));
    assert!(matches!(extract_credential(Method::Other, None, "/a/b"), Credential::Rejected));
    assert!(matches!(extract_credential(Method::Post, None, "/phone"), Credential::Rejected));
}

#[test]
fn token_must_equal_own_secret() {
    assert!(check_token("s1", Some("s1")));
    assert!(!check_token("s1", Some("s2")));
    assert!(!check_token("s1", Some("s1 ")));
    assert!(!check_token("s1", None));
    assert!(!check_token("", None));
}

#[test]
fn schema_precedence() {
    let r = classify_body(
        "phone".to_string(),
        "{...}".to_string(),
        Some(query("bank", "1234")),
        Some(StatusReport { battery: 1, charger: false }),
    );
    assert!(matches!(r, AuthorizedRequest::Forward { .. }));
    let r = classify_body(
        "phone".to_string(),
        "{}".to_string(),
        None,
        Some(StatusReport { battery: 1, charger: false }),
    );
    assert!(matches!(r, AuthorizedRequest::ReportStatus { .. }));
    let r = classify_body("phone".to_string(), String::new(), Some(query("a", "b")), None);
    assert!(matches!(r, AuthorizedRequest::Heartbeat { .. }));
    match classify_body("phone".to_string(), "hello".to_string(), None, None) {
        AuthorizedRequest::Unknown { device, body } => {
            assert_eq!(device, "phone");
            assert_eq!(body, "hello");
        }
        _ => panic!("expected an unknown body"),
    }
}

#[test]
fn device_authorization() {
    let d = || "phone".to_string();
    let t = || "tok".to_string();
    assert!(authorize_device(Method::Get, d(), t(), Some("other"), None, None, None).is_none());
    assert!(authorize_device(Method::Get, d(), t(), None, None, None, None).is_none());
    assert!(matches!(
        authorize_device(Method::Get, d(), t(), Some("tok"), None, None, None),
        Some(AuthorizedRequest::GetConfig { .. })
    ));
    assert!(authorize_device(Method::Post, d(), t(), Some("tok"), None, None, None).is_none());
    assert!(matches!(
        authorize_device(Method::Post, d(), t(), Some("tok"), Some(String::new()), None, None),
        Some(AuthorizedRequest::Heartbeat { .. })
    ));
    assert!(authorize_device(Method::Other, d(), t(), Some("tok"), None, None, None).is_none());
}

#[test]
fn update_authorization() {
    let u = || Some(update(1, Some(2), "/version"));
    assert!(matches!(
        authorize_update(Some("hook"), "hook", u()),
        Some(AuthorizedRequest::MessageUpdate { .. })
    ));
    assert!(authorize_update(Some("nope"), "hook", u()).is_none());
    assert!(authorize_update(None, "hook", u()).is_none());
    assert!(authorize_update(Some("hook"), "hook", None).is_none());
}

#[test]
fn routing_refresh_and_notification() {
    let fwd = AuthorizedRequest::Forward { device: "p".to_string(), query: query("s", "t") };
    assert_eq!(fwd.liveness_device().as_deref(), Some("p"));
    assert_eq!(fwd.notification().as_deref(), Some("p <code>s</code>\n\nt"));
    let hb = AuthorizedRequest::Heartbeat { device: "p".to_string() };
    assert_eq!(hb.liveness_device().as_deref(), Some("p"));
    assert!(hb.notification().is_none());
    let st = AuthorizedRequest::ReportStatus {
        device: "p".to_string(),
        status: StatusReport { battery: 50, charger: true },
    };
    assert_eq!(st.notification().as_deref(), Some("⚡️ p 50% charging"));
    let un = AuthorizedRequest::Unknown { device: "p".to_string(), body: "<b>".to_string() };
    assert_eq!(un.liveness_device().as_deref(), Some("p"));
    assert_eq!(un.notification().as_deref(), Some("p\n\n<pre>&lt;b&gt;</pre>"));
    let cfg = AuthorizedRequest::GetConfig { device: "p".to_string(), token: "t".to_string() };
    assert!(cfg.liveness_device().is_none());
    assert!(cfg.notification().is_none());
    let up = AuthorizedRequest::MessageUpdate { update: update(1, Some(1), "x") };
    assert!(up.liveness_device().is_none());
    assert!(up.notification().is_none());
}

// ---------------------------------------------------------------- commands

#[test]
fn update_accessors() {
    let u = update(-100, Some(42), "hi");
    assert_eq!(u.chat_id(), -100);
    assert_eq!(u.user_id(), Some(42));
    assert_eq!(u.text(), "hi");
    assert_eq!(update(1, None, "").user_id(), None);
}

#[test]
fn id_lists() {
    assert_eq!(parse_id_list("1, 2,x,-3"), vec![1, -3]);
    assert_eq!(parse_id_list(""), Vec::<i64>::new());
    assert!(is_trusted(&update(5, Some(9), ""), "4,5", ""));
    assert!(is_trusted(&update(5, Some(9), ""), "5", "8,9"));
    assert!(!is_trusted(&update(5, Some(9), ""), "5", "8"));
    assert!(!is_trusted(&update(6, Some(9), ""), "5", ""));
    assert!(!is_trusted(&update(5, None, ""), "5", ""));
}

#[test]
fn dispatching_commands() {
    let run = |text: &str| dispatch(&update(5, Some(9), text), "5", "");
    assert!(matches!(run("/version"), Dispatch::Version));
    assert!(matches!(run("  /version@relay_bot extra"), Dispatch::Version));
    assert!(matches!(run("/versions"), Dispatch::Ignore));
    assert!(matches!(run("/unknown"), Dispatch::Ignore));
    assert!(matches!(run("   "), Dispatch::Ignore));
    match run("/info") {
        Dispatch::Reply(m) => assert_eq!(m, "Argument &lt;device&gt; required"),
        _ => panic!("expected a usage reply"),
    }
    match run("/info@relay_bot   phone  x") {
        Dispatch::Info(d) => assert_eq!(d, "phone"),
        _ => panic!("expected an info command"),
    }
    assert!(matches!(
        dispatch(&update(6, Some(9), "/version"), "5", ""),
        Dispatch::Ignore
    ));
}

#[test]
fn info_missing_device_is_not_found() {
    let device = match dispatch(&update(5, Some(9), "/info missingdevice"), "5", "") {
        Dispatch::Info(d) => d,
        _ => panic!("expected an info command"),
    };
    match info_step(&device, "phone,tablet", true) {
        InfoStep::Reply(m) => assert_eq!(m, "Device not found"),
        InfoStep::SendCommand => panic!("no command may be sent"),
    }
}

#[test]
fn info_steps() {
    match info_step("phone", "phone,tablet", false) {
        InfoStep::Reply(m) => assert_eq!(m, "Device email not configured"),
        InfoStep::SendCommand => panic!("no command may be sent"),
    }
    assert!(matches!(info_step("tablet", "phone,tablet", true), InfoStep::SendCommand));
    assert!(matches!(info_step("phon", "phone", true), InfoStep::Reply(_)));
}

#[test]
fn send_then_edit_keeps_message() {
    assert_eq!(placeholder_text(), "Sending command");
    assert!(PendingCommand::after_placeholder(5, None).is_none());
    let p = PendingCommand::after_placeholder(5, Some(77)).unwrap();
    let ok = p.finish(true);
    assert_eq!((ok.chat_id, ok.message_id, ok.text.as_str()), (5, 77, "Command sent"));
    let bad = p.finish(false);
    assert_eq!((bad.chat_id, bad.message_id, bad.text.as_str()), (5, 77, "failed to send command"));
}

#[test]
fn version_and_response_text() {
    assert_eq!(version_reply("abc", "2024-01-01"), "<code>abc</code> at 2024-01-01");
    let sent = MessageResponse {
        ok: true,
        result: Some(Message { message_id: 12, from: None, chat: Chat { id: -3 }, text: String::new() }),
    };
    assert!(sent.ok());
    assert_eq!(sent.message_id(), 12);
    assert_eq!(sent.chat_id(), -3);
    assert_eq!(sent.describe(), "sent 12 to -3");
    let failed = MessageResponse { ok: false, result: None };
    assert_eq!(failed.describe(), "failed");
}

#[test]
fn command_mail_is_composed() {
    let mail = command_mail("relay@example.org", "phone@example.org", "1.u@example.org", "phone");
    assert_eq!(
        mail,
        "From: \"Remote Command\" <relay@example.org>\r\n\
         To: \"phone\" <phone@example.org>\r\n\
         Message-ID: <1.u@example.org>\r\n\
         Subject: Command to report status, phone\r\n\
         MIME-Version: 1.0\r\n\
         Content-Type: text/plain; charset=\"utf-8\"\r\n\
         \r\n\
         Report status, phone.\r\n"
    );
    assert_eq!(
        mail_message_id(1700, "uuid-1", "relay@example.org").as_deref(),
        Some("1700.uuid-1@example.org")
    );
    assert!(mail_message_id(1700, "uuid-1", "relay").is_none());
}
