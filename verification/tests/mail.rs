use dpl::mail::{
    count_remote_resources, extract_links, inline_cid_images, parse_message, Attachment, Message, UNATTRIBUTED,
};

#[test]
fn counts_resources_not_anchors() {
    // An <a href> is only fetched if clicked, so it isn't a tracking risk.
    assert_eq!(count_remote_resources("<a href=\"https://x.test\">hi</a>"), 0);
    assert_eq!(count_remote_resources("<img src=\"https://x.test/p.gif\">"), 1);
    assert_eq!(count_remote_resources("<img src='http://x.test/p.gif'>"), 1);
    assert_eq!(count_remote_resources("<div style=\"background:url(https://x.test/b.png)\">"), 1);
    // data: and cid: URIs are local and must not be counted.
    assert_eq!(count_remote_resources("<img src=\"data:image/gif;base64,AA\">"), 0);
    assert_eq!(count_remote_resources("<img src=\"cid:logo\">"), 0);
}

#[test]
fn resource_attributes_are_matched_in_any_case() {
    assert_eq!(count_remote_resources("<IMG SRC=\"HTTPS://x.test/p.gif\"><video poster='http://x.test/p.jpg'>"), 2);
    assert_eq!(count_remote_resources("<link href=\"https://x.test/s.css\">"), 0);
}

#[test]
fn extracts_and_dedupes_links_in_document_order() {
    let html = "<a href=\"https://a.test/1\">a</a><a href='https://b.test/2'>b</a>\
                <a href=\"https://a.test/1\">dup</a>";
    assert_eq!(extract_links(Some(html), None), vec!["https://a.test/1", "https://b.test/2"]);
}

#[test]
fn decodes_entities_in_reset_urls() {
    // Laravel's HTML-escaped reset links are the main reason this exists.
    let html = "<a href=\"https://x.test/reset?token=1&amp;email=a%40b.test\">Reset</a>";
    assert_eq!(extract_links(Some(html), None), vec!["https://x.test/reset?token=1&email=a%40b.test"]);
}

#[test]
fn finds_bare_urls_in_plain_text_and_strips_trailing_punctuation() {
    let text = "Go to https://x.test/verify?t=9, then log in.";
    assert_eq!(extract_links(None, Some(text)), vec!["https://x.test/verify?t=9"]);
}

#[test]
fn html_links_win_and_text_adds_only_new_ones() {
    let html = "<a href=\"https://a.test\">a</a>";
    let text = "https://a.test and https://b.test";
    assert_eq!(extract_links(Some(html), Some(text)), vec!["https://a.test", "https://b.test"]);
}

#[test]
fn unquoted_and_non_web_hrefs() {
    let html = "<a HREF=https://u.test/x >u</a><a href=\"mailto:a@b.test\">m</a><a href=\"\">e</a>";
    assert_eq!(extract_links(Some(html), None), vec!["https://u.test/x"]);
    // An unquoted value runs to the next space, even past the tag's end.
    let html = "<a href=https://u.test/y>u</a> <b>";
    assert_eq!(extract_links(Some(html), None), vec!["https://u.test/y>u</a>"]);
    assert!(extract_links(None, None).is_empty());
}

fn attachment(cid: Option<&str>) -> Attachment {
    Attachment {
        index: 0,
        name: "logo.gif".into(),
        mime: "image/gif".into(),
        size: 2,
        inline: true,
        cid: cid.map(String::from),
    }
}

#[test]
fn cid_references_become_data_uris() {
    let html = inline_cid_images("<img src=\"cid:logo123\">", &[(attachment(Some("logo123")), vec![0x47, 0x49])]);
    assert!(html.contains("data:image/gif;base64,R0k"));
    assert!(!html.contains("cid:"));
}

#[test]
fn cid_inlining_encodes_exact_base64_in_either_case() {
    let html = inline_cid_images(
        "<img src=\"CID:x\"><img src=\"cid:x\">",
        &[(attachment(Some("x")), b"Man".to_vec())],
    );
    assert_eq!(html, "<img src=\"data:image/gif;base64,TWFu\"><img src=\"data:image/gif;base64,TWFu\">");
    let html = inline_cid_images("<img src=\"cid:y\">", &[(attachment(Some("y")), b"Ma".to_vec())]);
    assert_eq!(html, "<img src=\"data:image/gif;base64,TWE=\">");
    let html = inline_cid_images("<img src=\"cid:y\">", &[(attachment(None), b"M".to_vec())]);
    assert_eq!(html, "<img src=\"cid:y\">");
}

#[test]
fn unmatched_cid_is_left_alone() {
    let html = inline_cid_images("<img src=\"cid:missing\">", &[]);
    assert_eq!(html, "<img src=\"cid:missing\">");
}

fn parse_str(raw: &str) -> Message {
    parse_message("1-0", raw.as_bytes()).unwrap()
}

#[test]
fn a_plain_text_mail_has_no_html_body() {
    // The parser would happily synthesize HTML from the text part. A plain
    // message must not claim an HTML body.
    let m = parse_str("From: a@b.test\nSubject: Hi\nContent-Type: text/plain\n\nhello\n");
    assert_eq!(m.text.as_deref().map(str::trim), Some("hello"));
    assert!(m.html.is_none());
}

#[test]
fn an_html_only_mail_has_no_text_body() {
    let m = parse_str("From: a@b.test\nSubject: Hi\nContent-Type: text/html\n\n<p>hello</p>\n");
    assert!(m.html.is_some());
    assert!(m.text.is_none());
}

#[test]
fn multipart_alternative_yields_both_and_decodes_quoted_printable() {
    let raw = "From: a@b.test\nSubject: Hi\nMIME-Version: 1.0\n\
               Content-Type: multipart/alternative; boundary=\"b\"\n\n\
               --b\nContent-Type: text/plain; charset=utf-8\n\
               Content-Transfer-Encoding: quoted-printable\n\nCaf=C3=A9 time\n\
               --b\nContent-Type: text/html; charset=utf-8\n\n<p>Caf\u{e9}</p>\n--b--\n";
    let m = parse_str(raw);
    assert!(m.text.as_deref().unwrap().contains("Café"), "{:?}", m.text);
    assert!(m.html.as_deref().unwrap().contains("<p>"));
}

#[test]
fn mailbox_falls_back_to_unattributed() {
    let m = parse_str("From: a@b.test\nSubject: x\n\nhi\n");
    assert_eq!(m.mailbox, UNATTRIBUTED);
    let m = parse_str("X-Dpl-Mailbox: blog\nFrom: a@b.test\nSubject: x\n\nhi\n");
    assert_eq!(m.mailbox, "blog");
}

#[test]
fn parsed_messages_carry_their_envelope_and_links() {
    let raw = "From: Shop <shop@x.test>\nTo: a@b.test, c@d.test\nSubject: Reset\n\
               Content-Type: text/html\n\n<p>Hi</p><a href=\"https://x.test/r?t=1&amp;u=2\">go</a>\
               <img src=\"https://x.test/p.gif\">\n";
    let m = parse_message("42-a", raw.as_bytes()).unwrap();
    assert_eq!(m.id, "42-a");
    assert_eq!(m.size, raw.len() as u64);
    assert_eq!(m.from, "shop@x.test");
    assert_eq!(m.to, "a@b.test, c@d.test");
    assert_eq!(m.cc, "");
    assert_eq!(m.subject, "Reset");
    assert_eq!(m.links, vec!["https://x.test/r?t=1&u=2"]);
    assert_eq!(m.remote_resources, 1);
    assert!(m.headers.iter().any(|(n, v)| n == "Subject" && v == "Reset"));
    assert!(m.attachments.is_empty());
}

#[test]
fn inline_images_are_attachments_and_render_from_data_uris() {
    let raw = "From: a@b.test\nSubject: Logo\nMIME-Version: 1.0\n\
               Content-Type: multipart/related; boundary=\"r\"\n\n\
               --r\nContent-Type: text/html\n\n<img src=\"cid:logo@x\">\n\
               --r\nContent-Type: image/gif\nContent-ID: <logo@x>\n\
               Content-Transfer-Encoding: base64\n\nR0lG\n--r--\n";
    let m = parse_message("7-x", raw.as_bytes()).unwrap();
    assert_eq!(m.attachments.len(), 1);
    let a = &m.attachments[0];
    assert_eq!(a.index, 0);
    assert_eq!(a.mime, "image/gif");
    assert_eq!(a.cid.as_deref(), Some("logo@x"));
    assert!(a.inline);
    assert_eq!(a.size, 3);
    assert_eq!(a.name, "(unnamed)");
    assert!(m.html.as_deref().unwrap().contains("data:image/gif;base64,R0lG"));
    assert_eq!(m.remote_resources, 0);
}

fn message(subject: &str, text: Option<&str>, html: Option<&str>) -> Message {
    Message {
        id: "1".into(),
        mailbox: "blog".into(),
        from: "a@b.test".into(),
        to: "c@d.test".into(),
        cc: String::new(),
        subject: subject.into(),
        date: None,
        size: 0,
        text: text.map(String::from),
        html: html.map(String::from),
        remote_resources: 0,
        links: vec![],
        attachments: vec![],
        headers: vec![],
    }
}

#[test]
fn previews_collapse_whitespace_and_prefer_text() {
    assert_eq!(message("s", Some("  hello\n\n  world  "), Some("<p>x</p>")).preview(), "hello world");
    assert_eq!(message("s", None, Some("<p>Hello <b>there</b></p>")).preview(), "Hello there");
    assert_eq!(message("s", None, None).preview(), "");
    let long = "word ".repeat(40);
    let p = message("s", Some(&long), None).preview();
    assert_eq!(p.chars().count(), 120);
    assert!(p.ends_with('\u{2026}'));
}

#[test]
fn search_reads_fields_and_html_text_not_markup() {
    let m = message("Password RESET", None, Some("<p class=\"hidden\">Welcome aboard</p>"));
    assert!(m.matches("reset"));
    assert!(m.matches("BLOG"));
    assert!(m.matches("welcome"));
    assert!(!m.matches("hidden"));
    assert!(!m.matches("nothing"));
}

use dpl::mail::{
    eml_stem, empty_listing_message, list_heading, list_row, mailbox_counts, mailbox_label, message_ids,
    select_messages, sent_message, smtp_port, stuffed_data, SmtpAction, SmtpSend, SmtpStage,
};

fn sends(a: SmtpAction) -> Vec<String> {
    match a {
        SmtpAction::Send(lines) => lines,
        SmtpAction::Fail(m) => panic!("unexpected failure: {m}"),
    }
}

#[test]
fn the_smtp_conversation_authenticates_the_mailbox_then_delivers() {
    let mut s = SmtpSend::new("dev@app.test", "dpl@localhost", "Hi", Some("blog"), false, Some("line\n.dot\n"));
    assert_eq!(sends(s.on_reply("220 dpld ready\r\n")), vec!["EHLO dpl-cli"]);
    assert!(sends(s.on_reply("250-dpld\r\n")).is_empty());
    assert_eq!(s.stage, SmtpStage::Ehlo);
    assert_eq!(sends(s.on_reply("250 AUTH LOGIN\r\n")), vec!["AUTH LOGIN"]);
    assert_eq!(sends(s.on_reply("334 VXNlcm5hbWU6\r\n")), vec!["YmxvZw=="]);
    assert_eq!(sends(s.on_reply("334 UGFzc3dvcmQ6\r\n")), vec!["ZHBs"]);
    assert_eq!(sends(s.on_reply("235 ok\r\n")), vec!["MAIL FROM:<dpl@localhost>"]);
    assert_eq!(sends(s.on_reply("250 ok\r\n")), vec!["RCPT TO:<dev@app.test>"]);
    assert_eq!(sends(s.on_reply("250 ok\r\n")), vec!["DATA"]);
    let data = sends(s.on_reply("354 go\r\n"));
    assert_eq!(data.last().map(String::as_str), Some("."));
    assert!(data.contains(&"..dot".to_string()));
    assert_eq!(sends(s.on_reply("250 queued\r\n")), vec!["QUIT"]);
    assert_eq!(s.stage, SmtpStage::Done);
}

#[test]
fn an_unattributed_send_skips_auth_and_a_wrong_reply_stops_it() {
    let mut s = SmtpSend::new("a@b.test", "c@d.test", "Hi", None, false, None);
    sends(s.on_reply("220 hi\r\n"));
    assert_eq!(sends(s.on_reply("250 hello\r\n")), vec!["MAIL FROM:<c@d.test>"]);
    match s.on_reply("550 no\r\n") {
        SmtpAction::Fail(m) => assert_eq!(m, "SMTP sink replied `550 no`, expected 250"),
        SmtpAction::Send(_) => panic!("a 550 must stop the conversation"),
    }
    assert_eq!(s.stage, SmtpStage::MailFrom);
    let mut s = SmtpSend::new("a@b.test", "c@d.test", "Hi", None, false, None);
    match s.on_reply("") {
        SmtpAction::Fail(m) => assert_eq!(m, "SMTP sink replied ``, expected 220"),
        SmtpAction::Send(_) => panic!("silence is not a greeting"),
    }
}

#[test]
fn data_lines_are_dot_stuffed_and_terminated() {
    assert_eq!(stuffed_data("a\n.\n..b\n"), vec!["a", "..", "...b", "."]);
    assert_eq!(stuffed_data(""), vec!["."]);
}

#[test]
fn the_smtp_port_comes_from_the_environment() {
    assert_eq!(smtp_port(None), 1025);
    assert_eq!(smtp_port(Some("2525")), 2525);
    assert_eq!(smtp_port(Some("+26")), 26);
    assert_eq!(smtp_port(Some("70000")), 1025);
    assert_eq!(smtp_port(Some("x")), 1025);
    assert_eq!(
        sent_message("Hi", "a@b.test", Some("blog")),
        "Sent `Hi` \u{2192} a@b.test (mailbox `blog`).\nRun `dpl mail list` to see it."
    );
}

#[test]
fn the_mail_folder_lists_eml_files_newest_first() {
    assert_eq!(eml_stem("1700-1.eml").as_deref(), Some("1700-1"));
    assert_eq!(eml_stem(".eml"), None);
    assert_eq!(eml_stem("a.b.eml").as_deref(), Some("a.b"));
    assert_eq!(eml_stem("notes.txt"), None);
    let names: Vec<String> =
        ["1700-1.eml", "1800-2.eml", "README", "1750-9.eml"].iter().map(|s| s.to_string()).collect();
    assert_eq!(message_ids(&names), vec!["1800-2", "1750-9", "1700-1"]);
    // File names decide the order: "1.a.eml" sorts before "1.eml".
    let names: Vec<String> = ["1.a.eml", "1.eml"].iter().map(|s| s.to_string()).collect();
    assert_eq!(message_ids(&names), vec!["1", "1.a"]);
}

#[test]
fn listings_filter_by_mailbox_and_search_and_count_mailboxes() {
    let mut a = message("Invoice", Some("pay now"), None);
    a.mailbox = "shop".into();
    let b = message("Welcome", Some("hello"), Some("<p>hello</p>"));
    let mut c = message("Reset", Some("reset link"), None);
    c.mailbox = UNATTRIBUTED.into();
    let all = vec![a, b, c];
    assert_eq!(select_messages(&all, None, None), vec![0, 1, 2]);
    assert_eq!(select_messages(&all, Some("blog"), None), vec![1]);
    assert_eq!(select_messages(&all, None, Some("RESET")), vec![2]);
    assert_eq!(select_messages(&all, Some("shop"), Some("hello")), Vec::<usize>::new());
    let counts = mailbox_counts(&all);
    assert_eq!(counts, vec![("-".to_string(), 1), ("blog".to_string(), 1), ("shop".to_string(), 1)]);
    assert_eq!(mailbox_label("-"), "(no username)");
    assert_eq!(mailbox_label("blog"), "blog");
    assert_eq!(list_heading(), format!("{:<24}  {:<14}  {:<26}  SUBJECT", "ID", "MAILBOX", "TO"));
    assert_eq!(list_row(&all[1]), format!("{:<24}  {:<14}  {:<26}  {}", "1", "blog", "c@d.test", "Welcome [html]"));
    assert_eq!(empty_listing_message(None, Some("x"), 1025), "No captured mail matching `x`.");
    assert_eq!(empty_listing_message(Some("m"), None, 1025), "No captured mail in mailbox `m`.");
}
