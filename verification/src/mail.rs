//! The pure parts of the captured-mail viewer: the message model, sizes as
//! people read them, a crude tag stripper for previews and search, and the
//! sample message `dpl mail send` delivers.

use mail_parser::MimeHeaders;
use vstd::prelude::*;

use crate::text::{
    contains_seq, dec, dec_string, eq_ignore_ascii_case, eq_ignore_case, find, find_chars, from_chars,
    has_prefix, has_suffix, is_ws, join, matches_at, occurs_at, push_str, replace_all, replace_str,
    slice_chars, starts_with_chars, str_contains, str_eq, to_chars, to_lower, to_lowercase, trim,
    trim_chars, trim_end_any, trim_end_any_chars, words, words_of,
};

verus! {

/// One attachment or inline part.
#[derive(Debug)]
pub struct Attachment {
    /// Position in `attachments`, and the index `dpl mail save` takes.
    pub index: usize,
    pub name: String,
    pub mime: String,
    pub size: usize,
    /// Referenced from the HTML body by `cid:` rather than shown as a download.
    pub inline: bool,
    pub cid: Option<String>,
}

/// An attachment as plain values.
pub struct AttachmentView {
    pub index: nat,
    pub name: Seq<char>,
    pub mime: Seq<char>,
    pub size: nat,
    pub inline: bool,
    pub cid: Option<Seq<char>>,
}

impl View for Attachment {
    type V = AttachmentView;

    open spec fn view(&self) -> AttachmentView {
        AttachmentView {
            index: self.index as nat,
            name: self.name@,
            mime: self.mime@,
            size: self.size as nat,
            inline: self.inline,
            cid: crate::sites::opt_view(self.cid),
        }
    }
}

/// Attachments with their bytes, as plain values.
pub open spec fn att_pairs(atts: Seq<(Attachment, Vec<u8>)>) -> Seq<(AttachmentView, Seq<u8>)> {
    atts.map_values(|p: (Attachment, Vec<u8>)| (p.0@, p.1@))
}

/// A fully parsed message.
#[derive(Debug)]
pub struct Message {
    pub id: String,
    pub mailbox: String,
    pub from: String,
    pub to: String,
    pub cc: String,
    pub subject: String,
    /// RFC 3339, from the `Date:` header when present.
    pub date: Option<String>,
    /// Size of the `.eml` on disk, in bytes.
    pub size: u64,
    pub text: Option<String>,
    /// HTML body with `cid:` references rewritten to `data:` URIs.
    pub html: Option<String>,
    /// Remote resources the HTML would fetch if allowed.
    pub remote_resources: usize,
    pub links: Vec<String>,
    pub attachments: Vec<Attachment>,
    pub headers: Vec<(String, String)>,
}

// ---------------------------------------------------------------------- parts

/// Which representation of a message `show` prints.
#[derive(Debug, Clone, Copy, PartialEq, Eq)]
pub enum Part {
    Raw,
    Html,
    Text,
    Headers,
}

/// The part named by `lowered`, or the message naming the unknown part.
pub open spec fn part_named(lowered: Seq<char>) -> Result<Part, Seq<char>> {
    if lowered == "raw"@ {
        Ok(Part::Raw)
    } else if lowered == "html"@ {
        Ok(Part::Html)
    } else if lowered == "text"@ {
        Ok(Part::Text)
    } else if lowered == "headers"@ {
        Ok(Part::Headers)
    } else {
        Err("unknown part `"@ + lowered + "` (raw|html|text|headers)"@)
    }
}

/// Parse a part name, in any case: `raw`, `html`, `text` or `headers`.
pub fn parse_part(s: &str) -> (r: Result<Part, String>)
    ensures
        r matches Ok(p) ==> part_named(to_lowercase(s@)) == Ok::<Part, Seq<char>>(p),
        r matches Err(m) ==> part_named(to_lowercase(s@)) == Err::<Part, Seq<char>>(m@),
{
    let l = to_lower(s);
    if str_eq(l.as_str(), "raw") {
        Ok(Part::Raw)
    } else if str_eq(l.as_str(), "html") {
        Ok(Part::Html)
    } else if str_eq(l.as_str(), "text") {
        Ok(Part::Text)
    } else if str_eq(l.as_str(), "headers") {
        Ok(Part::Headers)
    } else {
        let mut m = String::from_str("unknown part `");
        push_str(&mut m, l.as_str());
        push_str(&mut m, "` (raw|html|text|headers)");
        Err(m)
    }
}

// ---------------------------------------------------------------------- sizes

/// `n / d` rounded to the nearest integer, ties to even.
pub open spec fn round_half_even(n: nat, d: nat) -> nat
    recommends
        d > 0,
{
    let q = n / d;
    let r = n % d;
    if 2 * r < d {
        q
    } else if 2 * r > d {
        q + 1
    } else if q % 2 == 0 {
        q
    } else {
        q + 1
    }
}

/// A count of tenths with one decimal place, then the unit.
pub open spec fn one_decimal(tenths: nat, unit: Seq<char>) -> Seq<char> {
    dec(tenths / 10) + "."@ + dec(tenths % 10) + " "@ + unit
}

/// How a byte count reads: bytes under 1 KiB; else KiB or MiB with one
/// decimal, rounded to nearest with ties to even (as `{:.1}` rounds the exact
/// quotient).
pub open spec fn human_size_text(b: u64) -> Seq<char> {
    if b >= 1_048_576 {
        one_decimal(round_half_even(10 * b as nat, 1_048_576), "MB"@)
    } else if b >= 1024 {
        one_decimal(round_half_even(10 * b as nat, 1024), "KB"@)
    } else {
        dec(b as nat) + " B"@
    }
}

/// Tenths of `b / d`, rounded as [`round_half_even`] says.
fn tenths_of(b: u64, d: u64) -> (t: u64)
    requires
        d >= 1024,
        b >= d,
    ensures
        t as nat == round_half_even(10 * b as nat, d as nat),
{
    let n: u128 = (b as u128) * 10;
    let dd: u128 = d as u128;
    let q: u128 = n / dd;
    let r: u128 = n % dd;
    let t: u128 = if 2 * r < dd {
        q
    } else if 2 * r > dd {
        q + 1
    } else if q % 2 == 0 {
        q
    } else {
        q + 1
    };
    proof {
        assert(q <= n / 1024) by (nonlinear_arith)
            requires
                q == n / dd,
                dd >= 1024,
        ;
        assert(n / 1024 + 1 <= b) by (nonlinear_arith)
            requires
                n == (b as u128) * 10,
                b >= 1024,
        ;
    }
    t as u64
}

/// A byte count as people read it: `512 B`, `2.0 KB`, `5.0 MB`.
pub fn human_size(bytes: u64) -> (r: String)
    ensures
        r@ == human_size_text(bytes),
{
    if bytes >= 1_048_576 || bytes >= 1024 {
        let big = bytes >= 1_048_576;
        let t = if big { tenths_of(bytes, 1_048_576) } else { tenths_of(bytes, 1024) };
        let mut s = dec_string(t / 10);
        push_str(&mut s, ".");
        push_str(&mut s, dec_string(t % 10).as_str());
        push_str(&mut s, " ");
        push_str(&mut s, if big { "MB" } else { "KB" });
        s
    } else {
        let mut s = dec_string(bytes);
        push_str(&mut s, " B");
        s
    }
}

// ---------------------------------------------------------------------- text

/// The handful of entities that show up inside URLs, decoded.
pub open spec fn entities_decoded(s: Seq<char>) -> Seq<char> {
    replace_all(replace_all(replace_all(s, "&amp;"@, "&"@), "&#38;"@, "&"@), "&quot;"@, "\""@)
}

/// Decode `&amp;`, `&#38;` and `&quot;`, in that order.
pub fn decode_entities(s: &str) -> (r: String)
    ensures
        r@ == entities_decoded(s@),
{
    let a = replace_str(s, "&amp;", "&");
    let b = replace_str(a.as_str(), "&#38;", "&");
    replace_str(b.as_str(), "&quot;", "\"")
}

/// The text outside tags, and the tag depth, after reading `s`: `<` opens a
/// tag, `>` closes one (never below zero), and other characters count only at
/// depth zero.
pub open spec fn outside_tags(s: Seq<char>) -> (Seq<char>, nat)
    decreases s.len(),
{
    if s.len() == 0 {
        (Seq::empty(), 0)
    } else {
        let (out, depth) = outside_tags(s.drop_last());
        let c = s.last();
        if c == '<' {
            (out, depth + 1)
        } else if c == '>' {
            (out, if depth > 0 { (depth - 1) as nat } else { 0 })
        } else if depth == 0 {
            (out.push(c), depth)
        } else {
            (out, depth)
        }
    }
}

/// What the crude tag stripper gives: the text outside tags, entities
/// decoded, `&nbsp;` read as a space.
pub open spec fn tags_stripped(html: Seq<char>) -> Seq<char> {
    replace_all(entities_decoded(outside_tags(html).0), "&nbsp;"@, " "@)
}

/// Crude tag stripper, for previews and body search only — never for display.
pub fn strip_tags(html: &str) -> (r: String)
    ensures
        r@ == tags_stripped(html@),
{
    let cs = to_chars(html);
    let mut out = String::new();
    let mut depth: usize = 0;
    let mut i: usize = 0;
    while i < cs.len()
        invariant
            i <= cs.len(),
            cs@ == html@,
            depth <= i,
            outside_tags(cs@.take(i as int)) == (out@, depth as nat),
        decreases cs.len() - i,
    {
        let c = cs[i];
        if c == '<' {
            depth = depth + 1;
        } else if c == '>' {
            if depth > 0 {
                depth = depth - 1;
            }
        } else if depth == 0 {
            out.push(c);
        }
        assert(cs@.take(i + 1).drop_last() =~= cs@.take(i as int));
        i = i + 1;
    }
    assert(cs@.take(cs.len() as int) =~= cs@);
    let d = decode_entities(out.as_str());
    replace_str(d.as_str(), "&nbsp;", " ")
}

/// `s` cut to `n` characters: the first `n - 1` and `…` when longer.
pub open spec fn truncated(s: Seq<char>, n: nat) -> Seq<char> {
    if s.len() > n {
        s.take(n - 1) + "\u{2026}"@
    } else {
        s
    }
}

/// Cut `s` to at most `n` characters, marking the cut with `…`.
pub fn truncate(s: &str, n: usize) -> (r: String)
    requires
        n > 0 || s@.len() == 0,
    ensures
        r@ == truncated(s@, n as nat),
{
    let cs = to_chars(s);
    if cs.len() > n {
        let head = crate::text::slice_chars(&cs, 0, n - 1);
        let mut out = from_chars(&head);
        push_str(&mut out, "\u{2026}");
        out
    } else {
        from_chars(&cs)
    }
}

// -------------------------------------------------------------------- compose

/// The body of the sample message when none is given.
pub open spec fn sample_text() -> Seq<char> {
    "This is a test message from `dpl mail send`.\n\nReset your password: https://example.test/reset?token=abc123\n"@
}

/// The HTML body of the sample message.
pub open spec fn sample_html(subject: Seq<char>) -> Seq<char> {
    "<html><body style=\"font-family:-apple-system,sans-serif;padding:24px\"><h1 style=\"color:#5b4ee5\">"@
        + subject
        + "</h1><p>This is a test message from <code>dpl mail send</code>.</p><p><a href=\"https://example.test/reset?token=abc123\">Reset your password</a></p><img src=\"https://example.test/pixel.gif\" width=\"1\" height=\"1\" alt=\"\"><p style=\"color:#888;font-size:12px\">Captured by dpl \u{2014} never delivered.</p></body></html>"@
}

/// The message `dpl mail send` delivers: plain text, or with `html` a
/// `multipart/alternative` carrying both a text and an HTML body.
pub open spec fn composed(
    to: Seq<char>,
    from: Seq<char>,
    subject: Seq<char>,
    html: bool,
    body: Option<Seq<char>>,
) -> Seq<char> {
    let text = match body {
        Some(b) => b,
        None => sample_text(),
    };
    let head = "From: "@ + from + "\nTo: "@ + to + "\nSubject: "@ + subject;
    if !html {
        head + "\nContent-Type: text/plain; charset=utf-8\n\n"@ + text
    } else {
        head
            + "\nMIME-Version: 1.0\nContent-Type: multipart/alternative; boundary=\"dpl-boundary-8f2a\"\n\n--dpl-boundary-8f2a\nContent-Type: text/plain; charset=utf-8\n\n"@
            + text + "\n--dpl-boundary-8f2a\nContent-Type: text/html; charset=utf-8\n\n"@
            + sample_html(subject) + "\n--dpl-boundary-8f2a--\n"@
    }
}

/// Build the RFC 5322 message `dpl mail send` delivers.
pub fn compose(to: &str, from: &str, subject: &str, html: bool, body: Option<&str>) -> (r: String)
    ensures
        r@ == composed(
            to@,
            from@,
            subject@,
            html,
            match body {
                Some(b) => Some(b@),
                None => None,
            },
        ),
{
    let text = match body {
        Some(b) => String::from_str(b),
        None => String::from_str(
            "This is a test message from `dpl mail send`.\n\nReset your password: https://example.test/reset?token=abc123\n",
        ),
    };
    let mut m = String::from_str("From: ");
    push_str(&mut m, from);
    push_str(&mut m, "\nTo: ");
    push_str(&mut m, to);
    push_str(&mut m, "\nSubject: ");
    push_str(&mut m, subject);
    if !html {
        push_str(&mut m, "\nContent-Type: text/plain; charset=utf-8\n\n");
        push_str(&mut m, text.as_str());
        return m;
    }
    push_str(
        &mut m,
        "\nMIME-Version: 1.0\nContent-Type: multipart/alternative; boundary=\"dpl-boundary-8f2a\"\n\n--dpl-boundary-8f2a\nContent-Type: text/plain; charset=utf-8\n\n",
    );
    push_str(&mut m, text.as_str());
    push_str(&mut m, "\n--dpl-boundary-8f2a\nContent-Type: text/html; charset=utf-8\n\n");
    push_str(
        &mut m,
        "<html><body style=\"font-family:-apple-system,sans-serif;padding:24px\"><h1 style=\"color:#5b4ee5\">",
    );
    push_str(&mut m, subject);
    push_str(
        &mut m,
        "</h1><p>This is a test message from <code>dpl mail send</code>.</p><p><a href=\"https://example.test/reset?token=abc123\">Reset your password</a></p><img src=\"https://example.test/pixel.gif\" width=\"1\" height=\"1\" alt=\"\"><p style=\"color:#888;font-size:12px\">Captured by dpl \u{2014} never delivered.</p></body></html>",
    );
    push_str(&mut m, "\n--dpl-boundary-8f2a--\n");
    m
}


// ------------------------------------------------------- remote resources

/// The characters skipped walking back from a URL to the attribute that
/// owns it: its opening quote, `(`, spaces and `=`.
pub open spec fn url_openers() -> Seq<char> {
    seq!['"', '\'', '(', ' ', '=']
}

/// Whether the (lowercased) text before a URL ends in an attribute or CSS
/// function that fetches it: `src`, `background`, `poster`, `url`, `srcset`.
pub open spec fn fetched_by(before: Seq<char>) -> bool {
    let t = trim_end_any(before, url_openers());
    has_suffix(t, "src"@) || has_suffix(t, "background"@) || has_suffix(t, "poster"@) || has_suffix(t, "url"@)
        || has_suffix(t, "srcset"@)
}

/// How many `http` occurrences starting before index `n` of the lowercased
/// HTML are fetched resources.
pub open spec fn resources_before(lower: Seq<char>, n: int) -> nat
    decreases n,
{
    if n <= 0 {
        0
    } else {
        resources_before(lower, n - 1) + if occurs_at(lower, "http"@, n - 1) && fetched_by(lower.take(n - 1)) {
            1nat
        } else {
            0nat
        }
    }
}

/// The `http(s)` resources an HTML body would fetch on render: images,
/// stylesheets, scripts, CSS `url()`s; anchors are not counted.
pub open spec fn remote_resource_count(html: Seq<char>) -> nat {
    resources_before(to_lowercase(html), to_lowercase(html).len() as int)
}

fn fetched_by_chars(before: &[char]) -> (r: bool)
    ensures
        r == fetched_by(before@),
{
    let openers: [char; 5] = ['"', '\'', '(', ' ', '='];
    assert(openers@ =~= url_openers());
    let t = trim_end_any_chars(before, &openers);
    crate::text::ends_with_chars(&t, &to_chars("src")) || crate::text::ends_with_chars(&t, &to_chars("background"))
        || crate::text::ends_with_chars(&t, &to_chars("poster")) || crate::text::ends_with_chars(&t, &to_chars("url"))
        || crate::text::ends_with_chars(&t, &to_chars("srcset"))
}

/// Count the remote resources an HTML body would fetch (see
/// [`remote_resource_count`]).
pub fn count_remote_resources(html: &str) -> (r: usize)
    ensures
        r == remote_resource_count(html@),
{
    let lower = to_chars(to_lower(html).as_str());
    let needle = to_chars("http");
    let mut count: usize = 0;
    let mut i: usize = 0;
    while i < lower.len()
        invariant
            i <= lower.len(),
            lower@ == to_lowercase(html@),
            needle@ == "http"@,
            count == resources_before(lower@, i as int),
            count <= i,
        decreases lower.len() - i,
    {
        if matches_at(&lower, &needle, i) {
            let before = slice_chars(&lower, 0, i);
            assert(before@ =~= lower@.take(i as int));
            if fetched_by_chars(&before) {
                count = count + 1;
            }
        }
        i = i + 1;
    }
    count
}

// ------------------------------------------------------------------ links

/// `links` with `url` added at the end, unless it is empty or already there.
pub open spec fn with_link(links: Seq<Seq<char>>, url: Seq<char>) -> Seq<Seq<char>> {
    if url.len() > 0 && !links.contains(url) {
        links.push(url)
    } else {
        links
    }
}

/// A web URL: it starts with `http://` or `https://`.
pub open spec fn web_url(u: Seq<char>) -> bool {
    has_prefix(u, "http://"@) || has_prefix(u, "https://"@)
}

/// An `href=` attribute, in any ASCII case, starts at index `i`.
pub open spec fn href_at(html: Seq<char>, i: int) -> bool {
    0 <= i && i + 5 <= html.len() && eq_ignore_ascii_case(html.subrange(i, i + 5), "href="@)
}

/// The value of the `href=` at index `i`: up to the closing quote, or for an
/// unquoted value up to a space, else to `>`, else to the end; trimmed.
pub open spec fn href_value(html: Seq<char>, i: int) -> Seq<char> {
    let rest0 = html.skip(i + 5);
    let quoted = rest0.len() > 0 && (rest0[0] == '"' || rest0[0] == '\'');
    let quote = if quoted {
        rest0[0]
    } else {
        ' '
    };
    let rest = if quoted {
        rest0.skip(1)
    } else {
        rest0
    };
    let end = match find(rest, seq![quote]) {
        Some(e) => e,
        None => match find(rest, seq!['>']) {
            Some(e) => e,
            None => rest.len() as int,
        },
    };
    trim(rest.take(end))
}

/// The links of the `href=` attributes starting before index `n`, in
/// document order, entities decoded, each kept once.
pub open spec fn html_links(html: Seq<char>, n: int) -> Seq<Seq<char>>
    decreases n,
{
    if n <= 0 {
        Seq::empty()
    } else {
        let prev = html_links(html, n - 1);
        if href_at(html, n - 1) && web_url(href_value(html, n - 1)) {
            with_link(prev, entities_decoded(href_value(html, n - 1)))
        } else {
            prev
        }
    }
}

/// The characters stripped from the end of a bare URL in text.
pub open spec fn url_trailers() -> Seq<char> {
    seq!['.', ',', ')', '>', ';']
}

/// `links` followed by the bare URLs among `ws` not already there, each with
/// trailing punctuation stripped.
pub open spec fn text_links(links: Seq<Seq<char>>, ws: Seq<Seq<char>>) -> Seq<Seq<char>>
    decreases ws.len(),
{
    if ws.len() == 0 {
        links
    } else {
        let prev = text_links(links, ws.drop_last());
        if web_url(ws.last()) {
            with_link(prev, trim_end_any(ws.last(), url_trailers()))
        } else {
            prev
        }
    }
}

/// Every URL a person might want to click: the HTML anchors first, in
/// document order, then the bare URLs of the plain text the HTML did not
/// already give.
pub open spec fn message_links(html: Option<Seq<char>>, text: Option<Seq<char>>) -> Seq<Seq<char>> {
    let from_html = match html {
        Some(h) => html_links(h, h.len() as int),
        None => Seq::empty(),
    };
    match text {
        Some(t) => text_links(from_html, words(t)),
        None => from_html,
    }
}

fn push_link(links: &mut Vec<String>, url: String)
    ensures
        crate::text::str_views(final(links)@) == with_link(crate::text::str_views(old(links)@), url@),
{
    let ghost before = crate::text::str_views(links@);
    if crate::text::str_is_empty(url.as_str()) {
        return;
    }
    let mut i: usize = 0;
    while i < links.len()
        invariant
            i <= links.len(),
            before == crate::text::str_views(links@),
            forall|k: int| 0 <= k < i ==> before[k] != url@,
        decreases links.len() - i,
    {
        if str_eq(links[i].as_str(), url.as_str()) {
            assert(before[i as int] == url@);
            return;
        }
        i = i + 1;
    }
    proof {
        if before.contains(url@) {
            let k = choose|k: int| 0 <= k < before.len() && before[k] == url@;
            assert(before[k] != url@);
        }
    }
    let ghost u = url@;
    links.push(url);
    assert(crate::text::str_views(links@) =~= before.push(u));
}

fn href_value_chars(hc: &[char], i: usize) -> (r: Vec<char>)
    requires
        i + 5 <= hc@.len(),
    ensures
        r@ == href_value(hc@, i as int),
{
    let rest0 = slice_chars(hc, i + 5, hc.len());
    assert(rest0@ =~= hc@.skip(i + 5));
    let quoted = rest0.len() > 0 && (rest0[0] == '"' || rest0[0] == '\'');
    let quote = if quoted {
        rest0[0]
    } else {
        ' '
    };
    let rest = if quoted {
        slice_chars(&rest0, 1, rest0.len())
    } else {
        slice_chars(&rest0, 0, rest0.len())
    };
    assert(quoted ==> rest@ =~= rest0@.skip(1));
    assert(!quoted ==> rest@ =~= rest0@);
    let q: [char; 1] = [quote];
    assert(q@ =~= seq![quote]);
    let gt: [char; 1] = ['>'];
    assert(gt@ =~= seq!['>']);
    let end = match find_chars(&rest, &q) {
        Some(e) => e,
        None => match find_chars(&rest, &gt) {
            Some(e) => e,
            None => rest.len(),
        },
    };
    proof {
        crate::text::lemma_find_from(rest@, q@, 0);
        crate::text::lemma_find_from(rest@, gt@, 0);
    }
    let head = slice_chars(&rest, 0, end);
    assert(head@ =~= rest@.take(end as int));
    trim_chars(&head)
}

/// Every URL a person might want to click (see [`message_links`]).
pub fn extract_links(html: Option<&str>, text: Option<&str>) -> (r: Vec<String>)
    ensures
        crate::text::str_views(r@) == message_links(
            match html {
                Some(h) => Some(h@),
                None => None,
            },
            match text {
                Some(t) => Some(t@),
                None => None,
            },
        ),
{
    let mut links: Vec<String> = Vec::new();
    assert(crate::text::str_views(links@) =~= Seq::<Seq<char>>::empty());
    if let Some(h) = html {
        let hc = to_chars(h);
        let pat = to_chars("href=");
        let mut i: usize = 0;
        while i < hc.len()
            invariant
                i <= hc.len(),
                hc@ == h@,
                pat@ == "href="@,
                crate::text::str_views(links@) == html_links(hc@, i as int),
            decreases hc.len() - i,
        {
            if hc.len() - i >= 5 {
                let window = slice_chars(&hc, i, i + 5);
                assert(window@ =~= hc@.subrange(i as int, i + 5));
                if eq_ignore_case(&window, &pat) {
                    let v = href_value_chars(&hc, i);
                    let http = to_chars("http://");
                    let https = to_chars("https://");
                    if starts_with_chars(&v, &http) || starts_with_chars(&v, &https) {
                        let url = decode_entities(from_chars(&v).as_str());
                        push_link(&mut links, url);
                    }
                }
            }
            i = i + 1;
        }
    }
    let ghost base = crate::text::str_views(links@);
    if let Some(t) = text {
        let ws = words_of(&to_chars(t));
        let ghost wv = crate::text::views(ws@);
        let trailers: [char; 5] = ['.', ',', ')', '>', ';'];
        assert(trailers@ =~= url_trailers());
        let mut k: usize = 0;
        assert(wv.take(0) =~= Seq::<Seq<char>>::empty());
        while k < ws.len()
            invariant
                k <= ws.len(),
                wv == crate::text::views(ws@),
                wv == words(t@),
                trailers@ == url_trailers(),
                crate::text::str_views(links@) == text_links(base, wv.take(k as int)),
            decreases ws.len() - k,
        {
            assert(wv.take(k + 1).drop_last() =~= wv.take(k as int));
            assert(wv.take(k + 1).last() == ws@[k as int]@);
            let w = &ws[k];
            let http = to_chars("http://");
            let https = to_chars("https://");
            if starts_with_chars(w, &http) || starts_with_chars(w, &https) {
                let u = trim_end_any_chars(w, &trailers);
                push_link(&mut links, from_chars(&u));
            }
            k = k + 1;
        }
        assert(wv.take(ws.len() as int) =~= wv);
    }
    links
}

// ------------------------------------------------------------ inline images

/// The standard base64 alphabet (RFC 4648): `A`–`Z`, `a`–`z`, `0`–`9`, `+`,
/// `/`.
pub open spec fn b64_digit(v: int) -> char {
    if v < 26 {
        (65 + v) as char
    } else if v < 52 {
        (97 + v - 26) as char
    } else if v < 62 {
        (48 + v - 52) as char
    } else if v == 62 {
        '+'
    } else {
        '/'
    }
}

/// Standard base64 with `=` padding (RFC 4648, section 4): each three bytes
/// become four digits of six bits each; a final one or two bytes are padded.
pub open spec fn base64_of(b: Seq<u8>) -> Seq<char>
    decreases b.len(),
{
    if b.len() == 0 {
        Seq::empty()
    } else {
        let b0 = b[0] as int;
        let b1 = if b.len() > 1 { b[1] as int } else { 0 };
        let b2 = if b.len() > 2 { b[2] as int } else { 0 };
        let d0 = b64_digit(b0 / 4);
        let d1 = b64_digit((b0 % 4) * 16 + b1 / 16);
        let d2 = b64_digit((b1 % 16) * 4 + b2 / 64);
        let d3 = b64_digit(b2 % 64);
        if b.len() == 1 {
            seq![d0, d1, '=', '=']
        } else if b.len() == 2 {
            seq![d0, d1, d2, '=']
        } else {
            seq![d0, d1, d2, d3] + base64_of(b.skip(3))
        }
    }
}

/// Whether base64 of `n` bytes fits in memory sizes: the encoded length
/// does not overflow `usize`.
pub open spec fn b64_fits(n: nat) -> bool {
    (n / 3) * 4 <= usize::MAX && (n % 3 > 0 ==> (n / 3) * 4 + 4 <= usize::MAX)
}

/// `base64::engine::general_purpose::STANDARD.encode`: the standard
/// alphabet with padding. Its source computes the output length with
/// checked arithmetic and panics when that overflows, which `requires`
/// excludes.
#[verifier::external_body]
fn base64_standard(bytes: &[u8]) -> (r: String)
    requires
        b64_fits(bytes@.len()),
    ensures
        r@ == base64_of(bytes@),
{
    base64::Engine::encode(&base64::engine::general_purpose::STANDARD, bytes)
}

/// The `data:` URI that carries an attachment's bytes.
pub open spec fn data_uri(mime: Seq<char>, bytes: Seq<u8>) -> Seq<char> {
    "data:"@ + mime + ";base64,"@ + base64_of(bytes)
}

/// `html` with each attachment's `cid:<id>` and `CID:<id>` references
/// replaced by its `data:` URI, attachment by attachment; an attachment
/// without a content id changes nothing.
pub open spec fn cid_inlined(html: Seq<char>, atts: Seq<(AttachmentView, Seq<u8>)>) -> Seq<char>
    decreases atts.len(),
{
    if atts.len() == 0 {
        html
    } else {
        let prev = cid_inlined(html, atts.drop_last());
        let (a, bytes) = atts.last();
        match a.cid {
            Some(cid) => {
                let uri = data_uri(a.mime, bytes);
                replace_all(replace_all(prev, "cid:"@ + cid, uri), "CID:"@ + cid, uri)
            },
            None => prev,
        }
    }
}

/// Replace `cid:` image references with `data:` URIs so embedded images
/// render with the network blocked (see [`cid_inlined`]). An unmatched
/// `cid:` is left alone.
pub fn inline_cid_images(html: &str, attachments: &[(Attachment, Vec<u8>)]) -> (r: String)
    requires
        forall|i: int| 0 <= i < attachments@.len() ==> b64_fits((#[trigger] attachments@[i]).1@.len()),
    ensures
        r@ == cid_inlined(html@, att_pairs(attachments@)),
{
    let mut out = String::from_str(html);
    let mut i: usize = 0;
    while i < attachments.len()
        invariant
            i <= attachments.len(),
            forall|k: int| 0 <= k < attachments@.len() ==> b64_fits((#[trigger] attachments@[k]).1@.len()),
            out@ == cid_inlined(html@, att_pairs(attachments@).take(i as int)),
        decreases attachments.len() - i,
    {
        assert(att_pairs(attachments@).take(i + 1).drop_last() =~= att_pairs(attachments@).take(i as int));
        assert(att_pairs(attachments@).take(i + 1).last() == (attachments@[i as int].0@, attachments@[i as int].1@));
        let att = &attachments[i].0;
        let bytes = &attachments[i].1;
        match &att.cid {
            Some(cid) => {
                assert(b64_fits(attachments@[i as int].1@.len()));
                let mut uri = String::from_str("data:");
                push_str(&mut uri, att.mime.as_str());
                push_str(&mut uri, ";base64,");
                push_str(&mut uri, base64_standard(bytes.as_slice()).as_str());
                let mut lower = String::from_str("cid:");
                push_str(&mut lower, cid.as_str());
                let mut upper = String::from_str("CID:");
                push_str(&mut upper, cid.as_str());
                let a = replace_str(out.as_str(), lower.as_str(), uri.as_str());
                out = replace_str(a.as_str(), upper.as_str(), uri.as_str());
            },
            None => {},
        }
        i = i + 1;
    }
    assert(att_pairs(attachments@).take(attachments.len() as int) =~= att_pairs(attachments@));
    out
}


// ------------------------------------------------------- preview and search

/// A message's preview: its text body, else its HTML with tags stripped;
/// whitespace runs collapsed to one space; cut to 120 characters.
pub open spec fn preview_of(m: Message) -> Seq<char> {
    let source = match m.text {
        Some(t) => t@,
        None => match m.html {
            Some(h) => tags_stripped(h@),
            None => Seq::empty(),
        },
    };
    truncated(join(words(source), " "@), 120)
}

/// Whether a message matches a free-text query, ignoring case: in its
/// subject, sender, recipients, mailbox or text body, else in the text of
/// its HTML (not the markup).
pub open spec fn matches_query(m: Message, query: Seq<char>) -> bool {
    let q = to_lowercase(query);
    let text = match m.text {
        Some(t) => t@,
        None => Seq::empty(),
    };
    ||| contains_seq(to_lowercase(m.subject@), q)
    ||| contains_seq(to_lowercase(m.from@), q)
    ||| contains_seq(to_lowercase(m.to@), q)
    ||| contains_seq(to_lowercase(m.mailbox@), q)
    ||| contains_seq(to_lowercase(text), q)
    ||| (m.html matches Some(h) && contains_seq(to_lowercase(tags_stripped(h@)), q))
}

fn lower_contains(hay: &str, q: &str) -> (r: bool)
    ensures
        r == contains_seq(to_lowercase(hay@), q@),
{
    let l = to_lower(hay);
    str_contains(l.as_str(), q)
}

impl Message {
    /// One line of the body for a listing (see [`preview_of`]).
    pub fn preview(&self) -> (r: String)
        ensures
            r@ == preview_of(*self),
    {
        let source: Vec<char> = match &self.text {
            Some(t) => to_chars(t.as_str()),
            None => match &self.html {
                Some(h) => to_chars(strip_tags(h.as_str()).as_str()),
                None => Vec::new(),
            },
        };
        let ws = words_of(&source);
        let flat = from_chars(&crate::text::join_chars(&ws, &to_chars(" ")));
        truncate(flat.as_str(), 120)
    }

    /// Does this message match a free-text query (see [`matches_query`])?
    pub fn matches(&self, query: &str) -> (r: bool)
        ensures
            r == matches_query(*self, query@),
    {
        let q = to_lower(query);
        let text: &str = match &self.text {
            Some(t) => t.as_str(),
            None => "",
        };
        proof {
            reveal_strlit("");
            assert(text@ =~= match self.text {
                Some(t) => t@,
                None => Seq::<char>::empty(),
            });
        }
        if lower_contains(self.subject.as_str(), q.as_str()) || lower_contains(self.from.as_str(), q.as_str())
            || lower_contains(self.to.as_str(), q.as_str()) || lower_contains(self.mailbox.as_str(), q.as_str())
            || lower_contains(text, q.as_str())
        {
            return true;
        }
        match &self.html {
            Some(h) => lower_contains(strip_tags(h.as_str()).as_str(), q.as_str()),
            None => false,
        }
    }
}


// ---------------------------------------------------------------- parsing

/// The mailbox name of mail that arrived without an SMTP username, and the
/// value `--mailbox` takes to select it.
pub const UNATTRIBUTED: &'static str = "-";

/// What the MIME parser reports of one attachment part.
pub struct MimePart {
    /// The content type and its subtype, when the part declares one.
    pub ctype: Option<(String, Option<String>)>,
    /// The `Content-ID`, as written.
    pub content_id: Option<String>,
    /// The content disposition's type (`inline`, `attachment`).
    pub disposition: Option<String>,
    /// The attachment's file name, when it has one.
    pub name: Option<String>,
    /// The decoded contents.
    pub contents: Vec<u8>,
}

/// A [`MimePart`] as plain values.
pub struct PartView {
    pub ctype: Option<(Seq<char>, Option<Seq<char>>)>,
    pub content_id: Option<Seq<char>>,
    pub disposition: Option<Seq<char>>,
    pub name: Option<Seq<char>>,
    pub contents: Seq<u8>,
}

impl View for MimePart {
    type V = PartView;

    open spec fn view(&self) -> PartView {
        PartView {
            ctype: match self.ctype {
                Some((t, sub)) => Some((t@, crate::sites::opt_view(sub))),
                None => None,
            },
            content_id: crate::sites::opt_view(self.content_id),
            disposition: crate::sites::opt_view(self.disposition),
            name: crate::sites::opt_view(self.name),
            contents: self.contents@,
        }
    }
}

/// What the MIME parser reports of a message's envelope: the addresses of
/// `From`, `To` and `Cc` (`None` when the header is absent; an entry is
/// `None` for a group member without an address), the subject, and the
/// date in RFC 3339.
pub struct MimeEnvelope {
    pub from: Option<Vec<Option<String>>>,
    pub to: Option<Vec<Option<String>>>,
    pub cc: Option<Vec<Option<String>>>,
    pub subject: Option<String>,
    pub date: Option<String>,
}

/// A [`MimeEnvelope`] as plain values.
pub struct EnvelopeView {
    pub from: Option<Seq<Option<Seq<char>>>>,
    pub to: Option<Seq<Option<Seq<char>>>>,
    pub cc: Option<Seq<Option<Seq<char>>>>,
    pub subject: Option<Seq<char>>,
    pub date: Option<Seq<char>>,
}

/// Optional strings as plain values.
pub open spec fn opt_views(v: Seq<Option<String>>) -> Seq<Option<Seq<char>>> {
    v.map_values(|o: Option<String>| crate::sites::opt_view(o))
}

/// An optional address list as plain values.
pub open spec fn addr_view(a: Option<Vec<Option<String>>>) -> Option<Seq<Option<Seq<char>>>> {
    match a {
        Some(v) => Some(opt_views(v@)),
        None => None,
    }
}

impl View for MimeEnvelope {
    type V = EnvelopeView;

    open spec fn view(&self) -> EnvelopeView {
        EnvelopeView {
            from: addr_view(self.from),
            to: addr_view(self.to),
            cc: addr_view(self.cc),
            subject: crate::sites::opt_view(self.subject),
            date: crate::sites::opt_view(self.date),
        }
    }
}

/// Pairs of strings as plain values.
pub open spec fn pair_views(v: Seq<(String, String)>) -> Seq<(Seq<char>, Seq<char>)> {
    v.map_values(|p: (String, String)| (p.0@, p.1@))
}

/// Parts as plain values.
pub open spec fn part_views(v: Seq<MimePart>) -> Seq<PartView> {
    v.map_values(|p: MimePart| p@)
}

/// The message's top-level headers, name and raw value, in order, as
/// `mail_parser` reads them from `raw`; `None` when it cannot parse `raw`.
pub uninterp spec fn mime_headers(raw: Seq<u8>) -> Option<Seq<(Seq<char>, Seq<char>)>>;

/// The attachment parts `mail_parser` finds in `raw`, in order; `None` when
/// it cannot parse `raw`.
pub uninterp spec fn mime_attachments(raw: Seq<u8>) -> Option<Seq<PartView>>;

/// The first text body and the first HTML body `mail_parser` finds in `raw`,
/// each only when that part really is of that type; `None` when it cannot
/// parse `raw`.
pub uninterp spec fn mime_bodies(raw: Seq<u8>) -> Option<(Option<Seq<char>>, Option<Seq<char>>)>;

/// The envelope `mail_parser` reads from `raw`; `None` when it cannot parse
/// `raw`.
pub uninterp spec fn mime_envelope(raw: Seq<u8>) -> Option<EnvelopeView>;

/// `mail_parser::MessageParser::parse`, then `Message::headers_raw`: each
/// top-level header's name and raw value text. The result is named, not
/// stated: it is whatever the parser reads from the bytes.
#[verifier::external_body]
fn parsed_headers(raw: &[u8]) -> (r: Option<Vec<(String, String)>>)
    ensures
        match r {
            Some(v) => mime_headers(raw@) == Some(pair_views(v@)),
            None => mime_headers(raw@) is None,
        },
{
    let m = mail_parser::MessageParser::default().parse(raw)?;
    Some(m.headers_raw().map(|(n, v)| (n.to_string(), v.to_string())).collect())
}

/// `mail_parser::MessageParser::parse`, then `Message::attachments`, each
/// part read through `MimeHeaders` (`content_type`, `content_id`,
/// `content_disposition`, `attachment_name`) and `MessagePart::contents`.
/// The result is named, not stated.
#[verifier::external_body]
fn parsed_attachments(raw: &[u8]) -> (r: Option<Vec<MimePart>>)
    ensures
        match r {
            Some(v) => mime_attachments(raw@) == Some(part_views(v@)),
            None => mime_attachments(raw@) is None,
        },
{
    let m = mail_parser::MessageParser::default().parse(raw)?;
    Some(m.attachments().map(|p| MimePart {
        ctype: p.content_type().map(|c| (c.ctype().to_string(), c.subtype().map(String::from))),
        content_id: p.content_id().map(String::from),
        disposition: p.content_disposition().map(|d| d.ctype().to_string()),
        name: p.attachment_name().map(String::from),
        contents: p.contents().to_vec(),
    }).collect())
}

/// `mail_parser::MessageParser::parse`, then the first text and HTML body
/// parts (`Message::text_part(0)`, `Message::html_part(0)`), each kept only
/// when its body is really `PartType::Text` or `PartType::Html`: asking
/// `body_text`/`body_html` directly would convert one into the other. The
/// result is named, not stated.
#[verifier::external_body]
fn parsed_bodies(raw: &[u8]) -> (r: Option<(Option<String>, Option<String>)>)
    ensures
        match r {
            Some((t, h)) => mime_bodies(raw@) == Some((crate::sites::opt_view(t), crate::sites::opt_view(h))),
            None => mime_bodies(raw@) is None,
        },
{
    let m = mail_parser::MessageParser::default().parse(raw)?;
    let text = match m.text_part(0).map(|p| &p.body) {
        Some(mail_parser::PartType::Text(t)) => Some(t.to_string()),
        _ => None,
    };
    let html = match m.html_part(0).map(|p| &p.body) {
        Some(mail_parser::PartType::Html(h)) => Some(h.to_string()),
        _ => None,
    };
    Some((text, html))
}

/// `mail_parser::MessageParser::parse`, then `Message::from`, `to`, `cc`
/// (each address's `address`, through `Address::iter`), `subject`, and
/// `date` as `DateTime::to_rfc3339`. The result is named, not stated.
#[verifier::external_body]
fn parsed_envelope(raw: &[u8]) -> (r: Option<MimeEnvelope>)
    ensures
        match r {
            Some(e) => mime_envelope(raw@) == Some(e@),
            None => mime_envelope(raw@) is None,
        },
{
    let m = mail_parser::MessageParser::default().parse(raw)?;
    let addrs = |a: Option<&mail_parser::Address>| a.map(|a| a.iter().map(|x| x.address.as_ref().map(|s| s.to_string())).collect());
    Some(MimeEnvelope {
        from: addrs(m.from()),
        to: addrs(m.to()),
        cc: addrs(m.cc()),
        subject: m.subject().map(String::from),
        date: m.date().map(|d| d.to_rfc3339()),
    })
}

/// The MIME type of a part: `type/subtype`, the bare type when there is no
/// subtype, `application/octet-stream` when the part declares none.
pub open spec fn mime_type_of(ctype: Option<(Seq<char>, Option<Seq<char>>)>) -> Seq<char> {
    match ctype {
        Some((t, Some(sub))) => t + "/"@ + sub,
        Some((t, None)) => t,
        None => "application/octet-stream"@,
    }
}

/// The angle brackets around a `Content-ID`.
pub open spec fn angle_brackets() -> Seq<char> {
    seq!['<', '>']
}

/// A disposition of `inline`, in any ASCII case.
pub open spec fn inline_disposition(d: Option<Seq<char>>) -> bool {
    match d {
        Some(x) => eq_ignore_ascii_case(x, "inline"@),
        None => false,
    }
}

/// The attachment a part makes at position `i`: named `(unnamed)` when it
/// has no name, its content id without angle brackets, inline when it has a
/// content id or an `inline` disposition.
pub open spec fn attachment_of(i: nat, p: PartView) -> AttachmentView {
    let cid = match p.content_id {
        Some(c) => Some(trim_end_any(crate::text::trim_start_any(c, angle_brackets()), angle_brackets())),
        None => None,
    };
    AttachmentView {
        index: i,
        name: match p.name {
            Some(n) => n,
            None => "(unnamed)"@,
        },
        mime: mime_type_of(p.ctype),
        size: p.contents.len(),
        inline: cid is Some || inline_disposition(p.disposition),
        cid,
    }
}

/// The attachments parts make, in order.
pub open spec fn attachments_of(ps: Seq<PartView>) -> Seq<AttachmentView> {
    Seq::new(ps.len(), |i: int| attachment_of(i as nat, ps[i]))
}

/// The attachments parts make, with their bytes.
pub open spec fn attachment_pairs(ps: Seq<PartView>) -> Seq<(AttachmentView, Seq<u8>)> {
    Seq::new(ps.len(), |i: int| (attachment_of(i as nat, ps[i]), ps[i].contents))
}

/// Headers with their values trimmed.
pub open spec fn trimmed_headers(hs: Seq<(Seq<char>, Seq<char>)>) -> Seq<(Seq<char>, Seq<char>)> {
    hs.map_values(|h: (Seq<char>, Seq<char>)| (h.0, trim(h.1)))
}

/// The value of the first `X-Dpl-Mailbox` header (any case), else
/// [`UNATTRIBUTED`].
pub open spec fn mailbox_in(hs: Seq<(Seq<char>, Seq<char>)>) -> Seq<char>
    decreases hs.len(),
{
    if hs.len() == 0 {
        UNATTRIBUTED@
    } else if to_lowercase(hs[0].0) == "x-dpl-mailbox"@ {
        hs[0].1
    } else {
        mailbox_in(hs.drop_first())
    }
}

/// The entries that are present, in order.
pub open spec fn present(xs: Seq<Option<Seq<char>>>) -> Seq<Seq<char>>
    decreases xs.len(),
{
    if xs.len() == 0 {
        Seq::empty()
    } else {
        let p = present(xs.drop_last());
        match xs.last() {
            Some(x) => p.push(x),
            None => p,
        }
    }
}

/// An address header as text: its addresses joined with `, `; empty when
/// the header is absent.
pub open spec fn address_text(a: Option<Seq<Option<Seq<char>>>>) -> Seq<char> {
    match a {
        Some(xs) => join(present(xs), ", "@),
        None => Seq::empty(),
    }
}

/// Whether some part is too large to encode as base64 in memory.
pub open spec fn oversized(ps: Seq<PartView>) -> bool {
    exists|i: int| 0 <= i < ps.len() && !b64_fits((#[trigger] ps[i]).contents.len())
}

/// Headers as plain values.
pub open spec fn header_views(v: Seq<(String, String)>) -> Seq<(Seq<char>, Seq<char>)> {
    pair_views(v)
}

/// Attachments as plain values.
pub open spec fn attachment_views(v: Seq<Attachment>) -> Seq<AttachmentView> {
    v.map_values(|a: Attachment| a@)
}

/// `m` is the message `id` of `size` bytes that holds what the parser
/// reported: headers `hs`, parts `ps`, bodies `text` and `html`, envelope
/// `env`. The HTML has its `cid:` images inlined; remote resources and links
/// are read from that HTML and the text.
pub open spec fn message_built(
    m: Message,
    id: Seq<char>,
    size: nat,
    hs: Seq<(Seq<char>, Seq<char>)>,
    ps: Seq<PartView>,
    text: Option<Seq<char>>,
    html: Option<Seq<char>>,
    env: EnvelopeView,
) -> bool {
    let headers = trimmed_headers(hs);
    let shown = match html {
        Some(h) => Some(cid_inlined(h, attachment_pairs(ps))),
        None => None,
    };
    &&& m.id@ == id
    &&& m.size == size
    &&& m.mailbox@ == mailbox_in(headers)
    &&& header_views(m.headers@) == headers
    &&& attachment_views(m.attachments@) == attachments_of(ps)
    &&& crate::sites::opt_view(m.text) == text
    &&& crate::sites::opt_view(m.html) == shown
    &&& m.remote_resources == match shown {
        Some(h) => remote_resource_count(h),
        None => 0,
    }
    &&& crate::text::str_views(m.links@) == message_links(shown, text)
    &&& m.from@ == address_text(env.from)
    &&& m.to@ == address_text(env.to)
    &&& m.cc@ == address_text(env.cc)
    &&& m.subject@ == match env.subject {
        Some(s) => s,
        None => Seq::empty(),
    }
    &&& crate::sites::opt_view(m.date) == env.date
}

fn attachment_from(i: usize, p: &MimePart) -> (r: Attachment)
    ensures
        r@ == attachment_of(i as nat, p@),
{
    let mime = match &p.ctype {
        Some((t, Some(sub))) => {
            let mut m = copy_str(t);
            push_str(&mut m, "/");
            push_str(&mut m, sub.as_str());
            m
        },
        Some((t, None)) => copy_str(t),
        None => String::from_str("application/octet-stream"),
    };
    let brackets: [char; 2] = ['<', '>'];
    assert(brackets@ =~= angle_brackets());
    let cid = match &p.content_id {
        Some(c) => {
            let a = crate::text::trim_start_any_chars(&to_chars(c.as_str()), &brackets);
            Some(from_chars(&trim_end_any_chars(&a, &brackets)))
        },
        None => None,
    };
    let inline_disp = match &p.disposition {
        Some(d) => eq_ignore_case(&to_chars(d.as_str()), &to_chars("inline")),
        None => false,
    };
    let name = match &p.name {
        Some(n) => copy_str(n),
        None => String::from_str("(unnamed)"),
    };
    let inline = cid.is_some() || inline_disp;
    let r = Attachment { index: i, name, mime, size: p.contents.len(), inline, cid };
    assert(r@ =~= attachment_of(i as nat, p@));
    r
}

fn copy_str(s: &String) -> (r: String)
    ensures
        r@ == s@,
{
    String::from_str(s.as_str())
}

fn copy_bytes(b: &Vec<u8>) -> (r: Vec<u8>)
    ensures
        r@ == b@,
{
    let mut out: Vec<u8> = Vec::new();
    let mut i: usize = 0;
    while i < b.len()
        invariant
            i <= b.len(),
            out@ == b@.take(i as int),
        decreases b.len() - i,
    {
        out.push(b[i]);
        i = i + 1;
        assert(out@ =~= b@.take(i as int));
    }
    assert(b@.take(b.len() as int) =~= b@);
    out
}

fn address_text_of(a: &Option<Vec<Option<String>>>) -> (r: String)
    ensures
        r@ == address_text(addr_view(*a)),
{
    match a {
        None => String::new(),
        Some(xs) => {
            let ghost xv = opt_views(xs@);
            let mut parts: Vec<Vec<char>> = Vec::new();
            let mut i: usize = 0;
            assert(xv.take(0) =~= Seq::<Option<Seq<char>>>::empty());
            assert(crate::text::views(parts@) =~= Seq::<Seq<char>>::empty());
            while i < xs.len()
                invariant
                    i <= xs.len(),
                    xv == opt_views(xs@),
                    crate::text::views(parts@) == present(xv.take(i as int)),
                decreases xs.len() - i,
            {
                assert(xv.take(i + 1).drop_last() =~= xv.take(i as int));
                assert(xv.take(i + 1).last() == crate::sites::opt_view(xs@[i as int]));
                match &xs[i] {
                    Some(x) => {
                        let ghost before = crate::text::views(parts@);
                        let c = to_chars(x.as_str());
                        parts.push(c);
                        assert(crate::text::views(parts@) =~= before.push(x@));
                    },
                    None => {},
                }
                i = i + 1;
            }
            assert(xv.take(xs.len() as int) =~= xv);
            from_chars(&crate::text::join_chars(&parts, &to_chars(", ")))
        },
    }
}

/// Build the message `id`, `size` bytes on disk, from what the MIME parser
/// reported of it (see [`message_built`]).
pub fn build_message(
    id: &str,
    size: u64,
    headers: &Vec<(String, String)>,
    parts: &Vec<MimePart>,
    text: Option<String>,
    html: Option<String>,
    envelope: &MimeEnvelope,
) -> (r: Message)
    requires
        !oversized(part_views(parts@)),
    ensures
        message_built(
            r,
            id@,
            size as nat,
            pair_views(headers@),
            part_views(parts@),
            crate::sites::opt_view(text),
            crate::sites::opt_view(html),
            envelope@,
        ),
{
    // Headers, values trimmed, and the mailbox header among them.
    let ghost hv = pair_views(headers@);
    let mut hs: Vec<(String, String)> = Vec::new();
    let mut i: usize = 0;
    while i < headers.len()
        invariant
            i <= headers.len(),
            hv == pair_views(headers@),
            pair_views(hs@) == trimmed_headers(hv).take(i as int),
        decreases headers.len() - i,
    {
        let ghost before = pair_views(hs@);
        hs.push((copy_str(&headers[i].0), crate::text::trim_str(headers[i].1.as_str())));
        assert(pair_views(hs@) =~= before.push((hv[i as int].0, trim(hv[i as int].1))));
        assert(trimmed_headers(hv).take(i + 1) =~= trimmed_headers(hv).take(i as int).push(
            (hv[i as int].0, trim(hv[i as int].1)),
        ));
        i = i + 1;
    }
    assert(trimmed_headers(hv).take(headers.len() as int) =~= trimmed_headers(hv));
    let ghost th = trimmed_headers(hv);
    let mut mailbox = String::from_str(UNATTRIBUTED);
    let mut k: usize = 0;
    assert(th.skip(0) =~= th);
    while k < hs.len()
        invariant_except_break
            mailbox@ == UNATTRIBUTED@,
        invariant
            k <= hs.len(),
            th == pair_views(hs@),
            mailbox_in(th) == mailbox_in(th.skip(k as int)),
        ensures
            mailbox@ == mailbox_in(th),
        decreases hs.len() - k,
    {
        assert(th.skip(k as int)[0] == th[k as int]);
        assert(th.skip(k as int).drop_first() =~= th.skip(k + 1));
        if str_eq(to_lower(hs[k].0.as_str()).as_str(), "x-dpl-mailbox") {
            mailbox = copy_str(&hs[k].1);
            break;
        }
        k = k + 1;
        proof {
            if k == hs.len() {
                assert(th.skip(k as int) =~= Seq::<(Seq<char>, Seq<char>)>::empty());
            }
        }
    }
    // Attachments first: the HTML body needs them to inline `cid:` refs.
    let ghost pv = part_views(parts@);
    let mut atts: Vec<Attachment> = Vec::new();
    let mut pairs: Vec<(Attachment, Vec<u8>)> = Vec::new();
    let mut j: usize = 0;
    while j < parts.len()
        invariant
            j <= parts.len(),
            pv == part_views(parts@),
            !oversized(pv),
            attachment_views(atts@) == attachments_of(pv).take(j as int),
            att_pairs(pairs@) == attachment_pairs(pv).take(j as int),
            forall|q: int| 0 <= q < pairs@.len() ==> b64_fits((#[trigger] pairs@[q]).1@.len()),
        decreases parts.len() - j,
    {
        let ghost a0 = attachment_views(atts@);
        let ghost p0 = att_pairs(pairs@);
        atts.push(attachment_from(j, &parts[j]));
        pairs.push((attachment_from(j, &parts[j]), copy_bytes(&parts[j].contents)));
        assert(attachment_views(atts@) =~= a0.push(attachment_of(j as nat, pv[j as int])));
        assert(att_pairs(pairs@) =~= p0.push((attachment_of(j as nat, pv[j as int]), pv[j as int].contents)));
        assert(attachments_of(pv).take(j + 1) =~= attachments_of(pv).take(j as int).push(attachment_of(j as nat, pv[j as int])));
        assert(attachment_pairs(pv).take(j + 1) =~= attachment_pairs(pv).take(j as int).push(
            (attachment_of(j as nat, pv[j as int]), pv[j as int].contents),
        ));
        assert(b64_fits(pv[j as int].contents.len()));
        j = j + 1;
    }
    assert(attachments_of(pv).take(parts.len() as int) =~= attachments_of(pv));
    assert(attachment_pairs(pv).take(parts.len() as int) =~= attachment_pairs(pv));
    let html = match html {
        Some(h) => Some(inline_cid_images(h.as_str(), pairs.as_slice())),
        None => None,
    };
    let remote_resources = match &html {
        Some(h) => count_remote_resources(h.as_str()),
        None => 0,
    };
    let links = extract_links(
        match &html {
            Some(h) => Some(h.as_str()),
            None => None,
        },
        match &text {
            Some(t) => Some(t.as_str()),
            None => None,
        },
    );
    let subject = match &envelope.subject {
        Some(s) => copy_str(s),
        None => String::new(),
    };
    let date = match &envelope.date {
        Some(d) => Some(copy_str(d)),
        None => None,
    };
    let r = Message {
        id: String::from_str(id),
        mailbox,
        from: address_text_of(&envelope.from),
        to: address_text_of(&envelope.to),
        cc: address_text_of(&envelope.cc),
        subject,
        date,
        size,
        text,
        html,
        remote_resources,
        links,
        attachments: atts,
        headers: hs,
    };
    assert(r.mailbox@ == mailbox_in(trimmed_headers(pair_views(headers@))));
    assert(header_views(r.headers@) == trimmed_headers(pair_views(headers@)));
    assert(attachment_views(r.attachments@) == attachments_of(part_views(parts@)));
    assert(r.from@ == address_text(envelope@.from));
    assert(r.subject@ == match envelope@.subject {
        Some(s) => s,
        None => Seq::<char>::empty(),
    });
    assert(crate::sites::opt_view(r.date) == envelope@.date);
    r
}

/// Parse one captured message, `id`, from its raw bytes: `None` when the
/// MIME parser cannot read it, or when a part is too large to inline as
/// base64 in memory.
pub fn parse_message(id: &str, raw: &[u8]) -> (r: Option<Message>)
    ensures
        r is None <==> (mime_headers(raw@) is None || mime_attachments(raw@) is None || mime_bodies(raw@) is None
            || mime_envelope(raw@) is None || oversized(mime_attachments(raw@)->0)),
        r matches Some(m) ==> message_built(
            m,
            id@,
            raw@.len(),
            mime_headers(raw@)->0,
            mime_attachments(raw@)->0,
            (mime_bodies(raw@)->0).0,
            (mime_bodies(raw@)->0).1,
            mime_envelope(raw@)->0,
        ),
{
    let headers = match parsed_headers(raw) {
        Some(h) => h,
        None => return None,
    };
    let parts = match parsed_attachments(raw) {
        Some(p) => p,
        None => return None,
    };
    let (text, html) = match parsed_bodies(raw) {
        Some(b) => b,
        None => return None,
    };
    let envelope = match parsed_envelope(raw) {
        Some(e) => e,
        None => return None,
    };
    assert(mime_attachments(raw@) == Some(part_views(parts@)));
    let mut i: usize = 0;
    while i < parts.len()
        invariant
            i <= parts.len(),
            mime_headers(raw@) is Some,
            mime_bodies(raw@) is Some,
            mime_envelope(raw@) is Some,
            mime_attachments(raw@) == Some(part_views(parts@)),
            forall|q: int| 0 <= q < i ==> b64_fits((#[trigger] part_views(parts@)[q]).contents.len()),
        decreases parts.len() - i,
    {
        let n = parts[i].contents.len();
        if !(n / 3 <= usize::MAX / 4 && (n % 3 == 0 || (n / 3) * 4 <= usize::MAX - 4)) {
            assert(!b64_fits(part_views(parts@)[i as int].contents.len()));
            assert(oversized(part_views(parts@)));
            return None;
        }
        assert(b64_fits(part_views(parts@)[i as int].contents.len()));
        i = i + 1;
    }
    let size = raw.len() as u64;
    Some(build_message(id, size, &headers, &parts, text, html, &envelope))
}


// ---------------------------------------------------------------- send: SMTP

/// The port the daemon's sink listens on: `DPL_SMTP_PORT` when it parses as
/// a port, else 1025.
pub fn smtp_port(env: Option<&str>) -> (r: u16)
    ensures
        r as nat == match env {
            Some(v) => match crate::text::parse_uint(v@, 0xffff) {
                Some(p) => p,
                None => 1025,
            },
            None => 1025,
        },
{
    match env {
        Some(v) => match crate::text::parse_uint_chars(&to_chars(v), 0xffff) {
            Some(p) => p as u16,
            None => 1025,
        },
        None => 1025,
    }
}

/// Where a `dpl mail send` conversation with the sink stands: the reply it
/// waits for next.
#[derive(Debug, Clone, Copy, PartialEq, Eq, Structural)]
pub enum SmtpStage {
    Greeting,
    Ehlo,
    AuthLogin,
    AuthUser,
    AuthPassword,
    MailFrom,
    RcptTo,
    Data,
    Message,
    Done,
}

/// The reply code each stage waits for.
pub open spec fn expected_code(st: SmtpStage) -> Seq<char> {
    match st {
        SmtpStage::Greeting => "220"@,
        SmtpStage::Ehlo => "250"@,
        SmtpStage::AuthLogin => "334"@,
        SmtpStage::AuthUser => "334"@,
        SmtpStage::AuthPassword => "235"@,
        SmtpStage::MailFrom => "250"@,
        SmtpStage::RcptTo => "250"@,
        SmtpStage::Data => "354"@,
        SmtpStage::Message => "250"@,
        SmtpStage::Done => Seq::empty(),
    }
}

/// A conversation delivering one message to the sink. `mailbox`, when
/// given, is sent as the SMTP username, which files the mail under it.
pub struct SmtpSend {
    pub stage: SmtpStage,
    pub to: String,
    pub from: String,
    pub mailbox: Option<String>,
    /// The composed message.
    pub data: String,
}

/// What to do after a reply: write these lines (each ended with CRLF), or
/// stop because the sink answered something else than expected.
pub enum SmtpAction {
    Send(Vec<String>),
    Fail(String),
}

/// An action as plain values.
pub enum SmtpActionView {
    Send(Seq<Seq<char>>),
    Fail(Seq<char>),
}

/// An action as plain values.
pub open spec fn action_view(a: SmtpAction) -> SmtpActionView {
    match a {
        SmtpAction::Send(ls) => SmtpActionView::Send(ls@.map_values(|l: String| l@)),
        SmtpAction::Fail(m) => SmtpActionView::Fail(m@),
    }
}

/// A message line as sent in DATA: a leading `.` is doubled, so a line of
/// just `.` cannot end the message early.
pub open spec fn dot_stuffed(l: Seq<char>) -> Seq<char> {
    if has_prefix(l, seq!['.']) {
        seq!['.'] + l
    } else {
        l
    }
}

/// The DATA section: each line of the message dot-stuffed, then the lone
/// `.` that ends it.
pub open spec fn data_lines(data: Seq<char>) -> Seq<Seq<char>> {
    crate::text::lines(data).map_values(|l: Seq<char>| dot_stuffed(l)).push(seq!['.'])
}

/// Whether a reply line continues a multiline reply (`250-…`).
pub open spec fn continues(reply: Seq<char>) -> bool {
    reply.len() > 3 && reply[3] == '-'
}

/// The username and password lines of `AUTH LOGIN`, base64-encoded.
pub open spec fn auth_line(s: Seq<char>) -> Seq<char> {
    base64_of(vstd::utf8::encode_utf8(s))
}

/// Where a reply takes the conversation, and what to send: a reply without
/// the expected code stops it; otherwise greeting, EHLO (continuation lines
/// of its reply send nothing), `AUTH LOGIN` with the mailbox as username
/// and `dpl` as password when a mailbox is given, the envelope, and the
/// dot-stuffed message follow in turn, and `QUIT` ends it.
pub open spec fn smtp_next(s: SmtpSend, reply: Seq<char>) -> (SmtpStage, SmtpActionView) {
    let code = expected_code(s.stage);
    if !has_prefix(reply, code) {
        (s.stage, SmtpActionView::Fail("SMTP sink replied `"@ + trim(reply) + "`, expected "@ + code))
    } else {
        match s.stage {
            SmtpStage::Greeting => (SmtpStage::Ehlo, SmtpActionView::Send(seq!["EHLO dpl-cli"@])),
            SmtpStage::Ehlo => if continues(reply) {
                (SmtpStage::Ehlo, SmtpActionView::Send(Seq::empty()))
            } else {
                match s.mailbox {
                    Some(_) => (SmtpStage::AuthLogin, SmtpActionView::Send(seq!["AUTH LOGIN"@])),
                    None => (SmtpStage::MailFrom, SmtpActionView::Send(seq!["MAIL FROM:<"@ + s.from@ + ">"@])),
                }
            },
            SmtpStage::AuthLogin => (
                SmtpStage::AuthUser,
                SmtpActionView::Send(
                    seq![auth_line(
                        match s.mailbox {
                            Some(m) => m@,
                            None => Seq::empty(),
                        },
                    )],
                ),
            ),
            SmtpStage::AuthUser => (SmtpStage::AuthPassword, SmtpActionView::Send(seq![auth_line("dpl"@)])),
            SmtpStage::AuthPassword => (SmtpStage::MailFrom, SmtpActionView::Send(seq!["MAIL FROM:<"@ + s.from@ + ">"@])),
            SmtpStage::MailFrom => (SmtpStage::RcptTo, SmtpActionView::Send(seq!["RCPT TO:<"@ + s.to@ + ">"@])),
            SmtpStage::RcptTo => (SmtpStage::Data, SmtpActionView::Send(seq!["DATA"@])),
            SmtpStage::Data => (SmtpStage::Message, SmtpActionView::Send(data_lines(s.data@))),
            SmtpStage::Message => (SmtpStage::Done, SmtpActionView::Send(seq!["QUIT"@])),
            SmtpStage::Done => (SmtpStage::Done, SmtpActionView::Send(Seq::empty())),
        }
    }
}

impl SmtpSend {
    /// Whether the username can be encoded: its base64 length fits.
    pub open spec fn wf(&self) -> bool {
        self.mailbox matches Some(m) ==> b64_fits(vstd::utf8::encode_utf8(m@).len())
    }

    /// A conversation delivering the message [`compose`] builds, waiting for
    /// the sink's greeting.
    pub fn new(to: &str, from: &str, subject: &str, mailbox: Option<&str>, html: bool, body: Option<&str>) -> (r: SmtpSend)
        requires
            mailbox matches Some(m) ==> b64_fits(vstd::utf8::encode_utf8(m@).len()),
        ensures
            r.wf(),
            r.stage == SmtpStage::Greeting,
            r.to@ == to@,
            r.from@ == from@,
            crate::sites::opt_view(r.mailbox) == crate::node::opt_str(mailbox),
            r.data@ == composed(to@, from@, subject@, html, crate::node::opt_str(body)),
    {
        SmtpSend {
            stage: SmtpStage::Greeting,
            to: String::from_str(to),
            from: String::from_str(from),
            mailbox: match mailbox {
                Some(m) => Some(String::from_str(m)),
                None => None,
            },
            data: compose(to, from, subject, html, body),
        }
    }

    /// Take the sink's next reply line (see [`smtp_next`]).
    pub fn on_reply(&mut self, reply: &str) -> (r: SmtpAction)
        requires
            old(self).wf(),
        ensures
            final(self).wf(),
            final(self).stage == smtp_next(*old(self), reply@).0,
            final(self).to == old(self).to,
            final(self).from == old(self).from,
            final(self).mailbox == old(self).mailbox,
            final(self).data == old(self).data,
            action_view(r) == smtp_next(*old(self), reply@).1,
    {
        let ghost s0 = *self;
        let code: &str = match self.stage {
            SmtpStage::Greeting => "220",
            SmtpStage::Ehlo => "250",
            SmtpStage::AuthLogin => "334",
            SmtpStage::AuthUser => "334",
            SmtpStage::AuthPassword => "235",
            SmtpStage::MailFrom => "250",
            SmtpStage::RcptTo => "250",
            SmtpStage::Data => "354",
            SmtpStage::Message => "250",
            SmtpStage::Done => "",
        };
        proof {
            reveal_strlit("");
        }
        assert(code@ == expected_code(s0.stage));
        if !crate::text::str_starts_with(reply, code) {
            let mut m = String::from_str("SMTP sink replied `");
            push_str(&mut m, crate::text::trim_str(reply).as_str());
            push_str(&mut m, "`, expected ");
            push_str(&mut m, code);
            return SmtpAction::Fail(m);
        }
        let mut out: Vec<String> = Vec::new();
        match self.stage {
            SmtpStage::Greeting => {
                out.push(String::from_str("EHLO dpl-cli"));
                self.stage = SmtpStage::Ehlo;
            },
            SmtpStage::Ehlo => {
                let rc = to_chars(reply);
                if rc.len() > 3 && rc[3] == '-' {
                } else {
                    match &self.mailbox {
                        Some(_) => {
                            out.push(String::from_str("AUTH LOGIN"));
                            self.stage = SmtpStage::AuthLogin;
                        },
                        None => {
                            out.push(envelope_line("MAIL FROM:<", self.from.as_str()));
                            self.stage = SmtpStage::MailFrom;
                        },
                    }
                }
            },
            SmtpStage::AuthLogin => {
                let user: &str = match &self.mailbox {
                    Some(m) => m.as_str(),
                    None => "",
                };
                proof {
                    reveal_strlit("");
                    assert(vstd::utf8::encode_utf8(Seq::<char>::empty()) =~= Seq::<u8>::empty());
                }
                out.push(base64_standard(user.as_bytes()));
                self.stage = SmtpStage::AuthUser;
            },
            SmtpStage::AuthUser => {
                proof {
                    reveal_strlit("dpl");
                }
                let pw = "dpl".as_bytes();
                proof {
                    vstd::string::is_ascii_spec_bytes("dpl");
                    assert(vstd::string::is_ascii("dpl"));
                }
                assert(pw@.len() == 3);
                out.push(base64_standard(pw));
                self.stage = SmtpStage::AuthPassword;
            },
            SmtpStage::AuthPassword => {
                out.push(envelope_line("MAIL FROM:<", self.from.as_str()));
                self.stage = SmtpStage::MailFrom;
            },
            SmtpStage::MailFrom => {
                out.push(envelope_line("RCPT TO:<", self.to.as_str()));
                self.stage = SmtpStage::RcptTo;
            },
            SmtpStage::RcptTo => {
                out.push(String::from_str("DATA"));
                self.stage = SmtpStage::Data;
            },
            SmtpStage::Data => {
                out = stuffed_data(self.data.as_str());
                self.stage = SmtpStage::Message;
            },
            SmtpStage::Message => {
                out.push(String::from_str("QUIT"));
                self.stage = SmtpStage::Done;
            },
            SmtpStage::Done => {},
        }
        assert(match smtp_next(s0, reply@).1 {
            SmtpActionView::Send(ls) => out@.map_values(|l: String| l@) =~= ls,
            _ => false,
        });
        SmtpAction::Send(out)
    }
}

fn envelope_line(verb: &str, addr: &str) -> (r: String)
    ensures
        r@ == verb@ + addr@ + ">"@,
{
    let mut l = String::from_str(verb);
    push_str(&mut l, addr);
    push_str(&mut l, ">");
    l
}

/// The DATA section of a message (see [`data_lines`]).
pub fn stuffed_data(data: &str) -> (r: Vec<String>)
    ensures
        r@.map_values(|l: String| l@) == data_lines(data@),
{
    let ls = crate::text::lines_of(&to_chars(data));
    let ghost lv = crate::text::lines(data@);
    let dot = ['.'];
    assert(dot@ =~= seq!['.']);
    let mut out: Vec<String> = Vec::new();
    let mut i: usize = 0;
    while i < ls.len()
        invariant
            i <= ls.len(),
            lv == crate::text::lines(data@),
            ls@.len() == lv.len(),
            forall|q: int| 0 <= q < ls@.len() ==> (#[trigger] ls@[q])@ == lv[q],
            dot@ == seq!['.'],
            out@.map_values(|l: String| l@) == lv.take(i as int).map_values(|l: Seq<char>| dot_stuffed(l)),
        decreases ls.len() - i,
    {
        let l = &ls[i];
        let line = if starts_with_chars(l, &dot) {
            let mut s = String::from_str(".");
            push_chars_to(&mut s, l);
            s
        } else {
            from_chars(l)
        };
        proof {
            reveal_strlit(".");
        }
        assert(line@ == dot_stuffed(lv[i as int]));
        let ghost before = out@.map_values(|x: String| x@);
        out.push(line);
        assert(out@.map_values(|x: String| x@) =~= before.push(line@));
        assert(lv.take(i + 1) =~= lv.take(i as int).push(lv[i as int]));
        assert(out@.map_values(|x: String| x@) =~= lv.take(i + 1).map_values(|l: Seq<char>| dot_stuffed(l)));
        i = i + 1;
    }
    let ghost before = out@.map_values(|x: String| x@);
    proof {
        reveal_strlit(".");
        assert("."@ =~= seq!['.']);
    }
    out.push(String::from_str("."));
    assert(lv.take(ls.len() as int) =~= lv);
    assert(out@.map_values(|x: String| x@) =~= before.push(seq!['.']));
    out
}

fn push_chars_to(s: &mut String, cs: &[char])
    ensures
        final(s)@ == old(s)@ + cs@,
{
    crate::text::push_chars(s, cs);
}

/// What `dpl mail send` reports once the sink took the message.
pub open spec fn sent_note(subject: Seq<char>, to: Seq<char>, mailbox: Option<Seq<char>>) -> Seq<char> {
    "Sent `"@ + subject + "` \u{2192} "@ + to + match mailbox {
        Some(m) => " (mailbox `"@ + m + "`)"@,
        None => Seq::empty(),
    } + ".\nRun `dpl mail list` to see it."@
}

/// What `dpl mail send` reports once the sink took the message (see
/// [`sent_note`]).
pub fn sent_message(subject: &str, to: &str, mailbox: Option<&str>) -> (r: String)
    ensures
        r@ == sent_note(subject@, to@, crate::node::opt_str(mailbox)),
{
    let mut m = String::from_str("Sent `");
    push_str(&mut m, subject);
    push_str(&mut m, "` \u{2192} ");
    push_str(&mut m, to);
    if let Some(b) = mailbox {
        push_str(&mut m, " (mailbox `");
        push_str(&mut m, b);
        push_str(&mut m, "`)");
    }
    push_str(&mut m, ".\nRun `dpl mail list` to see it.");
    m
}


// ------------------------------------------------------------ the mail folder

/// The message id a file in the mail folder holds: the stem of a `.eml`
/// file name (a name that is only `.eml` is a hidden file, not a message).
pub open spec fn eml_stem_of(name: Seq<char>) -> Option<Seq<char>> {
    match crate::text::rfind(name, seq!['.']) {
        Some(k) => if k > 0 && name.skip(k + 1) == "eml"@ {
            Some(name.take(k))
        } else {
            None
        },
        None => None,
    }
}

/// The message id a file in the mail folder holds (see [`eml_stem_of`]).
pub fn eml_stem(name: &str) -> (r: Option<String>)
    ensures
        crate::sites::opt_view(r) == eml_stem_of(name@),
{
    let cs = to_chars(name);
    let dot = ['.'];
    assert(dot@ =~= seq!['.']);
    match crate::text::rfind_chars(&cs, &dot) {
        Some(k) => {
            proof {
                crate::text::lemma_rfind(cs@, dot@);
            }
            let n = cs.len();
            let ext = slice_chars(&cs, k + 1, n);
            assert(ext@ =~= cs@.skip(k + 1));
            let eml = to_chars("eml");
            if k > 0 && crate::text::chars_eq(&ext, &eml) {
                let stem = slice_chars(&cs, 0, k);
                assert(stem@ =~= cs@.take(k as int));
                Some(from_chars(&stem))
            } else {
                None
            }
        },
        None => None,
    }
}

/// Where `rfind` finds a needle, the needle is.
proof fn lemma_rfind_at(hay: Seq<char>, needle: Seq<char>)
    ensures
        crate::text::rfind(hay, needle) matches Some(k) ==> hay.subrange(k, k + needle.len()) == needle,
    decreases hay.len(),
{
    crate::text::lemma_rfind(hay, needle);
    if !crate::text::has_suffix(hay, needle) && hay.len() > 0 {
        lemma_rfind_at(hay.drop_last(), needle);
        if let Some(k) = crate::text::rfind(hay.drop_last(), needle) {
            crate::text::lemma_rfind(hay.drop_last(), needle);
            assert(hay.subrange(k, k + needle.len()) =~= hay.drop_last().subrange(k, k + needle.len()));
        }
    }
}

/// A message file's name is its id followed by `.eml`.
proof fn lemma_eml_name(name: Seq<char>)
    ensures
        eml_stem_of(name) matches Some(id) ==> name == id + ".eml"@,
{
    reveal_strlit("eml");
    reveal_strlit(".eml");
    if let Some(id) = eml_stem_of(name) {
        let k = crate::text::rfind(name, seq!['.']).unwrap();
        crate::text::lemma_rfind(name, seq!['.']);
        lemma_rfind_at(name, seq!['.']);
        assert(name.subrange(k, k + 1)[0] == name[k]);
        assert(name.skip(k + 1).len() == 3);
        assert(name[k] == '.');
        assert(name =~= name.take(k) + seq!['.'] + name.skip(k + 1));
        assert(".eml"@ =~= seq!['.'] + "eml"@);
        assert(name =~= id + ".eml"@);
    }
}

/// The ids of the messages in the mail folder, newest first: their file
/// names sorted in decreasing order (ids lead with a millisecond timestamp,
/// so the names sort in arrival order).
pub fn message_ids(names: &[String]) -> (r: Vec<String>)
    ensures
        forall|a: int, b: int|
            0 <= a < b < r@.len() ==> crate::text::lex_lt(#[trigger] r@[b]@ + ".eml"@, #[trigger] r@[a]@ + ".eml"@),
        forall|id: Seq<char>|
            #[trigger] crate::text::str_views(r@).contains(id) <==> exists|k: int|
                0 <= k < names@.len() && eml_stem_of(#[trigger] names@[k]@) == Some(id),
{
    // The message files' names, sorted and without repeats.
    let mut acc: Vec<Vec<char>> = Vec::new();
    let mut i: usize = 0;
    while i < names.len()
        invariant
            i <= names.len(),
            crate::text::sorted_unique(crate::text::views(acc@)),
            forall|n: Seq<char>|
                #[trigger] crate::text::views(acc@).contains(n) <==> exists|k: int|
                    0 <= k < i && names@[k]@ == n && (#[trigger] eml_stem_of(names@[k]@)) is Some,
        decreases names.len() - i,
    {
        let ghost before = crate::text::views(acc@);
        let is_eml = eml_stem(names[i].as_str()).is_some();
        if is_eml {
            crate::text::insert_sorted(&mut acc, to_chars(names[i].as_str()));
        }
        proof {
            assert forall|n: Seq<char>| #[trigger] crate::text::views(acc@).contains(n) <==> exists|k: int|
                0 <= k < i + 1 && names@[k]@ == n && (#[trigger] eml_stem_of(names@[k]@)) is Some by {
                if exists|k: int| 0 <= k < i + 1 && names@[k]@ == n && (#[trigger] eml_stem_of(names@[k]@)) is Some {
                    let k = choose|k: int| 0 <= k < i + 1 && names@[k]@ == n && (#[trigger] eml_stem_of(names@[k]@)) is Some;
                    if k < i {
                        assert(before.contains(n));
                    }
                }
                if crate::text::views(acc@).contains(n) && !before.contains(n) {
                    assert(names@[i as int]@ == n && eml_stem_of(names@[i as int]@) is Some);
                }
            }
        }
        i = i + 1;
    }
    let ghost av = crate::text::views(acc@);
    proof {
        reveal_strlit(".eml");
        assert forall|p: int| 0 <= p < av.len() implies eml_stem_of(#[trigger] av[p]) is Some && av[p] == eml_stem_of(
            av[p],
        ).unwrap() + ".eml"@ by {
            assert(av.contains(av[p]));
            let k = choose|k: int| 0 <= k < names@.len() && names@[k]@ == av[p] && (#[trigger] eml_stem_of(names@[k]@)) is Some;
            lemma_eml_name(av[p]);
        }
    }
    let mut out: Vec<String> = Vec::new();
    let mut j: usize = acc.len();
    while j > 0
        invariant
            j <= acc.len(),
            av == crate::text::views(acc@),
            crate::text::sorted_unique(av),
            forall|p: int| 0 <= p < av.len() ==> eml_stem_of(#[trigger] av[p]) is Some && av[p] == eml_stem_of(
                av[p],
            ).unwrap() + ".eml"@,
            out@.len() == acc.len() - j,
            forall|q: int| 0 <= q < out@.len() ==> Some((#[trigger] out@[q])@) == eml_stem_of(av[acc.len() - 1 - q]),
        decreases j,
    {
        j = j - 1;
        assert(eml_stem_of(av[j as int]) is Some);
        let stem = eml_stem(from_chars(&acc[j]).as_str());
        let ghost o0 = out@;
        out.push(stem.unwrap());
        assert forall|q: int| 0 <= q < out@.len() implies Some((#[trigger] out@[q])@) == eml_stem_of(av[acc.len() - 1 - q]) by {
            if q < o0.len() {
                assert(out@[q] == o0[q]);
            }
        }
    }
    proof {
        assert forall|a: int, b: int| 0 <= a < b < out@.len() implies crate::text::lex_lt(
            #[trigger] out@[b]@ + ".eml"@,
            #[trigger] out@[a]@ + ".eml"@,
        ) by {
            let pa = acc.len() - 1 - a;
            let pb = acc.len() - 1 - b;
            assert(eml_stem_of(av[pa]) is Some);
            assert(eml_stem_of(av[pb]) is Some);
            assert(out@[b]@ + ".eml"@ == av[pb]);
            assert(out@[a]@ + ".eml"@ == av[pa]);
        }
        assert forall|id: Seq<char>| #[trigger] crate::text::str_views(out@).contains(id) <==> exists|k: int|
            0 <= k < names@.len() && eml_stem_of(#[trigger] names@[k]@) == Some(id) by {
            if crate::text::str_views(out@).contains(id) {
                let q = choose|q: int| 0 <= q < out@.len() && crate::text::str_views(out@)[q] == id;
                assert(Some(out@[q]@) == eml_stem_of(av[acc.len() - 1 - q]));
                let n = av[acc.len() - 1 - q];
                assert(av.contains(n));
                let k = choose|k: int| 0 <= k < names@.len() && names@[k]@ == n && (#[trigger] eml_stem_of(names@[k]@)) is Some;
                assert(eml_stem_of(names@[k]@) == Some(id));
            }
            if exists|k: int| 0 <= k < names@.len() && eml_stem_of(#[trigger] names@[k]@) == Some(id) {
                let k = choose|k: int| 0 <= k < names@.len() && eml_stem_of(#[trigger] names@[k]@) == Some(id);
                let n = names@[k]@;
                assert(crate::text::views(acc@).contains(n));
                let p = choose|p: int| 0 <= p < av.len() && av[p] == n;
                let q = acc.len() - 1 - p;
                assert(out@[q]@ == id);
                assert(crate::text::str_views(out@)[q] == id);
            }
        }
    }
    out
}

/// Whether a listing keeps a message: in the wanted mailbox, when one is
/// given, and matching the search, when one is given.
pub open spec fn listed(m: Message, mailbox: Option<Seq<char>>, search: Option<Seq<char>>) -> bool {
    (match mailbox {
        Some(w) => m.mailbox@ == w,
        None => true,
    }) && (match search {
        Some(q) => matches_query(m, q),
        None => true,
    })
}

/// The positions of the messages a listing keeps (see [`listed`]), in
/// order.
pub fn select_messages(messages: &[Message], mailbox: Option<&str>, search: Option<&str>) -> (r: Vec<usize>)
    ensures
        forall|k: int| 0 <= k < r@.len() ==> (#[trigger] r@[k]) < messages@.len(),
        forall|a: int, b: int| 0 <= a < b < r@.len() ==> #[trigger] r@[a] < #[trigger] r@[b],
        forall|i: int|
            0 <= i < messages@.len() ==> (r@.contains(i as usize) <==> listed(
                #[trigger] messages@[i],
                crate::node::opt_str(mailbox),
                crate::node::opt_str(search),
            )),
{
    let mut out: Vec<usize> = Vec::new();
    let mut i: usize = 0;
    while i < messages.len()
        invariant
            i <= messages.len(),
            forall|k: int| 0 <= k < out@.len() ==> (#[trigger] out@[k]) < i,
            forall|a: int, b: int| 0 <= a < b < out@.len() ==> #[trigger] out@[a] < #[trigger] out@[b],
            forall|j: int|
                0 <= j < i ==> (out@.contains(j as usize) <==> listed(
                    #[trigger] messages@[j],
                    crate::node::opt_str(mailbox),
                    crate::node::opt_str(search),
                )),
        decreases messages.len() - i,
    {
        let m = &messages[i];
        let in_box = match mailbox {
            Some(w) => str_eq(m.mailbox.as_str(), w),
            None => true,
        };
        let hit = match search {
            Some(q) => m.matches(q),
            None => true,
        };
        let ghost before = out@;
        if in_box && hit {
            out.push(i);
        }
        proof {
            assert forall|j: int| 0 <= j < i + 1 implies (out@.contains(j as usize) <==> listed(
                #[trigger] messages@[j],
                crate::node::opt_str(mailbox),
                crate::node::opt_str(search),
            )) by {
                if j < i {
                    if out@.contains(j as usize) {
                        let k = choose|k: int| 0 <= k < out@.len() && out@[k] == j as usize;
                        if k < before.len() {
                            assert(before[k] == j as usize);
                        }
                    }
                    if before.contains(j as usize) {
                        let k = choose|k: int| 0 <= k < before.len() && before[k] == j as usize;
                        assert(out@[k] == j as usize);
                    }
                } else {
                    if in_box && hit {
                        assert(out@[before.len() as int] == i);
                    } else {
                        if out@.contains(j as usize) {
                            let k = choose|k: int| 0 <= k < out@.len() && out@[k] == j as usize;
                            assert(before[k] < i);
                        }
                    }
                }
            }
        }
        i = i + 1;
    }
    out
}

/// How many messages are filed under `name`.
pub open spec fn mailbox_count(ms: Seq<Message>, name: Seq<char>) -> nat
    decreases ms.len(),
{
    if ms.len() == 0 {
        0
    } else {
        mailbox_count(ms.drop_last(), name) + if ms.last().mailbox@ == name {
            1nat
        } else {
            0nat
        }
    }
}

/// The names in a list of mailbox counts.
pub open spec fn count_names(cs: Seq<(String, usize)>) -> Seq<Seq<char>> {
    cs.map_values(|c: (String, usize)| c.0@)
}

/// The mailboxes the messages are filed under, sorted by name, each with its
/// message count.
pub fn mailbox_counts(messages: &[Message]) -> (r: Vec<(String, usize)>)
    ensures
        forall|a: int, b: int| 0 <= a < b < r@.len() ==> crate::text::lex_lt(#[trigger] r@[a].0@, #[trigger] r@[b].0@),
        forall|k: int| 0 <= k < r@.len() ==> (#[trigger] r@[k]).1 == mailbox_count(messages@, r@[k].0@),
        forall|i: int|
            0 <= i < messages@.len() ==> count_names(r@).contains((#[trigger] messages@[i]).mailbox@),
        forall|k: int| 0 <= k < r@.len() ==> mailbox_count(messages@, (#[trigger] r@[k]).0@) > 0,
{
    let mut names: Vec<Vec<char>> = Vec::new();
    let mut i: usize = 0;
    while i < messages.len()
        invariant
            i <= messages.len(),
            crate::text::sorted_unique(crate::text::views(names@)),
            forall|n: Seq<char>|
                #[trigger] crate::text::views(names@).contains(n) <==> exists|j: int|
                    0 <= j < i && (#[trigger] messages@[j]).mailbox@ == n,
        decreases messages.len() - i,
    {
        let ghost before = crate::text::views(names@);
        crate::text::insert_sorted(&mut names, to_chars(messages[i].mailbox.as_str()));
        proof {
            assert forall|n: Seq<char>| #[trigger] crate::text::views(names@).contains(n) <==> exists|j: int|
                0 <= j < i + 1 && (#[trigger] messages@[j]).mailbox@ == n by {
                if exists|j: int| 0 <= j < i + 1 && (#[trigger] messages@[j]).mailbox@ == n {
                    let j = choose|j: int| 0 <= j < i + 1 && (#[trigger] messages@[j]).mailbox@ == n;
                    if j < i {
                        assert(before.contains(n));
                    }
                }
            }
        }
        i = i + 1;
    }
    let ghost nv = crate::text::views(names@);
    let mut out: Vec<(String, usize)> = Vec::new();
    let mut k: usize = 0;
    while k < names.len()
        invariant
            k <= names.len(),
            nv == crate::text::views(names@),
            out@.len() == k,
            forall|q: int| 0 <= q < k ==> (#[trigger] out@[q]).0@ == nv[q] && out@[q].1 == mailbox_count(messages@, nv[q]),
        decreases names.len() - k,
    {
        let name = from_chars(&names[k]);
        let mut count: usize = 0;
        let mut j: usize = 0;
        while j < messages.len()
            invariant
                j <= messages.len(),
                count == mailbox_count(messages@.take(j as int), name@),
                count <= j,
            decreases messages.len() - j,
        {
            assert(messages@.take(j + 1).drop_last() =~= messages@.take(j as int));
            if str_eq(messages[j].mailbox.as_str(), name.as_str()) {
                count = count + 1;
            }
            j = j + 1;
        }
        assert(messages@.take(messages.len() as int) =~= messages@);
        out.push((name, count));
        k = k + 1;
    }
    proof {
        assert(count_names(out@) =~= nv);
        assert forall|i: int| 0 <= i < messages@.len() implies count_names(out@).contains(
            (#[trigger] messages@[i]).mailbox@,
        ) by {
            let n = messages@[i].mailbox@;
            assert(exists|j: int| 0 <= j < messages@.len() && (#[trigger] messages@[j]).mailbox@ == n);
            assert(nv.contains(n));
        }
        assert forall|q: int| 0 <= q < out@.len() implies mailbox_count(messages@, (#[trigger] out@[q]).0@) > 0 by {
            assert(nv.contains(nv[q]));
            let j = choose|j: int| 0 <= j < messages@.len() && (#[trigger] messages@[j]).mailbox@ == nv[q];
            lemma_count_positive(messages@, nv[q], j);
        }
    }
    out
}

proof fn lemma_count_positive(ms: Seq<Message>, name: Seq<char>, j: int)
    requires
        0 <= j < ms.len(),
        ms[j].mailbox@ == name,
    ensures
        mailbox_count(ms, name) > 0,
    decreases ms.len(),
{
    if j < ms.len() - 1 {
        lemma_count_positive(ms.drop_last(), name, j);
    }
}

/// How a mailbox is labelled in listings: mail without a username as
/// `(no username)`.
pub fn mailbox_label(name: &str) -> (r: &str)
    ensures
        r@ == if name@ == UNATTRIBUTED@ {
            "(no username)"@
        } else {
            name@
        },
{
    if str_eq(name, UNATTRIBUTED) {
        "(no username)"
    } else {
        name
    }
}


// ------------------------------------------------------------------ listings

/// How many of a message's attachments are downloads rather than inline
/// parts.
pub open spec fn download_count(atts: Seq<Attachment>) -> nat
    decreases atts.len(),
{
    if atts.len() == 0 {
        0
    } else {
        download_count(atts.drop_last()) + if atts.last().inline {
            0nat
        } else {
            1nat
        }
    }
}

/// How many of the attachments are downloads (see [`download_count`]).
pub fn downloads(atts: &Vec<Attachment>) -> (r: usize)
    ensures
        r == download_count(atts@),
{
    let mut n: usize = 0;
    let mut i: usize = 0;
    while i < atts.len()
        invariant
            i <= atts.len(),
            n == download_count(atts@.take(i as int)),
            n <= i,
        decreases atts.len() - i,
    {
        assert(atts@.take(i + 1).drop_last() =~= atts@.take(i as int));
        if !atts[i].inline {
            n = n + 1;
        }
        i = i + 1;
    }
    assert(atts@.take(atts.len() as int) =~= atts@);
    n
}

/// The flags a listing shows after a message's subject: ` [html]` when it
/// has an HTML body, and how many downloadable attachments it carries.
pub open spec fn list_flags(has_html: bool, n: nat) -> Seq<char> {
    (if has_html {
        " [html]"@
    } else {
        Seq::empty()
    }) + if n > 0 {
        " ["@ + dec(n) + " attachment"@ + if n == 1 {
            Seq::empty()
        } else {
            "s"@
        } + "]"@
    } else {
        Seq::empty()
    }
}

/// The header of the message listing.
pub open spec fn list_header() -> Seq<char> {
    crate::output::pad_right("ID"@, 24) + "  "@ + crate::output::pad_right("MAILBOX"@, 14) + "  "@
        + crate::output::pad_right("TO"@, 26) + "  SUBJECT"@
}

/// One message's line in the listing: id, mailbox and recipient in
/// columns (the last two cut to fit), then the subject and flags.
pub open spec fn list_line(m: Message) -> Seq<char> {
    crate::output::pad_right(m.id@, 24) + "  "@ + crate::output::pad_right(truncated(m.mailbox@, 14), 14) + "  "@
        + crate::output::pad_right(truncated(m.to@, 26), 26) + "  "@ + m.subject@ + list_flags(
        m.html is Some,
        download_count(m.attachments@),
    )
}

/// The header of the message listing (see [`list_header`]).
pub fn list_heading() -> (r: String)
    ensures
        r@ == list_header(),
{
    let mut l = crate::output::pad_to("ID", 24);
    push_str(&mut l, "  ");
    push_str(&mut l, crate::output::pad_to("MAILBOX", 14).as_str());
    push_str(&mut l, "  ");
    push_str(&mut l, crate::output::pad_to("TO", 26).as_str());
    push_str(&mut l, "  SUBJECT");
    l
}

/// One message's line in the listing (see [`list_line`]).
pub fn list_row(m: &Message) -> (r: String)
    ensures
        r@ == list_line(*m),
{
    let mut l = crate::output::pad_to(m.id.as_str(), 24);
    push_str(&mut l, "  ");
    push_str(&mut l, crate::output::pad_to(truncate(m.mailbox.as_str(), 14).as_str(), 14).as_str());
    push_str(&mut l, "  ");
    push_str(&mut l, crate::output::pad_to(truncate(m.to.as_str(), 26).as_str(), 26).as_str());
    push_str(&mut l, "  ");
    push_str(&mut l, m.subject.as_str());
    if m.html.is_some() {
        push_str(&mut l, " [html]");
    }
    let n = downloads(&m.attachments);
    if n > 0 {
        push_str(&mut l, " [");
        push_str(&mut l, dec_string(n as u64).as_str());
        push_str(&mut l, " attachment");
        if n != 1 {
            push_str(&mut l, "s");
        }
        push_str(&mut l, "]");
    }
    assert(l@ =~= list_line(*m));
    l
}

/// What an empty listing says: no match for the search, an empty mailbox,
/// or no mail at all, with how to send some to the sink on `port`.
pub open spec fn empty_listing(mailbox: Option<Seq<char>>, search: Option<Seq<char>>, port: u16) -> Seq<char> {
    match (mailbox, search) {
        (_, Some(q)) => "No captured mail matching `"@ + q + "`."@,
        (Some(m), None) => "No captured mail in mailbox `"@ + m + "`."@,
        (None, None) => "No captured mail. Point your app's SMTP at 127.0.0.1:"@ + dec(port as nat)
            + " and set MAIL_USERNAME=<site> to file it under that site.\nTry `dpl mail send --html` to capture a sample message."@,
    }
}

/// What an empty listing says (see [`empty_listing`]).
pub fn empty_listing_message(mailbox: Option<&str>, search: Option<&str>, port: u16) -> (r: String)
    ensures
        r@ == empty_listing(crate::node::opt_str(mailbox), crate::node::opt_str(search), port),
{
    match (mailbox, search) {
        (_, Some(q)) => {
            let mut m = String::from_str("No captured mail matching `");
            push_str(&mut m, q);
            push_str(&mut m, "`.");
            m
        },
        (Some(b), None) => {
            let mut m = String::from_str("No captured mail in mailbox `");
            push_str(&mut m, b);
            push_str(&mut m, "`.");
            m
        },
        (None, None) => {
            let mut m = String::from_str("No captured mail. Point your app's SMTP at 127.0.0.1:");
            push_str(&mut m, dec_string(port as u64).as_str());
            push_str(
                &mut m,
                " and set MAIL_USERNAME=<site> to file it under that site.\nTry `dpl mail send --html` to capture a sample message.",
            );
            m
        },
    }
}


/// A message matches a query, ignoring case, whenever its subject, sender,
/// recipients, mailbox or text body contains the query.
pub proof fn lemma_fields_match(m: Message, query: Seq<char>)
    ensures
        contains_seq(to_lowercase(m.subject@), to_lowercase(query)) ==> matches_query(m, query),
        contains_seq(to_lowercase(m.from@), to_lowercase(query)) ==> matches_query(m, query),
        contains_seq(to_lowercase(m.to@), to_lowercase(query)) ==> matches_query(m, query),
        contains_seq(to_lowercase(m.mailbox@), to_lowercase(query)) ==> matches_query(m, query),
        (m.text matches Some(t) && contains_seq(to_lowercase(t@), to_lowercase(query))) ==> matches_query(m, query),
{
}

/// A message with an HTML body matches a query found, ignoring case, in
/// that body's text (its markup stripped).
pub proof fn lemma_html_text_matches(m: Message, query: Seq<char>)
    ensures
        (m.html matches Some(h) && contains_seq(to_lowercase(tags_stripped(h@)), to_lowercase(query))) ==> matches_query(
            m,
            query,
        ),
{
}
} // verus!
