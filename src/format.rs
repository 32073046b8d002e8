//! Rendering of device events into the HTML markup of the chat channel.
use vstd::prelude::*;

use crate::text::{escape_html, escaped, i64_to_text, int_text};

verus! {

/// A verification code: up to one alphanumeric character and a hyphen, then
/// four to eight ASCII digits, with no digit directly before or after.
/// The code itself is the first capture group.
pub const CODE_PATTERN: &'static str =
    "(?:^|[^[:digit:]])((?:[[:alnum:]]-)?[[:digit:]]{4,8})(?:$|[^[:digit:]])";

/// The character range of the first capture group in the leftmost-first
/// match of the regular expression `pattern` in `s`; none when the pattern
/// does not compile, does not match, or the group takes no part.
pub uninterp spec fn first_group_span(pattern: Seq<char>, s: Seq<char>) -> Option<(int, int)>;

/// Relies on `regex::Regex::new` to compile `pattern` and on
/// `regex::Regex::captures` for its leftmost-first match in `s`; the text is
/// handed back cut at the first capture group.
#[verifier::external_body]
fn first_group(pattern: &str, s: &str) -> (r: Option<(String, String, String)>)
    ensures
        match r {
            Some(parts) => parts.0@ + parts.1@ + parts.2@ == s@ && first_group_span(pattern@, s@)
                == Some((parts.0@.len() as int, (parts.0@.len() + parts.1@.len()) as int)),
            None => first_group_span(pattern@, s@) is None,
        },
{
    let re = regex::Regex::new(pattern).ok()?;
    let m = re.captures(s)?.get(1)?;
    Some((s[..m.start()].to_string(), m.as_str().to_string(), s[m.end()..].to_string()))
}

/// The markup that brackets a highlighted code.
pub open spec fn marked(code: Seq<char>) -> Seq<char> {
    " 👉 <code>"@ + code + "</code> 👈 "@
}

/// `s` with the characters in `span` highlighted.
pub open spec fn highlighted(s: Seq<char>, span: Option<(int, int)>) -> Seq<char> {
    match span {
        Some((i, j)) => s.subrange(0, i) + marked(s.subrange(i, j)) + s.subrange(j, s.len() as int),
        None => s,
    }
}

/// `s` with the first verification code in it highlighted.
pub open spec fn code_highlighted(s: Seq<char>) -> Seq<char> {
    highlighted(s, first_group_span(CODE_PATTERN@, s))
}

/// Joins text cut around a code, with the code highlighted.
pub fn mark_code(before: &str, code: &str, after: &str) -> (r: String)
    ensures
        r@ == before@ + marked(code@) + after@,
{
    let mut r = String::new();
    r.append(before);
    r.append(" 👉 <code>");
    r.append(code);
    r.append("</code> 👈 ");
    r.append(after);
    assert(r@ =~= before@ + marked(code@) + after@);
    r
}

/// Highlights the first verification code in `s`, if there is one.
pub fn highlight_code(s: &str) -> (r: String)
    ensures
        r@ == code_highlighted(s@),
{
    match first_group(CODE_PATTERN, s) {
        Some(parts) => {
            let r = mark_code(parts.0.as_str(), parts.1.as_str(), parts.2.as_str());
            let ghost i = parts.0@.len() as int;
            let ghost j = i + parts.1@.len();
            assert(s@.subrange(0, i) =~= parts.0@);
            assert(s@.subrange(i, j) =~= parts.1@);
            assert(s@.subrange(j, s@.len() as int) =~= parts.2@);
            r
        },
        None => s.to_owned(),
    }
}

/// A message-filter notification: who sent the message, and its text.
pub struct AppleMessageFilterQuery {
    pub sender: String,
    pub text: String,
}

/// The notification for a message forwarded by `device`.
pub open spec fn forward_message(device: Seq<char>, sender: Seq<char>, text: Seq<char>) -> Seq<
    char,
> {
    device + " <code>"@ + escaped(sender) + "</code>\n\n"@ + code_highlighted(escaped(text))
}

impl AppleMessageFilterQuery {
    pub fn sender(&self) -> (r: &str)
        ensures
            r@ == self.sender@,
    {
        self.sender.as_str()
    }

    pub fn text(&self) -> (r: &str)
        ensures
            r@ == self.text@,
    {
        self.text.as_str()
    }

    /// Renders the message as forwarded by `device`: sender and text are
    /// escaped, and the first verification code of the text is highlighted.
    pub fn render(&self, device: &str) -> (r: String)
        ensures
            r@ == forward_message(device@, self.sender@, self.text@),
    {
        let sender = escape_html(self.sender());
        let text = highlight_code(escape_html(self.text()).as_str());
        let mut r = String::new();
        r.append(device);
        r.append(" <code>");
        r.append(sender.as_str());
        r.append("</code>\n\n");
        r.append(text.as_str());
        assert(r@ =~= forward_message(device@, self.sender@, self.text@));
        r
    }
}

/// A battery report.
pub struct StatusReport {
    pub battery: i32,
    pub charger: bool,
}

/// The notification for a battery report of `device`.
pub open spec fn status_message(device: Seq<char>, battery: int, charging: bool) -> Seq<char> {
    (if charging {
        "⚡️"@
    } else {
        "🔋"@
    }) + " "@ + device + " "@ + int_text(battery) + "% "@ + (if charging {
        "charging"@
    } else {
        "discharging"@
    })
}

impl StatusReport {
    /// Renders the report of `device`; symbol and wording follow whether it
    /// is charging.
    pub fn render(&self, device: &str) -> (r: String)
        ensures
            r@ == status_message(device@, self.battery as int, self.charger),
    {
        let mut r = String::new();
        if self.charger {
            r.append("⚡️");
        } else {
            r.append("🔋");
        }
        r.append(" ");
        r.append(device);
        r.append(" ");
        r.append(i64_to_text(self.battery as i64).as_str());
        r.append("% ");
        if self.charger {
            r.append("charging");
        } else {
            r.append("discharging");
        }
        assert(r@ =~= status_message(device@, self.battery as int, self.charger));
        r
    }
}

/// The notification echoing a body that matched no known shape.
pub open spec fn unknown_message(device: Seq<char>, body: Seq<char>) -> Seq<char> {
    device + "\n\n<pre>"@ + escaped(body) + "</pre>"@
}

/// Renders a body of `device` that matched no known shape, escaped and
/// preformatted.
pub fn render_unknown(device: &str, body: &str) -> (r: String)
    ensures
        r@ == unknown_message(device@, body@),
{
    let mut r = String::new();
    r.append(device);
    r.append("\n\n<pre>");
    r.append(escape_html(body).as_str());
    r.append("</pre>");
    assert(r@ =~= unknown_message(device@, body@));
    r
}

} // verus!
