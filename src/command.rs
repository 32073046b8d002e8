//! Operator commands arriving on the chat channel: who may issue them, how
//! they are parsed, and the send, act, edit sequence of a remote command.
use vstd::prelude::*;

use crate::text::{
    after_last, after_word, replace_all, replaced, text_after_last, comma_fields, i64_to_text, int_text, next_word, parse_i64, parsed_i64,
    split_commas, starts_with, take_word, text_eq, trim_start,
};

verus! {

/// A chat-platform user.
pub struct User {
    pub id: i64,
}

/// A chat-platform conversation.
pub struct Chat {
    pub id: i64,
}

/// A chat-platform message.
pub struct Message {
    pub message_id: i64,
    pub from: Option<User>,
    pub chat: Chat,
    pub text: String,
}

/// An update delivered by the chat platform.
pub struct Update {
    pub message: Message,
}

impl Update {
    /// The sender's id, when the message names a sender.
    pub fn user_id(&self) -> (r: Option<i64>)
        ensures
            r == (match self.message.from {
                Some(u) => Some(u.id),
                None => None::<i64>,
            }),
    {
        match &self.message.from {
            Some(u) => Some(u.id),
            None => None,
        }
    }

    pub fn chat_id(&self) -> (r: i64)
        ensures
            r == self.message.chat.id,
    {
        self.message.chat.id
    }

    pub fn text(&self) -> (r: &str)
        ensures
            r@ == self.message.text@,
    {
        self.message.text.as_str()
    }
}

/// The chat platform's answer to a send or an edit.
pub struct MessageResponse {
    pub ok: bool,
    pub result: Option<Message>,
}

/// How a response is logged.
pub open spec fn response_summary(ok: bool, message_id: int, chat_id: int) -> Seq<char> {
    if ok {
        "sent "@ + int_text(message_id) + " to "@ + int_text(chat_id)
    } else {
        "failed"@
    }
}

impl MessageResponse {
    pub fn ok(&self) -> (r: bool)
        ensures
            r == self.ok,
    {
        self.ok
    }

    /// The id of the message sent or edited.
    pub fn message_id(&self) -> (r: i64)
        requires
            self.result is Some,
        ensures
            r == self.result->Some_0.message_id,
    {
        match &self.result {
            Some(m) => m.message_id,
            None => 0,
        }
    }

    /// The chat of the message sent or edited.
    pub fn chat_id(&self) -> (r: i64)
        requires
            self.result is Some,
        ensures
            r == self.result->Some_0.chat.id,
    {
        match &self.result {
            Some(m) => m.chat.id,
            None => 0,
        }
    }

    /// A one-line summary: the message and chat for a success, else `failed`.
    pub fn describe(&self) -> (r: String)
        requires
            self.ok ==> self.result is Some,
        ensures
            self.ok ==> r@ == response_summary(
                true,
                self.result->Some_0.message_id as int,
                self.result->Some_0.chat.id as int,
            ),
            !self.ok ==> r@ == response_summary(false, 0, 0),
    {
        let mut r = String::new();
        if self.ok() {
            r.append("sent ");
            r.append(i64_to_text(self.message_id()).as_str());
            r.append(" to ");
            r.append(i64_to_text(self.chat_id()).as_str());
        } else {
            r.append("failed");
        }
        r
    }
}

// ----------------------------------------------------------------------
// Who may command
// ----------------------------------------------------------------------

/// The integers among `fields`, in order; fields that are not one are
/// skipped.
pub open spec fn parsed_ids(fields: Seq<Seq<char>>) -> Seq<i64>
    decreases fields.len(),
{
    if fields.len() == 0 {
        Seq::empty()
    } else {
        let prev = parsed_ids(fields.drop_last());
        match parsed_i64(fields.last()) {
            Some(v) => prev.push(v),
            None => prev,
        }
    }
}

/// The ids listed, comma-separated, in `s`.
pub open spec fn id_list(s: Seq<char>) -> Seq<i64> {
    parsed_ids(comma_fields(s))
}

/// Reads a comma-separated list of ids, skipping entries that are not one.
pub fn parse_id_list(s: &str) -> (r: Vec<i64>)
    ensures
        r@ == id_list(s@),
{
    let fields = split_commas(s);
    let ghost f = comma_fields(s@);
    let mut r: Vec<i64> = Vec::new();
    let mut i: usize = 0;
    while i < fields.len()
        invariant
            fields@.len() == f.len(),
            forall|k: int| 0 <= k < fields@.len() ==> fields@[k]@ == f[k],
            i <= fields@.len(),
            r@ == parsed_ids(f.subrange(0, i as int)),
        decreases fields.len() - i,
    {
        assert(f.subrange(0, i + 1).drop_last() =~= f.subrange(0, i as int));
        assert(f.subrange(0, i + 1).last() == fields@[i as int]@);
        match parse_i64(fields[i].as_str()) {
            Some(v) => r.push(v),
            None => {},
        }
        i += 1;
    }
    assert(f.subrange(0, fields@.len() as int) =~= f);
    r
}

fn contains_id(ids: &Vec<i64>, id: i64) -> (r: bool)
    ensures
        r == ids@.contains(id),
{
    let mut i: usize = 0;
    while i < ids.len()
        invariant
            i <= ids@.len(),
            forall|k: int| 0 <= k < i ==> ids@[k] != id,
        decreases ids.len() - i,
    {
        if ids[i] == id {
            assert(ids@[i as int] == id);
            return true;
        }
        i += 1;
    }
    false
}

/// Whether an update may command: it names a sender, its chat is trusted,
/// and, when a list of trusted users is given, its sender is on it.
pub open spec fn trusted(update: Update, chat_ids: Seq<char>, user_ids: Seq<char>) -> bool {
    match update.message.from {
        Some(u) => id_list(chat_ids).contains(update.message.chat.id) && (id_list(user_ids).len()
            == 0 || id_list(user_ids).contains(u.id)),
        None => false,
    }
}

/// Checks an update against the trusted chats and users, each given as a
/// comma-separated list of ids.
pub fn is_trusted(update: &Update, trusted_chat_ids: &str, trusted_user_ids: &str) -> (r: bool)
    ensures
        r == trusted(*update, trusted_chat_ids@, trusted_user_ids@),
{
    let user_id = match update.user_id() {
        Some(u) => u,
        None => return false,
    };
    let chats = parse_id_list(trusted_chat_ids);
    if !contains_id(&chats, update.chat_id()) {
        return false;
    }
    let users = parse_id_list(trusted_user_ids);
    users.len() == 0 || contains_id(&users, user_id)
}

// ----------------------------------------------------------------------
// Parsing
// ----------------------------------------------------------------------

/// What an operator update asks for.
pub enum Dispatch {
    /// Nothing: the sender is not trusted, or the command is not known.
    Ignore,
    /// Reply with the deployed version.
    Version,
    /// Reply with this text.
    Reply(String),
    /// Have this device report its status.
    Info(String),
}

/// Whether `word` names the command `name`, possibly addressed to a bot
/// as `name@bot`.
pub open spec fn names_command(word: Seq<char>, name: Seq<char>) -> bool {
    word == name || (name.len() + 1 <= word.len() && word.subrange(0, name.len() + 1 as int)
        == name.push('@'))
}

/// The first word of `s` and what follows it.
pub open spec fn first_word(s: Seq<char>) -> Seq<char> {
    take_word(trim_start(s))
}

pub open spec fn after_first_word(s: Seq<char>) -> Seq<char> {
    after_word(trim_start(s))
}

pub open spec fn usage_message() -> Seq<char> {
    "Argument &lt;device&gt; required"@
}

/// Whether `r` is what the text `text` of a trusted update asks for.
pub open spec fn dispatched(r: Dispatch, text: Seq<char>) -> bool {
    let cmd = first_word(text);
    let arg = first_word(after_first_word(text));
    if cmd.len() > 0 && names_command(cmd, "/version"@) {
        r is Version
    } else if cmd.len() > 0 && names_command(cmd, "/info"@) {
        if arg.len() == 0 {
            r matches Dispatch::Reply(m) && m@ == usage_message()
        } else {
            r matches Dispatch::Info(d) && d@ == arg
        }
    } else {
        r is Ignore
    }
}

fn names_command_exec(word: &str, name: &str, addressed: &str) -> (r: bool)
    requires
        addressed@ == name@.push('@'),
    ensures
        r == names_command(word@, name@),
{
    text_eq(word, name) || starts_with(word, addressed)
}

/// Parses an operator update: unknown senders and commands are ignored,
/// `/version` asks for the version, and `/info <device>` for a device's
/// status, with a usage reply when the device is missing.
pub fn dispatch(update: &Update, trusted_chat_ids: &str, trusted_user_ids: &str) -> (r: Dispatch)
    ensures
        !trusted(*update, trusted_chat_ids@, trusted_user_ids@) ==> r is Ignore,
        trusted(*update, trusted_chat_ids@, trusted_user_ids@) ==> dispatched(
            r,
            update.message.text@,
        ),
{
    if !is_trusted(update, trusted_chat_ids, trusted_user_ids) {
        return Dispatch::Ignore;
    }
    let (cmd, rest) = next_word(update.text());
    if cmd.unicode_len() == 0 {
        return Dispatch::Ignore;
    }
    proof {
        reveal_strlit("/version");
        reveal_strlit("/version@");
        reveal_strlit("/info");
        reveal_strlit("/info@");
    }
    assert("/version@"@ =~= "/version"@.push('@'));
    assert("/info@"@ =~= "/info"@.push('@'));
    if names_command_exec(cmd.as_str(), "/version", "/version@") {
        Dispatch::Version
    } else if names_command_exec(cmd.as_str(), "/info", "/info@") {
        let (device, _) = next_word(rest.as_str());
        if device.unicode_len() == 0 {
            let mut m = String::new();
            m.append("Argument &lt;device&gt; required");
            Dispatch::Reply(m)
        } else {
            Dispatch::Info(device)
        }
    } else {
        Dispatch::Ignore
    }
}

// ----------------------------------------------------------------------
// The remote command
// ----------------------------------------------------------------------

/// The next step of an `/info` command once its device is known.
pub enum InfoStep {
    /// Reply with this text and stop.
    Reply(String),
    /// Send the placeholder, issue the command, then edit the placeholder.
    SendCommand,
}

pub open spec fn not_found_message() -> Seq<char> {
    "Device not found"@
}

pub open spec fn not_configured_message() -> Seq<char> {
    "Device email not configured"@
}

/// The text of the placeholder sent before the command is issued.
pub open spec fn placeholder_message() -> Seq<char> {
    "Sending command"@
}

/// Decides how an `/info` command for `device` goes on: the device must be
/// listed in the comma-separated `devices`, and have a command transport.
pub fn info_step(device: &str, devices: &str, transport_configured: bool) -> (r: InfoStep)
    ensures
        !comma_fields(devices@).contains(device@) ==> (r matches InfoStep::Reply(m) && m@
            == not_found_message()),
        comma_fields(devices@).contains(device@) && !transport_configured ==> (r matches InfoStep::Reply(
            m,
        ) && m@ == not_configured_message()),
        comma_fields(devices@).contains(device@) && transport_configured ==> r is SendCommand,
{
    let fields = split_commas(devices);
    let mut found = false;
    let mut i: usize = 0;
    while i < fields.len()
        invariant
            fields@.len() == comma_fields(devices@).len(),
            forall|k: int| 0 <= k < fields@.len() ==> fields@[k]@ == comma_fields(devices@)[k],
            i <= fields@.len(),
            found == exists|k: int| 0 <= k < i && comma_fields(devices@)[k] == device@,
        decreases fields.len() - i,
    {
        let same = text_eq(fields[i].as_str(), device);
        assert(fields@[i as int]@ == comma_fields(devices@)[i as int]);
        if same {
            found = true;
        }
        proof {
            if !found {
                assert forall|k: int| 0 <= k < i + 1 implies comma_fields(devices@)[k] != device@ by {
                    if k < i {
                        assert(!(0 <= k < i && comma_fields(devices@)[k] == device@));
                    }
                }
            }
        }
        i += 1;
    }
    if !found {
        let mut m = String::new();
        m.append("Device not found");
        return InfoStep::Reply(m);
    }
    if !transport_configured {
        let mut m = String::new();
        m.append("Device email not configured");
        return InfoStep::Reply(m);
    }
    InfoStep::SendCommand
}

/// The placeholder text sent before a remote command is issued.
pub fn placeholder_text() -> (r: String)
    ensures
        r@ == placeholder_message(),
{
    let mut r = String::new();
    r.append("Sending command");
    r
}

/// A placeholder message waiting to be edited with a command's outcome.
pub struct PendingCommand {
    pub chat_id: i64,
    pub message_id: i64,
}

/// An edit of a message's text.
pub struct Edit {
    pub chat_id: i64,
    pub message_id: i64,
    pub text: String,
}

pub open spec fn outcome_message(sent: bool) -> Seq<char> {
    if sent {
        "Command sent"@
    } else {
        "failed to send command"@
    }
}

impl PendingCommand {
    /// The pending command after the placeholder was sent to `chat_id`; none
    /// when the send gave no message id, in which case nothing is issued.
    pub fn after_placeholder(chat_id: i64, sent: Option<i64>) -> (r: Option<PendingCommand>)
        ensures
            match sent {
                Some(id) => r matches Some(p) && p.chat_id == chat_id && p.message_id == id,
                None => r is None,
            },
    {
        match sent {
            Some(id) => Some(PendingCommand { chat_id, message_id: id }),
            None => None,
        }
    }

    /// The edit that reports the command's outcome; it targets the
    /// placeholder and no other message.
    pub fn finish(&self, sent: bool) -> (r: Edit)
        ensures
            r.chat_id == self.chat_id,
            r.message_id == self.message_id,
            r.text@ == outcome_message(sent),
    {
        let mut text = String::new();
        if sent {
            text.append("Command sent");
        } else {
            text.append("failed to send command");
        }
        Edit { chat_id: self.chat_id, message_id: self.message_id, text }
    }
}

/// The reply to `/version`.
pub open spec fn version_message(id: Seq<char>, timestamp: Seq<char>) -> Seq<char> {
    "<code>"@ + id + "</code> at "@ + timestamp
}

pub fn version_reply(id: &str, timestamp: &str) -> (r: String)
    ensures
        r@ == version_message(id@, timestamp@),
{
    let mut r = String::new();
    r.append("<code>");
    r.append(id);
    r.append("</code> at ");
    r.append(timestamp);
    assert(r@ =~= version_message(id@, timestamp@));
    r
}

// ----------------------------------------------------------------------
// The command mail
// ----------------------------------------------------------------------

/// The mail that asks a device to report its status; the placeholders are
/// filled in the order `from`, `to`, `id`, `device`.
pub const COMMAND_MAIL: &'static str = "From: \"Remote Command\" <{{from}}>\r\nTo: \"{{device}}\" <{{to}}>\r\nMessage-ID: <{{id}}>\r\nSubject: Command to report status, {{device}}\r\nMIME-Version: 1.0\r\nContent-Type: text/plain; charset=\"utf-8\"\r\n\r\nReport status, {{device}}.\r\n";

/// The command mail with its placeholders filled.
pub open spec fn command_mail_text(
    from: Seq<char>,
    to: Seq<char>,
    id: Seq<char>,
    device: Seq<char>,
) -> Seq<char> {
    replaced(
        replaced(
            replaced(replaced(COMMAND_MAIL@, "{{from}}"@, from), "{{to}}"@, to),
            "{{id}}"@,
            id,
        ),
        "{{device}}"@,
        device,
    )
}

/// Composes the command mail for `device`.
pub fn command_mail(from: &str, to: &str, id: &str, device: &str) -> (r: String)
    ensures
        r@ == command_mail_text(from@, to@, id@, device@),
{
    proof {
        reveal_strlit("{{from}}");
        reveal_strlit("{{to}}");
        reveal_strlit("{{id}}");
        reveal_strlit("{{device}}");
    }
    let a = replace_all(COMMAND_MAIL, "{{from}}", from);
    let b = replace_all(a.as_str(), "{{to}}", to);
    let c = replace_all(b.as_str(), "{{id}}", id);
    replace_all(c.as_str(), "{{device}}", device)
}

/// The Message-ID of a command mail sent at `timestamp_ms` under the unique
/// `uuid`: `<timestamp>.<uuid>@<domain of the sender>`.
pub open spec fn mail_id_text(timestamp_ms: int, uuid: Seq<char>, domain: Seq<char>) -> Seq<char> {
    int_text(timestamp_ms) + "."@ + uuid + "@"@ + domain
}

/// The Message-ID of a command mail; none when `from` holds no `@`.
pub fn mail_message_id(timestamp_ms: i64, uuid: &str, from: &str) -> (r: Option<String>)
    ensures
        match after_last(from@, '@') {
            Some(domain) => r matches Some(id) && id@ == mail_id_text(
                timestamp_ms as int,
                uuid@,
                domain,
            ),
            None => r is None,
        },
{
    match text_after_last(from, '@') {
        Some(domain) => {
            let mut r = i64_to_text(timestamp_ms);
            r.append(".");
            r.append(uuid);
            r.append("@");
            r.append(domain.as_str());
            Some(r)
        },
        None => None,
    }
}

} // verus!
