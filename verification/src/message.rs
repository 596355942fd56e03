//! The data carried by one conversation entry: a protocol event already
//! parsed into plain values, its local receipt timestamp, and the
//! script-visible projection kept beside the raw text form.

use vstd::prelude::*;
use crate::style::{ScriptTable, ScriptValue};

verus! {

/// A local civil timestamp, captured at receipt or send time.
#[derive(Clone, Copy, Debug, PartialEq, Eq)]
pub struct DateTime {
    pub year: i32,
    pub month: u32,
    pub day: u32,
    pub hour: u32,
    pub minute: u32,
    pub second: u32,
}

/// One piece of protocol-level metadata on an event.
#[derive(Clone, Debug)]
pub struct Tag {
    pub key: String,
    pub value: Option<String>,
}

/// The view of a tag's value: `None`, or the characters.
pub open spec fn spec_tag_value(v: Option<String>) -> Option<Seq<char>> {
    match v {
        Some(s) => Some(s@),
        None => None,
    }
}

/// The protocol commands the router distinguishes; everything else is
/// kept under `Other` with its raw command name.
#[derive(Clone, Debug)]
pub enum IrcCommand {
    Privmsg { target: String, text: String },
    Notice { target: String, text: String },
    Topic { channel: String, topic: Option<String> },
    ChannelMode { channel: String, modes: String },
    Part { channel: String, comment: Option<String> },
    Join { channel: String },
    Other { name: String },
}

/// One fully parsed inbound or outbound protocol event. Metadata that
/// the wire format leaves absent is the empty tag list.
#[derive(Clone, Debug)]
pub struct IrcEvent {
    /// The sender's nickname, when the event's source prefix carries one.
    pub prefix_nick: Option<String>,
    pub command: IrcCommand,
    pub tags: Vec<Tag>,
    /// The canonical raw text form of the event, kept at construction
    /// time for fallback display.
    pub raw: String,
}

/// A message in a buffer: a protocol event with its receipt timestamp
/// and script-visible projection, or a message synthesized by the
/// scripting runtime outside the protocol.
#[derive(Debug)]
pub enum TircMessage {
    Irc { time: DateTime, event: IrcEvent, projection: ScriptValue },
    Lua { time: DateTime, projection: ScriptValue },
}

/// The name of the metadata key that correlates a locally-sent message
/// with its server echo.
pub open spec fn spec_label_key() -> Seq<char> {
    "label"@
}

/// The value of the first `label` tag of a tag list, if one is there.
pub open spec fn spec_first_label(tags: Seq<Tag>) -> Option<Option<Seq<char>>>
    decreases tags.len(),
{
    if tags.len() == 0 {
        None
    } else if tags[0].key@ == spec_label_key() {
        Some(spec_tag_value(tags[0].value))
    } else {
        spec_first_label(tags.drop_first())
    }
}

/// Whether any `label` tag of the list carries exactly this value.
pub open spec fn spec_has_label_value(tags: Seq<Tag>, value: Option<Seq<char>>) -> bool {
    exists|i: int|
        0 <= i < tags.len() && (#[trigger] tags[i]).key@ == spec_label_key() && spec_tag_value(
            tags[i].value,
        ) == value
}

/// The correlation label of a message: only protocol events carry one.
pub open spec fn spec_message_label(m: TircMessage) -> Option<Option<Seq<char>>> {
    match m {
        TircMessage::Irc { event, .. } => spec_first_label(event.tags@),
        _ => None,
    }
}

/// Whether a message already in a buffer matches an incoming label.
pub open spec fn spec_message_has_label(m: TircMessage, value: Option<Seq<char>>) -> bool {
    match m {
        TircMessage::Irc { event, .. } => spec_has_label_value(event.tags@, value),
        _ => false,
    }
}

impl TircMessage {
    /// The script-visible projection of the message.
    pub fn get_lua_message(&self) -> (r: &ScriptValue)
        ensures
            r == match self {
                TircMessage::Irc { projection, .. } => projection,
                TircMessage::Lua { projection, .. } => projection,
            },
    {
        match self {
            TircMessage::Irc { projection, .. } => projection,
            TircMessage::Lua { projection, .. } => projection,
        }
    }
}

/// The name under which a command appears in the script-visible
/// projection.
pub open spec fn spec_command_name(c: IrcCommand) -> Seq<char> {
    match c {
        IrcCommand::Privmsg { .. } => "PRIVMSG"@,
        IrcCommand::Notice { .. } => "NOTICE"@,
        IrcCommand::Topic { .. } => "TOPIC"@,
        IrcCommand::ChannelMode { .. } => "MODE"@,
        IrcCommand::Part { .. } => "PART"@,
        IrcCommand::Join { .. } => "JOIN"@,
        IrcCommand::Other { name } => name@,
    }
}

/// The recipient or channel a command addresses, where it has one.
pub open spec fn spec_command_target(c: IrcCommand) -> Option<Seq<char>> {
    match c {
        IrcCommand::Privmsg { target, .. } => Some(target@),
        IrcCommand::Notice { target, .. } => Some(target@),
        IrcCommand::Topic { channel, .. } => Some(channel@),
        IrcCommand::ChannelMode { channel, .. } => Some(channel@),
        IrcCommand::Part { channel, .. } => Some(channel@),
        IrcCommand::Join { channel } => Some(channel@),
        IrcCommand::Other { .. } => None,
    }
}

/// The free-text payload a command carries, where it has one.
pub open spec fn spec_command_text(c: IrcCommand) -> Option<Seq<char>> {
    match c {
        IrcCommand::Privmsg { text, .. } => Some(text@),
        IrcCommand::Notice { text, .. } => Some(text@),
        IrcCommand::Topic { topic, .. } => spec_tag_value(topic),
        IrcCommand::ChannelMode { modes, .. } => Some(modes@),
        IrcCommand::Part { comment, .. } => spec_tag_value(comment),
        IrcCommand::Join { .. } => None,
        IrcCommand::Other { .. } => None,
    }
}

/// Whether a projection value is exactly this text.
pub open spec fn spec_value_is_str(v: ScriptValue, s: Seq<char>) -> bool {
    match v {
        ScriptValue::Str(x) => x@ == s,
        _ => false,
    }
}

/// Whether a projection value is this optional text, absence being nil.
pub open spec fn spec_value_is_opt_str(v: ScriptValue, o: Option<Seq<char>>) -> bool {
    match o {
        Some(s) => spec_value_is_str(v, s),
        None => v is Nil,
    }
}

/// The shape of the script-visible projection of an event: a record
/// with the command name, the sender, the addressed target, the text
/// payload, and the canonical raw form, absent pieces being nil.
pub open spec fn spec_projection_matches(ev: IrcEvent, p: ScriptValue) -> bool {
    match p {
        ScriptValue::Tbl(t) => {
            &&& t.seq@.len() == 0
            &&& t.rec@.len() == 5
            &&& t.rec@[0].0@ == "command"@
            &&& spec_value_is_str(t.rec@[0].1, spec_command_name(ev.command))
            &&& t.rec@[1].0@ == "sender"@
            &&& spec_value_is_opt_str(t.rec@[1].1, spec_tag_value(ev.prefix_nick))
            &&& t.rec@[2].0@ == "target"@
            &&& spec_value_is_opt_str(t.rec@[2].1, spec_command_target(ev.command))
            &&& t.rec@[3].0@ == "text"@
            &&& spec_value_is_opt_str(t.rec@[3].1, spec_command_text(ev.command))
            &&& t.rec@[4].0@ == "raw"@
            &&& spec_value_is_str(t.rec@[4].1, ev.raw@)
        },
        _ => false,
    }
}

/// The command-name entry of the projection.
fn command_name(c: &IrcCommand) -> (r: String)
    ensures
        r@ == spec_command_name(*c),
{
    match c {
        IrcCommand::Privmsg { .. } => String::from_str("PRIVMSG"),
        IrcCommand::Notice { .. } => String::from_str("NOTICE"),
        IrcCommand::Topic { .. } => String::from_str("TOPIC"),
        IrcCommand::ChannelMode { .. } => String::from_str("MODE"),
        IrcCommand::Part { .. } => String::from_str("PART"),
        IrcCommand::Join { .. } => String::from_str("JOIN"),
        IrcCommand::Other { name } => name.clone(),
    }
}

fn opt_str_value(o: Option<String>) -> (r: ScriptValue)
    ensures
        spec_value_is_opt_str(r, spec_tag_value(o)),
{
    match o {
        Some(s) => ScriptValue::Str(s),
        None => ScriptValue::Nil,
    }
}

/// Builds the script-visible projection of an event, per
/// `spec_projection_matches`.
pub fn event_projection(ev: &IrcEvent) -> (r: ScriptValue)
    ensures
        spec_projection_matches(*ev, r),
{
    let target: Option<String> = match &ev.command {
        IrcCommand::Privmsg { target, .. } => Some(target.clone()),
        IrcCommand::Notice { target, .. } => Some(target.clone()),
        IrcCommand::Topic { channel, .. } => Some(channel.clone()),
        IrcCommand::ChannelMode { channel, .. } => Some(channel.clone()),
        IrcCommand::Part { channel, .. } => Some(channel.clone()),
        IrcCommand::Join { channel } => Some(channel.clone()),
        IrcCommand::Other { .. } => None,
    };
    let text: Option<String> = match &ev.command {
        IrcCommand::Privmsg { text, .. } => Some(text.clone()),
        IrcCommand::Notice { text, .. } => Some(text.clone()),
        IrcCommand::Topic { topic, .. } => match topic {
            Some(t) => Some(t.clone()),
            None => None,
        },
        IrcCommand::ChannelMode { modes, .. } => Some(modes.clone()),
        IrcCommand::Part { comment, .. } => match comment {
            Some(t) => Some(t.clone()),
            None => None,
        },
        IrcCommand::Join { .. } => None,
        IrcCommand::Other { .. } => None,
    };
    let sender: Option<String> = match &ev.prefix_nick {
        Some(n) => Some(n.clone()),
        None => None,
    };
    let mut rec: Vec<(String, ScriptValue)> = Vec::new();
    rec.push((String::from_str("command"), ScriptValue::Str(command_name(&ev.command))));
    rec.push((String::from_str("sender"), opt_str_value(sender)));
    rec.push((String::from_str("target"), opt_str_value(target)));
    rec.push((String::from_str("text"), opt_str_value(text)));
    rec.push((String::from_str("raw"), ScriptValue::Str(ev.raw.clone())));
    ScriptValue::Tbl(ScriptTable { seq: Vec::new(), rec })
}

impl TircMessage {
    /// Wraps a protocol event as a buffer message, capturing the local
    /// timestamp and building the script-visible projection beside the
    /// raw text form.
    pub fn from_message(event: IrcEvent, time: DateTime) -> (r: TircMessage)
        ensures
            r matches TircMessage::Irc { time: t, event: e, projection: p } && t == time && e
                == event && spec_projection_matches(event, p),
    {
        let projection = event_projection(&event);
        TircMessage::Irc { time, event, projection }
    }
}

/// Finds the value of the first `label` tag, per `spec_first_label`.
pub fn first_label(tags: &Vec<Tag>) -> (r: Option<&Option<String>>)
    ensures
        match r {
            Some(v) => spec_first_label(tags@) == Some(spec_tag_value(*v)),
            None => spec_first_label(tags@) is None,
        },
{
    let n = tags.len();
    let mut i: usize = 0;
    proof {
        assert(tags@.skip(0) =~= tags@);
    }
    while i < n
        invariant
            n == tags@.len(),
            0 <= i <= n,
            spec_first_label(tags@) == spec_first_label(tags@.skip(i as int)),
            forall|j: int| 0 <= j < i ==> (#[trigger] tags@[j]).key@ != spec_label_key(),
        decreases n - i,
    {
        proof {
            assert(tags@.skip(i as int).drop_first() =~= tags@.skip(i + 1));
            assert(tags@.skip(i as int)[0] == tags@[i as int]);
        }
        if crate::text::str_eq(tags[i].key.as_str(), "label") {
            return Some(&tags[i].value);
        }
        i = i + 1;
    }
    proof {
        assert(tags@.skip(n as int) =~= Seq::<Tag>::empty());
    }
    None
}

/// Whether two optional tag values are the same.
pub fn tag_value_eq(a: &Option<String>, b: &Option<String>) -> (r: bool)
    ensures
        r == (spec_tag_value(*a) == spec_tag_value(*b)),
{
    match (a, b) {
        (Some(x), Some(y)) => crate::text::str_eq(x.as_str(), y.as_str()),
        (None, None) => true,
        _ => false,
    }
}

/// Whether any `label` tag of the list carries this value, per
/// `spec_has_label_value`.
pub fn has_label_value(tags: &Vec<Tag>, value: &Option<String>) -> (r: bool)
    ensures
        r == spec_has_label_value(tags@, spec_tag_value(*value)),
{
    let n = tags.len();
    let mut i: usize = 0;
    while i < n
        invariant
            n == tags@.len(),
            0 <= i <= n,
            forall|j: int|
                0 <= j < i ==> !((#[trigger] tags@[j]).key@ == spec_label_key() && spec_tag_value(
                    tags@[j].value,
                ) == spec_tag_value(*value)),
        decreases n - i,
    {
        if crate::text::str_eq(tags[i].key.as_str(), "label") && tag_value_eq(
            &tags[i].value,
            value,
        ) {
            return true;
        }
        i = i + 1;
    }
    false
}

} // verus!
