//! The input/command state machine: key events interpreted against the
//! current mode, the text command grammar, and the outbound protocol
//! commands and local effects they produce. Network sends and the line
//! editor live outside; the machine receives the line's current value
//! and hands back what to do.

use vstd::prelude::*;
use crate::message::{DateTime, IrcCommand, IrcEvent, Tag, TircMessage};
use crate::message::{spec_projection_matches, spec_tag_value};
use crate::state::{Mode, State, StateModel, User};
use crate::text::{spec_is_blank, spec_u64_string};

verus! {

/// The keys the state machine distinguishes; everything else is
/// `Other` and at most forwarded to the line editor.
#[derive(Clone, Copy, Debug, PartialEq, Eq)]
pub enum KeyCode {
    Char(char),
    Tab,
    BackTab,
    Esc,
    Enter,
    Other,
}

/// One key press.
#[derive(Clone, Copy, Debug, PartialEq, Eq)]
pub struct KeyEvent {
    pub code: KeyCode,
}

/// One item of the serialized event stream the session loop consumes.
#[derive(Debug)]
pub enum Event<I> {
    Input(I),
    Message(Box<IrcEvent>),
    Tick,
}

/// The source of correlation labels: a monotonically increasing
/// counter, process-lifetime unique, starting at 1.
#[derive(Clone, Copy, Debug, PartialEq, Eq)]
pub struct LabelCounter {
    pub next: u64,
}

impl LabelCounter {
    pub fn new() -> (r: LabelCounter)
        ensures
            r.next == 1,
    {
        LabelCounter { next: 1 }
    }

    /// Draws the next label value.
    pub fn get_id(&mut self) -> (id: u64)
        requires
            old(self).next < u64::MAX,
        ensures
            id == old(self).next,
            final(self).next == old(self).next + 1,
    {
        let id = self.next;
        self.next = self.next + 1;
        id
    }
}

/// A command the session asks the protocol client to transmit.
#[derive(Clone, Debug)]
pub enum OutboundCommand {
    /// A direct message, tagged with a fresh correlation label.
    Privmsg { target: String, text: String, label: String },
    Notice { target: String, text: String },
    Quit { message: String },
    Join { channel: String },
    Part { channel: String },
    Nick { nickname: String },
    Whois { nickname: String },
    List,
}

pub ghost enum OutboundModel {
    Privmsg { target: Seq<char>, text: Seq<char>, label: Seq<char> },
    Notice { target: Seq<char>, text: Seq<char> },
    Quit { message: Seq<char> },
    Join { channel: Seq<char> },
    Part { channel: Seq<char> },
    Nick { nickname: Seq<char> },
    Whois { nickname: Seq<char> },
    List,
}

impl View for OutboundCommand {
    type V = OutboundModel;

    open spec fn view(&self) -> OutboundModel {
        match self {
            OutboundCommand::Privmsg { target, text, label } => OutboundModel::Privmsg {
                target: target@,
                text: text@,
                label: label@,
            },
            OutboundCommand::Notice { target, text } => OutboundModel::Notice {
                target: target@,
                text: text@,
            },
            OutboundCommand::Quit { message } => OutboundModel::Quit { message: message@ },
            OutboundCommand::Join { channel } => OutboundModel::Join { channel: channel@ },
            OutboundCommand::Part { channel } => OutboundModel::Part { channel: channel@ },
            OutboundCommand::Nick { nickname } => OutboundModel::Nick { nickname: nickname@ },
            OutboundCommand::Whois { nickname } => OutboundModel::Whois { nickname: nickname@ },
            OutboundCommand::List => OutboundModel::List,
        }
    }
}

/// The views of a command list, in order.
pub open spec fn commands_view(s: Seq<OutboundCommand>) -> Seq<OutboundModel> {
    s.map(|i: int, c: OutboundCommand| c@)
}

/// One parsed text command, or `Ignored` for anything malformed or
/// unknown — those are silently dropped, with no state change.
#[derive(Clone, Debug)]
pub enum ParsedCommand {
    Message { target: String, message: Option<String> },
    MeAction { message: String },
    Describe { target: String, message: String },
    Notice { target: String, message: String },
    Quit,
    Join { channel: String },
    Part { channel: String },
    Nick { nickname: String },
    Whois { nickname: String },
    List,
    Ignored,
}

pub ghost enum CommandModel {
    Message { target: Seq<char>, message: Option<Seq<char>> },
    MeAction { message: Seq<char> },
    Describe { target: Seq<char>, message: Seq<char> },
    Notice { target: Seq<char>, message: Seq<char> },
    Quit,
    Join { channel: Seq<char> },
    Part { channel: Seq<char> },
    Nick { nickname: Seq<char> },
    Whois { nickname: Seq<char> },
    List,
    Ignored,
}

impl View for ParsedCommand {
    type V = CommandModel;

    open spec fn view(&self) -> CommandModel {
        match self {
            ParsedCommand::Message { target, message } => CommandModel::Message {
                target: target@,
                message: spec_tag_value(*message),
            },
            ParsedCommand::MeAction { message } => CommandModel::MeAction { message: message@ },
            ParsedCommand::Describe { target, message } => CommandModel::Describe {
                target: target@,
                message: message@,
            },
            ParsedCommand::Notice { target, message } => CommandModel::Notice {
                target: target@,
                message: message@,
            },
            ParsedCommand::Quit => CommandModel::Quit,
            ParsedCommand::Join { channel } => CommandModel::Join { channel: channel@ },
            ParsedCommand::Part { channel } => CommandModel::Part { channel: channel@ },
            ParsedCommand::Nick { nickname } => CommandModel::Nick { nickname: nickname@ },
            ParsedCommand::Whois { nickname } => CommandModel::Whois { nickname: nickname@ },
            ParsedCommand::List => CommandModel::List,
            ParsedCommand::Ignored => CommandModel::Ignored,
        }
    }
}

/// The first whitespace-delimited token and the remainder: everything
/// before the first space, and everything after it, if a space is
/// there at all.
pub open spec fn spec_split_first_space(s: Seq<char>) -> (Seq<char>, Option<Seq<char>>) {
    match crate::text::spec_find_char(s, ' ') {
        Some(i) => (s.take(i), Some(s.skip(i + 1))),
        None => (s, None),
    }
}

/// Splits at the first space, per `spec_split_first_space`.
pub fn split_first_space(s: &str) -> (r: (&str, Option<&str>))
    ensures
        r.0@ == spec_split_first_space(s@).0,
        match r.1 {
            Some(t) => spec_split_first_space(s@).1 == Some(t@),
            None => spec_split_first_space(s@).1 is None,
        },
{
    let n: usize = s.unicode_len();
    match crate::text::find_char(s, ' ') {
        Some(i) => {
            let head = s.substring_char(0, i);
            let tail = s.substring_char(i + 1, n);
            proof {
                assert(head@ =~= s@.take(i as int));
                assert(tail@ =~= s@.skip(i + 1));
            }
            (head, Some(tail))
        },
        None => (s, None),
    }
}

/// The command grammar: the first token picks the command, the rest is
/// split as that command asks. An unknown name, or one with its
/// arguments missing, parses to `Ignored`.
pub open spec fn spec_parse_command(s: Seq<char>) -> CommandModel {
    let (head, rest) = spec_split_first_space(s);
    if head == "m"@ || head == "msg"@ {
        if rest is Some {
            let (target, message) = spec_split_first_space(rest->Some_0);
            CommandModel::Message { target, message }
        } else {
            CommandModel::Ignored
        }
    } else if head == "me"@ {
        if rest is Some {
            CommandModel::MeAction { message: rest->Some_0 }
        } else {
            CommandModel::Ignored
        }
    } else if head == "desc"@ || head == "describe"@ {
        if rest is Some {
            let (target, message) = spec_split_first_space(rest->Some_0);
            if message is Some {
                CommandModel::Describe { target, message: message->Some_0 }
            } else {
                CommandModel::Ignored
            }
        } else {
            CommandModel::Ignored
        }
    } else if head == "notice"@ {
        if rest is Some {
            let (target, message) = spec_split_first_space(rest->Some_0);
            if message is Some {
                CommandModel::Notice { target, message: message->Some_0 }
            } else {
                CommandModel::Ignored
            }
        } else {
            CommandModel::Ignored
        }
    } else if head == "q"@ || head == "quit"@ {
        if rest is None {
            CommandModel::Quit
        } else {
            CommandModel::Ignored
        }
    } else if head == "j"@ || head == "join"@ {
        if rest is Some {
            CommandModel::Join { channel: rest->Some_0 }
        } else {
            CommandModel::Ignored
        }
    } else if head == "p"@ || head == "part"@ {
        if rest is Some {
            CommandModel::Part { channel: rest->Some_0 }
        } else {
            CommandModel::Ignored
        }
    } else if head == "n"@ || head == "nick"@ {
        if rest is Some {
            CommandModel::Nick { nickname: rest->Some_0 }
        } else {
            CommandModel::Ignored
        }
    } else if head == "whois"@ {
        if rest is Some {
            CommandModel::Whois { nickname: rest->Some_0 }
        } else {
            CommandModel::Ignored
        }
    } else if head == "list"@ {
        if rest is None {
            CommandModel::List
        } else {
            CommandModel::Ignored
        }
    } else {
        CommandModel::Ignored
    }
}

/// Parses one line of command-mode input, per `spec_parse_command`.
#[verifier::rlimit(30)]
pub fn parse_command(input: &str) -> (r: ParsedCommand)
    ensures
        r@ == spec_parse_command(input@),
{
    let (head, rest) = split_first_space(input);
    if crate::text::str_eq(head, "m") || crate::text::str_eq(head, "msg") {
        match rest {
            Some(rest) => {
                let (target, message) = split_first_space(rest);
                ParsedCommand::Message {
                    target: target.to_owned(),
                    message: match message {
                        Some(m) => Some(m.to_owned()),
                        None => None,
                    },
                }
            },
            None => ParsedCommand::Ignored,
        }
    } else if crate::text::str_eq(head, "me") {
        match rest {
            Some(rest) => ParsedCommand::MeAction { message: rest.to_owned() },
            None => ParsedCommand::Ignored,
        }
    } else if crate::text::str_eq(head, "desc") || crate::text::str_eq(head, "describe") {
        match rest {
            Some(rest) => {
                let (target, message) = split_first_space(rest);
                match message {
                    Some(m) => ParsedCommand::Describe {
                        target: target.to_owned(),
                        message: m.to_owned(),
                    },
                    None => ParsedCommand::Ignored,
                }
            },
            None => ParsedCommand::Ignored,
        }
    } else if crate::text::str_eq(head, "notice") {
        match rest {
            Some(rest) => {
                let (target, message) = split_first_space(rest);
                match message {
                    Some(m) => ParsedCommand::Notice {
                        target: target.to_owned(),
                        message: m.to_owned(),
                    },
                    None => ParsedCommand::Ignored,
                }
            },
            None => ParsedCommand::Ignored,
        }
    } else if crate::text::str_eq(head, "q") || crate::text::str_eq(head, "quit") {
        match rest {
            Some(_) => ParsedCommand::Ignored,
            None => ParsedCommand::Quit,
        }
    } else if crate::text::str_eq(head, "j") || crate::text::str_eq(head, "join") {
        match rest {
            Some(rest) => ParsedCommand::Join { channel: rest.to_owned() },
            None => ParsedCommand::Ignored,
        }
    } else if crate::text::str_eq(head, "p") || crate::text::str_eq(head, "part") {
        match rest {
            Some(rest) => ParsedCommand::Part { channel: rest.to_owned() },
            None => ParsedCommand::Ignored,
        }
    } else if crate::text::str_eq(head, "n") || crate::text::str_eq(head, "nick") {
        match rest {
            Some(rest) => ParsedCommand::Nick { nickname: rest.to_owned() },
            None => ParsedCommand::Ignored,
        }
    } else if crate::text::str_eq(head, "whois") {
        match rest {
            Some(rest) => ParsedCommand::Whois { nickname: rest.to_owned() },
            None => ParsedCommand::Ignored,
        }
    } else if crate::text::str_eq(head, "list") {
        match rest {
            Some(_) => ParsedCommand::Ignored,
            None => ParsedCommand::List,
        }
    } else {
        ParsedCommand::Ignored
    }
}

/// The action-formatted payload: the message wrapped in the CTCP
/// ACTION envelope.
pub open spec fn spec_action_text(message: Seq<char>) -> Seq<char> {
    "\u{1}ACTION "@ + message + "\u{1}"@
}

/// Wraps a message as an action, per `spec_action_text`.
pub fn action_text(message: &str) -> (r: String)
    ensures
        r@ == spec_action_text(message@),
{
    let mut r = String::from_str("\u{1}ACTION ");
    r.append(message);
    r.append("\u{1}");
    r
}

/// The canonical raw text form of an outbound labelled direct message.
pub open spec fn spec_privmsg_raw(label: Seq<char>, target: Seq<char>, text: Seq<char>) -> Seq<
    char,
> {
    "@label="@ + label + " PRIVMSG "@ + target + " :"@ + text + "\r\n"@
}

/// The shape of a locally-composed direct message: no source prefix,
/// the one `label` tag carrying this label, and the canonical raw form.
pub open spec fn spec_outbound_privmsg_event(
    ev: IrcEvent,
    target: Seq<char>,
    text: Seq<char>,
    label: Seq<char>,
) -> bool {
    &&& ev.prefix_nick is None
    &&& ev.command matches IrcCommand::Privmsg { target: t, text: x } && t@ == target && x@
        == text
    &&& ev.tags@.len() == 1
    &&& ev.tags@[0].key@ == "label"@
    &&& spec_tag_value(ev.tags@[0].value) == Some(label)
    &&& ev.raw@ == spec_privmsg_raw(label, target, text)
}

/// The shape of the provisional entry appended for a locally-composed
/// message before its server echo arrives.
pub open spec fn spec_provisional(
    m: TircMessage,
    target: Seq<char>,
    text: Seq<char>,
    label: Seq<char>,
    now: DateTime,
) -> bool {
    m matches TircMessage::Irc { time, event, projection } && time == now
        && spec_outbound_privmsg_event(event, target, text, label) && spec_projection_matches(
        event,
        projection,
    )
}

/// Builds the event for an outbound labelled direct message, per
/// `spec_outbound_privmsg_event`.
pub fn make_privmsg_event(target: &str, text: &str, label: String) -> (r: IrcEvent)
    ensures
        spec_outbound_privmsg_event(r, target@, text@, label@),
{
    let mut raw = String::from_str("@label=");
    raw.append(label.as_str());
    raw.append(" PRIVMSG ");
    raw.append(target);
    raw.append(" :");
    raw.append(text);
    raw.append("\r\n");
    let mut tags: Vec<Tag> = Vec::new();
    tags.push(Tag { key: String::from_str("label"), value: Some(label) });
    IrcEvent {
        prefix_nick: None,
        command: IrcCommand::Privmsg { target: target.to_owned(), text: text.to_owned() },
        tags,
        raw,
    }
}

/// What a command-mode confirmation asks the session loop to do.
pub struct CommandOutcome {
    /// The protocol commands to transmit, in order.
    pub commands: Vec<OutboundCommand>,
    /// Whether the session should terminate.
    pub quit: bool,
}

/// What one consumed event asks the session loop to do.
pub struct EventOutcome {
    /// The protocol commands to transmit, in order.
    pub commands: Vec<OutboundCommand>,
    /// Clear the input line editor.
    pub reset_input: bool,
    /// Hand the key to the line editor instead.
    pub forward_key: bool,
    /// Fire the scripting runtime's `message` hook for this event.
    pub emit_message_event: bool,
    /// Whether the session should terminate.
    pub quit: bool,
}

/// The digit keys jump straight to a buffer, in any mode.
pub open spec fn spec_is_digit_key(code: KeyCode) -> bool {
    code matches KeyCode::Char(c) && '0' <= c && c <= '9'
}

/// Consumes key input and protocol events against the session state,
/// producing outbound commands and local effects. The label counter
/// for echo correlation lives here.
pub struct InputHandler {
    pub counter: LabelCounter,
}

impl InputHandler {
    pub fn new() -> (r: InputHandler)
        ensures
            r.counter.next == 1,
    {
        InputHandler { counter: LabelCounter::new() }
    }

    /// Whether a key is a digit key.
    pub fn key_code_is_digit(key_code: KeyCode) -> (r: bool)
        ensures
            r == spec_is_digit_key(key_code),
    {
        match key_code {
            KeyCode::Char(c) => '0' <= c && c <= '9',
            _ => false,
        }
    }

    /// The numeric value of a digit key; any other key is zero. A
    /// non-digit character key is the caller's error.
    pub fn get_key_code_as_digit(key_code: KeyCode) -> (r: u8)
        requires
            key_code matches KeyCode::Char(c) ==> '0' <= c && c <= '9',
        ensures
            r == match key_code {
                KeyCode::Char(c) => c as int - '0' as int,
                _ => 0,
            },
    {
        match key_code {
            KeyCode::Char(c) => (c as u8) - ('0' as u8),
            _ => 0,
        }
    }

    /// Sends one labelled direct message: draws a fresh label, records
    /// the provisional echo in the session state, and queues the wire
    /// command carrying the same label.
    fn send_with_echo(
        &mut self,
        state: &mut State,
        target: &str,
        text: &str,
        now: DateTime,
        commands: &mut Vec<OutboundCommand>,
    )
        requires
            old(state)@.wf(),
            old(self).counter.next < u64::MAX,
        ensures
            final(self).counter.next == old(self).counter.next + 1,
            exists|em: TircMessage|
                #[trigger] spec_provisional(
                    em,
                    target@,
                    text@,
                    spec_u64_string(old(self).counter.next as nat),
                    now,
                ) && final(state)@ == old(state)@.deliver(em),
            final(state)@.wf(),
            commands_view(final(commands)@) == commands_view(old(commands)@).push(
                OutboundModel::Privmsg {
                    target: target@,
                    text: text@,
                    label: spec_u64_string(old(self).counter.next as nat),
                },
            ),
    {
        let id = self.counter.get_id();
        let label = crate::text::u64_to_string(id);
        let wire_label = label.clone();
        let event = make_privmsg_event(target, text, label);
        let echo = TircMessage::from_message(event, now);
        let ghost gecho = echo;
        state.push_message(echo);
        commands.push(
            OutboundCommand::Privmsg {
                target: target.to_owned(),
                text: text.to_owned(),
                label: wire_label,
            },
        );
        proof {
            assert(spec_provisional(
                gecho,
                target@,
                text@,
                spec_u64_string(old(self).counter.next as nat),
                now,
            ));
            assert(commands_view(commands@) =~= commands_view(old(commands)@).push(
                OutboundModel::Privmsg {
                    target: target@,
                    text: text@,
                    label: spec_u64_string(old(self).counter.next as nat),
                },
            ));
        }
    }
}

/// A buffer created on demand and made current.
pub open spec fn spec_switch_to(m: StateModel, target: Seq<char>) -> StateModel {
    StateModel { current_buffer: target, ..m.create_buffer(target) }
}

/// What one confirmed command-mode line does: the relation between the
/// session before (`m0`, label counter `c0`) and after (`m1`, `c1`),
/// the commands queued for transmission, and whether the session is to
/// terminate. The mode returns to normal first, whatever the line held.
pub open spec fn spec_command_effect(
    m0: StateModel,
    c0: u64,
    input: Seq<char>,
    now: DateTime,
    m1: StateModel,
    cmds: Seq<OutboundModel>,
    c1: u64,
    quit: bool,
) -> bool {
    let mn = StateModel { mode: Mode::Normal, ..m0 };
    let label = spec_u64_string(c0 as nat);
    match spec_parse_command(input) {
        CommandModel::Message { target, message } => {
            let m2 = spec_switch_to(mn, target);
            &&& quit == false
            &&& match message {
                Some(msg) => {
                    if spec_is_blank(msg) {
                        &&& m1 == m2
                        &&& cmds == Seq::<OutboundModel>::empty()
                        &&& c1 == c0
                    } else {
                        &&& c1 == c0 + 1
                        &&& cmds == seq![
                            OutboundModel::Privmsg { target, text: msg, label },
                        ]
                        &&& exists|em: TircMessage|
                            #[trigger] spec_provisional(em, target, msg, label, now) && m1
                                == m2.deliver(em)
                    }
                },
                None => {
                    &&& m1 == m2
                    &&& cmds == Seq::<OutboundModel>::empty()
                    &&& c1 == c0
                },
            }
        },
        CommandModel::MeAction { message } => {
            let text = spec_action_text(message);
            &&& quit == false
            &&& c1 == c0 + 1
            &&& cmds == seq![
                OutboundModel::Privmsg { target: mn.current_buffer, text, label },
            ]
            &&& exists|em: TircMessage|
                #[trigger] spec_provisional(em, mn.current_buffer, text, label, now) && m1
                    == mn.deliver(em)
        },
        CommandModel::Describe { target, message } => {
            let text = spec_action_text(message);
            &&& quit == false
            &&& c1 == c0 + 1
            &&& cmds == seq![OutboundModel::Privmsg { target, text, label }]
            &&& exists|em: TircMessage|
                #[trigger] spec_provisional(em, target, text, label, now) && m1 == mn.create_buffer(
                    target,
                ).deliver(em)
        },
        CommandModel::Notice { target, message } => {
            &&& quit == false
            &&& c1 == c0
            &&& m1 == mn.create_buffer(target)
            &&& cmds == seq![OutboundModel::Notice { target, text: message }]
        },
        CommandModel::Quit => {
            &&& quit == true
            &&& c1 == c0
            &&& m1 == mn
            &&& cmds == seq![OutboundModel::Quit { message: "tirc"@ }]
        },
        CommandModel::Join { channel } => {
            &&& quit == false
            &&& c1 == c0
            &&& m1 == mn
            &&& cmds == seq![OutboundModel::Join { channel }]
        },
        CommandModel::Part { channel } => {
            &&& quit == false
            &&& c1 == c0
            &&& m1 == mn
            &&& cmds == seq![OutboundModel::Part { channel }]
        },
        CommandModel::Nick { nickname } => {
            &&& quit == false
            &&& c1 == c0
            &&& m1 == mn
            &&& cmds == seq![OutboundModel::Nick { nickname }]
        },
        CommandModel::Whois { nickname } => {
            &&& quit == false
            &&& c1 == c0
            &&& m1 == mn
            &&& cmds == seq![OutboundModel::Whois { nickname }]
        },
        CommandModel::List => {
            &&& quit == false
            &&& c1 == c0
            &&& m1 == mn
            &&& cmds == seq![OutboundModel::List]
        },
        CommandModel::Ignored => {
            &&& quit == false
            &&& c1 == c0
            &&& m1 == mn
            &&& cmds == Seq::<OutboundModel>::empty()
        },
    }
}

/// Mapping a command list to its views commutes with appending.
pub broadcast proof fn lemma_commands_view_push(s: Seq<OutboundCommand>, c: OutboundCommand)
    ensures
        #[trigger] commands_view(s.push(c)) == commands_view(s).push(c@),
{
    assert(commands_view(s.push(c)) =~= commands_view(s).push(c@));
}

impl InputHandler {
    /// Parses and executes one confirmed command-mode line, per
    /// `spec_command_effect`: unknown or malformed commands are
    /// silently ignored, message commands switch buffers and queue a
    /// labelled direct message with its provisional echo.
    pub fn handle_command(&mut self, state: &mut State, input_value: &str, now: DateTime) -> (r:
        CommandOutcome)
        requires
            old(state)@.wf(),
            old(self).counter.next < u64::MAX,
        ensures
            final(state)@.wf(),
            spec_command_effect(
                old(state)@,
                old(self).counter.next,
                input_value@,
                now,
                final(state)@,
                commands_view(r.commands@),
                final(self).counter.next,
                r.quit,
            ),
    {
        proof {
            broadcast use lemma_commands_view_push;

            assert(commands_view(Seq::<OutboundCommand>::empty()) =~= Seq::<
                OutboundModel,
            >::empty());
        }
        state.mode = Mode::Normal;
        proof {
            assert(state@ =~= (StateModel { mode: Mode::Normal, ..old(state)@ }));
        }
        let parsed = parse_command(input_value);
        let mut commands: Vec<OutboundCommand> = Vec::new();
        let mut quit = false;
        match parsed {
            ParsedCommand::Message { target, message } => {
                state.create_buffer_if_not_exists(target.as_str());
                state.set_current_buffer(target.as_str());
                match message {
                    Some(msg) => {
                        if !crate::text::is_blank(msg.as_str()) {
                            self.send_with_echo(
                                state,
                                target.as_str(),
                                msg.as_str(),
                                now,
                                &mut commands,
                            );
                        }
                    },
                    None => {},
                }
            },
            ParsedCommand::MeAction { message } => {
                let text = action_text(message.as_str());
                let target = state.current_buffer.clone();
                self.send_with_echo(state, target.as_str(), text.as_str(), now, &mut commands);
            },
            ParsedCommand::Describe { target, message } => {
                let text = action_text(message.as_str());
                state.create_buffer_if_not_exists(target.as_str());
                self.send_with_echo(state, target.as_str(), text.as_str(), now, &mut commands);
            },
            ParsedCommand::Notice { target, message } => {
                state.create_buffer_if_not_exists(target.as_str());
                commands.push(OutboundCommand::Notice { target, text: message });
            },
            ParsedCommand::Quit => {
                commands.push(OutboundCommand::Quit { message: String::from_str("tirc") });
                quit = true;
            },
            ParsedCommand::Join { channel } => {
                commands.push(OutboundCommand::Join { channel });
            },
            ParsedCommand::Part { channel } => {
                commands.push(OutboundCommand::Part { channel });
            },
            ParsedCommand::Nick { nickname } => {
                commands.push(OutboundCommand::Nick { nickname });
            },
            ParsedCommand::Whois { nickname } => {
                commands.push(OutboundCommand::Whois { nickname });
            },
            ParsedCommand::List => {
                commands.push(OutboundCommand::List);
            },
            ParsedCommand::Ignored => {},
        }
        proof {
            assert(commands_view(Seq::<OutboundCommand>::empty()) =~= Seq::<
                OutboundModel,
            >::empty());
        }
        CommandOutcome { commands, quit }
    }
}

/// An outcome that asks the session loop for nothing at all.
pub open spec fn spec_no_effects(o: EventOutcome) -> bool {
    &&& commands_view(o.commands@) == Seq::<OutboundModel>::empty()
    &&& o.reset_input == false
    &&& o.forward_key == false
    &&& o.emit_message_event == false
    &&& o.quit == false
}

impl InputHandler {
    /// Consumes one event from the serialized stream: buffer-cycle and
    /// digit keys act in any mode and take priority; other keys are
    /// interpreted against the current mode; inbound protocol events
    /// are routed into their buffer and flagged for the scripting
    /// runtime's `message` hook; ticks do nothing.
    pub fn handle_event(
        &mut self,
        state: &mut State,
        event: Event<KeyEvent>,
        input_value: &str,
        now: DateTime,
    ) -> (r: EventOutcome)
        requires
            old(state)@.wf(),
            old(self).counter.next < u64::MAX,
        ensures
            final(state)@.wf(),
            ({
                let m0 = old(state)@;
                let c0 = old(self).counter.next;
                let c1 = final(self).counter.next;
                let label = spec_u64_string(c0 as nat);
                match event {
                    Event::Input(key) => {
                        if key.code == KeyCode::Tab {
                            &&& final(state)@ == m0.next_buffer()
                            &&& spec_no_effects(r)
                            &&& c1 == c0
                        } else if key.code == KeyCode::BackTab {
                            &&& final(state)@ == m0.previous_buffer()
                            &&& spec_no_effects(r)
                            &&& c1 == c0
                        } else if spec_is_digit_key(key.code) {
                            let index = key.code->Char_0 as int - '0' as int;
                            &&& (index < m0.buffers.len() ==> final(state)@
                                == m0.with_current_index(index))
                            &&& (index >= m0.buffers.len() ==> final(state)@ == m0)
                            &&& spec_no_effects(r)
                            &&& c1 == c0
                        } else {
                            match m0.mode {
                                Mode::Normal => {
                                    &&& final(state)@ == (if key.code == KeyCode::Char('i') {
                                        StateModel { mode: Mode::Insert, ..m0 }
                                    } else if key.code == KeyCode::Char(':') {
                                        StateModel { mode: Mode::Command, ..m0 }
                                    } else {
                                        m0
                                    })
                                    &&& spec_no_effects(r)
                                    &&& c1 == c0
                                },
                                _ => {
                                    if key.code == KeyCode::Esc {
                                        &&& final(state)@ == (StateModel {
                                            mode: Mode::Normal,
                                            ..m0
                                        })
                                        &&& r.reset_input == true
                                        &&& commands_view(r.commands@) == Seq::<
                                            OutboundModel,
                                        >::empty()
                                        &&& r.forward_key == false
                                        &&& r.emit_message_event == false
                                        &&& r.quit == false
                                        &&& c1 == c0
                                    } else if key.code == KeyCode::Enter {
                                        if m0.mode == Mode::Command {
                                            &&& spec_command_effect(
                                                m0,
                                                c0,
                                                input_value@,
                                                now,
                                                final(state)@,
                                                commands_view(r.commands@),
                                                c1,
                                                r.quit,
                                            )
                                            &&& r.reset_input == !r.quit
                                            &&& r.forward_key == false
                                            &&& r.emit_message_event == false
                                        } else {
                                            &&& (if spec_is_blank(input_value@) {
                                                &&& final(state)@ == m0
                                                &&& commands_view(r.commands@) == Seq::<
                                                    OutboundModel,
                                                >::empty()
                                                &&& c1 == c0
                                            } else {
                                                &&& c1 == c0 + 1
                                                &&& commands_view(r.commands@) == seq![
                                                    OutboundModel::Privmsg {
                                                        target: m0.current_buffer,
                                                        text: input_value@,
                                                        label,
                                                    },
                                                ]
                                                &&& exists|em: TircMessage|
                                                    #[trigger] spec_provisional(
                                                        em,
                                                        m0.current_buffer,
                                                        input_value@,
                                                        label,
                                                        now,
                                                    ) && final(state)@ == m0.deliver(em)
                                            })
                                            &&& r.reset_input == true
                                            &&& r.forward_key == false
                                            &&& r.emit_message_event == false
                                            &&& r.quit == false
                                        }
                                    } else {
                                        &&& final(state)@ == m0
                                        &&& r.forward_key == true
                                        &&& commands_view(r.commands@) == Seq::<
                                            OutboundModel,
                                        >::empty()
                                        &&& r.reset_input == false
                                        &&& r.emit_message_event == false
                                        &&& r.quit == false
                                        &&& c1 == c0
                                    }
                                },
                            }
                        }
                    },
                    Event::Message(inbound) => {
                        &&& exists|m: TircMessage|
                            #[trigger] spec_inbound_message(m, *inbound, now) && final(state)@
                                == m0.deliver(m)
                        &&& r.emit_message_event == true
                        &&& commands_view(r.commands@) == Seq::<OutboundModel>::empty()
                        &&& r.reset_input == false
                        &&& r.forward_key == false
                        &&& r.quit == false
                        &&& c1 == c0
                    },
                    Event::Tick => {
                        &&& final(state)@ == m0
                        &&& spec_no_effects(r)
                        &&& c1 == c0
                    },
                }
            }),
    {
        proof {
            broadcast use lemma_commands_view_push;

            assert(commands_view(Seq::<OutboundCommand>::empty()) =~= Seq::<
                OutboundModel,
            >::empty());
        }
        let mut commands: Vec<OutboundCommand> = Vec::new();
        let mut reset_input = false;
        let mut forward_key = false;
        let mut emit_message_event = false;
        let mut quit = false;
        match event {
            Event::Input(key) => {
                match key.code {
                    KeyCode::Tab => {
                        state.next_buffer();
                    },
                    KeyCode::BackTab => {
                        state.previous_buffer();
                    },
                    KeyCode::Char(c) if '0' <= c && c <= '9' => {
                        let index = ((c as u8) - ('0' as u8)) as usize;
                        if index < state.buffers.len() {
                            state.set_current_buffer_index(index);
                        }
                    },
                    KeyCode::Esc => {
                        match state.mode {
                            Mode::Normal => {},
                            _ => {
                                state.mode = Mode::Normal;
                                reset_input = true;
                                proof {
                                    assert(state@ =~= (StateModel {
                                        mode: Mode::Normal,
                                        ..old(state)@
                                    }));
                                }
                            },
                        }
                    },
                    KeyCode::Enter => {
                        match state.mode {
                            Mode::Normal => {},
                            Mode::Command => {
                                let command_outcome = self.handle_command(state, input_value, now);
                                commands = command_outcome.commands;
                                quit = command_outcome.quit;
                                reset_input = !quit;
                            },
                            Mode::Insert => {
                                if !crate::text::is_blank(input_value) {
                                    let target = state.current_buffer.clone();
                                    self.send_with_echo(
                                        state,
                                        target.as_str(),
                                        input_value,
                                        now,
                                        &mut commands,
                                    );
                                }
                                reset_input = true;
                            },
                        }
                    },
                    KeyCode::Char(c) => {
                        match state.mode {
                            Mode::Normal => {
                                if c == 'i' {
                                    state.mode = Mode::Insert;
                                    proof {
                                        assert(state@ =~= (StateModel {
                                            mode: Mode::Insert,
                                            ..old(state)@
                                        }));
                                    }
                                } else if c == ':' {
                                    state.mode = Mode::Command;
                                    proof {
                                        assert(state@ =~= (StateModel {
                                            mode: Mode::Command,
                                            ..old(state)@
                                        }));
                                    }
                                }
                            },
                            _ => {
                                forward_key = true;
                            },
                        }
                    },
                    KeyCode::Other => {
                        match state.mode {
                            Mode::Normal => {},
                            _ => {
                                forward_key = true;
                            },
                        }
                    },
                }
            },
            Event::Message(inbound) => {
                let message = TircMessage::from_message(*inbound, now);
                let ghost gmessage = message;
                emit_message_event = true;
                state.push_message(message);
                proof {
                    assert(spec_inbound_message(gmessage, *inbound, now));
                }
            },
            Event::Tick => {},
        }
        EventOutcome { commands, reset_input, forward_key, emit_message_event, quit }
    }
}

/// The shape of the buffer entry an inbound protocol event becomes:
/// the event itself, the local receipt timestamp, and the projection.
pub open spec fn spec_inbound_message(m: TircMessage, inbound: IrcEvent, now: DateTime) -> bool {
    m matches TircMessage::Irc { time, event, projection } && time == now && event == inbound
        && spec_projection_matches(inbound, projection)
}

/// The views of a channel-name list, in order.
pub open spec fn channels_view(s: Seq<String>) -> Seq<Seq<char>> {
    s.map(|i: int, c: String| c@)
}

/// Buffers created on demand for each listed channel, in order.
pub open spec fn spec_create_channels(m: StateModel, channels: Seq<Seq<char>>, i: int) -> StateModel
    decreases channels.len() - i,
{
    if i < 0 || i >= channels.len() {
        m
    } else {
        spec_create_channels(m.create_buffer(channels[i]), channels, i + 1)
    }
}

/// One synchronization pass against the protocol client: adopt the
/// current nickname, create a buffer for every joined channel that has
/// none yet, and snapshot the current buffer's user list — empty for
/// the default buffer, which has no user list of its own.
pub open spec fn spec_sync(
    m: StateModel,
    nickname: Seq<char>,
    channels: Seq<Seq<char>>,
    users: Seq<User>,
) -> StateModel {
    let m1 = spec_create_channels(StateModel { nickname, ..m }, channels, 0);
    StateModel {
        users: if m1.current_buffer == crate::state::spec_default_buffer_name() {
            Seq::empty()
        } else {
            users
        },
        ..m1
    }
}

impl InputHandler {
    /// Synchronizes the session state from the protocol client's view,
    /// per `spec_sync`.
    pub fn sync_state(
        &self,
        state: &mut State,
        nickname: &str,
        channels: &Vec<String>,
        users_in_current: Vec<User>,
    )
        requires
            old(state)@.wf(),
        ensures
            final(state)@ == spec_sync(
                old(state)@,
                nickname@,
                channels_view(channels@),
                users_in_current@,
            ),
            final(state)@.wf(),
    {
        let ghost gusers = users_in_current@;
        state.nickname = nickname.to_owned();
        proof {
            assert(state@ =~= (StateModel { nickname: nickname@, ..old(state)@ }));
        }
        let ghost gstart = state@;
        let ghost gchannels = channels_view(channels@);
        let n = channels.len();
        let mut i: usize = 0;
        while i < n
            invariant
                n == channels@.len(),
                0 <= i <= n,
                gchannels == channels_view(channels@),
                gchannels.len() == n,
                state@.wf(),
                spec_create_channels(gstart, gchannels, 0) == spec_create_channels(
                    state@,
                    gchannels,
                    i as int,
                ),
            decreases n - i,
        {
            state.create_buffer_if_not_exists(channels[i].as_str());
            i = i + 1;
        }
        if crate::text::str_eq(state.current_buffer.as_str(), "(status)") {
            state.users_in_current_buffer = Vec::new();
        } else {
            state.users_in_current_buffer = users_in_current;
        }
        proof {
            assert(final(state)@ =~= spec_sync(old(state)@, nickname@, gchannels, gusers));
        }
    }
}

} // verus!
