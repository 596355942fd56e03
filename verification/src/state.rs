//! Session state: the named message buffers, the input mode, the
//! identity, and the router that decides which buffer an inbound
//! protocol event belongs to, reconciling locally-sent messages with
//! their server echo.

use vstd::prelude::*;
use crate::message::{IrcCommand, IrcEvent, TircMessage};
use crate::message::{spec_message_has_label, spec_message_label, spec_tag_value};

verus! {

/// How key input is interpreted. Exactly one mode is active at a time.
#[derive(Clone, Copy, Debug, PartialEq, Eq)]
pub enum Mode {
    Normal,
    Command,
    Insert,
}

/// The rank of a user inside a channel, used to order the user list.
#[derive(Clone, Copy, Debug, PartialEq, Eq)]
pub enum AccessLevel {
    Owner,
    Admin,
    Oper,
    HalfOp,
    Voice,
    Member,
}

/// One entry of the user list of the current buffer.
#[derive(Clone, Debug)]
pub struct User {
    pub nickname: String,
    pub access_level: AccessLevel,
}

/// One conversation context: an ordered log of messages, in arrival
/// order, never re-sorted, plus a scroll offset.
#[derive(Debug)]
pub struct ChatBuffer {
    pub name: String,
    pub messages: Vec<TircMessage>,
    pub scroll_position: usize,
}

#[verifier::ext_equal]
pub ghost struct BufferModel {
    pub name: Seq<char>,
    pub messages: Seq<TircMessage>,
    pub scroll_position: nat,
}

impl View for ChatBuffer {
    type V = BufferModel;

    open spec fn view(&self) -> BufferModel {
        BufferModel {
            name: self.name@,
            messages: self.messages@,
            scroll_position: self.scroll_position as nat,
        }
    }
}

/// The whole session: identity, mode, the buffers in creation order,
/// the current-buffer pointer, and the user list snapshot.
#[derive(Debug)]
pub struct State {
    pub mode: Mode,
    pub nickname: String,
    pub server: String,
    pub current_buffer: String,
    pub buffers: Vec<ChatBuffer>,
    pub users_in_current_buffer: Vec<User>,
}

#[verifier::ext_equal]
pub ghost struct StateModel {
    pub mode: Mode,
    pub nickname: Seq<char>,
    pub server: Seq<char>,
    pub current_buffer: Seq<char>,
    pub buffers: Seq<BufferModel>,
    pub users: Seq<User>,
}

impl View for State {
    type V = StateModel;

    open spec fn view(&self) -> StateModel {
        StateModel {
            mode: self.mode,
            nickname: self.nickname@,
            server: self.server@,
            current_buffer: self.current_buffer@,
            buffers: self.buffers@.map(|i: int, b: ChatBuffer| b@),
            users: self.users_in_current_buffer@,
        }
    }
}

/// The reserved fallback buffer: always present, never removable.
pub open spec fn spec_default_buffer_name() -> Seq<char> {
    "(status)"@
}

impl StateModel {
    /// Whether a buffer with this name exists.
    pub open spec fn has_buffer(self, name: Seq<char>) -> bool {
        exists|i: int| 0 <= i < self.buffers.len() && (#[trigger] self.buffers[i]).name == name
    }

    /// The position of the buffer with this name; meaningful only when
    /// `has_buffer(name)` holds and names are unique.
    pub open spec fn buffer_index(self, name: Seq<char>) -> int {
        choose|i: int| 0 <= i < self.buffers.len() && (#[trigger] self.buffers[i]).name == name
    }

    /// The position of the current buffer.
    pub open spec fn current_index(self) -> int {
        self.buffer_index(self.current_buffer)
    }

    /// The session invariant: the default buffer sits first, buffer
    /// names are unique, and the current-buffer pointer names an
    /// existing buffer.
    pub open spec fn wf(self) -> bool {
        &&& self.buffers.len() >= 1
        &&& self.buffers[0].name == spec_default_buffer_name()
        &&& forall|i: int, j: int|
            0 <= i < j < self.buffers.len() ==> (#[trigger] self.buffers[i]).name != (
            #[trigger] self.buffers[j]).name
        &&& self.has_buffer(self.current_buffer)
    }

    /// The state right after startup.
    pub open spec fn initial() -> StateModel {
        StateModel {
            mode: Mode::Normal,
            nickname: Seq::empty(),
            server: Seq::empty(),
            current_buffer: spec_default_buffer_name(),
            buffers: seq![
                BufferModel {
                    name: spec_default_buffer_name(),
                    messages: Seq::empty(),
                    scroll_position: 0,
                },
            ],
            users: Seq::empty(),
        }
    }

    /// Creating a buffer that already exists changes nothing; otherwise
    /// an empty buffer is appended.
    pub open spec fn create_buffer(self, name: Seq<char>) -> StateModel {
        if self.has_buffer(name) {
            self
        } else {
            StateModel {
                buffers: self.buffers.push(
                    BufferModel { name, messages: Seq::empty(), scroll_position: 0 },
                ),
                ..self
            }
        }
    }

    /// The current-buffer pointer moved to a given position.
    pub open spec fn with_current_index(self, index: int) -> StateModel {
        StateModel { current_buffer: self.buffers[index].name, ..self }
    }

    /// One step forward in the cyclic buffer order.
    pub open spec fn next_buffer(self) -> StateModel {
        self.with_current_index((self.current_index() + 1) % (self.buffers.len() as int))
    }

    /// One step backward in the cyclic buffer order.
    pub open spec fn previous_buffer(self) -> StateModel {
        self.with_current_index(
            (self.current_index() + self.buffers.len() - 1) % (self.buffers.len() as int),
        )
    }
}

/// Whether a recipient names a channel: the first character is one of
/// the channel sigils.
pub open spec fn spec_is_channel_name(s: Seq<char>) -> bool {
    s.len() > 0 && (s[0] == '#' || s[0] == '&' || s[0] == '+' || s[0] == '!')
}

pub fn is_channel_name(s: &str) -> (r: bool)
    ensures
        r == spec_is_channel_name(s@),
{
    if s.unicode_len() == 0 {
        return false;
    }
    let c = s.get_char(0);
    c == '#' || c == '&' || c == '+' || c == '!'
}

/// The sender's nickname, when the event's source prefix carries one.
pub open spec fn spec_source_nick(ev: IrcEvent) -> Option<Seq<char>> {
    match ev.prefix_nick {
        Some(n) => Some(n@),
        None => None,
    }
}

/// The likely intended place to respond to an event: a direct message
/// or notice sent to a channel answers to that channel; anything else
/// answers to its sender.
pub open spec fn spec_response_target(ev: IrcEvent) -> Option<Seq<char>> {
    match ev.command {
        IrcCommand::Privmsg { target, .. } => if spec_is_channel_name(target@) {
            Some(target@)
        } else {
            spec_source_nick(ev)
        },
        IrcCommand::Notice { target, .. } => if spec_is_channel_name(target@) {
            Some(target@)
        } else {
            spec_source_nick(ev)
        },
        _ => spec_source_nick(ev),
    }
}

/// The buffer an inbound event belongs to, resolved by command type:
/// direct messages and notices go to their response target unless that
/// is ourselves, then to their nominal recipient, falling back to the
/// default buffer for the wildcard recipient or our own nickname;
/// channel events go to the named channel; everything else goes to the
/// default buffer.
pub open spec fn spec_target_buffer_name(ev: IrcEvent, nickname: Seq<char>) -> Seq<char> {
    match ev.command {
        IrcCommand::Privmsg { target, .. } => spec_direct_target(ev, target@, nickname),
        IrcCommand::Notice { target, .. } => spec_direct_target(ev, target@, nickname),
        IrcCommand::Topic { channel, .. } => channel@,
        IrcCommand::ChannelMode { channel, .. } => channel@,
        IrcCommand::Part { channel, .. } => channel@,
        IrcCommand::Join { channel } => channel@,
        IrcCommand::Other { .. } => spec_default_buffer_name(),
    }
}

/// The direct-message half of the routing rule.
pub open spec fn spec_direct_target(ev: IrcEvent, recipient: Seq<char>, nickname: Seq<char>) -> Seq<
    char,
> {
    let rt = spec_response_target(ev);
    let target = if rt is Some && rt->Some_0 != nickname {
        rt->Some_0
    } else {
        recipient
    };
    if target == "*"@ || target == nickname {
        spec_default_buffer_name()
    } else {
        target
    }
}

/// The position of the first message in the log that carries a `label`
/// tag with this value.
pub open spec fn spec_label_match_index(
    messages: Seq<TircMessage>,
    value: Option<Seq<char>>,
) -> Option<int> {
    if exists|i: int| 0 <= i < messages.len() && spec_message_has_label(#[trigger] messages[i], value) {
        Some(
            choose|i: int|
                0 <= i < messages.len() && spec_message_has_label(#[trigger] messages[i], value)
                    && forall|j: int| 0 <= j < i ==> !spec_message_has_label(#[trigger] messages[j], value),
        )
    } else {
        None
    }
}

/// The characteristic properties of `spec_label_match_index`.
pub proof fn lemma_label_match_index_props(messages: Seq<TircMessage>, value: Option<Seq<char>>)
    ensures
        spec_label_match_index(messages, value) is Some ==> {
            let i = spec_label_match_index(messages, value)->Some_0;
            &&& 0 <= i < messages.len()
            &&& spec_message_has_label(messages[i], value)
            &&& forall|j: int| 0 <= j < i ==> !spec_message_has_label(#[trigger] messages[j], value)
        },
        spec_label_match_index(messages, value) is None ==> forall|j: int|
            0 <= j < messages.len() ==> !spec_message_has_label(#[trigger] messages[j], value),
{
    if exists|i: int| 0 <= i < messages.len() && spec_message_has_label(#[trigger] messages[i], value) {
        let w = choose|i: int|
            0 <= i < messages.len() && spec_message_has_label(#[trigger] messages[i], value);
        lemma_label_match_first(messages, value, w);
    }
}

proof fn lemma_label_match_first(messages: Seq<TircMessage>, value: Option<Seq<char>>, w: int)
    requires
        0 <= w < messages.len(),
        spec_message_has_label(messages[w], value),
    ensures
        exists|i: int|
            0 <= i < messages.len() && spec_message_has_label(#[trigger] messages[i], value)
                && forall|j: int| 0 <= j < i ==> !spec_message_has_label(#[trigger] messages[j], value),
    decreases w,
{
    if forall|j: int| 0 <= j < w ==> !spec_message_has_label(#[trigger] messages[j], value) {
    } else {
        let w2 = choose|j: int| 0 <= j < w && spec_message_has_label(#[trigger] messages[j], value);
        lemma_label_match_first(messages, value, w2);
    }
}

/// How a message enters a log: if it carries a `label` tag and an
/// earlier message carries the same label, the earlier one is replaced
/// in place — same position, no duplicate; otherwise it is appended.
pub open spec fn spec_reconcile(messages: Seq<TircMessage>, message: TircMessage) -> Seq<
    TircMessage,
> {
    match spec_message_label(message) {
        Some(lv) => match spec_label_match_index(messages, lv) {
            Some(j) => messages.update(j, message),
            None => messages.push(message),
        },
        None => messages.push(message),
    }
}

impl StateModel {
    /// A message delivered into the named buffer, echo-reconciled.
    pub open spec fn push_to_buffer(self, name: Seq<char>, message: TircMessage) -> StateModel {
        let k = self.buffer_index(name);
        let b = self.buffers[k];
        StateModel {
            buffers: self.buffers.update(
                k,
                BufferModel { messages: spec_reconcile(b.messages, message), ..b },
            ),
            ..self
        }
    }

    /// The buffer a message resolves to: protocol events are routed by
    /// command type against the current nickname; anything else lands
    /// in the default buffer.
    pub open spec fn message_target(self, message: TircMessage) -> Seq<char> {
        match message {
            TircMessage::Irc { event, .. } => spec_target_buffer_name(event, self.nickname),
            _ => spec_default_buffer_name(),
        }
    }

    /// The full delivery step: resolve the target, create its buffer on
    /// demand, reconcile the message into it.
    pub open spec fn deliver(self, message: TircMessage) -> StateModel {
        let name = self.message_target(message);
        self.create_buffer(name).push_to_buffer(name, message)
    }
}

impl Default for State {
    fn default() -> (r: State)
        ensures
            r@ == StateModel::initial(),
            r@.wf(),
    {
        State::new()
    }
}

impl State {
    pub fn new() -> (r: State)
        ensures
            r@ == StateModel::initial(),
            r@.wf(),
    {
        let default_buffer_name = State::get_default_buffer_name();
        let buffer = ChatBuffer {
            name: default_buffer_name,
            messages: Vec::new(),
            scroll_position: 0,
        };
        let mut buffers: Vec<ChatBuffer> = Vec::new();
        buffers.push(buffer);
        let r = State {
            mode: Mode::Normal,
            nickname: String::new(),
            server: String::new(),
            current_buffer: State::get_default_buffer_name(),
            buffers,
            users_in_current_buffer: Vec::new(),
        };
        proof {
            assert(r@.buffers =~= StateModel::initial().buffers);
            assert(r@ =~= StateModel::initial());
            assert(r@.buffers[0].name == r@.current_buffer);
        }
        r
    }

    pub fn get_default_buffer_name() -> (r: String)
        ensures
            r@ == spec_default_buffer_name(),
    {
        String::from_str("(status)")
    }

    /// The position of the buffer with this name, scanning in creation
    /// order; `None` when no buffer has the name.
    pub fn find_buffer_index(&self, name: &str) -> (r: Option<usize>)
        ensures
            match r {
                Some(i) => {
                    &&& 0 <= i < self@.buffers.len()
                    &&& self@.buffers[i as int].name == name@
                    &&& forall|j: int| 0 <= j < i ==> (#[trigger] self@.buffers[j]).name != name@
                },
                None => !self@.has_buffer(name@),
            },
{
        let n = self.buffers.len();
        let mut i: usize = 0;
        while i < n
            invariant
                n == self.buffers@.len(),
                0 <= i <= n,
                self@.buffers.len() == n,
                forall|j: int| 0 <= j < i ==> (#[trigger] self@.buffers[j]).name != name@,
            decreases n - i,
        {
            if crate::text::str_eq(self.buffers[i].name.as_str(), name) {
                return Some(i);
            }
            i = i + 1;
        }
        None
    }

    /// The name of the buffer at a given position. Positions come from
    /// this module's own lookups, so the bound is the caller's duty.
    pub fn get_buffer_name_by_index(&self, index: usize) -> (r: String)
        requires
            index < self@.buffers.len(),
        ensures
            r@ == self@.buffers[index as int].name,
    {
        self.buffers[index].name.clone()
    }

    /// The position of the current buffer in creation order.
    pub fn get_current_buffer_index(&self) -> (r: usize)
        requires
            self@.wf(),
        ensures
            r as int == self@.current_index(),
            0 <= r < self@.buffers.len(),
            self@.buffers[r as int].name == self@.current_buffer,
    {
        let r = self.find_buffer_index(self.current_buffer.as_str());
        match r {
            Some(i) => i,
            None => {
                // unreachable: wf() says the current buffer exists
                proof {
                    assert(false);
                }
                0
            },
        }
    }

    /// The current buffer itself, for reading or scrolling. The session
    /// invariant makes the lookup total.
    pub fn get_current_buffer(&mut self) -> (r: Option<&mut ChatBuffer>)
        requires
            old(self)@.wf(),
        ensures
            r is Some,
            *r->Some_0 == old(self).buffers@[old(self)@.current_index()],
            final(self).buffers@ == old(self).buffers@.update(
                old(self)@.current_index(),
                *final(r->Some_0),
            ),
            final(self).mode == old(self).mode,
            final(self).nickname == old(self).nickname,
            final(self).server == old(self).server,
            final(self).current_buffer == old(self).current_buffer,
            final(self).users_in_current_buffer == old(self).users_in_current_buffer,
    {
        let i = self.get_current_buffer_index();
        let r = &mut self.buffers[i];
        Some(r)
    }

    /// Moves to the next buffer, cyclically.
    pub fn next_buffer(&mut self)
        requires
            old(self)@.wf(),
        ensures
            final(self)@ == old(self)@.next_buffer(),
            final(self)@.wf(),
    {
        let current = self.get_current_buffer_index();
        let n = self.buffers.len();
        let next = if current + 1 == n {
            0
        } else {
            current + 1
        };
        proof {
            if current + 1 == n {
                vstd::arithmetic::div_mod::lemma_mod_self_0(n as int);
            } else {
                vstd::arithmetic::div_mod::lemma_small_mod((current + 1) as nat, n as nat);
            }
            assert(next as int == (self@.current_index() + 1) % (self@.buffers.len() as int));
        }
        self.current_buffer = self.get_buffer_name_by_index(next);
        proof {
            assert(final(self)@ =~= old(self)@.next_buffer());
        }
    }

    /// Moves to the previous buffer, cyclically; the exact inverse of
    /// `next_buffer`.
    pub fn previous_buffer(&mut self)
        requires
            old(self)@.wf(),
        ensures
            final(self)@ == old(self)@.previous_buffer(),
            final(self)@.wf(),
    {
        let current = self.get_current_buffer_index();
        let n = self.buffers.len();
        let previous = if current == 0 {
            n - 1
        } else {
            current - 1
        };
        proof {
            if current == 0 {
                vstd::arithmetic::div_mod::lemma_mod_multiples_vanish(
                    1,
                    n as int - 1,
                    n as int,
                );
                vstd::arithmetic::div_mod::lemma_small_mod((n - 1) as nat, n as nat);
            } else {
                vstd::arithmetic::div_mod::lemma_mod_multiples_vanish(
                    1,
                    current as int - 1,
                    n as int,
                );
                vstd::arithmetic::div_mod::lemma_small_mod((current - 1) as nat, n as nat);
            }
            assert(previous as int == (self@.current_index() + self@.buffers.len() - 1) % (
            self@.buffers.len() as int));
        }
        self.current_buffer = self.get_buffer_name_by_index(previous);
        proof {
            assert(final(self)@ =~= old(self)@.previous_buffer());
        }
    }

    /// Jumps to the buffer at a given position. Callers validate the
    /// bound; an out-of-range jump is their error, not a wrap.
    pub fn set_current_buffer_index(&mut self, index: usize)
        requires
            index < old(self)@.buffers.len(),
        ensures
            final(self)@ == old(self)@.with_current_index(index as int),
            old(self)@.wf() ==> final(self)@.wf(),
    {
        self.current_buffer = self.get_buffer_name_by_index(index);
        proof {
            assert(final(self)@ =~= old(self)@.with_current_index(index as int));
        }
    }

    /// Points the session at a buffer by name. The buffer must exist:
    /// callers create it on demand first.
    pub fn set_current_buffer(&mut self, buffer_name: &str)
        requires
            old(self)@.has_buffer(buffer_name@),
        ensures
            final(self)@ == (StateModel { current_buffer: buffer_name@, ..old(self)@ }),
            old(self)@.wf() ==> final(self)@.wf(),
    {
        self.current_buffer = buffer_name.to_owned();
        proof {
            assert(final(self)@ =~= (StateModel { current_buffer: buffer_name@, ..old(self)@ }));
        }
    }

    /// Creates an empty buffer under this name if none exists; a second
    /// call with the same name is a no-op.
    pub fn create_buffer_if_not_exists(&mut self, buffer_name: &str)
        ensures
            final(self)@ == old(self)@.create_buffer(buffer_name@),
            final(self)@.has_buffer(buffer_name@),
            old(self)@.wf() ==> final(self)@.wf(),
    {
        let existing = self.find_buffer_index(buffer_name);
        if existing.is_none() {
            let buffer = ChatBuffer {
                name: buffer_name.to_owned(),
                messages: Vec::new(),
                scroll_position: 0,
            };
            self.buffers.push(buffer);
        }
        proof {
            assert(final(self)@ =~= old(self)@.create_buffer(buffer_name@));
            if !old(self)@.has_buffer(buffer_name@) {
                assert(final(self)@.buffers[final(self)@.buffers.len() - 1].name == buffer_name@);
            }
            assert(final(self)@.has_buffer(buffer_name@));
            if old(self)@.wf() && !old(self)@.has_buffer(buffer_name@) {
                let m0 = old(self)@;
                let m1 = final(self)@;
                assert(m1.buffers[0] == m0.buffers[0]);
                let k = m0.buffer_index(m0.current_buffer);
                assert(0 <= k < m0.buffers.len() && m0.buffers[k].name == m0.current_buffer);
                assert(m1.buffers[k].name == m1.current_buffer);
                assert(m1.has_buffer(m1.current_buffer));
                assert forall|i: int, j: int| 0 <= i < j < m1.buffers.len() implies (
                #[trigger] m1.buffers[i]).name != (#[trigger] m1.buffers[j]).name by {
                    if j == m1.buffers.len() - 1 {
                        assert(m1.buffers[i] == m0.buffers[i]);
                        assert(!m0.has_buffer(buffer_name@));
                        assert(m0.buffers[i].name != buffer_name@);
                    }
                }
            }
        }
    }

    /// The response target of an event, per `spec_response_target`.
    pub fn response_target(event: &IrcEvent) -> (r: Option<&String>)
        ensures
            match r {
                Some(s) => spec_response_target(*event) == Some(s@),
                None => spec_response_target(*event) is None,
            },
    {
        match &event.command {
            IrcCommand::Privmsg { target, .. } => {
                if is_channel_name(target.as_str()) {
                    Some(target)
                } else {
                    event.prefix_nick.as_ref()
                }
            },
            IrcCommand::Notice { target, .. } => {
                if is_channel_name(target.as_str()) {
                    Some(target)
                } else {
                    event.prefix_nick.as_ref()
                }
            },
            _ => event.prefix_nick.as_ref(),
        }
    }

    /// Routes a direct message or notice, per `spec_direct_target`.
    fn direct_target(&self, event: &IrcEvent, recipient: &String) -> (r: String)
        ensures
            r@ == spec_direct_target(*event, recipient@, self.nickname@),
    {
        let rt = State::response_target(event);
        let target: &String = match rt {
            Some(rt_name) => {
                if !crate::text::str_eq(rt_name.as_str(), self.nickname.as_str()) {
                    rt_name
                } else {
                    recipient
                }
            },
            None => recipient,
        };
        if crate::text::str_eq(target.as_str(), "*") || crate::text::str_eq(
            target.as_str(),
            self.nickname.as_str(),
        ) {
            State::get_default_buffer_name()
        } else {
            target.clone()
        }
    }

    /// The name of the buffer an inbound event belongs to, per
    /// `spec_target_buffer_name`.
    pub fn get_target_buffer_name(&self, event: &IrcEvent) -> (r: String)
        ensures
            r@ == spec_target_buffer_name(*event, self.nickname@),
    {
        match &event.command {
            IrcCommand::Privmsg { target, .. } => self.direct_target(event, target),
            IrcCommand::Notice { target, .. } => self.direct_target(event, target),
            IrcCommand::Topic { channel, .. } => channel.clone(),
            IrcCommand::ChannelMode { channel, .. } => channel.clone(),
            IrcCommand::Part { channel, .. } => channel.clone(),
            IrcCommand::Join { channel } => channel.clone(),
            IrcCommand::Other { .. } => State::get_default_buffer_name(),
        }
    }

    /// Scans a log for the first message with a matching `label` tag,
    /// per `spec_label_match_index`.
    fn find_label_match(messages: &Vec<TircMessage>, value: &Option<String>) -> (r: Option<usize>)
        ensures
            match r {
                Some(j) => spec_label_match_index(messages@, spec_tag_value(*value)) == Some(
                    j as int,
                ),
                None => spec_label_match_index(messages@, spec_tag_value(*value)) is None,
            },
    {
        let ghost lv = spec_tag_value(*value);
        let n = messages.len();
        let mut i: usize = 0;
        while i < n
            invariant
                n == messages@.len(),
                0 <= i <= n,
                lv == spec_tag_value(*value),
                forall|j: int|
                    0 <= j < i ==> !spec_message_has_label(#[trigger] messages@[j], lv),
            decreases n - i,
        {
            let matches_label = match &messages[i] {
                TircMessage::Irc { event, .. } => crate::message::has_label_value(
                    &event.tags,
                    value,
                ),
                _ => false,
            };
            if matches_label {
                proof {
                    lemma_label_match_index_props(messages@, lv);
                    let c = spec_label_match_index(messages@, lv)->Some_0;
                    if c < i {
                        assert(!spec_message_has_label(messages@[c], lv));
                    }
                    if c > i {
                        assert(!spec_message_has_label(messages@[i as int], lv));
                    }
                }
                return Some(i);
            }
            i = i + 1;
        }
        proof {
            lemma_label_match_index_props(messages@, lv);
        }
        None
    }

    /// Delivers a message into the named buffer, reconciling a server
    /// echo with its provisional local copy: a message whose `label`
    /// matches an earlier entry replaces that entry in place; otherwise
    /// the message is appended.
    pub fn push_message_to_buffer(&mut self, buffer_name: &str, message: TircMessage)
        requires
            old(self)@.wf(),
            old(self)@.has_buffer(buffer_name@),
        ensures
            final(self)@ == old(self)@.push_to_buffer(buffer_name@, message),
            final(self)@.wf(),
    {
        let k = match self.find_buffer_index(buffer_name) {
            Some(k) => k,
            None => {
                // unreachable: the buffer was created before delivery
                proof {
                    assert(false);
                }
                0
            },
        };
        proof {
            let c = self@.buffer_index(buffer_name@);
            assert(0 <= c < self@.buffers.len() && self@.buffers[c].name == buffer_name@);
            if c < k as int {
                assert(self@.buffers[c].name != self@.buffers[k as int].name);
            }
            if (k as int) < c {
                assert(self@.buffers[k as int].name != self@.buffers[c].name);
            }
            assert(c == k as int);
        }
        let label_opt = match &message {
            TircMessage::Irc { event, .. } => crate::message::first_label(&event.tags),
            _ => None,
        };
        match label_opt {
            Some(value) => {
                let j_opt = State::find_label_match(&self.buffers[k].messages, value);
                match j_opt {
                    Some(j) => {
                        proof {
                            lemma_label_match_index_props(
                                self@.buffers[k as int].messages,
                                spec_tag_value(*value),
                            );
                        }
                        let b = &mut self.buffers[k];
                        b.messages[j] = message;
                    },
                    None => {
                        let b = &mut self.buffers[k];
                        b.messages.push(message);
                    },
                }
            },
            None => {
                let b = &mut self.buffers[k];
                b.messages.push(message);
            },
        }
        proof {
            assert(final(self)@.buffers =~= old(self)@.push_to_buffer(buffer_name@, message)
                .buffers);
            assert(final(self)@ =~= old(self)@.push_to_buffer(buffer_name@, message));
            let m0 = old(self)@;
            let m1 = final(self)@;
            assert forall|i: int| 0 <= i < m1.buffers.len() implies (#[trigger] m1.buffers[i]).name
                == m0.buffers[i].name by {}
            assert(m1.buffers[0].name == spec_default_buffer_name());
            let w = m0.buffer_index(m0.current_buffer);
            assert(m1.buffers[w].name == m1.current_buffer);
            assert(m1.has_buffer(m1.current_buffer));
        }
    }

    /// Routes a message to its buffer, creating the buffer on demand,
    /// and delivers it with echo reconciliation.
    pub fn push_message(&mut self, message: TircMessage)
        requires
            old(self)@.wf(),
        ensures
            final(self)@ == old(self)@.deliver(message),
            final(self)@.wf(),
    {
        let buffer_name: String = match &message {
            TircMessage::Irc { event, .. } => self.get_target_buffer_name(event),
            _ => State::get_default_buffer_name(),
        };
        self.create_buffer_if_not_exists(buffer_name.as_str());
        self.push_message_to_buffer(buffer_name.as_str(), message);
    }
}

} // verus!
