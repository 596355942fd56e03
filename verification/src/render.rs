//! The renderer's layout policy: which messages are considered for the
//! viewport, how wrapped lines are indented, how the buffer bar and the
//! user sidebar are composed, and where the input-line cursor sits.
//! The cell-drawing primitives live outside; everything here computes
//! plain values they consume.

use vstd::prelude::*;
use crate::state::{AccessLevel, Mode, User};
use crate::style::{spec_flatten, spans_view, ScriptValue, Span, Style};

verus! {

pub struct Renderer {}

/// One message prepared for display: the timestamp prefix spans and
/// the body spans.
#[derive(Debug)]
pub struct RenderedMessage {
    pub time: Vec<Span>,
    pub message: Vec<Span>,
}

impl Default for Renderer {
    fn default() -> (r: Renderer) {
        Renderer::new()
    }
}

/// The rank a user list is ordered by: owner first, plain member last.
pub open spec fn spec_access_priority(a: AccessLevel) -> int {
    match a {
        AccessLevel::Owner => 0,
        AccessLevel::Admin => 1,
        AccessLevel::Oper => 2,
        AccessLevel::HalfOp => 3,
        AccessLevel::Voice => 4,
        AccessLevel::Member => 5,
    }
}

/// Lexicographic order on text, by code point.
pub open spec fn spec_lex_le(a: Seq<char>, b: Seq<char>) -> bool
    decreases a.len(),
{
    if a.len() == 0 {
        true
    } else if b.len() == 0 {
        false
    } else if a[0] != b[0] {
        (a[0] as int) < (b[0] as int)
    } else {
        spec_lex_le(a.drop_first(), b.drop_first())
    }
}

/// The user-list display order: by access-level priority ascending,
/// ties broken by nickname.
pub open spec fn spec_user_le(a: User, b: User) -> bool {
    ||| spec_access_priority(a.access_level) < spec_access_priority(b.access_level)
    ||| (spec_access_priority(a.access_level) == spec_access_priority(b.access_level)
        && spec_lex_le(a.nickname@, b.nickname@))
}

/// The order is total.
pub proof fn lemma_lex_le_total(a: Seq<char>, b: Seq<char>)
    ensures
        spec_lex_le(a, b) || spec_lex_le(b, a),
    decreases a.len(),
{
    if a.len() > 0 && b.len() > 0 && a[0] == b[0] {
        lemma_lex_le_total(a.drop_first(), b.drop_first());
    }
}

/// The order is transitive.
pub proof fn lemma_lex_le_trans(a: Seq<char>, b: Seq<char>, c: Seq<char>)
    requires
        spec_lex_le(a, b),
        spec_lex_le(b, c),
    ensures
        spec_lex_le(a, c),
    decreases a.len(),
{
    if a.len() > 0 {
        if b.len() > 0 && c.len() > 0 && a[0] == b[0] && b[0] == c[0] {
            lemma_lex_le_trans(a.drop_first(), b.drop_first(), c.drop_first());
        }
    }
}

pub proof fn lemma_user_le_total(a: User, b: User)
    ensures
        spec_user_le(a, b) || spec_user_le(b, a),
{
    lemma_lex_le_total(a.nickname@, b.nickname@);
}

pub proof fn lemma_user_le_trans(a: User, b: User, c: User)
    requires
        spec_user_le(a, b),
        spec_user_le(b, c),
    ensures
        spec_user_le(a, c),
{
    if spec_access_priority(a.access_level) == spec_access_priority(b.access_level)
        && spec_access_priority(b.access_level) == spec_access_priority(c.access_level) {
        lemma_lex_le_trans(a.nickname@, b.nickname@, c.nickname@);
    }
}

/// Compares two nicknames, per `spec_lex_le`.
pub fn str_lex_le(a: &str, b: &str) -> (r: bool)
    ensures
        r == spec_lex_le(a@, b@),
{
    let na: usize = a.unicode_len();
    let nb: usize = b.unicode_len();
    let mut i: usize = 0;
    proof {
        assert(a@.skip(0) =~= a@);
        assert(b@.skip(0) =~= b@);
    }
    loop
        invariant
            na == a@.len(),
            nb == b@.len(),
            0 <= i <= na,
            0 <= i <= nb,
            spec_lex_le(a@, b@) == spec_lex_le(a@.skip(i as int), b@.skip(i as int)),
        decreases na - i,
    {
        if i >= na {
            return true;
        }
        if i >= nb {
            return false;
        }
        let ca = a.get_char(i);
        let cb = b.get_char(i);
        proof {
            assert(a@.skip(i as int)[0] == a@[i as int]);
            assert(b@.skip(i as int)[0] == b@[i as int]);
            assert(a@.skip(i as int).drop_first() =~= a@.skip(i + 1));
            assert(b@.skip(i as int).drop_first() =~= b@.skip(i + 1));
        }
        if ca != cb {
            return ca < cb;
        }
        i = i + 1;
    }
}

/// Compares two users in display order, per `spec_user_le`.
pub fn user_le(a: &User, b: &User) -> (r: bool)
    ensures
        r == spec_user_le(*a, *b),
{
    let pa = Renderer::get_access_level_priority(&a.access_level);
    let pb = Renderer::get_access_level_priority(&b.access_level);
    if pa < pb {
        true
    } else if pa > pb {
        false
    } else {
        str_lex_le(a.nickname.as_str(), b.nickname.as_str())
    }
}

/// Inserting an element anywhere adds exactly it to the contents.
proof fn lemma_insert_to_multiset(s: Seq<User>, p: int, x: User)
    requires
        0 <= p <= s.len(),
    ensures
        s.insert(p, x).to_multiset() == s.to_multiset().insert(x),
{
    broadcast use vstd::seq_lib::group_to_multiset_ensures;

    let left = s.subrange(0, p);
    let right = s.subrange(p, s.len() as int);
    assert(s.insert(p, x) == left.push(x) + right);
    vstd::seq_lib::lemma_multiset_commutative(left.push(x), right);
    assert(left.push(x).to_multiset() =~= left.to_multiset().insert(x));
    assert(s =~= left + right);
    vstd::seq_lib::lemma_multiset_commutative(left, right);
    assert(s.insert(p, x).to_multiset() =~= s.to_multiset().insert(x));
}

/// Sorts the user list for display: access-level priority ascending,
/// ties broken by nickname order; the entries themselves are exactly
/// those given.
pub fn sort_users(users: Vec<User>) -> (r: Vec<User>)
    ensures
        r@.len() == users@.len(),
        r@.to_multiset() == users@.to_multiset(),
        forall|i: int, j: int|
            0 <= i < j < r@.len() ==> spec_user_le(#[trigger] r@[i], #[trigger] r@[j]),
{
    let ghost given = users@;
    let mut pending = users;
    let mut result: Vec<User> = Vec::new();
    proof {
        broadcast use vstd::seq_lib::group_to_multiset_ensures;

        assert(result@.to_multiset().add(pending@.to_multiset()) =~= given.to_multiset());
    }
    while pending.len() > 0
        invariant
            result@.to_multiset().add(pending@.to_multiset()) == given.to_multiset(),
            result@.len() + pending@.len() == given.len(),
            forall|i: int, j: int|
                0 <= i < j < result@.len() ==> spec_user_le(
                    #[trigger] result@[i],
                    #[trigger] result@[j],
                ),
        decreases pending@.len(),
    {
        let ghost r0 = result@;
        let x = pending.remove(0);
        let mut p: usize = 0;
        loop
            invariant
                0 <= p <= result@.len(),
                result@ == r0,
                forall|j: int| 0 <= j < p ==> spec_user_le(#[trigger] result@[j], x),
            ensures
                0 <= p <= result@.len(),
                result@ == r0,
                forall|j: int| 0 <= j < p ==> spec_user_le(#[trigger] result@[j], x),
                p == result@.len() || !spec_user_le(result@[p as int], x),
            decreases result@.len() - p,
        {
            if p >= result.len() {
                break;
            }
            if !user_le(&result[p], &x) {
                break;
            }
            p = p + 1;
        }
        proof {
            if (p as int) < r0.len() {
                lemma_user_le_total(r0[p as int], x);
            }
            assert forall|j: int| p <= j < r0.len() implies spec_user_le(
                x,
                #[trigger] r0[j],
            ) by {
                assert(spec_user_le(x, r0[p as int]));
                if j > p {
                    assert(spec_user_le(r0[p as int], r0[j]));
                    lemma_user_le_trans(x, r0[p as int], r0[j]);
                }
            }
        }
        result.insert(p, x);
        proof {
            broadcast use vstd::seq_lib::group_to_multiset_ensures;

            lemma_insert_to_multiset(r0, p as int, x);
            let r1 = result@;
            assert forall|i: int, j: int| 0 <= i < j < r1.len() implies spec_user_le(
                #[trigger] r1[i],
                #[trigger] r1[j],
            ) by {
                if j < p {
                    assert(r1[i] == r0[i] && r1[j] == r0[j]);
                } else if j == p {
                    assert(r1[i] == r0[i] && r1[j] == x);
                } else if i < p {
                    assert(r1[i] == r0[i] && r1[j] == r0[j - 1]);
                } else if i == p {
                    assert(r1[i] == x && r1[j] == r0[j - 1]);
                } else {
                    assert(r1[i] == r0[i - 1] && r1[j] == r0[j - 1]);
                }
            }
            assert(result@.to_multiset().add(pending@.to_multiset()) =~= given.to_multiset());
        }
    }
    proof {
        broadcast use vstd::seq_lib::group_to_multiset_ensures;

        assert(pending@ =~= Seq::<User>::empty());
        assert(pending@.to_multiset() =~= vstd::multiset::Multiset::<User>::empty());
        assert(result@.to_multiset() =~= given.to_multiset());
    }
    result
}

/// The sum of a list of widths.
pub open spec fn spec_width_sum(s: Seq<usize>) -> int
    decreases s.len(),
{
    if s.len() == 0 {
        0
    } else {
        spec_width_sum(s.drop_last()) + s.last()
    }
}

impl Renderer {
    pub fn new() -> (r: Renderer) {
        Renderer {}
    }

    /// Flattens a content tree handed back by a formatting hook into
    /// spans, starting from the empty style.
    pub fn lua_value_to_spans(&self, value: &ScriptValue) -> (spans: Vec<Span>)
        ensures
            spans_view(spans@) == spec_flatten(*value, Style::spec_default()),
    {
        let mut spans: Vec<Span> = Vec::new();
        crate::style::flatten_value(value, Style::new(), &mut spans);
        proof {
            assert(spans_view(Seq::<Span>::empty()) =~= Seq::<
                crate::style::SpanView,
            >::empty());
            assert(spans_view(spans@) =~= spec_flatten(*value, Style::spec_default()));
        }
        spans
    }

    /// One span of plain text, styled when a style is given.
    pub fn string_to_span(text: String, style: Option<Style>) -> (r: Span)
        ensures
            r@.text == text@,
            r@.style == match style {
                Some(st) => st,
                None => Style::spec_default(),
            },
    {
        match style {
            Some(st) => Span::styled(text, st),
            None => Span::raw(text),
        }
    }

    /// The sort rank of an access level, per `spec_access_priority`.
    pub fn get_access_level_priority(access_level: &AccessLevel) -> (r: i32)
        ensures
            r as int == spec_access_priority(*access_level),
    {
        match access_level {
            AccessLevel::Owner => 0,
            AccessLevel::Admin => 1,
            AccessLevel::Oper => 2,
            AccessLevel::HalfOp => 3,
            AccessLevel::Voice => 4,
            AccessLevel::Member => 5,
        }
    }

    /// How many of the most recent messages are worth rendering for a
    /// viewport of this height: half again as many as there are rows,
    /// since some render to several rows and some to none.
    pub fn oversampled_count(height: u16) -> (r: usize)
        ensures
            r == height + height / 2,
    {
        (height as usize) + (height as usize) / 2
    }

    /// The positions of the messages to consider for the viewport, most
    /// recent first: the last `height + height / 2` of them, bottom-up.
    pub fn visible_message_indices(message_count: usize, height: u16) -> (r: Vec<usize>)
        ensures
            r@.len() == vstd::math::min(message_count as int, height + height / 2),
            forall|k: int| 0 <= k < r@.len() ==> #[trigger] r@[k] == message_count - 1 - k,
    {
        let limit = Renderer::oversampled_count(height);
        let take = if message_count < limit {
            message_count
        } else {
            limit
        };
        let mut r: Vec<usize> = Vec::new();
        let mut k: usize = 0;
        while k < take
            invariant
                take <= message_count,
                0 <= k <= take,
                r@.len() == k,
                forall|j: int| 0 <= j < k ==> #[trigger] r@[j] == message_count - 1 - j,
            decreases take - k,
        {
            r.push(message_count - 1 - k);
            k = k + 1;
        }
        r
    }

    /// The width of the blank hanging indent under which wrapped
    /// continuation lines align: the rendered width of every timestamp
    /// span but the last, whose own width the separator supplies.
    pub fn hanging_indent_width(widths: &Vec<usize>) -> (r: usize)
        requires
            widths@.len() >= 1,
        ensures
            spec_width_sum(widths@.drop_last()) <= usize::MAX ==> r == spec_width_sum(
                widths@.drop_last(),
            ),
    {
        let n = widths.len();
        let mut sum: usize = 0;
        let mut i: usize = 0;
        while i < n - 1
            invariant
                n == widths@.len(),
                1 <= n,
                0 <= i <= n - 1,
                spec_width_sum(widths@.take(i as int)) <= usize::MAX ==> sum == spec_width_sum(
                    widths@.take(i as int),
                ),
                sum <= spec_width_sum(widths@.take(i as int)),
                spec_width_sum(widths@.take(i as int)) <= usize::MAX || sum == usize::MAX,
            decreases n - 1 - i,
        {
            proof {
                assert(widths@.take(i + 1).drop_last() =~= widths@.take(i as int));
                assert(widths@.take(i + 1).last() == widths@[i as int]);
            }
            let w = widths[i];
            if sum > usize::MAX - w {
                sum = usize::MAX;
            } else {
                sum = sum + w;
            }
            i = i + 1;
        }
        proof {
            assert(widths@.take(n - 1) =~= widths@.drop_last());
        }
        sum
    }

    /// Decides how one message is displayed, from what the formatting
    /// hooks produced: a failed timestamp hook renders as no prefix; a
    /// one-span prefix gains an empty alignment span; a failed body
    /// hook falls back to the raw text; an empty body suppresses the
    /// line entirely.
    pub fn render_message(
        &self,
        time_result: Option<Vec<Span>>,
        text_result: Option<Vec<Span>>,
        raw: &String,
    ) -> (r: Option<RenderedMessage>)
        ensures
            ({
                let time0 = match time_result {
                    Some(t) => t@,
                    None => Seq::<Span>::empty(),
                };
                let time1 = if time0.len() == 1 {
                    spans_view(time0).push(
                        crate::style::SpanView {
                            text: Seq::empty(),
                            style: Style::spec_default(),
                        },
                    )
                } else {
                    spans_view(time0)
                };
                match text_result {
                    Some(body) => {
                        if body@.len() == 0 {
                            r is None
                        } else {
                            r matches Some(rm) && spans_view(rm.time@) == time1 && rm.message@
                                == body@
                        }
                    },
                    None => {
                        r matches Some(rm) && spans_view(rm.time@) == time1 && rm.message@.len()
                            == 1 && rm.message@[0]@.text == raw@ && rm.message@[0]@.style
                            == Style::spec_default()
                    },
                }
            }),
    {
        let mut time = match time_result {
            Some(t) => t,
            None => Vec::new(),
        };
        let ghost time0 = time@;
        if time.len() == 1 {
            time.push(Span::raw(String::new()));
        }
        proof {
            if time0.len() == 1 {
                assert(spans_view(time@) =~= spans_view(time0).push(
                    crate::style::SpanView { text: Seq::empty(), style: Style::spec_default() },
                ));
            }
        }
        let message = match text_result {
            Some(body) => {
                if body.len() == 0 {
                    return None;
                }
                body
            },
            None => {
                let mut fallback: Vec<Span> = Vec::new();
                fallback.push(Span::raw(raw.clone()));
                fallback
            },
        };
        Some(RenderedMessage { time, message })
    }

    /// The buffer bar: every buffer name in order, each followed by a
    /// separating space, the current buffer's name emphasized.
    pub fn buffer_bar_spans(names: &Vec<String>, current: &String) -> (r: Vec<Span>)
        ensures
            r@.len() == 2 * names@.len(),
            forall|i: int|
                0 <= i < names@.len() ==> {
                    &&& (#[trigger] r@[2 * i])@.text == names@[i]@
                    &&& r@[2 * i]@.style == (Style {
                        bold: names@[i]@ == current@,
                        ..Style::spec_default()
                    })
                    &&& r@[2 * i + 1]@.text == " "@
                    &&& r@[2 * i + 1]@.style == Style::spec_default()
                },
    {
        let n = names.len();
        let mut r: Vec<Span> = Vec::new();
        let mut i: usize = 0;
        while i < n
            invariant
                n == names@.len(),
                0 <= i <= n,
                r@.len() == 2 * i,
                forall|j: int|
                    0 <= j < i ==> {
                        &&& (#[trigger] r@[2 * j])@.text == names@[j]@
                        &&& r@[2 * j]@.style == (Style {
                            bold: names@[j]@ == current@,
                            ..Style::spec_default()
                        })
                        &&& r@[2 * j + 1]@.text == " "@
                        &&& r@[2 * j + 1]@.style == Style::spec_default()
                    },
            decreases n - i,
        {
            let bold = crate::text::str_eq(names[i].as_str(), current.as_str());
            let style = Style { fg: None, bg: None, bold };
            r.push(Span::styled(names[i].clone(), style));
            r.push(Span::raw(String::from_str(" ")));
            i = i + 1;
        }
        r
    }

    /// Whether the user sidebar is shown: only when more than one user
    /// is present.
    pub fn show_user_sidebar(user_count: usize) -> (r: bool)
        ensures
            r == (user_count > 1),
    {
        user_count > 1
    }

    /// The display fallback for one user-list entry: what the
    /// formatting hook produced, or the bare nickname when the hook
    /// produced nothing.
    pub fn render_user_entry(&self, formatted: Option<Vec<Span>>, user: &User) -> (r: Vec<Span>)
        ensures
            match formatted {
                Some(spans) => if spans@.len() == 0 {
                    r@.len() == 1 && r@[0]@.text == user.nickname@ && r@[0]@.style
                        == Style::spec_default()
                } else {
                    r@ == spans@
                },
                None => r@.len() == 1 && r@[0]@.text == user.nickname@ && r@[0]@.style
                    == Style::spec_default(),
            },
    {
        match formatted {
            Some(spans) => {
                if spans.len() == 0 {
                    let mut r: Vec<Span> = Vec::new();
                    r.push(Span::raw(user.nickname.clone()));
                    r
                } else {
                    spans
                }
            },
            None => {
                let mut r: Vec<Span> = Vec::new();
                r.push(Span::raw(user.nickname.clone()));
                r
            },
        }
    }

    /// The input line's mode-dependent prefix: none, the command colon,
    /// or the compose marker.
    pub fn input_prefix(mode: Mode) -> (r: &'static str)
        ensures
            r@ == match mode {
                Mode::Normal => ""@,
                Mode::Command => ":"@,
                Mode::Insert => "\u{276f} "@,
            },
    {
        match mode {
            Mode::Normal => "",
            Mode::Command => ":",
            Mode::Insert => "\u{276f} ",
        }
    }

    /// The width left for the input text: the frame width, at least
    /// three cells, less the prefix.
    pub fn input_width(area_width: u16, prefix_len: u16) -> (r: u16)
        requires
            prefix_len <= 3,
        ensures
            r == vstd::math::max(area_width as int, 3) - prefix_len,
    {
        let base = if area_width > 3 {
            area_width
        } else {
            3
        };
        base - prefix_len
    }

    /// The cursor column on the input line: the visual cursor within
    /// the scrolled window, shifted right by the prefix.
    pub fn cursor_column(rect_x: u16, visual_cursor: usize, scroll: usize, prefix_len: u16) -> (r:
        u16)
        requires
            rect_x + (vstd::math::max(visual_cursor as int, scroll as int) - scroll)
                + prefix_len <= u16::MAX,
        ensures
            r == rect_x + (vstd::math::max(visual_cursor as int, scroll as int) - scroll)
                + prefix_len,
    {
        let offset = if visual_cursor > scroll {
            visual_cursor - scroll
        } else {
            0
        };
        rect_x + (offset as u16) + prefix_len
    }
}

} // verus!
