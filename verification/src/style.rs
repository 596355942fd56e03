//! The style-resolution engine: display attributes (colors, weight),
//! script-supplied content trees, and the flattener that turns a tree of
//! nested, style-annotated text into an ordered list of spans with fully
//! resolved styles.

use vstd::prelude::*;

verus! {

/// A terminal color: the named palette, a 24-bit value, or an indexed
/// palette entry.
#[derive(Clone, Copy, Debug, PartialEq, Eq)]
pub enum Color {
    Reset,
    Black,
    Red,
    Green,
    Yellow,
    Blue,
    Magenta,
    Cyan,
    Gray,
    DarkGray,
    LightRed,
    LightGreen,
    LightYellow,
    LightBlue,
    LightMagenta,
    LightCyan,
    White,
    Rgb(u8, u8, u8),
    Indexed(u8),
}

/// A flat record of display attributes. A field left `None` falls
/// through to whatever an enclosing context provides.
#[derive(Clone, Copy, Debug, PartialEq, Eq)]
pub struct Style {
    pub fg: Option<Color>,
    pub bg: Option<Color>,
    pub bold: bool,
}

impl Style {
    /// The empty style: nothing set, everything inherited.
    pub open spec fn spec_default() -> Style {
        Style { fg: None, bg: None, bold: false }
    }

    pub fn new() -> (r: Style)
        ensures
            r == Style::spec_default(),
    {
        Style { fg: None, bg: None, bold: false }
    }

    /// Fields present in `child` override; fields absent fall through
    /// from `self`; weight accumulates.
    pub open spec fn spec_patch(self, child: Style) -> Style {
        Style {
            fg: if child.fg is Some {
                child.fg
            } else {
                self.fg
            },
            bg: if child.bg is Some {
                child.bg
            } else {
                self.bg
            },
            bold: self.bold || child.bold,
        }
    }

    pub fn patch(self, child: Style) -> (r: Style)
        ensures
            r == self.spec_patch(child),
    {
        Style {
            fg: if child.fg.is_some() {
                child.fg
            } else {
                self.fg
            },
            bg: if child.bg.is_some() {
                child.bg
            } else {
                self.bg
            },
            bold: self.bold || child.bold,
        }
    }
}

impl Default for Style {
    fn default() -> (r: Style)
        ensures
            r == Style::spec_default(),
    {
        Style::new()
    }
}

/// A contiguous run of text with one resolved style.
#[derive(Clone, Debug, PartialEq, Eq)]
pub struct Span {
    pub content: String,
    pub style: Style,
}

pub ghost struct SpanView {
    pub text: Seq<char>,
    pub style: Style,
}

impl View for Span {
    type V = SpanView;

    open spec fn view(&self) -> SpanView {
        SpanView { text: self.content@, style: self.style }
    }
}

/// The views of a list of spans, in order.
pub open spec fn spans_view(s: Seq<Span>) -> Seq<SpanView> {
    s.map(|i: int, sp: Span| sp@)
}

impl Span {
    pub fn raw(content: String) -> (r: Span)
        ensures
            r@.text == content@,
            r@.style == Style::spec_default(),
    {
        Span { content, style: Style::new() }
    }

    pub fn styled(content: String, style: Style) -> (r: Span)
        ensures
            r@.text == content@,
            r@.style == style,
    {
        Span { content, style }
    }
}

/// A value handed back by the scripting runtime, already converted to
/// owned engine data: nil, a boolean, an integral number, text, or a
/// table with an ordered sequence part and a string-keyed record part.
#[derive(Debug)]
pub enum ScriptValue {
    Nil,
    Bool(bool),
    Int(i64),
    Str(String),
    Tbl(ScriptTable),
}

#[derive(Debug)]
pub struct ScriptTable {
    /// The ordered sequence part of the table.
    pub seq: Vec<ScriptValue>,
    /// The string-keyed record part of the table, in key order as
    /// handed over by the runtime.
    pub rec: Vec<(String, ScriptValue)>,
}

/// Numeric value of a hexadecimal digit, or 16 for any other character.
pub open spec fn spec_hex_val(c: char) -> int {
    if '0' <= c && c <= '9' {
        c as int - '0' as int
    } else if 'a' <= c && c <= 'f' {
        c as int - 'a' as int + 10
    } else if 'A' <= c && c <= 'F' {
        c as int - 'A' as int + 10
    } else {
        16
    }
}

pub fn hex_val(c: char) -> (r: u8)
    ensures
        r as int == spec_hex_val(c),
{
    if '0' <= c && c <= '9' {
        (c as u8) - ('0' as u8)
    } else if 'a' <= c && c <= 'f' {
        (c as u8) - ('a' as u8) + 10
    } else if 'A' <= c && c <= 'F' {
        (c as u8) - ('A' as u8) + 10
    } else {
        16
    }
}

/// A `#rrggbb` color literal: seven characters, a leading hash, six
/// hexadecimal digits.
pub open spec fn spec_is_hex_color(s: Seq<char>) -> bool {
    &&& s.len() == 7
    &&& s[0] == '#'
    &&& forall|i: int| 1 <= i < 7 ==> spec_hex_val(#[trigger] s[i]) < 16
}

pub open spec fn spec_hex_byte(s: Seq<char>, i: int) -> int {
    16 * spec_hex_val(s[i]) + spec_hex_val(s[i + 1])
}

/// Decimal palette index: one to three digits whose value is at most 255.
pub open spec fn spec_is_color_index(s: Seq<char>) -> bool {
    &&& 1 <= s.len() <= 3
    &&& forall|i: int| 0 <= i < s.len() ==> '0' <= #[trigger] s[i] && s[i] <= '9'
    &&& spec_decimal_value(s) <= 255
}

pub open spec fn spec_decimal_value(s: Seq<char>) -> int
    decreases s.len(),
{
    if s.len() == 0 {
        0
    } else {
        10 * spec_decimal_value(s.drop_last()) + (s.last() as int - '0' as int)
    }
}

/// The color a textual color value denotes: a canonical lowercase
/// palette name, a `#rrggbb` literal, or a decimal palette index.
pub open spec fn spec_color_from_name(s: Seq<char>) -> Option<Color> {
    if s == "reset"@ {
        Some(Color::Reset)
    } else if s == "black"@ {
        Some(Color::Black)
    } else if s == "red"@ {
        Some(Color::Red)
    } else if s == "green"@ {
        Some(Color::Green)
    } else if s == "yellow"@ {
        Some(Color::Yellow)
    } else if s == "blue"@ {
        Some(Color::Blue)
    } else if s == "magenta"@ {
        Some(Color::Magenta)
    } else if s == "cyan"@ {
        Some(Color::Cyan)
    } else if s == "gray"@ {
        Some(Color::Gray)
    } else if s == "darkgray"@ {
        Some(Color::DarkGray)
    } else if s == "lightred"@ {
        Some(Color::LightRed)
    } else if s == "lightgreen"@ {
        Some(Color::LightGreen)
    } else if s == "lightyellow"@ {
        Some(Color::LightYellow)
    } else if s == "lightblue"@ {
        Some(Color::LightBlue)
    } else if s == "lightmagenta"@ {
        Some(Color::LightMagenta)
    } else if s == "lightcyan"@ {
        Some(Color::LightCyan)
    } else if s == "white"@ {
        Some(Color::White)
    } else if spec_is_hex_color(s) {
        Some(
            Color::Rgb(
                spec_hex_byte(s, 1) as u8,
                spec_hex_byte(s, 3) as u8,
                spec_hex_byte(s, 5) as u8,
            ),
        )
    } else if spec_is_color_index(s) {
        Some(Color::Indexed(spec_decimal_value(s) as u8))
    } else {
        None
    }
}

pub fn color_from_name(s: &str) -> (r: Option<Color>)
    ensures
        r == spec_color_from_name(s@),
{
    if crate::text::str_eq(s, "reset") {
        Some(Color::Reset)
    } else if crate::text::str_eq(s, "black") {
        Some(Color::Black)
    } else if crate::text::str_eq(s, "red") {
        Some(Color::Red)
    } else if crate::text::str_eq(s, "green") {
        Some(Color::Green)
    } else if crate::text::str_eq(s, "yellow") {
        Some(Color::Yellow)
    } else if crate::text::str_eq(s, "blue") {
        Some(Color::Blue)
    } else if crate::text::str_eq(s, "magenta") {
        Some(Color::Magenta)
    } else if crate::text::str_eq(s, "cyan") {
        Some(Color::Cyan)
    } else if crate::text::str_eq(s, "gray") {
        Some(Color::Gray)
    } else if crate::text::str_eq(s, "darkgray") {
        Some(Color::DarkGray)
    } else if crate::text::str_eq(s, "lightred") {
        Some(Color::LightRed)
    } else if crate::text::str_eq(s, "lightgreen") {
        Some(Color::LightGreen)
    } else if crate::text::str_eq(s, "lightyellow") {
        Some(Color::LightYellow)
    } else if crate::text::str_eq(s, "lightblue") {
        Some(Color::LightBlue)
    } else if crate::text::str_eq(s, "lightmagenta") {
        Some(Color::LightMagenta)
    } else if crate::text::str_eq(s, "lightcyan") {
        Some(Color::LightCyan)
    } else if crate::text::str_eq(s, "white") {
        Some(Color::White)
    } else {
        color_from_literal(s)
    }
}

/// The non-name cases of a textual color value: a `#rrggbb` literal or
/// a decimal palette index.
fn color_from_literal(s: &str) -> (r: Option<Color>)
    ensures
        r == if spec_is_hex_color(s@) {
            Some(
                Color::Rgb(
                    spec_hex_byte(s@, 1) as u8,
                    spec_hex_byte(s@, 3) as u8,
                    spec_hex_byte(s@, 5) as u8,
                ),
            )
        } else if spec_is_color_index(s@) {
            Some(Color::Indexed(spec_decimal_value(s@) as u8))
        } else {
            None::<Color>
        },
{
    let n: usize = s.unicode_len();
    if n == 7 && s.get_char(0) == '#' {
        let h1 = hex_val(s.get_char(1));
        let h2 = hex_val(s.get_char(2));
        let h3 = hex_val(s.get_char(3));
        let h4 = hex_val(s.get_char(4));
        let h5 = hex_val(s.get_char(5));
        let h6 = hex_val(s.get_char(6));
        if h1 < 16 && h2 < 16 && h3 < 16 && h4 < 16 && h5 < 16 && h6 < 16 {
            assert(spec_is_hex_color(s@));
            return Some(Color::Rgb(16 * h1 + h2, 16 * h3 + h4, 16 * h5 + h6));
        }
        assert(!spec_is_hex_color(s@));
        assert(!spec_is_color_index(s@));
        return None;
    }
    assert(!spec_is_hex_color(s@));
    if 1 <= n && n <= 3 {
        let mut i: usize = 0;
        let mut value: u32 = 0;
        while i < n
            invariant
                n == s@.len(),
                1 <= n <= 3,
                0 <= i <= n,
                forall|j: int| 0 <= j < i ==> '0' <= #[trigger] s@[j] && s@[j] <= '9',
                value == spec_decimal_value(s@.take(i as int)),
                value < (if i == 0 {
                    1u32
                } else if i == 1 {
                    10u32
                } else if i == 2 {
                    100u32
                } else {
                    1000u32
                }),
            decreases n - i,
        {
            let c = s.get_char(i);
            if !('0' <= c && c <= '9') {
                assert(!spec_is_color_index(s@));
                return None;
            }
            proof {
                assert(s@.take(i + 1).drop_last() =~= s@.take(i as int));
                assert(s@.take(i + 1).last() == s@[i as int]);
            }
            value = 10 * value + ((c as u32) - ('0' as u32));
            i = i + 1;
        }
        proof {
            assert(s@.take(n as int) =~= s@);
        }
        if value <= 255 {
            assert(spec_is_color_index(s@));
            return Some(Color::Indexed(value as u8));
        }
        assert(!spec_is_color_index(s@));
        return None;
    }
    assert(!spec_is_color_index(s@));
    None
}

/// The color a value in a style record denotes: only text is accepted.
pub open spec fn spec_color_value(v: ScriptValue) -> Option<Color> {
    match v {
        ScriptValue::Str(s) => spec_color_from_name(s@),
        _ => None,
    }
}

/// Folds the record entries from index `i` on into `acc`: `fg` and `bg`
/// set the corresponding field (a value that is no color makes the whole
/// record unrecognizable), every other key is ignored.
pub open spec fn spec_rec_style_from(
    entries: Seq<(String, ScriptValue)>,
    i: int,
    acc: Style,
) -> Option<Style>
    decreases entries.len() - i,
{
    if i < 0 || i >= entries.len() {
        Some(acc)
    } else if entries[i].0@ == "fg"@ {
        match spec_color_value(entries[i].1) {
            Some(c) => spec_rec_style_from(entries, i + 1, Style { fg: Some(c), ..acc }),
            None => None,
        }
    } else if entries[i].0@ == "bg"@ {
        match spec_color_value(entries[i].1) {
            Some(c) => spec_rec_style_from(entries, i + 1, Style { bg: Some(c), ..acc }),
            None => None,
        }
    } else {
        spec_rec_style_from(entries, i + 1, acc)
    }
}

/// Whether a value is recognizably a style record, and if so which
/// style it denotes: a table with no sequence part whose `fg` and `bg`
/// entries, where present, are color values.
pub open spec fn spec_style_of(v: ScriptValue) -> Option<Style> {
    match v {
        ScriptValue::Tbl(t) => if t.seq@.len() == 0 {
            spec_rec_style_from(t.rec@, 0, Style::spec_default())
        } else {
            None
        },
        _ => None,
    }
}

/// The spans a content tree flattens to, under an inherited style:
/// text emits one span with the inherited style; a two-element sequence
/// whose second element is a style record patches the inherited style
/// and recurses into the first element; any other table is traversed
/// depth-first left to right; anything else contributes nothing.
pub open spec fn spec_flatten(v: ScriptValue, inherited: Style) -> Seq<SpanView>
    decreases v,
{
    match v {
        ScriptValue::Str(s) => seq![SpanView { text: s@, style: inherited }],
        ScriptValue::Tbl(t) => {
            if t.seq@.len() == 2 && spec_style_of(t.seq@[1]) is Some {
                spec_flatten(t.seq@[0], inherited.spec_patch(spec_style_of(t.seq@[1])->Some_0))
            } else {
                spec_flatten_items(t.seq@, 0, inherited)
            }
        },
        _ => Seq::empty(),
    }
}

/// The concatenation, in order, of the flattenings of `items[i..]`,
/// each under the same inherited style.
pub open spec fn spec_flatten_items(items: Seq<ScriptValue>, i: int, inherited: Style) -> Seq<
    SpanView,
>
    decreases items, items.len() - i,
{
    if i < 0 || i >= items.len() {
        Seq::empty()
    } else {
        spec_flatten(items[i], inherited) + spec_flatten_items(items, i + 1, inherited)
    }
}

fn color_value(v: &ScriptValue) -> (r: Option<Color>)
    ensures
        r == spec_color_value(*v),
{
    match v {
        ScriptValue::Str(s) => color_from_name(s.as_str()),
        _ => None,
    }
}

fn rec_style_from(entries: &Vec<(String, ScriptValue)>, i: usize, acc: Style) -> (r: Option<
    Style,
>)
    requires
        i <= entries@.len(),
    ensures
        r == spec_rec_style_from(entries@, i as int, acc),
    decreases entries@.len() - i,
{
    if i >= entries.len() {
        Some(acc)
    } else {
        let entry = &entries[i];
        if crate::text::str_eq(entry.0.as_str(), "fg") {
            match color_value(&entry.1) {
                Some(c) => rec_style_from(entries, i + 1, Style { fg: Some(c), ..acc }),
                None => None,
            }
        } else if crate::text::str_eq(entry.0.as_str(), "bg") {
            match color_value(&entry.1) {
                Some(c) => rec_style_from(entries, i + 1, Style { bg: Some(c), ..acc }),
                None => None,
            }
        } else {
            rec_style_from(entries, i + 1, acc)
        }
    }
}

/// Recognizes a style record, per `spec_style_of`.
pub fn style_of(v: &ScriptValue) -> (r: Option<Style>)
    ensures
        r == spec_style_of(*v),
{
    match v {
        ScriptValue::Tbl(t) => {
            if t.seq.len() == 0 {
                rec_style_from(&t.rec, 0, Style::new())
            } else {
                None
            }
        },
        _ => None,
    }
}

/// Appends to `spans` the flattening of `v` under `inherited`, in
/// depth-first left-to-right order. Adjacent spans are not merged.
pub fn flatten_value(v: &ScriptValue, inherited: Style, spans: &mut Vec<Span>)
    ensures
        spans_view(final(spans)@) == spans_view(old(spans)@) + spec_flatten(*v, inherited),
    decreases *v,
{
    match v {
        ScriptValue::Str(s) => {
            let ghost pre = spans@;
            spans.push(Span::styled(s.clone(), inherited));
            proof {
                assert(spans_view(spans@) =~= spans_view(pre) + spec_flatten(*v, inherited));
            }
        },
        ScriptValue::Tbl(t) => {
            if t.seq.len() == 2 {
                let st = style_of(&t.seq[1]);
                match st {
                    Some(st) => {
                        flatten_value(&t.seq[0], inherited.patch(st), spans);
                        return ;
                    },
                    None => {},
                }
            }
            flatten_items(&t.seq, 0, inherited, spans);
        },
        _ => {
            proof {
                assert(spans_view(spans@) =~= spans_view(spans@) + Seq::<SpanView>::empty());
            }
        },
    }
}

fn flatten_items(items: &Vec<ScriptValue>, i: usize, inherited: Style, spans: &mut Vec<Span>)
    requires
        i <= items@.len(),
    ensures
        spans_view(final(spans)@) == spans_view(old(spans)@) + spec_flatten_items(
            items@,
            i as int,
            inherited,
        ),
    decreases items@, items@.len() - i,
{
    if i >= items.len() {
        proof {
            assert(spans_view(spans@) =~= spans_view(spans@) + Seq::<SpanView>::empty());
        }
        return ;
    }
    let ghost pre = spans@;
    flatten_value(&items[i], inherited, spans);
    let ghost mid = spans@;
    flatten_items(items, i + 1, inherited, spans);
    proof {
        assert(spans_view(spans@) =~= spans_view(pre) + spec_flatten_items(
            items@,
            i as int,
            inherited,
        ));
    }
}

} // verus!
