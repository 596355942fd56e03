use tirc::render::Renderer;
use tirc::state::{AccessLevel, Mode, User};
use tirc::style::{Color, ScriptTable, ScriptValue, Span, Style};

fn txt(s: &str) -> ScriptValue {
    ScriptValue::Str(s.to_string())
}

fn tbl(items: Vec<ScriptValue>) -> ScriptValue {
    ScriptValue::Tbl(ScriptTable { seq: items, rec: Vec::new() })
}

fn style_record(pairs: &[(&str, &str)]) -> ScriptValue {
    let rec = pairs
        .iter()
        .map(|(k, v)| (k.to_string(), ScriptValue::Str(v.to_string())))
        .collect();
    ScriptValue::Tbl(ScriptTable { seq: Vec::new(), rec })
}

fn styled(inner: ScriptValue, style: ScriptValue) -> ScriptValue {
    tbl(vec![inner, style])
}

#[test]
fn test_lua_value_to_spans() {
    let renderer = Renderer::new();
    let value = tbl(vec![txt("Hello"), txt(", "), txt("World!")]);
    let spans = renderer.lua_value_to_spans(&value);
    assert_eq!(spans.len(), 3);
    assert_eq!(spans[0].content, "Hello");
    assert_eq!(spans[1].content, ", ");
    assert_eq!(spans[2].content, "World!");
}

#[test]
fn test_lua_value_to_spans_nested() {
    let renderer = Renderer::new();
    let value = tbl(vec![txt("Hello"), tbl(vec![txt(", ")]), txt("World!")]);
    let spans = renderer.lua_value_to_spans(&value);
    assert_eq!(spans.len(), 3);
    assert_eq!(spans[0].content, "Hello");
    assert_eq!(spans[1].content, ", ");
    assert_eq!(spans[2].content, "World!");
}

#[test]
fn test_lua_value_to_spans_deeply_nested() {
    let renderer = Renderer::new();
    let value = tbl(vec![
        txt("a"),
        tbl(vec![txt("b"), txt("c"), tbl(vec![txt("d"), txt("e")])]),
        txt("f"),
    ]);
    let spans = renderer.lua_value_to_spans(&value);
    assert_eq!(spans.len(), 6);
    assert_eq!(spans[0].content, "a");
    assert_eq!(spans[1].content, "b");
    assert_eq!(spans[2].content, "c");
    assert_eq!(spans[3].content, "d");
    assert_eq!(spans[4].content, "e");
    assert_eq!(spans[5].content, "f");
}

#[test]
fn test_lua_value_to_styled_spans() {
    let renderer = Renderer::new();
    let blue = style_record(&[("fg", "blue")]);
    let value = styled(txt("a"), blue);
    let spans = renderer.lua_value_to_spans(&value);
    assert_eq!(spans.len(), 1);
    assert_eq!(spans[0].content, "a");
    assert_eq!(spans[0].style.fg, Some(Color::Blue));
}

#[test]
fn test_lua_value_to_styled_spans_deeply_nested() {
    let renderer = Renderer::new();
    let blue = style_record(&[("fg", "blue")]);
    let green = style_record(&[("fg", "green")]);
    let darkgray = style_record(&[("fg", "darkgray"), ("bg", "white")]);
    let value = tbl(vec![
        styled(txt("a"), blue),
        styled(
            tbl(vec![
                txt("b"),
                tbl(vec![txt("c"), styled(txt("d"), green), txt("e")]),
            ]),
            darkgray,
        ),
        txt("f"),
    ]);
    let spans = renderer.lua_value_to_spans(&value);
    assert_eq!(spans.len(), 6);
    assert_eq!(spans[0].content, "a");
    assert_eq!(spans[0].style.fg, Some(Color::Blue));
    assert_eq!(spans[0].style.bg, None);
    assert_eq!(spans[1].content, "b");
    assert_eq!(spans[1].style.fg, Some(Color::DarkGray));
    assert_eq!(spans[1].style.bg, Some(Color::White));
    assert_eq!(spans[2].content, "c");
    assert_eq!(spans[2].style.fg, Some(Color::DarkGray));
    assert_eq!(spans[2].style.bg, Some(Color::White));
    assert_eq!(spans[3].content, "d");
    assert_eq!(spans[3].style.fg, Some(Color::Green));
    assert_eq!(spans[3].style.bg, Some(Color::White));
    assert_eq!(spans[4].content, "e");
    assert_eq!(spans[4].style.fg, Some(Color::DarkGray));
    assert_eq!(spans[4].style.bg, Some(Color::White));
    assert_eq!(spans[5].content, "f");
    assert_eq!(spans[5].style.fg, None);
    assert_eq!(spans[5].style.bg, None);
}

#[test]
fn test_style_flattening_order() {
    // The content tree ["a", ["b", ["c", ["d", {fg: green}], "e"],
    // {fg: darkgray, bg: white}], "f"] flattens to spans in exact
    // depth-first left-to-right order, with the inner fg override and
    // the inherited bg.
    let renderer = Renderer::new();
    let green = style_record(&[("fg", "green")]);
    let darkgray = style_record(&[("fg", "darkgray"), ("bg", "white")]);
    let value = tbl(vec![
        txt("a"),
        styled(
            tbl(vec![txt("b"), tbl(vec![txt("c"), styled(txt("d"), green), txt("e")])]),
            darkgray,
        ),
        txt("f"),
    ]);
    let spans = renderer.lua_value_to_spans(&value);
    let default = Style { fg: None, bg: None, bold: false };
    let gray_on_white = Style { fg: Some(Color::DarkGray), bg: Some(Color::White), bold: false };
    let green_on_white = Style { fg: Some(Color::Green), bg: Some(Color::White), bold: false };
    let expected = vec![
        ("a", default),
        ("b", gray_on_white),
        ("c", gray_on_white),
        ("d", green_on_white),
        ("e", gray_on_white),
        ("f", default),
    ];
    assert_eq!(spans.len(), expected.len());
    for (span, (text, style)) in spans.iter().zip(expected.iter()) {
        assert_eq!(&span.content, text);
        assert_eq!(&span.style, style);
    }
}

#[test]
fn test_malformed_nodes_contribute_no_spans() {
    let renderer = Renderer::new();
    let value = tbl(vec![ScriptValue::Nil, txt("kept"), ScriptValue::Bool(true), ScriptValue::Int(7)]);
    let spans = renderer.lua_value_to_spans(&value);
    assert_eq!(spans.len(), 1);
    assert_eq!(spans[0].content, "kept");
}

#[test]
fn test_unparsable_style_record_is_not_a_style() {
    // A two-element table whose second element has an unparsable color
    // is traversed as a plain sequence, so the record contributes
    // nothing and the text keeps the default style.
    let renderer = Renderer::new();
    let bad = style_record(&[("fg", "no-such-color")]);
    let value = styled(txt("a"), bad);
    let spans = renderer.lua_value_to_spans(&value);
    assert_eq!(spans.len(), 1);
    assert_eq!(spans[0].content, "a");
    assert_eq!(spans[0].style.fg, None);
}

#[test]
fn test_color_names_hex_and_index() {
    assert_eq!(tirc::style::color_from_name("blue"), Some(Color::Blue));
    assert_eq!(tirc::style::color_from_name("lightmagenta"), Some(Color::LightMagenta));
    assert_eq!(tirc::style::color_from_name("#0a0B2c"), Some(Color::Rgb(10, 11, 44)));
    assert_eq!(tirc::style::color_from_name("7"), Some(Color::Indexed(7)));
    assert_eq!(tirc::style::color_from_name("255"), Some(Color::Indexed(255)));
    assert_eq!(tirc::style::color_from_name("256"), None);
    assert_eq!(tirc::style::color_from_name("bleu"), None);
    assert_eq!(tirc::style::color_from_name("#12345"), None);
}

#[test]
fn test_style_patch_overrides_and_inherits() {
    let parent = Style { fg: Some(Color::Red), bg: Some(Color::Black), bold: false };
    let child = Style { fg: Some(Color::Green), bg: None, bold: true };
    let patched = parent.patch(child);
    assert_eq!(patched.fg, Some(Color::Green));
    assert_eq!(patched.bg, Some(Color::Black));
    assert!(patched.bold);
}

#[test]
fn test_sort_users_by_access_then_nickname() {
    let users = vec![
        User { nickname: "zoe".to_string(), access_level: AccessLevel::Member },
        User { nickname: "amy".to_string(), access_level: AccessLevel::Owner },
        User { nickname: "bob".to_string(), access_level: AccessLevel::Member },
        User { nickname: "ned".to_string(), access_level: AccessLevel::Voice },
    ];
    let sorted = tirc::render::sort_users(users);
    let order: Vec<&str> = sorted.iter().map(|u| u.nickname.as_str()).collect();
    assert_eq!(order, vec!["amy", "ned", "bob", "zoe"]);
}

#[test]
fn test_access_level_priorities() {
    assert_eq!(Renderer::get_access_level_priority(&AccessLevel::Owner), 0);
    assert_eq!(Renderer::get_access_level_priority(&AccessLevel::Admin), 1);
    assert_eq!(Renderer::get_access_level_priority(&AccessLevel::Oper), 2);
    assert_eq!(Renderer::get_access_level_priority(&AccessLevel::HalfOp), 3);
    assert_eq!(Renderer::get_access_level_priority(&AccessLevel::Voice), 4);
    assert_eq!(Renderer::get_access_level_priority(&AccessLevel::Member), 5);
}

#[test]
fn test_visible_message_indices_oversample() {
    let indices = Renderer::visible_message_indices(100, 10);
    assert_eq!(indices.len(), 15);
    assert_eq!(indices[0], 99);
    assert_eq!(indices[14], 85);
    let few = Renderer::visible_message_indices(3, 10);
    assert_eq!(few, vec![2, 1, 0]);
}

#[test]
fn test_hanging_indent_width() {
    let widths = vec![5usize, 1, 3];
    assert_eq!(Renderer::hanging_indent_width(&widths), 6);
    let single = vec![4usize];
    assert_eq!(Renderer::hanging_indent_width(&single), 0);
}

#[test]
fn test_render_message_decision() {
    let renderer = Renderer::new();
    let raw = "PRIVMSG #x :hi".to_string();

    // An empty body suppresses the line.
    let suppressed = renderer.render_message(Some(Vec::new()), Some(Vec::new()), &raw);
    assert!(suppressed.is_none());

    // A failed body hook falls back to the raw text.
    let fallback = renderer.render_message(None, None, &raw).expect("fallback renders");
    assert_eq!(fallback.message.len(), 1);
    assert_eq!(fallback.message[0].content, raw);
    assert!(fallback.time.is_empty());

    // A one-span timestamp gains an empty alignment span.
    let time = vec![Span::raw("12:00".to_string())];
    let body = vec![Span::raw("hi".to_string())];
    let rendered = renderer.render_message(Some(time), Some(body), &raw).expect("renders");
    assert_eq!(rendered.time.len(), 2);
    assert_eq!(rendered.time[1].content, "");
    assert_eq!(rendered.message.len(), 1);
}

#[test]
fn test_buffer_bar_emphasizes_current() {
    let names = vec!["(status)".to_string(), "#chat".to_string()];
    let current = "#chat".to_string();
    let spans = Renderer::buffer_bar_spans(&names, &current);
    assert_eq!(spans.len(), 4);
    assert_eq!(spans[0].content, "(status)");
    assert!(!spans[0].style.bold);
    assert_eq!(spans[1].content, " ");
    assert_eq!(spans[2].content, "#chat");
    assert!(spans[2].style.bold);
}

#[test]
fn test_input_prefix_and_cursor() {
    assert_eq!(Renderer::input_prefix(Mode::Normal), "");
    assert_eq!(Renderer::input_prefix(Mode::Command), ":");
    assert_eq!(Renderer::input_prefix(Mode::Insert), "\u{276f} ");
    assert_eq!(Renderer::input_width(80, 2), 78);
    assert_eq!(Renderer::input_width(0, 2), 1);
    assert_eq!(Renderer::cursor_column(0, 7, 2, 1), 6);
    assert_eq!(Renderer::cursor_column(3, 1, 4, 1), 4);
}

#[test]
fn test_user_sidebar_only_with_company() {
    assert!(!Renderer::show_user_sidebar(0));
    assert!(!Renderer::show_user_sidebar(1));
    assert!(Renderer::show_user_sidebar(2));
}

#[test]
fn test_render_user_entry_fallback() {
    let renderer = Renderer::new();
    let user = User { nickname: "amy".to_string(), access_level: AccessLevel::Member };
    let fallback = renderer.render_user_entry(Some(Vec::new()), &user);
    assert_eq!(fallback.len(), 1);
    assert_eq!(fallback[0].content, "amy");
    let styled_entry = vec![Span::raw("@amy".to_string())];
    let kept = renderer.render_user_entry(Some(styled_entry), &user);
    assert_eq!(kept[0].content, "@amy");
}
