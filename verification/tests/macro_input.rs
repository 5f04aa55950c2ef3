use flint::codegen::IdCounter;
use flint::parse::{expand_ui, expand_widget, Delimiter, ExpandError, ParseError, TokenTree};
use flint::widget::{ui, widget, ArgKind, MacroInput, Renderer, Widget, WidgetKind};

fn ident(s: &str) -> TokenTree {
    TokenTree::Ident(s.to_string())
}

fn lit(s: &str) -> TokenTree {
    TokenTree::Literal(s.to_string())
}

fn punct(c: char) -> TokenTree {
    TokenTree::Punct(c, false)
}

fn joint(c: char) -> TokenTree {
    TokenTree::Punct(c, true)
}

fn paren(ts: Vec<TokenTree>) -> TokenTree {
    TokenTree::Group(Delimiter::Parenthesis, ts)
}

fn brace(ts: Vec<TokenTree>) -> TokenTree {
    TokenTree::Group(Delimiter::Brace, ts)
}

/// `Paragraph::new("hi", block: b)`
fn paragraph_tokens() -> Vec<TokenTree> {
    vec![
        ident("Paragraph"),
        joint(':'),
        punct(':'),
        ident("new"),
        paren(vec![lit("\"hi\""), punct(','), ident("block"), punct(':'), ident("b")]),
    ]
}

#[test]
fn parse_reads_a_constructor_with_arguments() {
    let w = Widget::parse(&paragraph_tokens()).unwrap();
    match &w.kind {
        WidgetKind::Constructor { name, constructor } => {
            assert_eq!(name, "Paragraph");
            assert_eq!(constructor, "new");
        }
        _ => panic!("expected a constructor widget"),
    }
    assert_eq!(w.args.len(), 2);
    assert_eq!(w.args[0].value, "\"hi\"");
    assert!(matches!(w.args[0].kind, ArgKind::Positional));
    assert_eq!(w.args[1].value, "b");
    assert!(matches!(&w.args[1].kind, ArgKind::Named(n) if n == "block"));
    assert!(!w.render_ref);
}

#[test]
fn parse_uses_default_without_a_constructor() {
    let w = Widget::parse(&vec![ident("Block")]).unwrap();
    assert!(matches!(&w.kind, WidgetKind::Constructor { name, constructor } if name == "Block" && constructor == "default"));
    assert!(w.args.is_empty());
}

#[test]
fn parse_keeps_the_text_of_a_path_argument() {
    // Block(::ratatui::widgets::Borders::ALL)
    let ts = vec![
        ident("Block"),
        paren(vec![
            joint(':'),
            punct(':'),
            ident("ratatui"),
            joint(':'),
            punct(':'),
            ident("Borders"),
            joint(':'),
            punct(':'),
            ident("ALL"),
        ]),
    ];
    let w = Widget::parse(&ts).unwrap();
    assert_eq!(w.args.len(), 1);
    assert_eq!(w.args[0].value, ":: ratatui :: Borders :: ALL");
}

#[test]
fn parse_reads_a_layout_and_its_children() {
    // Layout(direction: d) { Block, {{w}}, }
    let ts = vec![
        ident("Layout"),
        paren(vec![ident("direction"), punct(':'), ident("d")]),
        brace(vec![ident("Block"), punct(','), brace(vec![brace(vec![ident("w")])]), punct(',')]),
    ];
    let w = Widget::parse(&ts).unwrap();
    match &w.kind {
        WidgetKind::Layout { name, children } => {
            assert_eq!(name, "Layout");
            assert_eq!(children.len(), 2);
            assert!(matches!(&children[0].kind, WidgetKind::Constructor { name, .. } if name == "Block"));
            assert!(matches!(&children[1].kind, WidgetKind::Variable { expr } if expr == "w"));
        }
        _ => panic!("expected a layout"),
    }
    assert!(matches!(&w.args[0].kind, ArgKind::Named(n) if n == "direction"));
}

#[test]
fn parse_reads_if_and_else() {
    // If (a && b) { Block } Else { {{x}} }
    let ts = vec![
        ident("If"),
        paren(vec![ident("a"), joint('&'), punct('&'), ident("b")]),
        brace(vec![ident("Block")]),
        ident("Else"),
        brace(vec![brace(vec![brace(vec![ident("x")])])]),
    ];
    let w = Widget::parse(&ts).unwrap();
    match &w.kind {
        WidgetKind::Conditional { condition, if_child, else_child } => {
            assert_eq!(condition, "a && b");
            assert!(matches!(&if_child.kind, WidgetKind::Constructor { name, .. } if name == "Block"));
            let e = else_child.as_ref().unwrap();
            assert!(matches!(&e.kind, WidgetKind::Variable { expr } if expr == "x"));
        }
        _ => panic!("expected a conditional"),
    }
}

#[test]
fn parse_refuses_a_word_other_than_else() {
    let ts = vec![
        ident("If"),
        paren(vec![ident("a")]),
        brace(vec![ident("Block")]),
        ident("Otherwise"),
        brace(vec![ident("Block")]),
    ];
    let err = Widget::parse(&ts).err().unwrap();
    assert_eq!(err, ParseError::ExpectedElse);
    assert_eq!(err.message(), "Expected 'Else' keyword");
    assert_eq!(Widget::parse(&vec![ident("Block"), ident("Text")]).err().unwrap(), ParseError::Syntax);
}

#[test]
fn parse_refuses_children_of_a_plain_widget_and_leftovers() {
    assert!(Widget::parse(&vec![ident("Block"), brace(vec![ident("Text")])]).is_err());
    assert!(Widget::parse(&vec![ident("Block"), ident("Text")]).is_err());
    assert!(Widget::parse(&vec![]).is_err());
    // two expressions in one variable widget
    assert!(Widget::parse(&vec![brace(vec![brace(vec![ident("a"), punct(','), ident("b")])])]).is_err());
    // children not separated by commas
    assert!(Widget::parse(&vec![ident("Layout"), brace(vec![ident("A"), ident("B")])]).is_err());
}

#[test]
fn macro_input_reads_an_area_and_a_buffer() {
    let ts = vec![
        paren(vec![ident("area"), punct(','), ident("buf")]),
        joint('='),
        punct('>'),
        brace(paragraph_tokens()),
    ];
    let (input, w) = MacroInput::parse(&ts).unwrap();
    assert!(matches!(&input, MacroInput::Ui { renderer: Renderer::Area { area, buffer } } if area == "area" && buffer == "buf"));
    let mut ids = IdCounter::new();
    assert_eq!(
        ui(&input, &w, &mut ids),
        "ratatui::widgets::Widget::render(Paragraph::new(\"hi\").block(b), area, buf);"
    );
}

#[test]
fn macro_input_reads_a_frame() {
    let ts = vec![ident("frame"), joint('='), punct('>'), brace(vec![ident("Block")])];
    let (input, w) = MacroInput::parse(&ts).unwrap();
    assert!(matches!(&input, MacroInput::Ui { renderer: Renderer::Frame { frame } } if frame == "frame"));
    assert!(matches!(&w.kind, WidgetKind::Constructor { name, .. } if name == "Block"));
}

#[test]
fn macro_input_reads_a_bare_widget() {
    let ts = vec![brace(vec![brace(vec![brace(vec![ident("x")])])])];
    let (input, w) = MacroInput::parse(&ts).unwrap();
    assert!(matches!(input, MacroInput::Raw));
    let mut ids = IdCounter::new();
    assert_eq!(widget(&input, &w, &mut ids), "{ let variable_0 = x; variable_0 }");
}

#[test]
fn macro_input_refuses_a_missing_arrow_or_a_third_expression() {
    let no_arrow = vec![ident("frame"), brace(vec![ident("Block")])];
    assert!(MacroInput::parse(&no_arrow).is_err());
    let three = vec![
        paren(vec![ident("a"), punct(','), ident("b"), punct(','), ident("c")]),
        joint('='),
        punct('>'),
        brace(vec![ident("Block")]),
    ];
    assert!(MacroInput::parse(&three).is_err());
    let trailing = vec![brace(vec![ident("Block")]), ident("extra")];
    assert!(MacroInput::parse(&trailing).is_err());
}

#[test]
fn expand_ui_renders_into_a_frame() {
    let ts = vec![ident("f"), joint('='), punct('>'), brace(vec![ident("Block")])];
    let mut ids = IdCounter::new();
    assert_eq!(expand_ui(&ts, &mut ids).ok().unwrap(), "f.render_widget(Block::default(), f.area());");
}

#[test]
fn expand_refuses_the_wrong_macro_and_bad_syntax() {
    let raw = vec![brace(vec![ident("Block")])];
    let mut ids = IdCounter::new();
    assert!(matches!(
        expand_ui(&raw, &mut ids),
        Err(ExpandError::Refused(m)) if m == "Cannot pass a widget directly to the ui!() macro"
    ));
    let framed = vec![ident("f"), joint('='), punct('>'), brace(vec![ident("Block")])];
    assert!(matches!(
        expand_widget(&framed, &mut ids),
        Err(ExpandError::Refused(m)) if m == "Cannot pass rendering options directly to the widget!() macro"
    ));
    assert!(matches!(expand_widget(&vec![ident("Block")], &mut ids), Err(ExpandError::Syntax(ParseError::Syntax))));
    assert_eq!(expand_widget(&raw, &mut ids).ok().unwrap(), "Block::default()");
}

#[test]
fn parse_reads_a_lone_name_as_shorthand_and_a_path_by_position() {
    // Block(title, A::b, style: s)
    let ts = vec![
        ident("Block"),
        paren(vec![
            ident("title"),
            punct(','),
            ident("A"),
            joint(':'),
            punct(':'),
            ident("b"),
            punct(','),
            ident("style"),
            punct(':'),
            ident("s"),
        ]),
    ];
    let w = Widget::parse(&ts).unwrap();
    assert_eq!(w.args.len(), 3);
    assert!(matches!(&w.args[0].kind, ArgKind::Named(n) if n == "title"));
    assert_eq!(w.args[0].value, "title");
    assert!(matches!(w.args[1].kind, ArgKind::Positional));
    assert_eq!(w.args[1].value, "A :: b");
    assert!(matches!(&w.args[2].kind, ArgKind::Named(n) if n == "style"));
    assert_eq!(w.args[2].value, "s");
}
