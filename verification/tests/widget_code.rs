use flint::codegen::{generate_unique_id, IdCounter};
use flint::widget::{generate_widget_code, raw_supported_of, ui, widget, Arg, ArgKind, MacroInput, Renderer, Widget, WidgetKind};

fn constructor(name: &str, ctor: &str, args: Vec<Arg>, render_ref: bool) -> Widget {
    Widget {
        kind: WidgetKind::Constructor { name: name.to_string(), constructor: ctor.to_string() },
        args,
        render_ref,
    }
}

fn variable(expr: &str, render_ref: bool) -> Widget {
    Widget { kind: WidgetKind::Variable { expr: expr.to_string() }, args: vec![], render_ref }
}

#[test]
fn ui_renders_a_constructor_into_an_area() {
    let w = constructor(
        "Paragraph",
        "new",
        vec![
            Arg { value: "\"hi\"".to_string(), kind: ArgKind::Positional },
            Arg { value: "b".to_string(), kind: ArgKind::Named("block".to_string()) },
        ],
        false,
    );
    let input = MacroInput::Ui {
        renderer: Renderer::Area { area: "area".to_string(), buffer: "buf".to_string() },
    };
    let mut ids = IdCounter::new();
    assert_eq!(
        ui(&input, &w, &mut ids),
        "ratatui::widgets::Widget::render(Paragraph::new(\"hi\").block(b), area, buf);"
    );
}

#[test]
fn widget_wraps_a_variable_in_a_block() {
    let mut ids = IdCounter::new();
    assert_eq!(widget(&MacroInput::Raw, &variable("x", false), &mut ids), "{ let variable_0 = x; variable_0 }");
    assert_eq!(generate_unique_id(&mut ids), 1);
}

#[test]
fn ui_splits_a_layout_among_its_children() {
    let w = Widget {
        kind: WidgetKind::Layout {
            name: "Layout".to_string(),
            children: vec![constructor("Block", "default", vec![], false), variable("w", true)],
        },
        args: vec![Arg {
            value: "Direction::Vertical".to_string(),
            kind: ArgKind::Named("direction".to_string()),
        }],
        render_ref: false,
    };
    let input = MacroInput::Ui { renderer: Renderer::Frame { frame: "f".to_string() } };
    let mut ids = IdCounter::new();
    for _ in 0..5 {
        generate_unique_id(&mut ids);
    }
    assert_eq!(
        ui(&input, &w, &mut ids),
        "{ let mut layout_5 = Layout::default().direction(Direction::Vertical); let chunks_5 = layout_5.split(f.area()); f.render_widget(Block::default(), chunks_5[0usize]);f.render_widget_ref(&{ let variable_6 = w; variable_6 }, chunks_5[1usize]); }"
    );
    assert_eq!(generate_unique_id(&mut ids), 7);
}

#[test]
fn generation_refuses_stateful_widgets_by_reference_without_a_renderer() {
    let w = Widget {
        kind: WidgetKind::Stateful { state: "&mut s".to_string(), child: Box::new(variable("list", true)) },
        args: vec![],
        render_ref: false,
    };
    assert!(!raw_supported_of(&w));
    let mut ids = IdCounter::new();
    assert_eq!(generate_widget_code(&w, true, 0, 0, &MacroInput::Raw, &mut ids), Err(()));
    let input = MacroInput::Ui { renderer: Renderer::Frame { frame: "f".to_string() } };
    assert!(generate_widget_code(&w, true, 0, 0, &input, &mut ids).is_ok());
}

#[test]
fn widget_wraps_a_stateful_widget_without_a_reference() {
    let w = Widget {
        kind: WidgetKind::Stateful { state: "&mut s".to_string(), child: Box::new(variable("list", false)) },
        args: vec![],
        render_ref: true,
    };
    assert!(raw_supported_of(&w));
    let mut ids = IdCounter::new();
    let code = widget(&MacroInput::Raw, &w, &mut ids);
    assert!(code.ends_with(" StatefulWrapper::new({ let variable_0 = list; variable_0 }, &mut s) }"));
}

#[test]
fn ui_renders_a_conditional_at_the_root() {
    let w = Widget {
        kind: WidgetKind::Conditional {
            condition: "ok".to_string(),
            if_child: Box::new(constructor("A", "default", vec![], false)),
            else_child: Some(Box::new(constructor("B", "default", vec![], false))),
        },
        args: vec![],
        render_ref: false,
    };
    let input = MacroInput::Ui { renderer: Renderer::Frame { frame: "f".to_string() } };
    let mut ids = IdCounter::new();
    assert_eq!(
        ui(&input, &w, &mut ids),
        "if ok { f.render_widget(A::default(), f.area()); } else { f.render_widget(B::default(), f.area()); }"
    );
}

#[test]
fn ui_renders_nothing_for_a_false_condition_without_else() {
    let w = Widget {
        kind: WidgetKind::Conditional {
            condition: "ok".to_string(),
            if_child: Box::new(constructor("A", "default", vec![], false)),
            else_child: None,
        },
        args: vec![],
        render_ref: false,
    };
    let input = MacroInput::Ui { renderer: Renderer::Area { area: "area".to_string(), buffer: "buf".to_string() } };
    let mut ids = IdCounter::new();
    assert_eq!(
        ui(&input, &w, &mut ids),
        "if ok { ratatui::widgets::Widget::render(A::default(), area, buf); }"
    );
}

#[test]
fn ui_repeats_an_iterating_child() {
    let w = Widget {
        kind: WidgetKind::IterLayout {
            loop_var: "item".to_string(),
            iter: "items.iter()".to_string(),
            child: Box::new(variable("item", false)),
        },
        args: vec![],
        render_ref: false,
    };
    let input = MacroInput::Ui {
        renderer: Renderer::Area { area: "a".to_string(), buffer: "b".to_string() },
    };
    let mut ids = IdCounter::new();
    assert_eq!(
        ui(&input, &w, &mut ids),
        "{ let mut layout_0 = ratatui::layout::Layout::default(); let chunks_0 = layout_0.split(a); for (iterator_index_0, item) in items.iter().enumerate() { { let variable_1 = item; variable_1 }.render(chunks_0[iterator_index_0], b); } }"
    );
}
