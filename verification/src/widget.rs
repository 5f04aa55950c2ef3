//! The widget tree of the `ui` and `widget` macros and the Rust code that is
//! generated from it.
use vstd::prelude::*;
use vstd::string::StringExecFns;
use crate::codegen::{generate_unique_id, next_id, IdCounter};
use crate::text::{decimal, join, string_of, usize_to_string};

verus! {

/// How an argument is passed to a widget.
pub enum ArgKind {
    /// To the constructor, in order.
    Positional,
    /// As a call of the method of that name on the constructed widget.
    Named(String),
}

/// An argument of a widget: the source text of its expression and how it is
/// passed.
pub struct Arg {
    pub value: String,
    pub kind: ArgKind,
}

/// The kinds of widget the macros accept.
pub enum WidgetKind {
    /// A widget built by `name::constructor(..)`.
    Constructor { name: String, constructor: String },
    /// A layout that splits its area among its children.
    Layout { name: String, children: Vec<Widget> },
    /// A widget given by an expression.
    Variable { expr: String },
    /// A widget shown when a condition holds, with an optional alternative.
    Conditional { condition: String, if_child: Box<Widget>, else_child: Option<Box<Widget>> },
    /// A layout that repeats its child for each item of an iterator.
    IterLayout { loop_var: String, iter: String, child: Box<Widget> },
    /// A widget rendered with a state.
    Stateful { state: String, child: Box<Widget> },
}

/// A widget: its kind, its arguments, and whether it is rendered by reference.
pub struct Widget {
    pub kind: WidgetKind,
    pub args: Vec<Arg>,
    pub render_ref: bool,
}

/// Where the `ui` macro renders: into an area of a buffer, or into a frame.
pub enum Renderer {
    Area { area: String, buffer: String },
    Frame { frame: String },
}

/// The input of a macro: `ui` gives a renderer, `widget` does not.
pub enum MacroInput {
    Ui { renderer: Renderer },
    Raw,
}

/// Generated code: whether generation succeeded, the code, and the next
/// fresh id.
pub struct CodeOut {
    pub ok: bool,
    pub code: Seq<char>,
    pub next: u32,
}

/// The source texts of the positional arguments, in order.
pub open spec fn positional_values(args: Seq<Arg>) -> Seq<Seq<char>>
    decreases args.len(),
{
    if args.len() == 0 {
        Seq::empty()
    } else {
        let prev = positional_values(args.drop_last());
        if args.last().kind is Positional {
            prev.push(args.last().value@)
        } else {
            prev
        }
    }
}

/// The calls that pass the named arguments, in order.
pub open spec fn named_calls(args: Seq<Arg>) -> Seq<char>
    decreases args.len(),
{
    if args.len() == 0 {
        Seq::empty()
    } else {
        let prev = named_calls(args.drop_last());
        match args.last().kind {
            ArgKind::Named(n) => prev + "."@ + n@ + "("@ + args.last().value@ + ")"@,
            ArgKind::Positional => prev,
        }
    }
}

/// `&` for widgets rendered by reference.
pub open spec fn ref_prefix(render_ref: bool) -> Seq<char> {
    if render_ref { "&"@ } else { Seq::empty() }
}

/// The function that renders a widget into an area.
pub open spec fn render_fn(render_ref: bool) -> Seq<char> {
    if render_ref {
        "ratatui::widgets::WidgetRef::render_ref"@
    } else {
        "ratatui::widgets::Widget::render"@
    }
}

/// The frame method that renders a widget.
pub open spec fn frame_render_fn(render_ref: bool) -> Seq<char> {
    if render_ref { "render_widget_ref"@ } else { "render_widget"@ }
}

/// The function that renders a widget with a state into an area.
pub open spec fn stateful_render_fn(render_ref: bool) -> Seq<char> {
    if render_ref {
        "ratatui::widgets::StatefulWidgetRef::render_ref"@
    } else {
        "ratatui::widgets::StatefulWidget::render"@
    }
}

/// The frame method that renders a widget with a state.
pub open spec fn stateful_frame_render_fn(render_ref: bool) -> Seq<char> {
    if render_ref { "render_stateful_widget_ref"@ } else { "render_stateful_widget"@ }
}

/// A `usize` literal.
pub open spec fn usize_lit(n: nat) -> Seq<char> {
    decimal(n) + "usize"@
}

/// The call of a render function on `code` in `target`, with `extra` after
/// the other arguments.
pub open spec fn area_call(
    f: Seq<char>,
    refp: Seq<char>,
    code: Seq<char>,
    target: Seq<char>,
    buffer: Seq<char>,
    extra: Seq<char>,
) -> Seq<char> {
    f + "("@ + refp + code + ", "@ + target + ", "@ + buffer + extra + ");"@
}

/// The call of a frame method on `code` in `target`, with `extra` after the
/// other arguments.
pub open spec fn frame_call(
    frame: Seq<char>,
    f: Seq<char>,
    refp: Seq<char>,
    code: Seq<char>,
    target: Seq<char>,
    extra: Seq<char>,
) -> Seq<char> {
    frame + "."@ + f + "("@ + refp + code + ", "@ + target + extra + ");"@
}

/// The area the whole renderer covers.
pub open spec fn top_target(r: Renderer) -> Seq<char> {
    match r {
        Renderer::Area { area, buffer } => area@,
        Renderer::Frame { frame } => frame@ + ".area()"@,
    }
}

/// The statement that renders `code` into `target` with the render function
/// `f` (into an area) or the frame method `ff` (into a frame), passing `extra`
/// after the other arguments.
pub open spec fn render_stmt(
    r: Renderer,
    f: Seq<char>,
    ff: Seq<char>,
    refp: Seq<char>,
    code: Seq<char>,
    target: Seq<char>,
    extra: Seq<char>,
) -> Seq<char> {
    match r {
        Renderer::Area { area, buffer } => area_call(f, refp, code, target, buffer@, extra),
        Renderer::Frame { frame } => frame_call(frame@, ff, refp, code, target, extra),
    }
}

/// The statement that renders `code` over the whole area of the renderer.
pub open spec fn top_render(r: Renderer, render_ref: bool, refp: Seq<char>, code: Seq<char>) -> Seq<char> {
    render_stmt(r, render_fn(render_ref), frame_render_fn(render_ref), refp, code, top_target(r), Seq::empty())
}

/// The expression that builds a constructor widget.
pub open spec fn constructor_code(name: Seq<char>, constructor: Seq<char>, args: Seq<Arg>) -> Seq<char> {
    name + "::"@ + constructor + "("@ + join(positional_values(args), ", "@) + ")"@ + named_calls(args)
}

/// The source text of the positional arguments, joined by commas.
fn positional_text(args: &Vec<Arg>) -> (r: String)
    ensures
        r@ == join(positional_values(args@), ", "@),
{
    let mut r = String::new();
    let mut any = false;
    let mut i: usize = 0;
    while i < args.len()
        invariant
            i <= args.len(),
            any == (positional_values(args@.take(i as int)).len() > 0),
            r@ == join(positional_values(args@.take(i as int)), ", "@),
        decreases args.len() - i,
    {
        assert(args@.take(i + 1).drop_last() =~= args@.take(i as int));
        match &args[i].kind {
            ArgKind::Positional => {
                let ghost p = positional_values(args@.take(i as int));
                if any {
                    r.append(", ");
                }
                r.append(args[i].value.as_str());
                proof {
                    let q = p.push(args@[i as int].value@);
                    assert(q.drop_last() =~= p);
                    if !any {
                        assert(p =~= Seq::<Seq<char>>::empty());
                        assert(join(p, ", "@) =~= Seq::<char>::empty());
                        assert(r@ =~= join(q, ", "@));
                    }
                }
                any = true;
            },
            ArgKind::Named(_) => {},
        }
        i = i + 1;
    }
    assert(args@.take(args.len() as int) =~= args@);
    r
}

/// The calls that pass the named arguments.
fn named_text(args: &Vec<Arg>) -> (r: String)
    ensures
        r@ == named_calls(args@),
{
    let mut r = String::new();
    let mut i: usize = 0;
    while i < args.len()
        invariant
            i <= args.len(),
            r@ == named_calls(args@.take(i as int)),
        decreases args.len() - i,
    {
        assert(args@.take(i + 1).drop_last() =~= args@.take(i as int));
        match &args[i].kind {
            ArgKind::Named(n) => {
                r.append(".");
                r.append(n.as_str());
                r.append("(");
                r.append(args[i].value.as_str());
                r.append(")");
            },
            ArgKind::Positional => {},
        }
        i = i + 1;
    }
    assert(args@.take(args.len() as int) =~= args@);
    r
}

fn render_fn_text(render_ref: bool) -> (r: &'static str)
    ensures
        r@ == render_fn(render_ref),
{
    if render_ref {
        "ratatui::widgets::WidgetRef::render_ref"
    } else {
        "ratatui::widgets::Widget::render"
    }
}

fn frame_render_fn_text(render_ref: bool) -> (r: &'static str)
    ensures
        r@ == frame_render_fn(render_ref),
{
    if render_ref { "render_widget_ref" } else { "render_widget" }
}

fn stateful_render_fn_text(render_ref: bool) -> (r: &'static str)
    ensures
        r@ == stateful_render_fn(render_ref),
{
    if render_ref {
        "ratatui::widgets::StatefulWidgetRef::render_ref"
    } else {
        "ratatui::widgets::StatefulWidget::render"
    }
}

fn stateful_frame_render_fn_text(render_ref: bool) -> (r: &'static str)
    ensures
        r@ == stateful_frame_render_fn(render_ref),
{
    if render_ref { "render_stateful_widget_ref" } else { "render_stateful_widget" }
}

fn ref_text(render_ref: bool) -> (r: String)
    ensures
        r@ == ref_prefix(render_ref),
{
    if render_ref {
        string_of("&")
    } else {
        let r = String::new();
        assert(r@ =~= Seq::<char>::empty());
        r
    }
}

/// Appends the call of a render function.
fn push_area_call(out: &mut String, f: &str, refp: &str, code: &str, target: &str, buffer: &str, extra: &str)
    ensures
        final(out)@ == old(out)@ + area_call(f@, refp@, code@, target@, buffer@, extra@),
{
    let ghost start = out@;
    out.append(f);
    out.append("(");
    out.append(refp);
    out.append(code);
    out.append(", ");
    out.append(target);
    out.append(", ");
    out.append(buffer);
    out.append(extra);
    out.append(");");
    assert(out@ =~= start + area_call(f@, refp@, code@, target@, buffer@, extra@));
}

/// Appends the call of a frame method.
fn push_frame_call(out: &mut String, frame: &str, f: &str, refp: &str, code: &str, target: &str, extra: &str)
    ensures
        final(out)@ == old(out)@ + frame_call(frame@, f@, refp@, code@, target@, extra@),
{
    let ghost start = out@;
    out.append(frame);
    out.append(".");
    out.append(f);
    out.append("(");
    out.append(refp);
    out.append(code);
    out.append(", ");
    out.append(target);
    out.append(extra);
    out.append(");");
    assert(out@ =~= start + frame_call(frame@, f@, refp@, code@, target@, extra@));
}

/// The area the whole renderer covers.
fn top_target_text(r: &Renderer) -> (s: String)
    ensures
        s@ == top_target(*r),
{
    match r {
        Renderer::Area { area, buffer } => string_of(area.as_str()),
        Renderer::Frame { frame } => {
            let mut t = string_of(frame.as_str());
            t.append(".area()");
            t
        },
    }
}

/// Appends the statement that renders `code` into `target`.
fn push_render_stmt(
    out: &mut String,
    r: &Renderer,
    f: &str,
    ff: &str,
    refp: &str,
    code: &str,
    target: &str,
    extra: &str,
)
    ensures
        final(out)@ == old(out)@ + render_stmt(*r, f@, ff@, refp@, code@, target@, extra@),
{
    match r {
        Renderer::Area { area, buffer } => {
            push_area_call(out, f, refp, code, target, buffer.as_str(), extra);
        },
        Renderer::Frame { frame } => {
            push_frame_call(out, frame.as_str(), ff, refp, code, target, extra);
        },
    }
}

fn empty_string() -> (r: String)
    ensures
        r@ == Seq::<char>::empty(),
{
    let r = String::new();
    r
}

/// Appends the statement that renders `code` over the whole area of the renderer.
fn push_top_render(out: &mut String, r: &Renderer, render_ref: bool, code: &str)
    ensures
        final(out)@ == old(out)@ + top_render(*r, render_ref, ref_prefix(render_ref), code@),
{
    let refp = ref_text(render_ref);
    let target = top_target_text(r);
    let empty = empty_string();
    push_render_stmt(out, r, render_fn_text(render_ref), frame_render_fn_text(render_ref), refp.as_str(), code, target.as_str(), empty.as_str());
}

/// The expression that builds a constructor widget.
fn constructor_text(name: &String, constructor: &String, args: &Vec<Arg>) -> (r: String)
    ensures
        r@ == constructor_code(name@, constructor@, args@),
{
    let mut r = string_of(name.as_str());
    r.append("::");
    r.append(constructor.as_str());
    r.append("(");
    let p = positional_text(args);
    r.append(p.as_str());
    r.append(")");
    let n = named_text(args);
    r.append(n.as_str());
    r
}


/// The wrapper that renders the children of a layout built by `widget`.
pub const LAYOUT_WRAPPER: &'static str = r#"use ratatui::{buffer::Buffer, layout::{Layout, Rect}, widgets::{Widget, WidgetRef}}; pub struct LayoutWrapper<'a> { layout: Layout, children: Vec<Box<dyn Fn(Rect, &mut Buffer) + 'a>>, } impl<'a> LayoutWrapper<'a> { pub fn new(layout: Layout, children: Vec<Box<dyn Fn(Rect, &mut Buffer) + 'a>>) -> Self { Self { layout, children } } } impl<'a> Widget for LayoutWrapper<'a> { fn render(self, area: Rect, buf: &mut Buffer) { let chunks = self.layout.split(area); for (idx, render_fn) in self.children.into_iter().enumerate() { render_fn(chunks[idx], buf); } } } impl<'a> WidgetRef for LayoutWrapper<'a> { fn render_ref<'b>(&'b self, area: Rect, buf: &mut Buffer) { let chunks = self.layout.split(area); for (idx, render_fn) in self.children.iter().enumerate() { render_fn(chunks[idx], buf); } } }"#;

/// The wrapper that renders the repeated child of an iterating layout built by `widget`.
pub const ITER_LAYOUT_WRAPPER: &'static str = r#"use ratatui::{buffer::Buffer, layout::{Layout, Rect}, widgets::Widget}; pub struct IterLayoutWrapper<'a, I> where I: Iterator, { layout: Layout, iterator: I, render_fn: Box<dyn Fn(I::Item, &Rect, &mut Buffer) + 'a>, } impl<'a, I> IterLayoutWrapper<'a, I> where I: Iterator, { pub fn new<F>(layout: Layout, iterator: I, render_fn: F) -> Self where F: Fn(I::Item, &Rect, &mut Buffer) + 'a, { Self { layout, iterator, render_fn: Box::new(render_fn), } } } impl<'a, I> Widget for IterLayoutWrapper<'a, I> where I: Iterator, { fn render(self, area: Rect, buf: &mut Buffer) { let chunks = self.layout.split(area); for (chunk, item) in chunks.into_iter().zip(self.iterator) { (self.render_fn)(item, chunk, buf); } } }"#;

/// The wrapper that renders a stateful widget built by `widget`.
pub const STATEFUL_WRAPPER: &'static str = r#"use ratatui::{buffer::Buffer, layout::Rect, widgets::{StatefulWidget, Widget}}; use std::cell::RefCell; pub struct StatefulWrapper<'a, W, S> where W: StatefulWidget<State = S>, { widget: W, state: RefCell<&'a mut S>, } impl<'a, W, S> StatefulWrapper<'a, W, S> where W: StatefulWidget<State = S>, { pub fn new(widget: W, state: &'a mut S) -> Self { Self { widget, state: RefCell::new(state), } } } impl<'a, W, S> Widget for StatefulWrapper<'a, W, S> where W: StatefulWidget<State = S>, { fn render(self, area: Rect, buf: &mut Buffer) { let mut state = self.state.borrow_mut(); ratatui::widgets::StatefulWidget::render(self.widget, area, buf, &mut *state); } }"#;

/// The wrapper that renders one of two widgets depending on a condition.
pub const CONDITIONAL_WRAPPER: &'static str = r#"use ratatui::{widgets::Widget, layout::Rect, buffer::Buffer,}; pub struct ConditionalWrapper<W, E> where W: Widget, E: Widget, { if_widget: W, else_widget: Option<E>, condition: bool, } impl<W, E> ConditionalWrapper<W, E> where W: Widget, E: Widget, { pub fn new(if_widget: W, condition: bool) -> Self { Self { if_widget, else_widget: None, condition, } } pub fn with_else(if_widget: W, else_widget: E, condition: bool) -> Self { Self { if_widget, else_widget: Some(else_widget), condition, } } } impl<W, E> Widget for ConditionalWrapper<W, E> where W: Widget, E: Widget, { fn render(self, area: Rect, buf: &mut Buffer) { if self.condition { self.if_widget.render(area, buf); } else if let Some(else_widget) = self.else_widget { else_widget.render(area, buf); } } }"#;

/// The code of a failed generation.
pub open spec fn failed(next: u32) -> CodeOut {
    CodeOut { ok: false, code: Seq::empty(), next }
}

/// The statement that builds a layout from its arguments.
pub open spec fn layout_head(layout: Seq<char>, path: Seq<char>, args: Seq<Arg>) -> Seq<char> {
    "let mut "@ + layout + " = "@ + path + "::default("@ + join(positional_values(args), ", "@) + ")"@
        + named_calls(args) + ";"@
}

/// The chunk `idx` of the layout numbered `id`.
pub open spec fn chunk_at(id: nat, idx: Seq<char>) -> Seq<char> {
    "chunks_"@ + decimal(id) + "["@ + idx + "]"@
}

/// The statement that splits the area of a layout into its chunks: the whole
/// renderer for a root layout, else its chunk of the parent layout.
pub open spec fn split_code(top: bool, r: Renderer, layout: Seq<char>, id: nat, parent: usize, idx: usize) -> Seq<char> {
    "let chunks_"@ + decimal(id) + " = "@ + layout + ".split("@ + (if top {
        top_target(r)
    } else {
        chunk_at(parent as nat, usize_lit(idx as nat))
    }) + ");"@
}

/// How a child of a layout built by `ui` is rendered into its chunk.
pub open spec fn ui_child_text(child: Widget, code: Seq<char>, idx: nat, id: nat, parent_ref: bool, r: Renderer) -> Seq<char> {
    let target = chunk_at(id, usize_lit(idx));
    let refp = ref_prefix(child.render_ref);
    match child.kind {
        WidgetKind::Layout { .. } => code,
        WidgetKind::IterLayout { .. } => code,
        WidgetKind::Constructor { .. } => render_stmt(r, render_fn(parent_ref), frame_render_fn(parent_ref), refp, code, target, Seq::empty()),
        WidgetKind::Stateful { state, .. } => render_stmt(
            r,
            stateful_render_fn(child.render_ref),
            stateful_frame_render_fn(child.render_ref),
            refp,
            code,
            target,
            ", "@ + state@,
        ),
        _ => render_stmt(r, render_fn(child.render_ref), frame_render_fn(child.render_ref), refp, code, target, Seq::empty()),
    }
}

/// How a child of a layout built by `widget` is added to the layout.
pub open spec fn raw_child_text(code: Seq<char>) -> Seq<char> {
    " children.push(Box::new(|area, buf| { "@ + code + ".render(area, buf); }));"@
}

/// The code of a widget at position `idx` under the layout `parent` (at the
/// root when `top`), with fresh ids from `id` on.
pub open spec fn gen(w: Widget, top: bool, parent: usize, idx: usize, input: MacroInput, id: u32) -> CodeOut
    decreases w, 0nat,
{
    match w.kind {
        WidgetKind::Constructor { name, constructor } => {
            let c = constructor_code(name@, constructor@, w.args@);
            match input {
                MacroInput::Ui { renderer } => CodeOut {
                    ok: true,
                    code: if top { top_render(renderer, w.render_ref, ref_prefix(w.render_ref), c) } else { c },
                    next: id,
                },
                MacroInput::Raw => CodeOut { ok: true, code: c, next: id },
            }
        },
        WidgetKind::Variable { expr } => {
            let v = "variable_"@ + decimal(id as nat);
            let code = match input {
                MacroInput::Ui { renderer } => if top {
                    "let "@ + v + " = "@ + expr@ + "; "@ + top_render(renderer, w.render_ref, ref_prefix(w.render_ref), v)
                } else {
                    "{ let "@ + v + " = "@ + expr@ + "; "@ + v + " }"@
                },
                MacroInput::Raw => "{ let "@ + v + " = "@ + expr@ + "; "@ + v + " }"@,
            };
            CodeOut { ok: true, code, next: next_id(id) }
        },
        WidgetKind::Conditional { condition, if_child, else_child } => {
            let a = gen(*if_child, false, parent, idx, input, id);
            if !a.ok {
                failed(a.next)
            } else {
                let start = match input {
                    MacroInput::Ui { renderer } => match else_child {
                        Some(x) => gen(*x, false, parent, idx, input, a.next),
                        None => CodeOut { ok: true, code: Seq::empty(), next: a.next },
                    },
                    MacroInput::Raw => CodeOut { ok: true, code: Seq::empty(), next: a.next },
                };
                if !start.ok {
                    failed(start.next)
                } else if top && input is Ui {
                    match input {
                        MacroInput::Ui { renderer } => CodeOut {
                            ok: true,
                            code: "if "@ + condition@ + " { "@ + top_render(renderer, w.render_ref, ref_prefix(w.render_ref), a.code)
                                + " }"@ + match else_child {
                                Some(_) => " else { "@ + top_render(
                                    renderer,
                                    w.render_ref,
                                    ref_prefix(w.render_ref),
                                    start.code,
                                ) + " }"@,
                                None => Seq::empty(),
                            },
                            next: start.next,
                        },
                        MacroInput::Raw => failed(start.next),
                    }
                } else {
                    match else_child {
                        Some(x) => {
                            let e = gen(*x, false, parent, idx, input, start.next);
                            if !e.ok {
                                failed(e.next)
                            } else {
                                CodeOut {
                                    ok: true,
                                    code: "{ "@ + CONDITIONAL_WRAPPER@ + " ConditionalWrapper::with_else("@ + a.code + ", "@ + e.code + ", "@ + condition@ + ") }"@,
                                    next: e.next,
                                }
                            }
                        },
                        None => CodeOut {
                            ok: true,
                            code: "{ "@ + CONDITIONAL_WRAPPER@ + " ConditionalWrapper::new("@ + a.code + ", "@ + condition@ + ") }"@,
                            next: start.next,
                        },
                    }
                }
            }
        },
        WidgetKind::Stateful { state, child } => {
            let c = gen(*child, false, parent, idx, input, id);
            if !c.ok {
                failed(c.next)
            } else {
                match input {
                    MacroInput::Ui { renderer } => CodeOut {
                        ok: true,
                        code: if top {
                            render_stmt(
                                renderer,
                                stateful_render_fn(w.render_ref),
                                stateful_frame_render_fn(w.render_ref),
                                ref_prefix(w.render_ref),
                                c.code,
                                top_target(renderer),
                                ", "@ + state@,
                            )
                        } else {
                            c.code
                        },
                        next: c.next,
                    },
                    MacroInput::Raw => if child.render_ref {
                        failed(c.next)
                    } else {
                        CodeOut {
                            ok: true,
                            code: "{ "@ + STATEFUL_WRAPPER@ + " StatefulWrapper::new("@ + c.code + ", "@ + state@ + ") }"@,
                            next: c.next,
                        }
                    },
                }
            }
        },
        WidgetKind::Layout { name, children } => {
            let li = "layout_"@ + decimal(id as nat);
            let head = layout_head(li, name@, w.args@);
            match input {
                MacroInput::Raw => {
                    let kids = gen_raw_children(children@, children@.len(), id as usize, input, next_id(id));
                    if !kids.ok {
                        failed(kids.next)
                    } else {
                        CodeOut {
                            ok: true,
                            code: "{ "@ + head + " let mut children: Vec<Box<dyn Fn(Rect, &mut Buffer)>> = Vec::new(); "@
                                + LAYOUT_WRAPPER@ + kids.code + " LayoutWrapper::new("@ + li + ", children) }"@,
                            next: kids.next,
                        }
                    }
                },
                MacroInput::Ui { renderer } => {
                    let kids = gen_ui_children(children@, children@.len(), id as usize, w.render_ref, renderer, input, next_id(id));
                    if !kids.ok {
                        failed(kids.next)
                    } else {
                        CodeOut {
                            ok: true,
                            code: "{ "@ + head + " "@ + split_code(top, renderer, li, id as nat, parent, idx) + " "@ + kids.code + " }"@,
                            next: kids.next,
                        }
                    }
                },
            }
        },
        WidgetKind::IterLayout { loop_var, iter, child } => {
            let li = "layout_"@ + decimal(id as nat);
            let it = "iterator_index_"@ + decimal(id as nat);
            let head = layout_head(li, "ratatui::layout::Layout"@, w.args@);
            let c = gen(*child, false, id as usize, idx, input, next_id(id));
            if !c.ok {
                failed(c.next)
            } else {
                match input {
                    MacroInput::Ui { renderer } => CodeOut {
                        ok: true,
                        code: "{ "@ + head + " "@ + split_code(top, renderer, li, id as nat, parent, idx) + " "@
                            + iter_body(*child, c.code, renderer, it, loop_var@, iter@, id as nat) + " }"@,
                        next: c.next,
                    },
                    MacroInput::Raw => CodeOut {
                        ok: true,
                        code: "{ "@ + head + " "@ + ITER_LAYOUT_WRAPPER@ + " IterLayoutWrapper::new("@ + li + ", "@ + iter@
                            + ", |item, area, buf| { let "@ + loop_var@ + " = item; let widget = "@ + c.code
                            + "; widget.render(*area, buf); }) }"@,
                        next: c.next,
                    },
                }
            }
        },
    }
}


/// How the repeated child of an iterating layout built by `ui` is rendered:
/// into the chunk of each item's position.
pub open spec fn iter_body(
    child: Widget,
    code: Seq<char>,
    r: Renderer,
    it: Seq<char>,
    loop_var: Seq<char>,
    iter: Seq<char>,
    id: nat,
) -> Seq<char> {
    if child.kind is Layout || child.kind is IterLayout {
        code
    } else {
        "for ("@ + it + ", "@ + loop_var + ") in "@ + iter + ".enumerate() { "@ + match r {
            Renderer::Area { area, buffer } => code + ".render("@ + chunk_at(id, it) + ", "@ + buffer@ + ");"@,
            Renderer::Frame { frame } => frame@ + ".render_widget("@ + code + ", "@ + chunk_at(id, it) + ");"@,
        } + " }"@
    }
}

/// The code of the first `n` children of a layout built by `widget`.
pub open spec fn gen_raw_children(s: Seq<Widget>, n: nat, layout: usize, input: MacroInput, id: u32) -> CodeOut
    decreases s, n,
{
    if n == 0 || n > s.len() {
        CodeOut { ok: true, code: Seq::empty(), next: id }
    } else {
        let p = gen_raw_children(s, (n - 1) as nat, layout, input, id);
        if !p.ok {
            p
        } else {
            let c = gen(s[n - 1], false, layout, (n - 1) as usize, input, p.next);
            if !c.ok {
                failed(c.next)
            } else {
                CodeOut { ok: true, code: p.code + raw_child_text(c.code), next: c.next }
            }
        }
    }
}

/// The code of the first `n` children of a layout built by `ui`.
pub open spec fn gen_ui_children(
    s: Seq<Widget>,
    n: nat,
    layout: usize,
    parent_ref: bool,
    r: Renderer,
    input: MacroInput,
    id: u32,
) -> CodeOut
    decreases s, n,
{
    if n == 0 || n > s.len() {
        CodeOut { ok: true, code: Seq::empty(), next: id }
    } else {
        let p = gen_ui_children(s, (n - 1) as nat, layout, parent_ref, r, input, id);
        if !p.ok {
            p
        } else {
            let c = gen(s[n - 1], false, layout, (n - 1) as usize, input, p.next);
            if !c.ok {
                failed(c.next)
            } else {
                CodeOut {
                    ok: true,
                    code: p.code + ui_child_text(s[n - 1], c.code, (n - 1) as nat, layout as nat, parent_ref, r),
                    next: c.next,
                }
            }
        }
    }
}


/// The statement that splits the area of a layout into its chunks.
fn split_text(top: bool, r: &Renderer, layout: &str, id: u32, parent: usize, idx: usize) -> (t: String)
    ensures
        t@ == split_code(top, *r, layout@, id as nat, parent, idx),
{
    let mut t = string_of("let chunks_");
    let d = usize_to_string(id as usize);
    t.append(d.as_str());
    t.append(" = ");
    t.append(layout);
    t.append(".split(");
    if top {
        let target = top_target_text(r);
        t.append(target.as_str());
    } else {
        let c = chunk_text(parent, usize_lit_text(idx).as_str());
        t.append(c.as_str());
    }
    t.append(");");
    t
}

/// A `usize` literal.
fn usize_lit_text(n: usize) -> (t: String)
    ensures
        t@ == usize_lit(n as nat),
{
    let mut t = usize_to_string(n);
    t.append("usize");
    t
}

/// The chunk `idx` of the layout numbered `id`.
fn chunk_text(id: usize, idx: &str) -> (t: String)
    ensures
        t@ == chunk_at(id as nat, idx@),
{
    let mut t = string_of("chunks_");
    let d = usize_to_string(id);
    t.append(d.as_str());
    t.append("[");
    t.append(idx);
    t.append("]");
    t
}

/// The statement that builds a layout from its arguments.
fn layout_head_text(layout: &str, path: &str, args: &Vec<Arg>) -> (t: String)
    ensures
        t@ == layout_head(layout@, path@, args@),
{
    let mut t = string_of("let mut ");
    t.append(layout);
    t.append(" = ");
    t.append(path);
    t.append("::default(");
    let p = positional_text(args);
    t.append(p.as_str());
    t.append(")");
    let n = named_text(args);
    t.append(n.as_str());
    t.append(";");
    t
}

/// A name with the decimal notation of `id` after it.
fn numbered(prefix: &str, id: u32) -> (t: String)
    ensures
        t@ == prefix@ + decimal(id as nat),
{
    let mut t = string_of(prefix);
    let d = usize_to_string(id as usize);
    t.append(d.as_str());
    t
}

/// The code that adds one rendered child to a layout built by `widget`.
fn raw_child_render(code: &str) -> (t: String)
    ensures
        t@ == raw_child_text(code@),
{
    let mut t = string_of(" children.push(Box::new(|area, buf| { ");
    t.append(code);
    t.append(".render(area, buf); }));");
    t
}

/// How a child of a layout built by `ui` is rendered into its chunk.
fn ui_child_render(child: &Widget, code: &str, idx: usize, id: usize, parent_ref: bool, r: &Renderer) -> (t: String)
    ensures
        t@ == ui_child_text(*child, code@, idx as nat, id as nat, parent_ref, *r),
{
    let lit = usize_lit_text(idx);
    let target = chunk_text(id, lit.as_str());
    let refp = ref_text(child.render_ref);
    let empty = empty_string();
    let mut t = String::new();
    match &child.kind {
        WidgetKind::Layout { .. } => {
            t.append(code);
        },
        WidgetKind::IterLayout { .. } => {
            t.append(code);
        },
        WidgetKind::Constructor { .. } => {
            push_render_stmt(&mut t, r, render_fn_text(parent_ref), frame_render_fn_text(parent_ref), refp.as_str(), code, target.as_str(), empty.as_str());
        },
        WidgetKind::Stateful { state, .. } => {
            let mut extra = string_of(", ");
            extra.append(state.as_str());
            push_render_stmt(
                &mut t,
                r,
                stateful_render_fn_text(child.render_ref),
                stateful_frame_render_fn_text(child.render_ref),
                refp.as_str(),
                code,
                target.as_str(),
                extra.as_str(),
            );
        },
        _ => {
            push_render_stmt(&mut t, r, render_fn_text(child.render_ref), frame_render_fn_text(child.render_ref), refp.as_str(), code, target.as_str(), empty.as_str());
        },
    }
    assert(t@ =~= ui_child_text(*child, code@, idx as nat, id as nat, parent_ref, *r));
    t
}

/// How the repeated child of an iterating layout built by `ui` is rendered.
fn iter_body_text(child: &Widget, code: &str, r: &Renderer, it: &str, loop_var: &str, iter: &str, id: usize) -> (t: String)
    ensures
        t@ == iter_body(*child, code@, *r, it@, loop_var@, iter@, id as nat),
{
    let is_layout = match &child.kind {
        WidgetKind::Layout { .. } => true,
        WidgetKind::IterLayout { .. } => true,
        _ => false,
    };
    if is_layout {
        return string_of(code);
    }
    let target = chunk_text(id, it);
    let mut t = string_of("for (");
    t.append(it);
    t.append(", ");
    t.append(loop_var);
    t.append(") in ");
    t.append(iter);
    t.append(".enumerate() { ");
    match r {
        Renderer::Area { area, buffer } => {
            t.append(code);
            t.append(".render(");
            t.append(target.as_str());
            t.append(", ");
            t.append(buffer.as_str());
            t.append(");");
        },
        Renderer::Frame { frame } => {
            t.append(frame.as_str());
            t.append(".render_widget(");
            t.append(code);
            t.append(", ");
            t.append(target.as_str());
            t.append(");");
        },
    }
    t.append(" }");
    assert(t@ =~= iter_body(*child, code@, *r, it@, loop_var@, iter@, id as nat));
    t
}

/// The generation result the exec generators promise for `w`.
pub open spec fn generated(
    w: Widget,
    top: bool,
    parent: usize,
    idx: usize,
    input: MacroInput,
    before: u32,
    after: u32,
    r: Result<String, ()>,
) -> bool {
    let o = gen(w, top, parent, idx, input, before);
    &&& after == o.next
    &&& (r is Ok <==> o.ok)
    &&& r is Ok ==> r->Ok_0@ == o.code
}

proof fn lemma_raw_children_fail(s: Seq<Widget>, k: nat, n: nat, layout: usize, input: MacroInput, id: u32)
    requires
        k <= n <= s.len(),
        !gen_raw_children(s, k, layout, input, id).ok,
    ensures
        gen_raw_children(s, n, layout, input, id) == gen_raw_children(s, k, layout, input, id),
    decreases n - k,
{
    if n > k {
        lemma_raw_children_fail(s, k, (n - 1) as nat, layout, input, id);
    }
}

proof fn lemma_ui_children_fail(
    s: Seq<Widget>,
    k: nat,
    n: nat,
    layout: usize,
    parent_ref: bool,
    r: Renderer,
    input: MacroInput,
    id: u32,
)
    requires
        k <= n <= s.len(),
        !gen_ui_children(s, k, layout, parent_ref, r, input, id).ok,
    ensures
        gen_ui_children(s, n, layout, parent_ref, r, input, id) == gen_ui_children(s, k, layout, parent_ref, r, input, id),
    decreases n - k,
{
    if n > k {
        lemma_ui_children_fail(s, k, (n - 1) as nat, layout, parent_ref, r, input, id);
    }
}

/// The code of a constructor widget.
fn gen_constructor(w: &Widget, top: bool, parent: usize, idx: usize, input: &MacroInput, ids: &mut IdCounter) -> (r: Result<String, ()>)
    requires
        w.kind is Constructor,
    ensures
        generated(*w, top, parent, idx, *input, old(ids)@, final(ids)@, r),
{
    match &w.kind {
        WidgetKind::Constructor { name, constructor } => {
            let c = constructor_text(name, constructor, &w.args);
            match input {
                MacroInput::Ui { renderer } => {
                    if top {
                        let mut t = String::new();
                        push_top_render(&mut t, renderer, w.render_ref, c.as_str());
                        assert(t@ =~= top_render(*renderer, w.render_ref, ref_prefix(w.render_ref), c@));
                        Ok(t)
                    } else {
                        Ok(c)
                    }
                },
                MacroInput::Raw => Ok(c),
            }
        },
        _ => Err(()),
    }
}

/// The code of a widget given by an expression.
fn gen_variable(w: &Widget, top: bool, parent: usize, idx: usize, input: &MacroInput, ids: &mut IdCounter) -> (r: Result<String, ()>)
    requires
        w.kind is Variable,
    ensures
        generated(*w, top, parent, idx, *input, old(ids)@, final(ids)@, r),
{
    match &w.kind {
        WidgetKind::Variable { expr } => {
            let id = generate_unique_id(ids);
            let v = numbered("variable_", id);
            match input {
                MacroInput::Ui { renderer } => {
                    if top {
                        let mut t = string_of("let ");
                        t.append(v.as_str());
                        t.append(" = ");
                        t.append(expr.as_str());
                        t.append("; ");
                        push_top_render(&mut t, renderer, w.render_ref, v.as_str());
                        return Ok(t);
                    }
                },
                MacroInput::Raw => {},
            }
            let mut t = string_of("{ let ");
            t.append(v.as_str());
            t.append(" = ");
            t.append(expr.as_str());
            t.append("; ");
            t.append(v.as_str());
            t.append(" }");
            Ok(t)
        },
        _ => Err(()),
    }
}

/// The code of a conditional widget.
#[verifier::spinoff_prover]
#[verifier::rlimit(60)]
fn gen_conditional(w: &Widget, top: bool, parent: usize, idx: usize, input: &MacroInput, ids: &mut IdCounter) -> (r: Result<String, ()>)
    requires
        w.kind is Conditional,
    ensures
        generated(*w, top, parent, idx, *input, old(ids)@, final(ids)@, r),
    decreases w, 1nat,
{
    match &w.kind {
        WidgetKind::Conditional { condition, if_child, else_child } => {
            let a = match generate_widget_code(&**if_child, false, parent, idx, input, ids) {
                Ok(a) => a,
                Err(e) => return Err(e),
            };
            let start = match input {
                MacroInput::Ui { .. } => match else_child {
                    Some(x) => match generate_widget_code(&**x, false, parent, idx, input, ids) {
                        Ok(e) => e,
                        Err(e) => return Err(e),
                    },
                    None => empty_string(),
                },
                MacroInput::Raw => empty_string(),
            };
            match input {
                MacroInput::Ui { renderer } => {
                    if top {
                        let mut t = string_of("if ");
                        t.append(condition.as_str());
                        t.append(" { ");
                        push_top_render(&mut t, renderer, w.render_ref, a.as_str());
                        t.append(" }");
                        let ghost head = t@;
                        if else_child.is_some() {
                            t.append(" else { ");
                            push_top_render(&mut t, renderer, w.render_ref, start.as_str());
                            t.append(" }");
                            assert(t@ =~= head + (" else { "@ + top_render(
                                *renderer,
                                w.render_ref,
                                ref_prefix(w.render_ref),
                                start@,
                            ) + " }"@));
                        } else {
                            assert(t@ =~= head + Seq::<char>::empty());
                        }
                        return Ok(t);
                    }
                },
                MacroInput::Raw => {},
            }
            match else_child {
                Some(x) => {
                    let e = match generate_widget_code(&**x, false, parent, idx, input, ids) {
                        Ok(e) => e,
                        Err(e) => return Err(e),
                    };
                    let mut t = string_of("{ ");
                    t.append(CONDITIONAL_WRAPPER);
                    t.append(" ConditionalWrapper::with_else(");
                    t.append(a.as_str());
                    t.append(", ");
                    t.append(e.as_str());
                    t.append(", ");
                    t.append(condition.as_str());
                    t.append(") }");
                    Ok(t)
                },
                None => {
                    let mut t = string_of("{ ");
                    t.append(CONDITIONAL_WRAPPER);
                    t.append(" ConditionalWrapper::new(");
                    t.append(a.as_str());
                    t.append(", ");
                    t.append(condition.as_str());
                    t.append(") }");
                    Ok(t)
                },
            }
        },
        _ => Err(()),
    }
}

/// The code of a widget rendered with a state.
fn gen_stateful(w: &Widget, top: bool, parent: usize, idx: usize, input: &MacroInput, ids: &mut IdCounter) -> (r: Result<String, ()>)
    requires
        w.kind is Stateful,
    ensures
        generated(*w, top, parent, idx, *input, old(ids)@, final(ids)@, r),
    decreases w, 1nat,
{
    match &w.kind {
        WidgetKind::Stateful { state, child } => {
            let c = match generate_widget_code(&**child, false, parent, idx, input, ids) {
                Ok(c) => c,
                Err(e) => return Err(e),
            };
            match input {
                MacroInput::Ui { renderer } => {
                    if top {
                        let refp = ref_text(w.render_ref);
                        let target = top_target_text(renderer);
                        let mut extra = string_of(", ");
                        extra.append(state.as_str());
                        let mut t = String::new();
                        push_render_stmt(
                            &mut t,
                            renderer,
                            stateful_render_fn_text(w.render_ref),
                            stateful_frame_render_fn_text(w.render_ref),
                            refp.as_str(),
                            c.as_str(),
                            target.as_str(),
                            extra.as_str(),
                        );
                        assert(t@ =~= render_stmt(
                            *renderer,
                            stateful_render_fn(w.render_ref),
                            stateful_frame_render_fn(w.render_ref),
                            ref_prefix(w.render_ref),
                            c@,
                            top_target(*renderer),
                            ", "@ + state@,
                        ));
                        Ok(t)
                    } else {
                        Ok(c)
                    }
                },
                MacroInput::Raw => {
                    if child.render_ref {
                        Err(())
                    } else {
                        let mut t = string_of("{ ");
                        t.append(STATEFUL_WRAPPER);
                        t.append(" StatefulWrapper::new(");
                        t.append(c.as_str());
                        t.append(", ");
                        t.append(state.as_str());
                        t.append(") }");
                        Ok(t)
                    }
                },
            }
        },
        _ => Err(()),
    }
}

/// The code of a layout built by `widget`.
fn gen_raw_layout(w: &Widget, top: bool, parent: usize, idx: usize, input: &MacroInput, ids: &mut IdCounter) -> (r: Result<String, ()>)
    requires
        w.kind is Layout,
        *input is Raw,
    ensures
        generated(*w, top, parent, idx, *input, old(ids)@, final(ids)@, r),
    decreases w, 1nat,
{
    match &w.kind {
        WidgetKind::Layout { name, children } => {
            let id = generate_unique_id(ids);
            let li = numbered("layout_", id);
            let head = layout_head_text(li.as_str(), name.as_str(), &w.args);
            let ghost n0 = ids@;
            let mut body = String::new();
            let mut i: usize = 0;
            assert(body@ =~= Seq::<char>::empty());
            while i < children.len()
                invariant
                    i <= children.len(),
                    *input is Raw,
                    w.kind == (WidgetKind::Layout { name: *name, children: *children }),
                    n0 == next_id(id),
                    id == old(ids)@,
                    ({
                        let k = gen_raw_children(children@, i as nat, id as usize, *input, n0);
                        &&& k.ok
                        &&& k.next == ids@
                        &&& k.code == body@
                    }),
                decreases children.len() - i,
            {
                proof {
                    assert(decreases_to!(*w => w.kind));
                    assert(decreases_to!(w.kind => w.kind->children));
                    assert(decreases_to!(*children => children@));
                    assert(decreases_to!(children@ => children@[i as int]));
                }
                let c = generate_widget_code(&children[i], false, id as usize, i, input, ids);
                match c {
                    Ok(c) => {
                        let t = raw_child_render(c.as_str());
                        body.append(t.as_str());
                        i = i + 1;
                    },
                    Err(e) => {
                        proof {
                            assert(children@.len() >= i + 1);
                            assert(!gen_raw_children(children@, (i + 1) as nat, id as usize, *input, n0).ok);
                            lemma_raw_children_fail(children@, (i + 1) as nat, children@.len(), id as usize, *input, n0);
                        }
                        return Err(e);
                    },
                }
            }
            let mut t = string_of("{ ");
            t.append(head.as_str());
            t.append(" let mut children: Vec<Box<dyn Fn(Rect, &mut Buffer)>> = Vec::new(); ");
            t.append(LAYOUT_WRAPPER);
            t.append(body.as_str());
            t.append(" LayoutWrapper::new(");
            t.append(li.as_str());
            t.append(", children) }");
            Ok(t)
        },
        _ => Err(()),
    }
}

/// The code of a layout built by `ui`.
fn gen_ui_layout(w: &Widget, top: bool, parent: usize, idx: usize, input: &MacroInput, ids: &mut IdCounter) -> (r: Result<String, ()>)
    requires
        w.kind is Layout,
        *input is Ui,
    ensures
        generated(*w, top, parent, idx, *input, old(ids)@, final(ids)@, r),
    decreases w, 1nat,
{
    match (&w.kind, input) {
        (WidgetKind::Layout { name, children }, MacroInput::Ui { renderer }) => {
            let id = generate_unique_id(ids);
            let li = numbered("layout_", id);
            let head = layout_head_text(li.as_str(), name.as_str(), &w.args);
            let ghost n0 = ids@;
            let mut body = String::new();
            let mut i: usize = 0;
            assert(body@ =~= Seq::<char>::empty());
            while i < children.len()
                invariant
                    i <= children.len(),
                    *input == (MacroInput::Ui { renderer: *renderer }),
                    w.kind == (WidgetKind::Layout { name: *name, children: *children }),
                    n0 == next_id(id),
                    id == old(ids)@,
                    ({
                        let k = gen_ui_children(children@, i as nat, id as usize, w.render_ref, *renderer, *input, n0);
                        &&& k.ok
                        &&& k.next == ids@
                        &&& k.code == body@
                    }),
                decreases children.len() - i,
            {
                proof {
                    assert(decreases_to!(*w => w.kind));
                    assert(decreases_to!(w.kind => w.kind->children));
                    assert(decreases_to!(*children => children@));
                    assert(decreases_to!(children@ => children@[i as int]));
                }
                let c = generate_widget_code(&children[i], false, id as usize, i, input, ids);
                match c {
                    Ok(c) => {
                        let t = ui_child_render(&children[i], c.as_str(), i, id as usize, w.render_ref, renderer);
                        body.append(t.as_str());
                        i = i + 1;
                    },
                    Err(e) => {
                        proof {
                            assert(!gen_ui_children(children@, (i + 1) as nat, id as usize, w.render_ref, *renderer, *input, n0).ok);
                            lemma_ui_children_fail(
                                children@,
                                (i + 1) as nat,
                                children@.len(),
                                id as usize,
                                w.render_ref,
                                *renderer,
                                *input,
                                n0,
                            );
                        }
                        return Err(e);
                    },
                }
            }
            let split = split_text(top, renderer, li.as_str(), id, parent, idx);
            let mut t = string_of("{ ");
            t.append(head.as_str());
            t.append(" ");
            t.append(split.as_str());
            t.append(" ");
            t.append(body.as_str());
            t.append(" }");
            Ok(t)
        },
        _ => Err(()),
    }
}

/// The code of an iterating layout.
fn gen_iter_layout(w: &Widget, top: bool, parent: usize, idx: usize, input: &MacroInput, ids: &mut IdCounter) -> (r: Result<String, ()>)
    requires
        w.kind is IterLayout,
    ensures
        generated(*w, top, parent, idx, *input, old(ids)@, final(ids)@, r),
    decreases w, 1nat,
{
    match &w.kind {
        WidgetKind::IterLayout { loop_var, iter, child } => {
            let id = generate_unique_id(ids);
            let li = numbered("layout_", id);
            let it = numbered("iterator_index_", id);
            let head = layout_head_text(li.as_str(), "ratatui::layout::Layout", &w.args);
            let c = match generate_widget_code(&**child, false, id as usize, idx, input, ids) {
                Ok(c) => c,
                Err(e) => return Err(e),
            };
            match input {
                MacroInput::Ui { renderer } => {
                    let split = split_text(top, renderer, li.as_str(), id, parent, idx);
                    let b = iter_body_text(&**child, c.as_str(), renderer, it.as_str(), loop_var.as_str(), iter.as_str(), id as usize);
                    let mut t = string_of("{ ");
                    t.append(head.as_str());
                    t.append(" ");
                    t.append(split.as_str());
                    t.append(" ");
                    t.append(b.as_str());
                    t.append(" }");
                    Ok(t)
                },
                MacroInput::Raw => {
                    let mut t = string_of("{ ");
                    t.append(head.as_str());
                    t.append(" ");
                    t.append(ITER_LAYOUT_WRAPPER);
                    t.append(" IterLayoutWrapper::new(");
                    t.append(li.as_str());
                    t.append(", ");
                    t.append(iter.as_str());
                    t.append(", |item, area, buf| { let ");
                    t.append(loop_var.as_str());
                    t.append(" = item; let widget = ");
                    t.append(c.as_str());
                    t.append("; widget.render(*area, buf); }) }");
                    Ok(t)
                },
            }
        },
        _ => Err(()),
    }
}

/// Generates the code of a widget at position `idx` under the layout
/// `parent` (at the root when `top`), taking fresh ids from `ids`; fails when
/// `widget` is asked for a stateful widget rendered by reference.
pub fn generate_widget_code(
    w: &Widget,
    top: bool,
    parent: usize,
    idx: usize,
    input: &MacroInput,
    ids: &mut IdCounter,
) -> (r: Result<String, ()>)
    ensures
        generated(*w, top, parent, idx, *input, old(ids)@, final(ids)@, r),
    decreases w, 2nat,
{
    match &w.kind {
        WidgetKind::Constructor { .. } => gen_constructor(w, top, parent, idx, input, ids),
        WidgetKind::Variable { .. } => gen_variable(w, top, parent, idx, input, ids),
        WidgetKind::Conditional { .. } => gen_conditional(w, top, parent, idx, input, ids),
        WidgetKind::Stateful { .. } => gen_stateful(w, top, parent, idx, input, ids),
        WidgetKind::Layout { .. } => match input {
            MacroInput::Raw => gen_raw_layout(w, top, parent, idx, input, ids),
            MacroInput::Ui { .. } => gen_ui_layout(w, top, parent, idx, input, ids),
        },
        WidgetKind::IterLayout { .. } => gen_iter_layout(w, top, parent, idx, input, ids),
    }
}

/// Whether the `widget` macro can build `w`: no stateful widget in the tree
/// has a child rendered by reference.
pub open spec fn raw_supported(w: Widget) -> bool
    decreases w, 1nat,
{
    match w.kind {
        WidgetKind::Constructor { .. } => true,
        WidgetKind::Variable { .. } => true,
        WidgetKind::Conditional { if_child, else_child, .. } => raw_supported(*if_child) && match else_child {
            Some(x) => raw_supported(*x),
            None => true,
        },
        WidgetKind::Stateful { child, .. } => !child.render_ref && raw_supported(*child),
        WidgetKind::Layout { children, .. } => children_supported(children@, children@.len()),
        WidgetKind::IterLayout { child, .. } => raw_supported(*child),
    }
}

/// Whether the `widget` macro can build the first `n` widgets of `s`.
pub open spec fn children_supported(s: Seq<Widget>, n: nat) -> bool
    decreases s, n,
{
    if n == 0 || n > s.len() {
        true
    } else {
        children_supported(s, (n - 1) as nat) && raw_supported(s[n - 1])
    }
}

/// Built without a renderer, a tree yields code exactly when the `widget`
/// macro can build it; with a renderer, it always does.
pub proof fn lemma_gen_ok(w: Widget, top: bool, parent: usize, idx: usize, input: MacroInput, id: u32)
    ensures
        input is Raw ==> gen(w, top, parent, idx, input, id).ok == raw_supported(w),
        input is Ui ==> gen(w, top, parent, idx, input, id).ok,
    decreases w, 1nat,
{
    match w.kind {
        WidgetKind::Constructor { .. } => {},
        WidgetKind::Variable { .. } => {},
        WidgetKind::Conditional { if_child, else_child, .. } => {
            lemma_gen_ok(*if_child, false, parent, idx, input, id);
            let a = gen(*if_child, false, parent, idx, input, id);
            match else_child {
                Some(x) => {
                    lemma_gen_ok(*x, false, parent, idx, input, a.next);
                    let st = gen(*x, false, parent, idx, input, a.next);
                    if input is Ui {
                        lemma_gen_ok(*x, false, parent, idx, input, st.next);
                    }
                },
                None => {},
            }
        },
        WidgetKind::Stateful { child, .. } => {
            lemma_gen_ok(*child, false, parent, idx, input, id);
        },
        WidgetKind::Layout { children, .. } => {
            lemma_children_ok(children@, children@.len(), id as usize, w.render_ref, input, next_id(id));
        },
        WidgetKind::IterLayout { child, .. } => {
            lemma_gen_ok(*child, false, id as usize, idx, input, next_id(id));
        },
    }
}

/// A stateful widget at the root of `ui` is rendered by one call that takes,
/// after the widget (behind `&` when it is rendered by reference) and where it
/// goes, the widget's state: `frame.render_stateful_widget(child, frame.area(),
/// state);` into a frame, `StatefulWidget::render(child, area, buffer, state);`
/// into an area and buffer.
#[verifier::spinoff_prover]
#[verifier::rlimit(60)]
pub proof fn stateful_root_passes_state(
    w: Widget,
    state: String,
    child: Widget,
    parent: usize,
    idx: usize,
    renderer: Renderer,
    id: u32,
)
    requires
        w.kind == (WidgetKind::Stateful { state, child: Box::new(child) }),
    ensures
        ({
            let input = MacroInput::Ui { renderer };
            let o = gen(w, true, parent, idx, input, id);
            let c = gen(child, false, parent, idx, input, id);
            let refp = if w.render_ref { "&"@ } else { Seq::<char>::empty() };
            &&& o.ok == c.ok
            &&& o.next == c.next
            &&& o.ok ==> match renderer {
                Renderer::Frame { frame } => o.code == frame@ + "."@ + (if w.render_ref {
                    "render_stateful_widget_ref"@
                } else {
                    "render_stateful_widget"@
                }) + "("@ + refp + c.code + ", "@ + frame@ + ".area()"@ + ", "@ + state@ + ");"@,
                Renderer::Area { area, buffer } => o.code == (if w.render_ref {
                    "ratatui::widgets::StatefulWidgetRef::render_ref"@
                } else {
                    "ratatui::widgets::StatefulWidget::render"@
                }) + "("@ + refp + c.code + ", "@ + area@ + ", "@ + buffer@ + ", "@ + state@ + ");"@,
            }
        }),
{
    let input = MacroInput::Ui { renderer };
    let o = gen(w, true, parent, idx, input, id);
    let c = gen(child, false, parent, idx, input, id);
    if o.ok {
        match renderer {
            Renderer::Frame { frame } => {
                let f = stateful_frame_render_fn(w.render_ref);
                assert(o.code =~= frame@ + "."@ + f + "("@ + ref_prefix(w.render_ref) + c.code + ", "@ + (frame@
                    + ".area()"@) + (", "@ + state@) + ");"@);
                assert(o.code =~= frame@ + "."@ + f + "("@ + ref_prefix(w.render_ref) + c.code + ", "@ + frame@
                    + ".area()"@ + ", "@ + state@ + ");"@);
            },
            Renderer::Area { area, buffer } => {
                let f = stateful_render_fn(w.render_ref);
                assert(o.code =~= f + "("@ + ref_prefix(w.render_ref) + c.code + ", "@ + area@ + ", "@ + buffer@
                    + (", "@ + state@) + ");"@);
                assert(o.code =~= f + "("@ + ref_prefix(w.render_ref) + c.code + ", "@ + area@ + ", "@ + buffer@
                    + ", "@ + state@ + ");"@);
            },
        }
    }
}

proof fn lemma_raw_children_push(s: Seq<Widget>, c: Widget, n: nat, layout: usize, input: MacroInput, id: u32)
    requires
        n <= s.len(),
    ensures
        gen_raw_children(s.push(c), n, layout, input, id) == gen_raw_children(s, n, layout, input, id),
    decreases n,
{
    if n > 0 {
        lemma_raw_children_push(s, c, (n - 1) as nat, layout, input, id);
        assert(s.push(c)[n - 1] == s[n - 1]);
    }
}

/// The start of the code of a layout built by `widget`, before its children.
spec fn raw_layout_start(li: Seq<char>, head: Seq<char>) -> Seq<char> {
    "{ "@ + head + " let mut children: Vec<Box<dyn Fn(Rect, &mut Buffer)>> = Vec::new(); "@ + LAYOUT_WRAPPER@
}

proof fn lemma_raw_layout_code(w: Widget, name: String, kids: Vec<Widget>, top: bool, parent: usize, idx: usize, id: u32)
    requires
        w.kind == (WidgetKind::Layout { name, children: kids }),
    ensures
        ({
            let li = "layout_"@ + decimal(id as nat);
            let k = gen_raw_children(kids@, kids@.len(), id as usize, MacroInput::Raw, next_id(id));
            let o = gen(w, top, parent, idx, MacroInput::Raw, id);
            &&& o.ok == k.ok
            &&& o.next == k.next
            &&& o.ok ==> o.code == raw_layout_start(li, layout_head(li, name@, w.args@)) + k.code
                + (" LayoutWrapper::new("@ + li + ", children) }"@)
        }),
{
    let li = "layout_"@ + decimal(id as nat);
    let k = gen_raw_children(kids@, kids@.len(), id as usize, MacroInput::Raw, next_id(id));
    let o = gen(w, top, parent, idx, MacroInput::Raw, id);
    if o.ok {
        assert(o.code =~= raw_layout_start(li, layout_head(li, name@, w.args@)) + k.code
            + (" LayoutWrapper::new("@ + li + ", children) }"@));
    }
}

/// The children of a layout built by `widget` come in their order: adding a
/// child at the end of a layout adds, just before the layout is wrapped up,
/// the push of a closure that renders that child (numbered by its position,
/// with the ids that follow those of the other children), after the pushes
/// of the others; and the layout builds exactly when the shorter one and the
/// new child do.
#[verifier::spinoff_prover]
#[verifier::rlimit(60)]
pub proof fn raw_layout_pushes_children_in_order(
    w1: Widget,
    w2: Widget,
    name: String,
    kids1: Vec<Widget>,
    kids2: Vec<Widget>,
    c: Widget,
    top: bool,
    parent: usize,
    idx: usize,
    id: u32,
)
    requires
        w1.kind == (WidgetKind::Layout { name, children: kids1 }),
        w2.kind == (WidgetKind::Layout { name, children: kids2 }),
        kids2@ == kids1@.push(c),
        w2.args@ == w1.args@,
    ensures
        ({
            let a = gen(w1, top, parent, idx, MacroInput::Raw, id);
            let b = gen(w2, top, parent, idx, MacroInput::Raw, id);
            let cc = gen(c, false, id as usize, kids1@.len() as usize, MacroInput::Raw, a.next);
            let tail = " LayoutWrapper::new("@ + "layout_"@ + decimal(id as nat) + ", children) }"@;
            &&& b.ok == (a.ok && cc.ok)
            &&& b.ok ==> {
                &&& tail.len() <= a.code.len()
                &&& b.code == a.code.subrange(0, a.code.len() - tail.len())
                    + (" children.push(Box::new(|area, buf| { "@ + cc.code + ".render(area, buf); }));"@) + tail
                &&& b.next == cc.next
            }
        }),
{
    let input = MacroInput::Raw;
    let n = kids1@.len();
    lemma_raw_children_push(kids1@, c, n, id as usize, input, next_id(id));
    let p = gen_raw_children(kids1@, n, id as usize, input, next_id(id));
    assert(kids2@.len() == n + 1);
    assert(kids2@[n as int] == c);
    assert(gen_raw_children(kids2@, n, id as usize, input, next_id(id)) == p);
    lemma_raw_layout_code(w1, name, kids1, top, parent, idx, id);
    lemma_raw_layout_code(w2, name, kids2, top, parent, idx, id);
    let a = gen(w1, top, parent, idx, input, id);
    let b = gen(w2, top, parent, idx, input, id);
    if b.ok {
        let li = "layout_"@ + decimal(id as nat);
        let tail = " LayoutWrapper::new("@ + li + ", children) }"@;
        let pre = raw_layout_start(li, layout_head(li, name@, w1.args@));
        let push = raw_child_text(gen(c, false, id as usize, n as usize, input, p.next).code);
        assert((pre + p.code + tail).subrange(0, (pre + p.code).len() as int) =~= pre + p.code);
        vstd::seq_lib::lemma_concat_associative(pre, p.code, push);
    }
}

proof fn lemma_ui_children_push(
    s: Seq<Widget>,
    c: Widget,
    n: nat,
    layout: usize,
    parent_ref: bool,
    r: Renderer,
    input: MacroInput,
    id: u32,
)
    requires
        n <= s.len(),
    ensures
        gen_ui_children(s.push(c), n, layout, parent_ref, r, input, id) == gen_ui_children(s, n, layout, parent_ref, r, input, id),
    decreases n,
{
    if n > 0 {
        lemma_ui_children_push(s, c, (n - 1) as nat, layout, parent_ref, r, input, id);
        assert(s.push(c)[n - 1] == s[n - 1]);
    }
}

/// The children of a layout built by `ui` come in their order: adding a child
/// at the end of a layout adds, just before the layout's closing brace, the
/// statement that renders that child into the chunk of its position (with the
/// ids that follow those of the other children), after the statements of the
/// others; and the layout builds exactly when the shorter one and the new
/// child do.
#[verifier::spinoff_prover]
#[verifier::rlimit(60)]
pub proof fn ui_layout_renders_children_in_order(
    w1: Widget,
    w2: Widget,
    name: String,
    kids1: Vec<Widget>,
    kids2: Vec<Widget>,
    c: Widget,
    top: bool,
    parent: usize,
    idx: usize,
    renderer: Renderer,
    id: u32,
)
    requires
        w1.kind == (WidgetKind::Layout { name, children: kids1 }),
        w2.kind == (WidgetKind::Layout { name, children: kids2 }),
        kids2@ == kids1@.push(c),
        w2.args@ == w1.args@,
        w2.render_ref == w1.render_ref,
    ensures
        ({
            let input = MacroInput::Ui { renderer };
            let a = gen(w1, top, parent, idx, input, id);
            let b = gen(w2, top, parent, idx, input, id);
            let n = kids1@.len();
            let cc = gen(c, false, id as usize, n as usize, input, a.next);
            &&& b.ok == (a.ok && cc.ok)
            &&& b.ok ==> {
                &&& 2 <= a.code.len()
                &&& b.code == a.code.subrange(0, a.code.len() - 2)
                    + ui_child_text(c, cc.code, n, id as nat, w1.render_ref, renderer) + " }"@
                &&& b.next == cc.next
            }
        }),
{
    let input = MacroInput::Ui { renderer };
    let n = kids1@.len();
    let rr = w1.render_ref;
    lemma_ui_children_push(kids1@, c, n, id as usize, rr, renderer, input, next_id(id));
    assert(kids2@.len() == n + 1);
    assert(kids2@[n as int] == c);
    lemma_ui_children_step(kids2@, n, id as usize, rr, renderer, input, next_id(id));
    lemma_ui_layout_code(w1, name, kids1, top, parent, idx, renderer, id);
    lemma_ui_layout_code(w2, name, kids2, top, parent, idx, renderer, id);
    let p = gen_ui_children(kids1@, n, id as usize, rr, renderer, input, next_id(id));
    let q = gen_ui_children(kids2@, n + 1, id as usize, rr, renderer, input, next_id(id));
    let a = gen(w1, top, parent, idx, input, id);
    let b = gen(w2, top, parent, idx, input, id);
    assert(gen_ui_children(kids2@, n, id as usize, rr, renderer, input, next_id(id)) == p);
    assert(a.ok == p.ok);
    assert(a.next == p.next);
    assert(b.ok == q.ok);
    let cc = gen(c, false, id as usize, n as usize, input, a.next);
    assert(q.ok == (p.ok && cc.ok));
    assert(b.ok == (a.ok && cc.ok));
    assert((id as usize) as nat == id as nat);
    if b.ok {
        let li = "layout_"@ + decimal(id as nat);
        let pre = ui_layout_start(top, renderer, li, layout_head(li, name@, w1.args@), id, parent, idx);
        let t = ui_child_text(c, gen(c, false, id as usize, n as usize, input, p.next).code, n, id as nat, rr, renderer);
        reveal_strlit(" }");
        assert(b.code == pre + q.code + " }"@);
        assert(q.code == p.code + t);
        assert(a.code == pre + p.code + " }"@);
        assert((pre + p.code + " }"@).subrange(0, (pre + p.code).len() as int) =~= pre + p.code);
        vstd::seq_lib::lemma_concat_associative(pre, p.code, t);
        assert(b.code == a.code.subrange(0, a.code.len() - 2) + t + " }"@);
    }
}

/// The start of the code of a layout built by `ui`, before its children.
spec fn ui_layout_start(top: bool, r: Renderer, li: Seq<char>, head: Seq<char>, id: u32, parent: usize, idx: usize) -> Seq<char> {
    "{ "@ + head + " "@ + split_code(top, r, li, id as nat, parent, idx) + " "@
}

proof fn lemma_ui_layout_code(
    w: Widget,
    name: String,
    kids: Vec<Widget>,
    top: bool,
    parent: usize,
    idx: usize,
    renderer: Renderer,
    id: u32,
)
    requires
        w.kind == (WidgetKind::Layout { name, children: kids }),
    ensures
        ({
            let input = MacroInput::Ui { renderer };
            let li = "layout_"@ + decimal(id as nat);
            let k = gen_ui_children(kids@, kids@.len(), id as usize, w.render_ref, renderer, input, next_id(id));
            let o = gen(w, top, parent, idx, input, id);
            &&& o.ok == k.ok
            &&& o.next == k.next
            &&& o.ok ==> o.code == ui_layout_start(top, renderer, li, layout_head(li, name@, w.args@), id, parent, idx)
                + k.code + " }"@
        }),
{
}

proof fn lemma_ui_children_step(
    s: Seq<Widget>,
    n: nat,
    layout: usize,
    parent_ref: bool,
    r: Renderer,
    input: MacroInput,
    id: u32,
)
    requires
        n < s.len(),
    ensures
        ({
            let p = gen_ui_children(s, n, layout, parent_ref, r, input, id);
            let q = gen_ui_children(s, n + 1, layout, parent_ref, r, input, id);
            let cc = gen(s[n as int], false, layout, n as usize, input, p.next);
            &&& q.ok == (p.ok && cc.ok)
            &&& q.ok ==> q.code == p.code + ui_child_text(s[n as int], cc.code, n, layout as nat, parent_ref, r)
                && q.next == cc.next
        }),
{
}

/// A stateful child of a layout built by `ui` is rendered into the chunk of
/// its position by one call that takes the child's state last: into a frame,
/// `frame.render_stateful_widget(code, chunks_<id>[<idx>usize], state);`.
pub proof fn stateful_child_passes_state(
    child: Widget,
    state: String,
    inner: Widget,
    code: Seq<char>,
    idx: nat,
    id: nat,
    parent_ref: bool,
    renderer: Renderer,
)
    requires
        child.kind == (WidgetKind::Stateful { state, child: Box::new(inner) }),
    ensures
        ({
            let refp = if child.render_ref { "&"@ } else { Seq::<char>::empty() };
            let chunk = "chunks_"@ + decimal(id) + "["@ + decimal(idx) + "usize"@ + "]"@;
            match renderer {
                Renderer::Frame { frame } => ui_child_text(child, code, idx, id, parent_ref, renderer) == frame@ + "."@
                    + (if child.render_ref { "render_stateful_widget_ref"@ } else { "render_stateful_widget"@ }) + "("@
                    + refp + code + ", "@ + chunk + ", "@ + state@ + ");"@,
                Renderer::Area { area, buffer } => ui_child_text(child, code, idx, id, parent_ref, renderer) == (
                if child.render_ref {
                    "ratatui::widgets::StatefulWidgetRef::render_ref"@
                } else {
                    "ratatui::widgets::StatefulWidget::render"@
                }) + "("@ + refp + code + ", "@ + chunk + ", "@ + buffer@ + ", "@ + state@ + ");"@,
            }
        }),
{
    let chunk = "chunks_"@ + decimal(id) + "["@ + decimal(idx) + "usize"@ + "]"@;
    assert(chunk_at(id, usize_lit(idx)) =~= chunk);
    let t = ui_child_text(child, code, idx, id, parent_ref, renderer);
    match renderer {
        Renderer::Frame { frame } => {
            assert(t =~= frame@ + "."@ + stateful_frame_render_fn(child.render_ref) + "("@ + ref_prefix(child.render_ref)
                + code + ", "@ + chunk + (", "@ + state@) + ");"@);
        },
        Renderer::Area { area, buffer } => {
            assert(t =~= stateful_render_fn(child.render_ref) + "("@ + ref_prefix(child.render_ref) + code + ", "@
                + chunk + ", "@ + buffer@ + (", "@ + state@) + ");"@);
        },
    }
}

/// The children of a layout yield code as their widgets do.
pub proof fn lemma_children_ok(s: Seq<Widget>, n: nat, layout: usize, parent_ref: bool, input: MacroInput, id: u32)
    ensures
        input is Raw ==> gen_raw_children(s, n, layout, input, id).ok == children_supported(s, n),
        input matches MacroInput::Ui { renderer } ==> gen_ui_children(s, n, layout, parent_ref, renderer, input, id).ok,
    decreases s, n,
{
    if n > 0 && n <= s.len() {
        lemma_children_ok(s, (n - 1) as nat, layout, parent_ref, input, id);
        match input {
            MacroInput::Raw => {
                let p = gen_raw_children(s, (n - 1) as nat, layout, input, id);
                lemma_gen_ok(s[n - 1], false, layout, (n - 1) as usize, input, p.next);
            },
            MacroInput::Ui { renderer } => {
                let p = gen_ui_children(s, (n - 1) as nat, layout, parent_ref, renderer, input, id);
                lemma_gen_ok(s[n - 1], false, layout, (n - 1) as usize, input, p.next);
            },
        }
    }
}

/// Whether the `widget` macro can build `w`.
pub fn raw_supported_of(w: &Widget) -> (r: bool)
    ensures
        r == raw_supported(*w),
    decreases w, 1nat,
{
    match &w.kind {
        WidgetKind::Constructor { .. } => true,
        WidgetKind::Variable { .. } => true,
        WidgetKind::Conditional { if_child, else_child, .. } => {
            raw_supported_of(&**if_child) && match else_child {
                Some(x) => raw_supported_of(&**x),
                None => true,
            }
        },
        WidgetKind::Stateful { child, .. } => !child.render_ref && raw_supported_of(&**child),
        WidgetKind::Layout { name, children } => {
            let mut i: usize = 0;
            while i < children.len()
                invariant
                    i <= children.len(),
                    w.kind == (WidgetKind::Layout { name: *name, children: *children }),
                    children_supported(children@, i as nat),
                decreases children.len() - i,
            {
                proof {
                    assert(decreases_to!(*w => w.kind));
                    assert(decreases_to!(w.kind => w.kind->children));
                    assert(decreases_to!(*children => children@));
                    assert(decreases_to!(children@ => children@[i as int]));
                }
                if !raw_supported_of(&children[i]) {
                    proof {
                        lemma_children_unsupported(children@, (i + 1) as nat, children@.len());
                    }
                    return false;
                }
                i = i + 1;
            }
            true
        },
        WidgetKind::IterLayout { child, .. } => raw_supported_of(&**child),
    }
}

proof fn lemma_children_unsupported(s: Seq<Widget>, k: nat, n: nat)
    requires
        0 < k <= n <= s.len(),
        !children_supported(s, k),
    ensures
        !children_supported(s, n),
    decreases n - k,
{
    if n > k {
        lemma_children_unsupported(s, k, (n - 1) as nat);
    }
}

/// The message of the refusal to render a stateful widget by reference
/// without a renderer.
pub open spec fn stateful_ref_refusal() -> Seq<char> {
    "The widget!() macro doesn't support rendering StatefulWidgetRef widgets yet."@
}

/// The `ui` macro: the code that renders the widget tree with the given
/// renderer. Input without a renderer is refused by the macro before this.
pub fn ui(input: &MacroInput, w: &Widget, ids: &mut IdCounter) -> (r: String)
    requires
        *input is Ui,
    ensures
        ({
            let o = gen(*w, true, 0, 0, *input, old(ids)@);
            &&& final(ids)@ == o.next
            &&& r@ == o.code
        }),
{
    proof {
        lemma_gen_ok(*w, true, 0, 0, *input, ids@);
    }
    match generate_widget_code(w, true, 0, 0, input, ids) {
        Ok(c) => c,
        Err(_) => {
            assert(false);
            String::new()
        },
    }
}

/// The `widget` macro: the code that builds the widget tree as one widget.
/// Input with a renderer, and trees with a stateful widget whose child is
/// rendered by reference, are refused by the macro before this.
pub fn widget(input: &MacroInput, w: &Widget, ids: &mut IdCounter) -> (r: String)
    requires
        *input is Raw,
        raw_supported(*w),
    ensures
        ({
            let o = gen(*w, true, 0, 0, *input, old(ids)@);
            &&& final(ids)@ == o.next
            &&& r@ == o.code
        }),
{
    proof {
        lemma_gen_ok(*w, true, 0, 0, *input, ids@);
    }
    match generate_widget_code(w, true, 0, 0, input, ids) {
        Ok(c) => c,
        Err(_) => {
            assert(false);
            String::new()
        },
    }
}

} // verus!
