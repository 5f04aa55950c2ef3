//! The grammar of the input of the `ui` and `widget` macros, read from the
//! token trees of the macro call.
//!
//! An expression inside the input (an argument, a condition, a renderer) is
//! kept as the text of its tokens: it starts like an expression and runs up to
//! the next comma or `=>` of its own level; the Rust compiler reads it where
//! the generated code places it.
use vstd::prelude::*;
use vstd::string::StringExecFns;
use crate::text::{push_char, push_str, string_of};
use crate::codegen::IdCounter;
use crate::widget::{gen, raw_supported, raw_supported_of, stateful_ref_refusal, ui, widget, Arg, ArgKind, MacroInput, Renderer, Widget, WidgetKind};

verus! {

/// The delimiter of a group of tokens.
pub enum Delimiter {
    Parenthesis,
    Brace,
    Bracket,
    Invisible,
}

/// A token tree of the macro input.
pub enum TokenTree {
    /// Tokens between a pair of delimiters.
    Group(Delimiter, Vec<TokenTree>),
    Ident(String),
    /// A punctuation character; `true` when it is joined to the next
    /// character, as the first `:` of `::` or the `=` of `=>`.
    Punct(char, bool),
    Literal(String),
}

/// Why tokens are not a widget.
#[derive(Copy, Clone, Debug, PartialEq, Eq, Structural)]
pub enum ParseError {
    /// The tokens break the grammar.
    Syntax,
    /// A word other than `Else` follows the widget of an `If`.
    ExpectedElse,
}

impl ParseError {
    /// The message of the error.
    pub fn message(&self) -> (r: &'static str)
        ensures
            r@ == (match self {
                ParseError::Syntax => "unexpected tokens in widget input"@,
                ParseError::ExpectedElse => "Expected 'Else' keyword"@,
            }),
    {
        match self {
            ParseError::Syntax => "unexpected tokens in widget input",
            ParseError::ExpectedElse => "Expected 'Else' keyword",
        }
    }
}

/// The opening text of a delimiter.
pub open spec fn open_text(d: Delimiter) -> Seq<char> {
    match d {
        Delimiter::Parenthesis => "("@,
        Delimiter::Brace => "{"@,
        Delimiter::Bracket => "["@,
        Delimiter::Invisible => ""@,
    }
}

/// The closing text of a delimiter.
pub open spec fn close_text(d: Delimiter) -> Seq<char> {
    match d {
        Delimiter::Parenthesis => ")"@,
        Delimiter::Brace => "}"@,
        Delimiter::Bracket => "]"@,
        Delimiter::Invisible => ""@,
    }
}

/// What separates a token from the next one in text: nothing after a joined
/// punctuation character, a space otherwise.
pub open spec fn gap(t: TokenTree) -> Seq<char> {
    match t {
        TokenTree::Punct(_, true) => Seq::empty(),
        _ => seq![' '],
    }
}

/// The text of a token tree.
pub open spec fn tree_text(t: TokenTree) -> Seq<char>
    decreases t, 0nat,
{
    match t {
        TokenTree::Group(d, inner) => open_text(d) + range_text(inner@, 0, inner@.len()) + close_text(d),
        TokenTree::Ident(s) => s@,
        TokenTree::Punct(c, _) => seq![c],
        TokenTree::Literal(s) => s@,
    }
}

/// The text of the tokens from `lo` up to `hi`.
pub open spec fn range_text(ts: Seq<TokenTree>, lo: nat, hi: nat) -> Seq<char>
    decreases ts, hi,
{
    if hi <= lo || hi > ts.len() {
        Seq::empty()
    } else if hi == lo + 1 {
        tree_text(ts[lo as int])
    } else {
        range_text(ts, lo, (hi - 1) as nat) + gap(ts[hi - 2]) + tree_text(ts[hi - 1])
    }
}

/// Whether `t` is the punctuation character `c`.
pub open spec fn is_punct(t: TokenTree, c: char) -> bool {
    t matches TokenTree::Punct(p, _) && p == c
}

/// Whether `t` is the punctuation character `c`, joined to the next one.
pub open spec fn joined_punct(t: TokenTree, c: char) -> bool {
    t matches TokenTree::Punct(p, true) && p == c
}

/// Whether `=>` starts at `i`.
pub open spec fn arrow_at(ts: Seq<TokenTree>, i: int) -> bool {
    &&& 0 <= i && i + 1 < ts.len()
    &&& joined_punct(ts[i], '=')
    &&& is_punct(ts[i + 1], '>')
}

/// Whether an expression ends before `i`: at a comma or at `=>`.
pub open spec fn ends_expr(ts: Seq<TokenTree>, i: int) -> bool {
    is_punct(ts[i], ',') || arrow_at(ts, i)
}

/// Where the expression that starts at `i` ends: at the first comma or `=>`
/// from `i` on, or at the end of the tokens.
pub open spec fn expr_end(ts: Seq<TokenTree>, i: nat) -> nat
    decreases ts.len() - i,
{
    if i >= ts.len() || ends_expr(ts, i as int) {
        i
    } else {
        expr_end(ts, i + 1)
    }
}

/// Whether an expression can start at `i`: any token but punctuation, or
/// one of the characters that begin a unary operation, a reference, a
/// closure, a qualified path, an attribute, a range, or `::`.
pub open spec fn expr_start(ts: Seq<TokenTree>, i: nat) -> bool {
    &&& i < ts.len()
    &&& match ts[i as int] {
        TokenTree::Punct(c, joint) => c == '-' || c == '!' || c == '*' || c == '&' || c == '|' || c
            == '<' || c == '#' || c == '.' || (c == ':' && joint && i + 1 < ts.len() && is_punct(
            ts[i + 1 as int],
            ':',
        )),
        _ => true,
    }
}

/// Whether the tokens are one expression and nothing more.
pub open spec fn whole_expr(ts: Seq<TokenTree>) -> bool {
    expr_start(ts, 0) && expr_end(ts, 0) == ts.len()
}

fn open_str(d: &Delimiter) -> (r: &'static str)
    ensures
        r@ == open_text(*d),
{
    match d {
        Delimiter::Parenthesis => "(",
        Delimiter::Brace => "{",
        Delimiter::Bracket => "[",
        Delimiter::Invisible => "",
    }
}

fn close_str(d: &Delimiter) -> (r: &'static str)
    ensures
        r@ == close_text(*d),
{
    match d {
        Delimiter::Parenthesis => ")",
        Delimiter::Brace => "}",
        Delimiter::Bracket => "]",
        Delimiter::Invisible => "",
    }
}

/// The text of a token tree.
pub fn tree_text_of(t: &TokenTree) -> (r: String)
    ensures
        r@ == tree_text(*t),
    decreases t, 0nat,
{
    match t {
        TokenTree::Group(d, inner) => {
            let mut s = string_of(open_str(d));
            let m = range_text_of(inner, 0, inner.len());
            push_str(&mut s, m.as_str());
            push_str(&mut s, close_str(d));
            s
        },
        TokenTree::Ident(s) => string_of(s.as_str()),
        TokenTree::Punct(c, _) => {
            let mut s = String::new();
            push_char(&mut s, *c);
            s
        },
        TokenTree::Literal(s) => string_of(s.as_str()),
    }
}

/// The text of the tokens from `lo` up to `hi`.
pub fn range_text_of(ts: &Vec<TokenTree>, lo: usize, hi: usize) -> (r: String)
    requires
        lo <= hi <= ts.len(),
    ensures
        r@ == range_text(ts@, lo as nat, hi as nat),
    decreases ts@, hi,
{
    let mut s = String::new();
    if lo == hi {
        return s;
    }
    let first = tree_text_of(&ts[lo]);
    push_str(&mut s, first.as_str());
    let mut i = lo + 1;
    while i < hi
        invariant
            lo < i <= hi <= ts.len(),
            s@ == range_text(ts@, lo as nat, i as nat),
        decreases hi - i,
    {
        if !matches!(ts[i - 1], TokenTree::Punct(_, true)) {
            push_char(&mut s, ' ');
        }
        let t = tree_text_of(&ts[i]);
        push_str(&mut s, t.as_str());
        assert(s@ =~= range_text(ts@, lo as nat, (i + 1) as nat));
        i = i + 1;
    }
    s
}

/// What an argument says: how it is passed and the text of its expression.
pub enum ArgView {
    Positional(Seq<char>),
    Named(Seq<char>, Seq<char>),
}

/// What a widget says, with texts in place of strings.
pub enum KindView {
    Constructor { name: Seq<char>, constructor: Seq<char> },
    Layout { name: Seq<char>, children: Seq<WidgetView> },
    Variable { expr: Seq<char> },
    Conditional { condition: Seq<char>, if_child: Box<WidgetView>, else_child: Option<Box<WidgetView>> },
    IterLayout { loop_var: Seq<char>, iter: Seq<char>, child: Box<WidgetView> },
    Stateful { state: Seq<char>, child: Box<WidgetView> },
}

/// A widget tree, with texts in place of strings.
pub struct WidgetView {
    pub kind: KindView,
    pub args: Seq<ArgView>,
    pub render_ref: bool,
}

/// What the macro input says besides its widget.
pub enum InputView {
    Raw,
    Area(Seq<char>, Seq<char>),
    Frame(Seq<char>),
}

/// The view of an argument.
pub open spec fn arg_view(a: Arg) -> ArgView {
    match a.kind {
        ArgKind::Positional => ArgView::Positional(a.value@),
        ArgKind::Named(n) => ArgView::Named(n@, a.value@),
    }
}

/// The views of arguments, in order.
pub open spec fn args_view(s: Seq<Arg>) -> Seq<ArgView> {
    s.map_values(|a: Arg| arg_view(a))
}

/// The view of a widget tree.
pub open spec fn widget_view(w: Widget) -> WidgetView
    decreases w, 1nat,
{
    let kind = match w.kind {
        WidgetKind::Constructor { name, constructor } => KindView::Constructor {
            name: name@,
            constructor: constructor@,
        },
        WidgetKind::Layout { name, children } => KindView::Layout {
            name: name@,
            children: children_view(children@, children@.len()),
        },
        WidgetKind::Variable { expr } => KindView::Variable { expr: expr@ },
        WidgetKind::Conditional { condition, if_child, else_child } => KindView::Conditional {
            condition: condition@,
            if_child: Box::new(widget_view(*if_child)),
            else_child: match else_child {
                Some(e) => Some(Box::new(widget_view(*e))),
                Option::None => Option::None,
            },
        },
        WidgetKind::IterLayout { loop_var, iter, child } => KindView::IterLayout {
            loop_var: loop_var@,
            iter: iter@,
            child: Box::new(widget_view(*child)),
        },
        WidgetKind::Stateful { state, child } => KindView::Stateful {
            state: state@,
            child: Box::new(widget_view(*child)),
        },
    };
    WidgetView { kind, args: args_view(w.args@), render_ref: w.render_ref }
}

/// The views of the first `n` widgets of `s`.
pub open spec fn children_view(s: Seq<Widget>, n: nat) -> Seq<WidgetView>
    decreases s, n,
{
    if n == 0 || n > s.len() {
        Seq::empty()
    } else {
        children_view(s, (n - 1) as nat).push(widget_view(s[n - 1]))
    }
}

/// The views of the first `n` widgets, one by one.
pub proof fn lemma_children_view(s: Seq<Widget>, n: nat)
    requires
        n <= s.len(),
    ensures
        children_view(s, n).len() == n,
        forall|i: int| 0 <= i < n ==> #[trigger] children_view(s, n)[i] == widget_view(s[i]),
    decreases n,
{
    if n > 0 {
        lemma_children_view(s, (n - 1) as nat);
    }
}

/// The view of what a macro input says besides its widget.
pub open spec fn input_view(m: MacroInput) -> InputView {
    match m {
        MacroInput::Raw => InputView::Raw,
        MacroInput::Ui { renderer } => match renderer {
            Renderer::Area { area, buffer } => InputView::Area(area@, buffer@),
            Renderer::Frame { frame } => InputView::Frame(frame@),
        },
    }
}

/// The text of an identifier token.
pub open spec fn ident_text(t: TokenTree) -> Seq<char> {
    match t {
        TokenTree::Ident(s) => s@,
        _ => Seq::empty(),
    }
}

/// Whether `::` starts at `i`.
pub open spec fn path_sep_at(ts: Seq<TokenTree>, i: int) -> bool {
    &&& 0 <= i && i + 1 < ts.len()
    &&& joined_punct(ts[i], ':')
    &&& is_punct(ts[i + 1], ':')
}

/// The argument that starts at `k`, and where it ends. An identifier followed
/// by a single `:` names the argument; an identifier alone (before a comma or
/// the end) is short for `name: name`; anything else, a path such as `A::b`
/// among them, is passed by position.
pub open spec fn arg_at(c: Seq<TokenTree>, k: nat) -> Option<(ArgView, nat)> {
    if k < c.len() && c[k as int] is Ident && (k + 1 == c.len() || is_punct(c[(k + 1) as int], ',')) {
        Some((ArgView::Named(ident_text(c[k as int]), ident_text(c[k as int])), k + 1))
    } else if k + 1 < c.len() && c[k as int] is Ident && is_punct(c[(k + 1) as int], ':') && !path_sep_at(
        c,
        (k + 1) as int,
    ) {
        let s = k + 2;
        if expr_start(c, s) {
            let e = expr_end(c, s);
            Some((ArgView::Named(ident_text(c[k as int]), range_text(c, s, e)), e))
        } else {
            Option::None
        }
    } else if expr_start(c, k) {
        let e = expr_end(c, k);
        Some((ArgView::Positional(range_text(c, k, e)), e))
    } else {
        Option::None
    }
}

/// The arguments from `k` on: arguments separated by commas, with an
/// optional comma after the last.
pub open spec fn args_at(c: Seq<TokenTree>, k: nat) -> Option<Seq<ArgView>>
    decreases c.len() - k,
{
    if k >= c.len() {
        Some(Seq::empty())
    } else {
        match arg_at(c, k) {
            Some((a, e)) => {
                if e >= c.len() {
                    Some(seq![a])
                } else if k < e && is_punct(c[e as int], ',') {
                    match args_at(c, e + 1) {
                        Some(rest) => Some(seq![a] + rest),
                        Option::None => Option::None,
                    }
                } else {
                    Option::None
                }
            },
            Option::None => Option::None,
        }
    }
}

/// Whether `t` is a group with the delimiter `d`.
pub open spec fn is_group(t: TokenTree, d: Delimiter) -> bool {
    t matches TokenTree::Group(e, _) && e == d
}

/// The tokens inside a group.
pub open spec fn group_tokens(t: TokenTree) -> Seq<TokenTree> {
    match t {
        TokenTree::Group(_, inner) => inner@,
        _ => Seq::empty(),
    }
}

/// A widget of the given kind with no arguments.
pub open spec fn bare(kind: KindView) -> WidgetView {
    WidgetView { kind, args: Seq::empty(), render_ref: false }
}

/// The widget that starts at `i`, and where it ends: `{ {expr} }` for a
/// widget given by an expression, else a named widget (after an empty
/// `{}`, which is skipped).
pub open spec fn widget_at(ts: Seq<TokenTree>, i: nat) -> Result<(WidgetView, nat), ParseError>
    decreases ts, 1nat,
{
    if i < ts.len() && is_group(ts[i as int], Delimiter::Brace) {
        let inner = group_tokens(ts[i as int]);
        if inner.len() == 0 {
            named_at(ts, i + 1)
        } else if inner.len() == 1 && is_group(inner[0], Delimiter::Brace) && whole_expr(
            group_tokens(inner[0]),
        ) {
            let e = group_tokens(inner[0]);
            Ok((bare(KindView::Variable { expr: range_text(e, 0, e.len()) }), i + 1))
        } else {
            Err(ParseError::Syntax)
        }
    } else {
        named_at(ts, i)
    }
}

/// The widget named by the identifier at `j`: `If (condition) { widget }`,
/// optionally followed by `Else { widget }`; or `Name`, `Name::constructor`
/// (`default` when none is given), optional arguments in parentheses, and for
/// `Layout` optional children in braces, separated by commas.
pub open spec fn named_at(ts: Seq<TokenTree>, j: nat) -> Result<(WidgetView, nat), ParseError>
    decreases ts, 0nat,
{
    if j < ts.len() && ts[j as int] is Ident {
        let name = ident_text(ts[j as int]);
        if name == "If"@ {
            if j + 2 < ts.len() {
                match (ts[j + 1 as int], ts[j + 2 as int]) {
                    (
                        TokenTree::Group(Delimiter::Parenthesis, cond),
                        TokenTree::Group(Delimiter::Brace, body),
                    ) => if whole_expr(cond@) {
                        match widget_at(body@, 0) {
                            Ok((child, e)) => if e == body@.len() {
                                let k = j + 3;
                                let condition = range_text(cond@, 0, cond@.len());
                                if k < ts.len() && ts[k as int] is Ident {
                                    if ident_text(ts[k as int]) != "Else"@ {
                                        Err(ParseError::ExpectedElse)
                                    } else if k + 1 < ts.len() {
                                        match ts[k + 1 as int] {
                                            TokenTree::Group(Delimiter::Brace, other) => match widget_at(other@, 0) {
                                                Ok((alt, e2)) => if e2 == other@.len() {
                                                    Ok((bare(KindView::Conditional {
                                                        condition,
                                                        if_child: Box::new(child),
                                                        else_child: Some(Box::new(alt)),
                                                    }), k + 2))
                                                } else {
                                                    Err(ParseError::Syntax)
                                                },
                                                Err(f) => Err(f),
                                            },
                                            _ => Err(ParseError::Syntax),
                                        }
                                    } else {
                                        Err(ParseError::Syntax)
                                    }
                                } else {
                                    Ok((bare(KindView::Conditional {
                                        condition,
                                        if_child: Box::new(child),
                                        else_child: Option::None,
                                    }), k))
                                }
                            } else {
                                Err(ParseError::Syntax)
                            },
                            Err(f) => Err(f),
                        }
                    } else {
                        Err(ParseError::Syntax)
                    },
                    _ => Err(ParseError::Syntax),
                }
            } else {
                Err(ParseError::Syntax)
            }
        } else {
            let path = j + 2 < ts.len() && joined_punct(ts[j + 1 as int], ':') && is_punct(ts[j + 2 as int], ':');
            if path && !(j + 3 < ts.len() && ts[j + 3 as int] is Ident) {
                Err(ParseError::Syntax)
            } else {
                let constructor = if path { ident_text(ts[j + 3 as int]) } else { "default"@ };
                let p: nat = if path { j + 4 } else { j + 1 };
                let has_args = p < ts.len() && is_group(ts[p as int], Delimiter::Parenthesis);
                let parsed_args = if has_args { args_at(group_tokens(ts[p as int]), 0) } else { Some(Seq::empty()) };
                let q: nat = if has_args { p + 1 } else { p };
                match parsed_args {
                    Some(args) => if name == "Layout"@ {
                        if q < ts.len() {
                            match ts[q as int] {
                                TokenTree::Group(Delimiter::Brace, c) => match children_at(c@, 0) {
                                    Ok(children) => Ok((WidgetView {
                                        kind: KindView::Layout { name, children },
                                        args,
                                        render_ref: false,
                                    }, q + 1)),
                                    Err(f) => Err(f),
                                },
                                _ => Ok((WidgetView {
                                    kind: KindView::Layout { name, children: Seq::empty() },
                                    args,
                                    render_ref: false,
                                }, q)),
                            }
                        } else {
                            Ok((WidgetView {
                                kind: KindView::Layout { name, children: Seq::empty() },
                                args,
                                render_ref: false,
                            }, q))
                        }
                    } else {
                        Ok((WidgetView {
                            kind: KindView::Constructor { name, constructor },
                            args,
                            render_ref: false,
                        }, q))
                    },
                    Option::None => Err(ParseError::Syntax),
                }
            }
        }
    } else {
        Err(ParseError::Syntax)
    }
}

/// The widgets from `k` on: widgets separated by commas, with an optional
/// comma after the last.
pub open spec fn children_at(c: Seq<TokenTree>, k: nat) -> Result<Seq<WidgetView>, ParseError>
    decreases c, c.len() + 2 - k,
{
    if k >= c.len() {
        Ok(Seq::empty())
    } else {
        match widget_at(c, k) {
            Ok((w, e)) => {
                if e == c.len() {
                    Ok(seq![w])
                } else if k < e && e < c.len() && is_punct(c[e as int], ',') {
                    match children_at(c, e + 1) {
                        Ok(rest) => Ok(seq![w] + rest),
                        Err(f) => Err(f),
                    }
                } else {
                    Err(ParseError::Syntax)
                }
            },
            Err(f) => Err(f),
        }
    }
}

/// The widget that the tokens hold, and nothing more.
pub open spec fn whole_widget(ts: Seq<TokenTree>) -> Result<WidgetView, ParseError> {
    match widget_at(ts, 0) {
        Ok((w, e)) => if e == ts.len() { Ok(w) } else { Err(ParseError::Syntax) },
        Err(f) => Err(f),
    }
}

/// The input of a macro: `{ widget }`; or a renderer, `=>` and `{ widget }`,
/// where the renderer is `(area, buffer)` or an expression for a frame.
pub open spec fn macro_input(ts: Seq<TokenTree>) -> Result<(InputView, WidgetView), ParseError> {
    if ts.len() > 0 && is_group(ts[0], Delimiter::Brace) {
        match whole_widget(group_tokens(ts[0])) {
            Ok(w) => if ts.len() == 1 { Ok((InputView::Raw, w)) } else { Err(ParseError::Syntax) },
            Err(f) => Err(f),
        }
    } else if ts.len() > 0 && is_group(ts[0], Delimiter::Parenthesis) {
        let c = group_tokens(ts[0]);
        let e = expr_end(c, 0);
        if expr_start(c, 0) && e < c.len() && is_punct(c[e as int], ',') && expr_start(c, e + 1)
            && expr_end(c, e + 1) == c.len() && ts.len() == 4 && arrow_at(ts, 1) && is_group(
            ts[3],
            Delimiter::Brace,
        ) {
            match whole_widget(group_tokens(ts[3])) {
                Ok(w) => Ok((InputView::Area(range_text(c, 0, e), range_text(c, e + 1, c.len())), w)),
                Err(f) => Err(f),
            }
        } else {
            Err(ParseError::Syntax)
        }
    } else {
        let e = expr_end(ts, 0);
        if expr_start(ts, 0) && arrow_at(ts, e as int) && e + 3 == ts.len() && is_group(
            ts[e + 2 as int],
            Delimiter::Brace,
        ) {
            match whole_widget(group_tokens(ts[e + 2 as int])) {
                Ok(w) => Ok((InputView::Frame(range_text(ts, 0, e)), w)),
                Err(f) => Err(f),
            }
        } else {
            Err(ParseError::Syntax)
        }
    }
}

/// `r` is what the spec result `s` describes.
pub open spec fn widget_result(
    r: Result<(Widget, usize), ParseError>,
    s: Result<(WidgetView, nat), ParseError>,
) -> bool {
    match (r, s) {
        (Ok((w, e)), Ok((v, f))) => widget_view(w) == v && e as nat == f,
        (Err(a), Err(b)) => a == b,
        _ => false,
    }
}

pub open spec fn children_result(r: Result<Vec<Widget>, ParseError>, s: Result<Seq<WidgetView>, ParseError>) -> bool {
    match (r, s) {
        (Ok(v), Ok(sv)) => children_view(v@, v@.len()) == sv,
        (Err(a), Err(b)) => a == b,
        _ => false,
    }
}

pub open spec fn arg_result(r: Option<(Arg, usize)>, s: Option<(ArgView, nat)>) -> bool {
    match (r, s) {
        (Some((a, e)), Some((v, f))) => arg_view(a) == v && e as nat == f,
        (Option::None, Option::None) => true,
        _ => false,
    }
}

pub open spec fn args_result(r: Option<Vec<Arg>>, s: Option<Seq<ArgView>>) -> bool {
    match (r, s) {
        (Some(v), Some(sv)) => args_view(v@) == sv,
        (Option::None, Option::None) => true,
        _ => false,
    }
}

fn is_punct_at(ts: &Vec<TokenTree>, i: usize, c: char) -> (r: bool)
    requires
        i < ts.len(),
    ensures
        r == is_punct(ts@[i as int], c),
{
    match &ts[i] {
        TokenTree::Punct(p, _) => *p == c,
        _ => false,
    }
}

fn joined_punct_at(ts: &Vec<TokenTree>, i: usize, c: char) -> (r: bool)
    requires
        i < ts.len(),
    ensures
        r == joined_punct(ts@[i as int], c),
{
    match &ts[i] {
        TokenTree::Punct(p, joint) => *joint && *p == c,
        _ => false,
    }
}

fn ends_expr_at(ts: &Vec<TokenTree>, i: usize) -> (r: bool)
    requires
        i < ts.len(),
    ensures
        r == ends_expr(ts@, i as int),
{
    is_punct_at(ts, i, ',') || (ts.len() - i > 1 && joined_punct_at(ts, i, '=') && is_punct_at(ts, i + 1, '>'))
}

fn expr_end_of(ts: &Vec<TokenTree>, i: usize) -> (e: usize)
    requires
        i <= ts.len(),
    ensures
        e as nat == expr_end(ts@, i as nat),
        i <= e <= ts.len(),
{
    let mut k = i;
    while k < ts.len() && !ends_expr_at(ts, k)
        invariant
            i <= k <= ts.len(),
            expr_end(ts@, i as nat) == expr_end(ts@, k as nat),
        decreases ts.len() - k,
    {
        k = k + 1;
    }
    k
}

fn expr_start_at(ts: &Vec<TokenTree>, i: usize) -> (r: bool)
    ensures
        r == expr_start(ts@, i as nat),
{
    if i >= ts.len() {
        return false;
    }
    match &ts[i] {
        TokenTree::Punct(c, joint) => {
            let c = *c;
            c == '-' || c == '!' || c == '*' || c == '&' || c == '|' || c == '<' || c == '#' || c == '.'
                || (c == ':' && *joint && ts.len() - i > 1 && is_punct_at(ts, i + 1, ':'))
        },
        _ => true,
    }
}

fn whole_expr_of(ts: &Vec<TokenTree>) -> (r: bool)
    ensures
        r == whole_expr(ts@),
{
    expr_start_at(ts, 0) && expr_end_of(ts, 0) == ts.len()
}

/// The argument that starts at `k`, and where it ends.
fn arg_at_of(c: &Vec<TokenTree>, k: usize) -> (r: Option<(Arg, usize)>)
    requires
        k <= c.len(),
    ensures
        arg_result(r, arg_at(c@, k as nat)),
{
    if k < c.len() {
        match &c[k] {
            TokenTree::Ident(n) => {
                if c.len() - k == 1 || is_punct_at(c, k + 1, ',') {
                    let name = string_of(n.as_str());
                    let value = string_of(n.as_str());
                    return Some((Arg { value, kind: ArgKind::Named(name) }, k + 1));
                }
                let path = c.len() - k > 2 && joined_punct_at(c, k + 1, ':') && is_punct_at(c, k + 2, ':');
                if is_punct_at(c, k + 1, ':') && !path {
                    let s = k + 2;
                    if expr_start_at(c, s) {
                        let e = expr_end_of(c, s);
                        let value = range_text_of(c, s, e);
                        return Some((Arg { value, kind: ArgKind::Named(string_of(n.as_str())) }, e));
                    } else {
                        return Option::None;
                    }
                }
            },
            _ => {},
        }
    }
    if expr_start_at(c, k) {
        let e = expr_end_of(c, k);
        let value = range_text_of(c, k, e);
        Some((Arg { value, kind: ArgKind::Positional }, e))
    } else {
        Option::None
    }
}

/// The arguments from `k` on.
fn args_at_of(c: &Vec<TokenTree>, k: usize) -> (r: Option<Vec<Arg>>)
    requires
        k <= c.len(),
    ensures
        args_result(r, args_at(c@, k as nat)),
    decreases c.len() - k,
{
    if k >= c.len() {
        let v: Vec<Arg> = Vec::new();
        assert(args_view(v@) =~= Seq::empty());
        return Some(v);
    }
    match arg_at_of(c, k) {
        Some((a, e)) => {
            if e >= c.len() {
                let mut v: Vec<Arg> = Vec::new();
                v.push(a);
                assert(args_view(v@) =~= seq![arg_view(a)]);
                Some(v)
            } else if k < e && is_punct_at(c, e, ',') {
                match args_at_of(c, e + 1) {
                    Some(mut rest) => {
                        let ghost rv = rest@;
                        let mut v: Vec<Arg> = Vec::new();
                        v.push(a);
                        v.append(&mut rest);
                        assert(args_view(v@) =~= seq![arg_view(a)] + args_view(rv));
                        Some(v)
                    },
                    Option::None => Option::None,
                }
            } else {
                Option::None
            }
        },
        Option::None => Option::None,
    }
}

/// A widget of the given kind with no arguments.
fn bare_widget(kind: WidgetKind) -> (w: Widget)
    ensures
        w.kind == kind,
        w.args@.len() == 0,
        !w.render_ref,
{
    Widget { kind, args: Vec::new(), render_ref: false }
}

/// The widget that starts at `i`, and where it ends.
fn widget_at_of(ts: &Vec<TokenTree>, i: usize) -> (r: Result<(Widget, usize), ParseError>)
    requires
        i <= ts.len(),
    ensures
        widget_result(r, widget_at(ts@, i as nat)),
    decreases ts@, 2nat,
{
    if i < ts.len() {
        match &ts[i] {
            TokenTree::Group(Delimiter::Brace, inner) => {
                if inner.len() == 0 {
                    return named_at_of(ts, i + 1);
                }
                if inner.len() == 1 {
                    match &inner[0] {
                        TokenTree::Group(Delimiter::Brace, e) => {
                            if whole_expr_of(e) {
                                let expr = range_text_of(e, 0, e.len());
                                let w = bare_widget(WidgetKind::Variable { expr });
                                assert(args_view(w.args@) =~= Seq::empty());
                                return Ok((w, i + 1));
                            }
                        },
                        _ => {},
                    }
                }
                return Err(ParseError::Syntax);
            },
            _ => {},
        }
    }
    named_at_of(ts, i)
}

/// The widget named by the identifier at `j`, and where it ends.
fn named_at_of(ts: &Vec<TokenTree>, j: usize) -> (r: Result<(Widget, usize), ParseError>)
    requires
        j <= ts.len(),
    ensures
        widget_result(r, named_at(ts@, j as nat)),
    decreases ts@, 1nat,
{
    if j >= ts.len() {
        return Err(ParseError::Syntax);
    }
    let name = match &ts[j] {
        TokenTree::Ident(s) => string_of(s.as_str()),
        _ => return Err(ParseError::Syntax),
    };
    if name == string_of("If") {
        conditional_at_of(ts, j)
    } else {
        plain_at_of(ts, j, name)
    }
}

/// `If (condition) { widget }` at `j`, with an optional `Else { widget }`.
fn conditional_at_of(ts: &Vec<TokenTree>, j: usize) -> (r: Result<(Widget, usize), ParseError>)
    requires
        j < ts.len(),
        ts@[j as int] is Ident,
        ident_text(ts@[j as int]) == "If"@,
    ensures
        widget_result(r, named_at(ts@, j as nat)),
    decreases ts@, 0nat,
{
    if ts.len() - j <= 2 {
        return Err(ParseError::Syntax);
    }
    let cond = match &ts[j + 1] {
        TokenTree::Group(Delimiter::Parenthesis, cond) => cond,
        _ => return Err(ParseError::Syntax),
    };
    let body = match &ts[j + 2] {
        TokenTree::Group(Delimiter::Brace, body) => body,
        _ => return Err(ParseError::Syntax),
    };
    if !whole_expr_of(cond) {
        return Err(ParseError::Syntax);
    }
    let (child, e) = match widget_at_of(body, 0) {
        Ok(x) => x,
        Err(f) => return Err(f),
    };
    if e != body.len() {
        return Err(ParseError::Syntax);
    }
    let condition = range_text_of(cond, 0, cond.len());
    let k = j + 3;
    if k < ts.len() {
        match &ts[k] {
            TokenTree::Ident(s) => {
                if !(string_of(s.as_str()) == string_of("Else")) {
                    return Err(ParseError::ExpectedElse);
                }
                if ts.len() - k > 1 {
                    match &ts[k + 1] {
                        TokenTree::Group(Delimiter::Brace, other) => match widget_at_of(other, 0) {
                            Ok((alt, e2)) => {
                                if e2 == other.len() {
                                    let w = bare_widget(
                                        WidgetKind::Conditional {
                                            condition,
                                            if_child: Box::new(child),
                                            else_child: Some(Box::new(alt)),
                                        },
                                    );
                                    assert(args_view(w.args@) =~= Seq::empty());
                                    return Ok((w, k + 2));
                                }
                            },
                            Err(f) => return Err(f),
                        },
                        _ => {},
                    }
                }
                return Err(ParseError::Syntax);
            },
            _ => {},
        }
    }
    let w = bare_widget(
        WidgetKind::Conditional { condition, if_child: Box::new(child), else_child: Option::None },
    );
    assert(args_view(w.args@) =~= Seq::empty());
    Ok((w, k))
}

/// `Name`, `Name::constructor`, arguments and, for `Layout`, children, at `j`.
fn plain_at_of(ts: &Vec<TokenTree>, j: usize, name: String) -> (r: Result<(Widget, usize), ParseError>)
    requires
        j < ts.len(),
        ts@[j as int] is Ident,
        name@ == ident_text(ts@[j as int]),
        name@ != "If"@,
    ensures
        widget_result(r, named_at(ts@, j as nat)),
    decreases ts@, 0nat,
{
    let path = ts.len() - j > 2 && joined_punct_at(ts, j + 1, ':') && is_punct_at(ts, j + 2, ':');
    let (constructor, p) = if path {
        if ts.len() - j > 3 {
            match &ts[j + 3] {
                TokenTree::Ident(s) => (string_of(s.as_str()), j + 4),
                _ => return Err(ParseError::Syntax),
            }
        } else {
            return Err(ParseError::Syntax);
        }
    } else {
        (string_of("default"), j + 1)
    };
    let mut args: Vec<Arg> = Vec::new();
    let mut q = p;
    if p < ts.len() {
        match &ts[p] {
            TokenTree::Group(Delimiter::Parenthesis, c) => {
                assert(group_tokens(ts@[p as int]) == c@);
                match args_at_of(c, 0) {
                    Some(a) => {
                        args = a;
                        q = p + 1;
                    },
                    Option::None => return Err(ParseError::Syntax),
                }
            },
            _ => {},
        }
    }
    proof {
        if p >= ts.len() || !is_group(ts@[p as int], Delimiter::Parenthesis) {
            assert(args_view(args@) =~= Seq::empty());
        }
    }
    if name == string_of("Layout") {
        let mut children: Vec<Widget> = Vec::new();
        let mut end = q;
        if q < ts.len() {
            match &ts[q] {
                TokenTree::Group(Delimiter::Brace, c) => match children_at_of(c, 0) {
                    Ok(ch) => {
                        children = ch;
                        end = q + 1;
                    },
                    Err(f) => return Err(f),
                },
                _ => {},
            }
        }
        let w = Widget { kind: WidgetKind::Layout { name, children }, args, render_ref: false };
        assert(widget_view(w).kind == KindView::Layout { name: w.kind->Layout_name@, children: children_view(w.kind->children@, w.kind->children@.len()) });
        assert(named_at(ts@, j as nat) == Ok::<(WidgetView, nat), ParseError>((widget_view(w), end as nat)));
        Ok((w, end))
    } else {
        let w = Widget { kind: WidgetKind::Constructor { name, constructor }, args, render_ref: false };
        assert(widget_view(w).kind == KindView::Constructor { name: w.kind->Constructor_name@, constructor: w.kind->constructor@ });
        assert(named_at(ts@, j as nat) == Ok::<(WidgetView, nat), ParseError>((widget_view(w), q as nat)));
        Ok((w, q))
    }
}

/// The widgets from `k` on, separated by commas.
fn children_at_of(c: &Vec<TokenTree>, k: usize) -> (r: Result<Vec<Widget>, ParseError>)
    requires
        k <= c.len(),
    ensures
        children_result(r, children_at(c@, k as nat)),
    decreases c@, c.len() + 3 - k,
{
    if k >= c.len() {
        return Ok(Vec::new());
    }
    match widget_at_of(c, k) {
        Ok((w, e)) => {
            if e == c.len() {
                let mut v: Vec<Widget> = Vec::new();
                v.push(w);
                proof {
                    lemma_children_view(v@, 1);
                    assert(children_view(v@, 1) =~= seq![widget_view(w)]);
                }
                Ok(v)
            } else if k < e && e < c.len() && is_punct_at(c, e, ',') {
                match children_at_of(c, e + 1) {
                    Ok(mut rest) => {
                        let ghost rv = rest@;
                        let mut v: Vec<Widget> = Vec::new();
                        v.push(w);
                        v.append(&mut rest);
                        proof {
                            lemma_children_view(v@, v@.len());
                            lemma_children_view(rv, rv.len());
                            assert(children_view(v@, v@.len()) =~= seq![widget_view(w)] + children_view(
                                rv,
                                rv.len(),
                            ));
                        }
                        Ok(v)
                    },
                    Err(f) => Err(f),
                }
            } else {
                Err(ParseError::Syntax)
            }
        },
        Err(f) => Err(f),
    }
}

/// A widget read from the tokens takes at least one token, and ends within
/// them.
pub proof fn parsed_widget_ends_within(ts: Seq<TokenTree>, i: nat)
    ensures
        widget_at(ts, i) matches Ok((_, e)) ==> i < e <= ts.len(),
        named_at(ts, i) matches Ok((_, e)) ==> i < e <= ts.len(),
{
    if i < ts.len() && is_group(ts[i as int], Delimiter::Brace) && group_tokens(ts[i as int]).len() == 0 {
        assert(named_at(ts, i + 1) matches Ok((_, e)) ==> i + 1 < e <= ts.len());
    }
}

/// `Else` is optional: `If (condition) { widget }` with nothing after it, or
/// with a token other than a word after it, reads as a conditional widget
/// whose condition is the text in parentheses, whose widget is the one in
/// braces, and which has no other widget; it takes exactly those three tokens.
pub proof fn if_without_else_is_conditional(
    ts: Seq<TokenTree>,
    cond: Vec<TokenTree>,
    body: Vec<TokenTree>,
    child: WidgetView,
)
    requires
        ts.len() >= 3,
        ts[0] is Ident,
        ident_text(ts[0]) == "If"@,
        ts[1] == TokenTree::Group(Delimiter::Parenthesis, cond),
        ts[2] == TokenTree::Group(Delimiter::Brace, body),
        whole_expr(cond@),
        whole_widget(body@) == Ok::<WidgetView, ParseError>(child),
        ts.len() == 3 || !(ts[3] is Ident),
    ensures
        ({
            let w = WidgetView {
                kind: KindView::Conditional {
                    condition: range_text(cond@, 0, cond@.len()),
                    if_child: Box::new(child),
                    else_child: Option::None,
                },
                args: Seq::empty(),
                render_ref: false,
            };
            &&& widget_at(ts, 0) == Ok::<(WidgetView, nat), ParseError>((w, 3nat))
            &&& ts.len() == 3 ==> whole_widget(ts) == Ok::<WidgetView, ParseError>(w)
        }),
{
    assert(!is_group(ts[0], Delimiter::Brace));
    parsed_widget_ends_within(body@, 0);
}

/// `If (condition) { widget } Else { other }` reads as a conditional widget
/// with both widgets, taking those five tokens; a word other than `Else`
/// after the first widget is refused as such.
pub proof fn if_else_is_conditional(
    ts: Seq<TokenTree>,
    cond: Vec<TokenTree>,
    body: Vec<TokenTree>,
    child: WidgetView,
)
    requires
        ts.len() >= 4,
        ts[0] is Ident,
        ident_text(ts[0]) == "If"@,
        ts[1] == TokenTree::Group(Delimiter::Parenthesis, cond),
        ts[2] == TokenTree::Group(Delimiter::Brace, body),
        whole_expr(cond@),
        whole_widget(body@) == Ok::<WidgetView, ParseError>(child),
        ts[3] is Ident,
    ensures
        ident_text(ts[3]) != "Else"@ ==> widget_at(ts, 0) == Err::<(WidgetView, nat), ParseError>(ParseError::ExpectedElse),
        ident_text(ts[3]) == "Else"@ && ts.len() >= 5 ==> match ts[4] {
            TokenTree::Group(Delimiter::Brace, other) => match whole_widget(other@) {
                Ok(alt) => widget_at(ts, 0) == Ok::<(WidgetView, nat), ParseError>((
                    WidgetView {
                        kind: KindView::Conditional {
                            condition: range_text(cond@, 0, cond@.len()),
                            if_child: Box::new(child),
                            else_child: Some(Box::new(alt)),
                        },
                        args: Seq::empty(),
                        render_ref: false,
                    },
                    5nat,
                )),
                Err(_) => widget_at(ts, 0) is Err,
            },
            _ => widget_at(ts, 0) is Err,
        },
{
    assert(!is_group(ts[0], Delimiter::Brace));
    parsed_widget_ends_within(body@, 0);
    if ts.len() >= 5 {
        match ts[4] {
            TokenTree::Group(Delimiter::Brace, other) => {
                parsed_widget_ends_within(other@, 0);
            },
            _ => {},
        }
    }
}

fn arrow_at_of(ts: &Vec<TokenTree>, i: usize) -> (r: bool)
    ensures
        r == arrow_at(ts@, i as int),
{
    i < ts.len() && ts.len() - i > 1 && joined_punct_at(ts, i, '=') && is_punct_at(ts, i + 1, '>')
}

impl Widget {
    /// Reads a widget from tokens that hold it and nothing more; fails on
    /// tokens outside the grammar, telling a word in place of `Else` apart.
    pub fn parse(tokens: &Vec<TokenTree>) -> (r: Result<Widget, ParseError>)
        ensures
            match whole_widget(tokens@) {
                Ok(v) => r is Ok && widget_view(r->Ok_0) == v,
                Err(f) => r == Err::<Widget, ParseError>(f),
            },
    {
        match widget_at_of(tokens, 0) {
            Ok((w, e)) => if e == tokens.len() {
                Ok(w)
            } else {
                Err(ParseError::Syntax)
            },
            Err(f) => Err(f),
        }
    }
}

impl MacroInput {
    /// Reads the input of a macro call: its renderer, if any, and its widget;
    /// fails on tokens outside the grammar.
    pub fn parse(tokens: &Vec<TokenTree>) -> (r: Result<(MacroInput, Widget), ParseError>)
        ensures
            match macro_input(tokens@) {
                Ok((i, v)) => r is Ok && input_view(r->Ok_0.0) == i && widget_view(r->Ok_0.1) == v,
                Err(f) => r == Err::<(MacroInput, Widget), ParseError>(f),
            },
    {
        if tokens.len() == 0 {
            return Err(ParseError::Syntax);
        }
        match &tokens[0] {
            TokenTree::Group(Delimiter::Brace, b) => {
                assert(group_tokens(tokens@[0]) == b@);
                match Widget::parse(b) {
                    Ok(w) => if tokens.len() == 1 {
                        Ok((MacroInput::Raw, w))
                    } else {
                        Err(ParseError::Syntax)
                    },
                    Err(f) => Err(f),
                }
            },
            TokenTree::Group(Delimiter::Parenthesis, c) => {
                assert(group_tokens(tokens@[0]) == c@);
                let e = expr_end_of(c, 0);
                if expr_start_at(c, 0) && e < c.len() && is_punct_at(c, e, ',') && expr_start_at(c, e + 1)
                    && expr_end_of(c, e + 1) == c.len() && tokens.len() == 4 && arrow_at_of(tokens, 1) {
                    match &tokens[3] {
                        TokenTree::Group(Delimiter::Brace, b) => {
                            assert(group_tokens(tokens@[3]) == b@);
                            match Widget::parse(b) {
                                Ok(w) => {
                                    let area = range_text_of(c, 0, e);
                                    let buffer = range_text_of(c, e + 1, c.len());
                                    Ok((MacroInput::Ui { renderer: Renderer::Area { area, buffer } }, w))
                                },
                                Err(f) => Err(f),
                            }
                        },
                        _ => Err(ParseError::Syntax),
                    }
                } else {
                    Err(ParseError::Syntax)
                }
            },
            _ => {
                let e = expr_end_of(tokens, 0);
                if expr_start_at(tokens, 0) && tokens.len() - e == 3 && arrow_at_of(tokens, e) {
                    match &tokens[e + 2] {
                        TokenTree::Group(Delimiter::Brace, b) => {
                            assert(group_tokens(tokens@[e + 2]) == b@);
                            match Widget::parse(b) {
                                Ok(w) => {
                                    let frame = range_text_of(tokens, 0, e);
                                    Ok((MacroInput::Ui { renderer: Renderer::Frame { frame } }, w))
                                },
                                Err(f) => Err(f),
                            }
                        },
                        _ => Err(ParseError::Syntax),
                    }
                } else {
                    Err(ParseError::Syntax)
                }
            },
        }
    }
}

/// Why a macro call expands to no code.
pub enum ExpandError {
    /// The input is outside the grammar, for the given reason.
    Syntax(ParseError),
    /// The macro refuses the input, for the given reason.
    Refused(&'static str),
}

/// What a macro gives for a parsed input and widget, with fresh ids taken
/// from `before` on up to `after`: its refusal, for the given reason, when
/// `refused` holds, else the generated code of the widget.
pub open spec fn expansion(
    m: MacroInput,
    w: Widget,
    refused: bool,
    reason: Seq<char>,
    before: u32,
    after: u32,
    r: Result<String, ExpandError>,
) -> bool {
    if refused {
        &&& r matches Err(ExpandError::Refused(e)) && e@ == reason
        &&& after == before
    } else {
        let o = gen(w, true, 0, 0, m, before);
        &&& after == o.next
        &&& r is Ok
        &&& r->Ok_0@ == o.code
    }
}

/// Whether the `widget` macro refuses an input it read: one with rendering
/// options, or one with a stateful widget whose child is rendered by
/// reference.
pub open spec fn widget_refused(m: MacroInput, w: Widget) -> bool {
    m is Ui || !raw_supported(w)
}

/// Why the `widget` macro refuses an input it read: rendering options, or a
/// stateful widget whose child is rendered by reference.
pub open spec fn widget_refusal(m: MacroInput, w: Widget) -> Seq<char> {
    if m is Ui {
        "Cannot pass rendering options directly to the widget!() macro"@
    } else {
        stateful_ref_refusal()
    }
}

/// The `ui` macro on its tokens: reads the input, then renders its widget with
/// its renderer; refuses an input without a renderer.
pub fn expand_ui(tokens: &Vec<TokenTree>, ids: &mut IdCounter) -> (r: Result<String, ExpandError>)
    ensures
        macro_input(tokens@) matches Err(f) ==> (r matches Err(ExpandError::Syntax(g)) && g == f) && final(ids)@ == old(ids)@,
        macro_input(tokens@) is Ok ==> exists|m: MacroInput, w: Widget|
            (input_view(m), widget_view(w)) == macro_input(tokens@)->Ok_0 && #[trigger] expansion(
                m,
                w,
                m is Raw,
                "Cannot pass a widget directly to the ui!() macro"@,
                old(ids)@,
                final(ids)@,
                r,
            ),
{
    match MacroInput::parse(tokens) {
        Ok((m, w)) => {
            let r = match m {
                MacroInput::Raw => Err(ExpandError::Refused("Cannot pass a widget directly to the ui!() macro")),
                MacroInput::Ui { .. } => Ok(ui(&m, &w, ids)),
            };
            assert(expansion(m, w, m is Raw, "Cannot pass a widget directly to the ui!() macro"@, old(ids)@, final(ids)@, r));
            r
        },
        Err(f) => Err(ExpandError::Syntax(f)),
    }
}

/// The `widget` macro on its tokens: reads the input, then builds its widget;
/// refuses an input with a renderer, and a stateful widget whose child is
/// rendered by reference.
pub fn expand_widget(tokens: &Vec<TokenTree>, ids: &mut IdCounter) -> (r: Result<String, ExpandError>)
    ensures
        macro_input(tokens@) matches Err(f) ==> (r matches Err(ExpandError::Syntax(g)) && g == f) && final(ids)@ == old(ids)@,
        macro_input(tokens@) is Ok ==> exists|m: MacroInput, w: Widget|
            (input_view(m), widget_view(w)) == macro_input(tokens@)->Ok_0 && #[trigger] expansion(
                m,
                w,
                widget_refused(m, w),
                widget_refusal(m, w),
                old(ids)@,
                final(ids)@,
                r,
            ),
{
    match MacroInput::parse(tokens) {
        Ok((m, w)) => {
            let r = match m {
                MacroInput::Ui { .. } => Err(
                    ExpandError::Refused("Cannot pass rendering options directly to the widget!() macro"),
                ),
                MacroInput::Raw => if raw_supported_of(&w) {
                    Ok(widget(&m, &w, ids))
                } else {
                    Err(
                        ExpandError::Refused(
                            "The widget!() macro doesn't support rendering StatefulWidgetRef widgets yet.",
                        ),
                    )
                },
            };
            assert(expansion(m, w, widget_refused(m, w), widget_refusal(m, w), old(ids)@, final(ids)@, r));
            r
        },
        Err(f) => Err(ExpandError::Syntax(f)),
    }
}

} // verus!
