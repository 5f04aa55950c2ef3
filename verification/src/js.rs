//! Formatting of JavaScript source text: re-indentation of object literals and
//! the text forms of the values, imports, exports and calls that the
//! scripting helpers build.
use vstd::prelude::*;
use vstd::string::StringExecFns;
use vstd::utf8::encode_utf8;
use crate::text::{
    char_is_alphabetic, char_is_alphanumeric, char_is_whitespace, chars_of, is_white_space, join,
    join_strings, push_char, push_repeat, repeat_char, string_from_chars, string_of,
    unicode_alphabetic, unicode_alphanumeric,
};

verus! {

/// Where the re-indentation stands after a prefix of its input.
pub struct IndentState {
    /// The text written so far.
    pub out: Seq<char>,
    /// The current nesting depth.
    pub level: nat,
    /// Whether a quote has been opened and not yet closed.
    pub in_string: bool,
    /// Whether the last character read was an unpaired backslash.
    pub escaped: bool,
}

/// The first character of `rest` that is not white space.
pub open spec fn next_meaningful(rest: Seq<char>) -> Option<char>
    decreases rest.len(),
{
    if rest.len() == 0 {
        None
    } else if !is_white_space(rest[0]) {
        Some(rest[0])
    } else {
        next_meaningful(rest.drop_first())
    }
}

/// The last character of `s` that is not white space.
pub open spec fn last_meaningful(s: Seq<char>) -> Option<char>
    decreases s.len(),
{
    if s.len() == 0 {
        None
    } else if !is_white_space(s.last()) {
        Some(s.last())
    } else {
        last_meaningful(s.drop_last())
    }
}

/// A line break followed by the indentation of depth `level` (four spaces a level).
pub open spec fn new_line(level: nat) -> Seq<char> {
    seq!['\n'] + repeat_char(' ', 4 * level)
}

/// The effect of reading `c`, with `rest` the input that follows it.
pub open spec fn indent_step(st: IndentState, c: char, rest: Seq<char>) -> IndentState {
    if c == '"' || c == '\'' {
        IndentState {
            out: st.out.push(c),
            in_string: if !st.escaped { !st.in_string } else { st.in_string },
            ..st
        }
    } else if c == '\\' {
        IndentState { out: st.out.push(c), escaped: !st.escaped, ..st }
    } else if c == '{' || c == '[' {
        if st.in_string {
            IndentState { out: st.out.push(c), ..st }
        } else {
            let nm = next_meaningful(rest);
            let level = st.level + 1;
            let out = if nm != Some('}') && nm != Some(']') {
                st.out.push(c) + new_line(level)
            } else {
                st.out.push(c)
            };
            IndentState { out, level, ..st }
        }
    } else if c == '}' || c == ']' {
        if st.in_string {
            IndentState { out: st.out.push(c), ..st }
        } else {
            let level: nat = if st.level > 0 { (st.level - 1) as nat } else { 0 };
            let lm = last_meaningful(st.out);
            let out = if lm != Some('{') && lm != Some('[') {
                (st.out + new_line(level)).push(c)
            } else {
                st.out.push(c)
            };
            IndentState { out, level, ..st }
        }
    } else if c == ',' {
        IndentState {
            out: if st.in_string { st.out.push(c) } else { st.out.push(c) + new_line(st.level) },
            ..st
        }
    } else if c == ':' {
        IndentState {
            out: if st.in_string { st.out.push(c) } else { st.out.push(c).push(' ') },
            ..st
        }
    } else if is_white_space(c) && !st.in_string {
        let out = if st.out.len() > 0 && (st.out.last() == '\n' || st.out.last() == ' ') {
            st.out
        } else {
            st.out.push(' ')
        };
        IndentState { out, escaped: false, ..st }
    } else {
        IndentState { out: st.out.push(c), escaped: false, ..st }
    }
}

/// The state after the first `n` characters of `s`.
pub open spec fn indent_run(s: Seq<char>, n: nat) -> IndentState
    decreases n,
{
    if n == 0 || n > s.len() {
        IndentState { out: Seq::empty(), level: 0, in_string: false, escaped: false }
    } else {
        indent_step(indent_run(s, (n - 1) as nat), s[n - 1], s.skip(n as int))
    }
}

/// The re-indented text of `s`.
pub open spec fn spec_indent_js_object(s: Seq<char>) -> Seq<char> {
    indent_run(s, s.len()).out
}

/// The characters of `s` that are not white space.
pub open spec fn strip_white_space(s: Seq<char>) -> Seq<char>
    decreases s.len(),
{
    if s.len() == 0 {
        Seq::empty()
    } else if is_white_space(s.last()) {
        strip_white_space(s.drop_last())
    } else {
        strip_white_space(s.drop_last()).push(s.last())
    }
}

proof fn lemma_strip_append(a: Seq<char>, b: Seq<char>)
    ensures
        strip_white_space(a + b) == strip_white_space(a) + strip_white_space(b),
    decreases b.len(),
{
    if b.len() == 0 {
        assert(a + b =~= a);
        assert(strip_white_space(a) + strip_white_space(b) =~= strip_white_space(a));
    } else {
        lemma_strip_append(a, b.drop_last());
        assert((a + b).drop_last() =~= a + b.drop_last());
        assert((a + b).last() == b.last());
        if !is_white_space(b.last()) {
            assert(strip_white_space(a) + strip_white_space(b) =~= (strip_white_space(a)
                + strip_white_space(b.drop_last())).push(b.last()));
        }
    }
}

proof fn lemma_strip_spaces(n: nat)
    ensures
        strip_white_space(repeat_char(' ', n)) == Seq::<char>::empty(),
    decreases n,
{
    if n > 0 {
        assert(repeat_char(' ', n).drop_last() =~= repeat_char(' ', (n - 1) as nat));
        lemma_strip_spaces((n - 1) as nat);
    }
}

proof fn lemma_strip_new_line(level: nat)
    ensures
        strip_white_space(new_line(level)) == Seq::<char>::empty(),
{
    lemma_strip_spaces(4 * level);
    lemma_strip_append(seq!['\n'], repeat_char(' ', 4 * level));
    lemma_strip_one('\n');
    assert(Seq::<char>::empty() + Seq::<char>::empty() =~= Seq::<char>::empty());
}

proof fn lemma_strip_one(c: char)
    ensures
        strip_white_space(seq![c]) == (if is_white_space(c) {
            Seq::<char>::empty()
        } else {
            seq![c]
        }),
{
    assert(seq![c].drop_last() =~= Seq::<char>::empty());
    assert(seq![c].last() == c);
    assert(strip_white_space(Seq::<char>::empty()) == Seq::<char>::empty());
    assert(Seq::<char>::empty().push(c) =~= seq![c]);
}

proof fn lemma_strip_push(a: Seq<char>, c: char)
    ensures
        strip_white_space(a.push(c)) == strip_white_space(a) + strip_white_space(seq![c]),
{
    lemma_strip_append(a, seq![c]);
    assert(a + seq![c] =~= a.push(c));
}

proof fn lemma_step_keeps_text(st: IndentState, c: char, rest: Seq<char>)
    ensures
        strip_white_space(indent_step(st, c, rest).out) == strip_white_space(st.out)
            + strip_white_space(seq![c]),
{
    let o = st.out;
    lemma_strip_push(o, c);
    lemma_strip_one(c);
    if c == '{' || c == '[' {
        lemma_strip_append(o.push(c), new_line(st.level + 1));
        lemma_strip_new_line(st.level + 1);
    } else if c == '}' || c == ']' {
        let level: nat = if st.level > 0 { (st.level - 1) as nat } else { 0 };
        lemma_strip_append(o, new_line(level));
        lemma_strip_new_line(level);
        lemma_strip_push(o + new_line(level), c);
        assert(strip_white_space(o) + Seq::<char>::empty() =~= strip_white_space(o));
    } else if c == ',' {
        lemma_strip_append(o.push(c), new_line(st.level));
        lemma_strip_new_line(st.level);
    } else if c == ':' {
        lemma_strip_push(o.push(c), ' ');
        lemma_strip_one(' ');
    } else if is_white_space(c) && !st.in_string {
        lemma_strip_push(o, ' ');
        lemma_strip_one(' ');
    }
    let r = indent_step(st, c, rest).out;
    assert(strip_white_space(r) =~= strip_white_space(o) + strip_white_space(seq![c]));
}

/// Re-indentation changes white space only: the text without its white space
/// is that of the input without its white space.
pub proof fn indent_keeps_text(s: Seq<char>)
    ensures
        strip_white_space(spec_indent_js_object(s)) == strip_white_space(s),
{
    lemma_indent_keeps_prefix(s, s.len());
    assert(s.take(s.len() as int) =~= s);
}

/// One step of re-indentation only adds, after what was written, the
/// character read, spaces and line feeds.
proof fn lemma_step_adds(st: IndentState, c: char, rest: Seq<char>)
    ensures
        ({
            let out = indent_step(st, c, rest).out;
            &&& st.out.len() <= out.len()
            &&& forall|j: int| 0 <= j < st.out.len() ==> #[trigger] out[j] == st.out[j]
            &&& forall|j: int| st.out.len() <= j < out.len() ==> #[trigger] out[j] == c || out[j] == ' ' || out[j] == '\n'
        }),
{
    let out = indent_step(st, c, rest).out;
    assert forall|l: nat, j: int| 0 <= j < new_line(l).len() implies #[trigger] new_line(l)[j] == ' ' || new_line(l)[j] == '\n' by {
        if j > 0 {
            assert(new_line(l)[j] == repeat_char(' ', 4 * l)[j - 1]);
        }
    }
}

/// Re-indentation inserts nothing but spaces and line feeds: every character
/// of the result is a space, a line feed, or a character of the input.
pub proof fn indent_inserts_only_spaces_and_newlines(s: Seq<char>)
    ensures
        forall|j: int| 0 <= j < spec_indent_js_object(s).len() ==> {
            let x = #[trigger] spec_indent_js_object(s)[j];
            x == ' ' || x == '\n' || s.contains(x)
        },
{
    lemma_indent_adds(s, s.len());
}

proof fn lemma_indent_adds(s: Seq<char>, n: nat)
    requires
        n <= s.len(),
    ensures
        forall|j: int| 0 <= j < indent_run(s, n).out.len() ==> {
            let x = #[trigger] indent_run(s, n).out[j];
            x == ' ' || x == '\n' || s.contains(x)
        },
    decreases n,
{
    if n > 0 {
        lemma_indent_adds(s, (n - 1) as nat);
        let st = indent_run(s, (n - 1) as nat);
        lemma_step_adds(st, s[n - 1], s.skip(n as int));
        let out = indent_run(s, n).out;
        assert forall|j: int| 0 <= j < out.len() implies {
            let x = #[trigger] out[j];
            x == ' ' || x == '\n' || s.contains(x)
        } by {
            if j < st.out.len() {
                assert(out[j] == st.out[j]);
            } else if out[j] == s[n - 1] {
                assert(s.contains(s[n - 1]));
            }
        }
    }
}

/// `s` without its spaces and line feeds.
pub open spec fn drop_spaces(s: Seq<char>) -> Seq<char>
    decreases s.len(),
{
    if s.len() == 0 {
        Seq::empty()
    } else if s.last() == ' ' || s.last() == '\n' {
        drop_spaces(s.drop_last())
    } else {
        drop_spaces(s.drop_last()).push(s.last())
    }
}

/// Whether `a` is `b` with some characters left out: its characters are
/// characters of `b`, in the same order.
pub open spec fn is_subsequence(a: Seq<char>, b: Seq<char>) -> bool
    decreases b.len(),
{
    if a.len() == 0 {
        true
    } else if b.len() == 0 {
        false
    } else if a.last() == b.last() && is_subsequence(a.drop_last(), b.drop_last()) {
        true
    } else {
        is_subsequence(a, b.drop_last())
    }
}

proof fn lemma_drop_spaces_append(a: Seq<char>, b: Seq<char>)
    ensures
        drop_spaces(a + b) == drop_spaces(a) + drop_spaces(b),
    decreases b.len(),
{
    if b.len() == 0 {
        assert(a + b =~= a);
        assert(drop_spaces(a) + drop_spaces(b) =~= drop_spaces(a));
    } else {
        lemma_drop_spaces_append(a, b.drop_last());
        assert((a + b).drop_last() =~= a + b.drop_last());
        assert((a + b).last() == b.last());
        if !(b.last() == ' ' || b.last() == '\n') {
            assert(drop_spaces(a) + drop_spaces(b.drop_last()).push(b.last()) =~= (drop_spaces(a) + drop_spaces(
                b.drop_last(),
            )).push(b.last()));
        }
    }
}

proof fn lemma_drop_one(c: char)
    ensures
        drop_spaces(seq![c]) == (if c == ' ' || c == '\n' { Seq::<char>::empty() } else { seq![c] }),
{
    assert(seq![c].drop_last() =~= Seq::<char>::empty());
    assert(seq![c].last() == c);
    assert(drop_spaces(Seq::<char>::empty()) == Seq::<char>::empty());
    assert(Seq::<char>::empty().push(c) =~= seq![c]);
}

proof fn lemma_drop_spaces_blank(l: nat)
    ensures
        drop_spaces(new_line(l)) == Seq::<char>::empty(),
        drop_spaces(seq![' ']) == Seq::<char>::empty(),
{
    lemma_drop_spaces_repeat(4 * l);
    lemma_drop_spaces_append(seq!['\n'], repeat_char(' ', 4 * l));
    lemma_drop_one('\n');
    lemma_drop_one(' ');
    assert(Seq::<char>::empty() + Seq::<char>::empty() =~= Seq::<char>::empty());
}

proof fn lemma_drop_spaces_repeat(n: nat)
    ensures
        drop_spaces(repeat_char(' ', n)) == Seq::<char>::empty(),
    decreases n,
{
    if n > 0 {
        lemma_drop_spaces_repeat((n - 1) as nat);
        assert(repeat_char(' ', n).drop_last() =~= repeat_char(' ', (n - 1) as nat));
    }
}

/// What one step of re-indentation keeps of the character read, spaces and
/// line feeds aside: the character, unless it is white space outside a
/// string or a space or line feed.
pub open spec fn kept(st: IndentState, c: char) -> Seq<char> {
    if c == ' ' || c == '\n' || (is_white_space(c) && !st.in_string) {
        Seq::empty()
    } else {
        seq![c]
    }
}

proof fn lemma_step_keeps(st: IndentState, c: char, rest: Seq<char>)
    ensures
        drop_spaces(indent_step(st, c, rest).out) == drop_spaces(st.out) + kept(st, c),
{
    let o = st.out;
    let level: nat = if st.level > 0 { (st.level - 1) as nat } else { 0 };
    lemma_drop_spaces_blank(st.level);
    lemma_drop_spaces_blank(st.level + 1);
    lemma_drop_spaces_blank(level);
    lemma_drop_spaces_append(o, seq![c]);
    lemma_drop_one(c);
    assert(o.push(c) =~= o + seq![c]);
    lemma_drop_spaces_append(o.push(c), new_line(st.level));
    lemma_drop_spaces_append(o.push(c), new_line(st.level + 1));
    lemma_drop_spaces_append(o.push(c), seq![' ']);
    assert(o.push(c).push(' ') =~= o.push(c) + seq![' ']);
    lemma_drop_spaces_append(o, seq![' ']);
    assert(o.push(' ') =~= o + seq![' ']);
    lemma_drop_spaces_append(o, new_line(level));
    lemma_drop_spaces_append(o + new_line(level), seq![c]);
    assert((o + new_line(level)).push(c) =~= (o + new_line(level)) + seq![c]);
    assert(o + Seq::<char>::empty() =~= o);
    assert(drop_spaces(o) + Seq::<char>::empty() =~= drop_spaces(o));
}

proof fn lemma_subsequence_extend(a: Seq<char>, b: Seq<char>, x: char)
    requires
        is_subsequence(a, b),
    ensures
        is_subsequence(a, b.push(x)),
        is_subsequence(a.push(x), b.push(x)),
{
    assert(b.push(x).drop_last() =~= b);
    assert(a.push(x).drop_last() =~= a);
}

proof fn lemma_indent_subsequence(s: Seq<char>, n: nat)
    requires
        n <= s.len(),
    ensures
        is_subsequence(drop_spaces(indent_run(s, n).out), s.take(n as int)),
    decreases n,
{
    if n == 0 {
    } else {
        lemma_indent_subsequence(s, (n - 1) as nat);
        let st = indent_run(s, (n - 1) as nat);
        let c = s[n - 1];
        lemma_step_keeps(st, c, s.skip(n as int));
        assert(s.take(n as int) =~= s.take(n - 1).push(c));
        lemma_subsequence_extend(drop_spaces(st.out), s.take(n - 1), c);
        if kept(st, c) == seq![c] {
            assert(drop_spaces(st.out) + seq![c] =~= drop_spaces(st.out).push(c));
        } else {
            assert(drop_spaces(st.out) + Seq::<char>::empty() =~= drop_spaces(st.out));
        }
    }
}

/// Re-indentation only adds spaces and line feeds, and removes or replaces
/// white space: what is left of the result once its spaces and line feeds are
/// dropped is the input with some of its characters left out, in order (and
/// `indent_keeps_text` says that only white space is left out).
pub proof fn indent_only_adds_spaces_and_newlines(s: Seq<char>)
    ensures
        is_subsequence(drop_spaces(spec_indent_js_object(s)), s),
{
    lemma_indent_subsequence(s, s.len());
    assert(s.take(s.len() as int) =~= s);
}

/// Whether the reader is inside a quoted string, and whether the last
/// character was an unpaired backslash, after the first `n` characters of
/// `s`: a quote opens or closes a string unless a backslash escapes it; a
/// backslash escapes the next character; brackets, commas and colons leave the
/// escape pending, any other character clears it.
pub open spec fn quote_state(s: Seq<char>, n: nat) -> (bool, bool)
    decreases n,
{
    if n == 0 || n > s.len() {
        (false, false)
    } else {
        let (inside, esc) = quote_state(s, (n - 1) as nat);
        let c = s[n - 1];
        if c == '"' || c == '\'' {
            (if esc { inside } else { !inside }, esc)
        } else if c == '\\' {
            (inside, !esc)
        } else if c == '{' || c == '[' || c == '}' || c == ']' || c == ',' || c == ':' {
            (inside, esc)
        } else {
            (inside, false)
        }
    }
}

proof fn lemma_run_quote_state(s: Seq<char>, n: nat)
    requires
        n <= s.len(),
    ensures
        indent_run(s, n).in_string == quote_state(s, n).0,
        indent_run(s, n).escaped == quote_state(s, n).1,
    decreases n,
{
    if n > 0 {
        lemma_run_quote_state(s, (n - 1) as nat);
    }
}

proof fn lemma_run_prefix(s: Seq<char>, m: nat, n: nat)
    requires
        m <= n <= s.len(),
    ensures
        indent_run(s, m).out.len() <= indent_run(s, n).out.len(),
        indent_run(s, n).out.subrange(0, indent_run(s, m).out.len() as int) == indent_run(s, m).out,
    decreases n,
{
    if m < n {
        lemma_run_prefix(s, m, (n - 1) as nat);
        let st = indent_run(s, (n - 1) as nat);
        lemma_step_adds(st, s[n - 1], s.skip(n as int));
        let a = indent_run(s, m).out;
        let b = indent_run(s, n).out;
        assert(b.subrange(0, a.len() as int) =~= a) by {
            assert forall|j: int| 0 <= j < a.len() implies b.subrange(0, a.len() as int)[j] == a[j] by {
                assert(b[j] == st.out[j]);
                assert(st.out.subrange(0, a.len() as int)[j] == st.out[j]);
            }
        }
    } else {
        assert(indent_run(s, n).out.subrange(0, indent_run(s, n).out.len() as int) =~= indent_run(s, n).out);
    }
}

proof fn lemma_copy_run(s: Seq<char>, i: nat, j: nat)
    requires
        i <= j <= s.len(),
        forall|k: nat| i <= k < j ==> (#[trigger] quote_state(s, k)).0,
    ensures
        indent_run(s, j).out == indent_run(s, i).out + s.subrange(i as int, j as int),
    decreases j,
{
    if i == j {
        assert(indent_run(s, i).out + s.subrange(i as int, i as int) =~= indent_run(s, i).out);
    } else {
        lemma_copy_run(s, i, (j - 1) as nat);
        let k = (j - 1) as nat;
        assert(quote_state(s, k).0);
        lemma_run_quote_state(s, k);
        assert(indent_run(s, j).out == indent_run(s, k).out.push(s[k as int]));
        assert(s.subrange(i as int, j as int) =~= s.subrange(i as int, k as int).push(s[k as int]));
        assert(indent_run(s, i).out + s.subrange(i as int, j as int) =~= (indent_run(s, i).out + s.subrange(
            i as int,
            k as int,
        )).push(s[k as int]));
    }
}

/// Re-indentation copies quoted text as it is: when every character from `i`
/// up to `j` is read inside a quoted string (the closing quote included), the
/// output goes on, right after what was written for the first `i` characters,
/// with exactly those characters, white space and all.
pub proof fn indent_copies_quoted_text(s: Seq<char>, i: nat, j: nat)
    requires
        i <= j <= s.len(),
        forall|k: nat| i <= k < j ==> (#[trigger] quote_state(s, k)).0,
    ensures
        ({
            let out = spec_indent_js_object(s);
            let a = indent_run(s, i).out.len();
            &&& a + (j - i) <= out.len()
            &&& out.subrange(a as int, a + (j - i)) == s.subrange(i as int, j as int)
        }),
{
    lemma_copy_run(s, i, j);
    lemma_run_prefix(s, j, s.len());
    let out = spec_indent_js_object(s);
    let a = indent_run(s, i).out.len();
    let pj = indent_run(s, j).out;
    assert(out.subrange(a as int, a + (j - i)) =~= pj.subrange(a as int, a + (j - i)));
    assert(pj.subrange(a as int, a + (j - i)) =~= s.subrange(i as int, j as int));
}

proof fn lemma_indent_keeps_prefix(s: Seq<char>, n: nat)
    requires
        n <= s.len(),
    ensures
        strip_white_space(indent_run(s, n).out) == strip_white_space(s.take(n as int)),
    decreases n,
{
    if n == 0 {
        assert(s.take(0) =~= Seq::<char>::empty());
    } else {
        lemma_indent_keeps_prefix(s, (n - 1) as nat);
        lemma_step_keeps_text(indent_run(s, (n - 1) as nat), s[n - 1], s.skip(n as int));
        lemma_strip_push(s.take(n - 1), s[n - 1]);
        assert(s.take(n - 1).push(s[n - 1]) =~= s.take(n as int));
    }
}

/// Appends a line break and the indentation of depth `level`.
fn push_new_line(out: &mut Vec<char>, level: usize)
    ensures
        final(out)@ == old(out)@ + new_line(level as nat),
{
    let ghost start = out@;
    out.push('\n');
    let mut k: usize = 0;
    while k < level
        invariant
            k <= level,
            out@ == start.push('\n') + repeat_char(' ', 4 * k as nat),
        decreases level - k,
    {
        out.push(' ');
        out.push(' ');
        out.push(' ');
        out.push(' ');
        k = k + 1;
        assert(out@ =~= start.push('\n') + repeat_char(' ', 4 * k as nat));
    }
    assert(start.push('\n') + repeat_char(' ', 4 * level as nat) =~= start + new_line(level as nat));
}

/// The first character of `chars` from index `from` on that is not white space.
fn find_next_meaningful(chars: &Vec<char>, from: usize) -> (r: Option<char>)
    requires
        from <= chars.len(),
    ensures
        r == next_meaningful(chars@.skip(from as int)),
{
    let mut j = from;
    while j < chars.len()
        invariant
            from <= j <= chars.len(),
            next_meaningful(chars@.skip(from as int)) == next_meaningful(chars@.skip(j as int)),
        decreases chars.len() - j,
    {
        assert(chars@.skip(j as int)[0] == chars@[j as int]);
        if !char_is_whitespace(chars[j]) {
            return Some(chars[j]);
        }
        assert(chars@.skip(j as int).drop_first() =~= chars@.skip(j + 1));
        j = j + 1;
    }
    assert(chars@.skip(j as int) =~= Seq::<char>::empty());
    None
}

/// The last character of `out` that is not white space.
fn find_last_meaningful(out: &Vec<char>) -> (r: Option<char>)
    ensures
        r == last_meaningful(out@),
{
    let mut j = out.len();
    assert(out@.take(j as int) =~= out@);
    while j > 0
        invariant
            j <= out.len(),
            last_meaningful(out@) == last_meaningful(out@.take(j as int)),
        decreases j,
    {
        assert(out@.take(j as int).last() == out@[j - 1]);
        if !char_is_whitespace(out[j - 1]) {
            return Some(out[j - 1]);
        }
        assert(out@.take(j as int).drop_last() =~= out@.take(j - 1));
        j = j - 1;
    }
    assert(out@.take(0) =~= Seq::<char>::empty());
    None
}

/// Re-indents a JavaScript object or array literal: a line break and four
/// spaces a level after each opening bracket and comma, a space after each
/// colon, and white space outside of quotes collapsed.
pub fn indent_js_object(input: &str) -> (r: String)
    ensures
        r@ == spec_indent_js_object(input@),
{
    let chars = chars_of(input);
    let mut out: Vec<char> = Vec::new();
    let mut level: usize = 0;
    let mut in_string = false;
    let mut escaped = false;
    let mut i: usize = 0;
    while i < chars.len()
        invariant
            i <= chars.len(),
            chars@ == input@,
            level <= i,
            indent_run(chars@, i as nat) == (IndentState {
                out: out@,
                level: level as nat,
                in_string,
                escaped,
            }),
        decreases chars.len() - i,
    {
        let c = chars[i];
        let ghost st = indent_run(chars@, i as nat);
        if c == '"' || c == '\'' {
            if !escaped {
                in_string = !in_string;
            }
            out.push(c);
        } else if c == '\\' {
            out.push(c);
            escaped = !escaped;
        } else if c == '{' || c == '[' {
            out.push(c);
            if !in_string {
                level = level + 1;
                let nm = find_next_meaningful(&chars, i + 1);
                if nm != Some('}') && nm != Some(']') {
                    push_new_line(&mut out, level);
                }
            }
        } else if c == '}' || c == ']' {
            if !in_string {
                level = if level > 0 { level - 1 } else { 0 };
                let lm = find_last_meaningful(&out);
                if lm != Some('{') && lm != Some('[') {
                    push_new_line(&mut out, level);
                }
            }
            out.push(c);
        } else if c == ',' {
            out.push(c);
            if !in_string {
                push_new_line(&mut out, level);
            }
        } else if c == ':' {
            out.push(c);
            if !in_string {
                out.push(' ');
            }
        } else {
            if char_is_whitespace(c) && !in_string {
                let n = out.len();
                if !(n > 0 && (out[n - 1] == '\n' || out[n - 1] == ' ')) {
                    out.push(' ');
                }
            } else {
                out.push(c);
            }
            escaped = false;
        }
        i = i + 1;
        proof {
            assert(indent_run(chars@, i as nat) == indent_step(st, c, chars@.skip(i as int)));
        }
        assert(indent_run(chars@, i as nat) =~= (IndentState {
            out: out@,
            level: level as nat,
            in_string,
            escaped,
        }));
    }
    string_from_chars(&out)
}


/// The length in bytes of the UTF-8 encoding of `s` (what `str::len` gives).
pub open spec fn byte_len(s: Seq<char>) -> nat {
    encode_utf8(s).len()
}

/// `s` followed by spaces up to a length of `width` bytes.
pub open spec fn spec_pad_to_width(s: Seq<char>, width: nat) -> Seq<char> {
    if byte_len(s) >= width {
        s
    } else {
        s + repeat_char(' ', (width - byte_len(s)) as nat)
    }
}

/// The length of the UTF-8 encoding of `s`, in bytes: the length of its bytes.
pub(crate) fn byte_length(s: &str) -> (n: usize)
    ensures
        n == byte_len(s@),
{
    let b = s.as_bytes();
    b.len()
}

proof fn lemma_encode_append(a: Seq<char>, b: Seq<char>)
    ensures
        encode_utf8(a + b) == encode_utf8(a) + encode_utf8(b),
    decreases a.len(),
{
    if a.len() == 0 {
        assert(a + b =~= b);
        assert(encode_utf8(a) =~= Seq::<u8>::empty());
        assert(encode_utf8(a) + encode_utf8(b) =~= encode_utf8(b));
    } else {
        lemma_encode_append(a.drop_first(), b);
        assert((a + b).drop_first() =~= a.drop_first() + b);
        assert((a + b)[0] == a[0]);
    }
}

proof fn lemma_spaces_bytes(n: nat)
    ensures
        byte_len(repeat_char(' ', n)) == n,
    decreases n,
{
    if n > 0 {
        let s = repeat_char(' ', n);
        assert(s.drop_first() =~= repeat_char(' ', (n - 1) as nat));
        lemma_spaces_bytes((n - 1) as nat);
        assert((s[0] as u32) == 32) by {
            vstd::utf8::char_u32_cast(' ', 32);
        }
    }
}

/// Padding reaches the width: the padded text is as many bytes long as the
/// width, or as the text if that is longer.
pub proof fn pad_reaches_width(s: Seq<char>, width: nat)
    ensures
        byte_len(spec_pad_to_width(s, width)) == (if byte_len(s) >= width { byte_len(s) } else { width }),
{
    if byte_len(s) < width {
        let n = (width - byte_len(s)) as nat;
        lemma_encode_append(s, repeat_char(' ', n));
        lemma_spaces_bytes(n);
    }
}

/// `s` followed by spaces up to a length of `width` bytes; longer text is
/// left as it is.
pub fn pad_to_width(s: &str, width: usize) -> (r: String)
    ensures
        r@ == spec_pad_to_width(s@, width as nat),
{
    let n = byte_length(s);
    let mut r = string_of(s);
    if n < width {
        push_repeat(&mut r, ' ', width - n);
    }
    r
}

/// The escape sequence that stands for `c` inside a double-quoted literal.
pub open spec fn escape_char(c: char) -> Seq<char> {
    if c == '\\' {
        seq!['\\', '\\']
    } else if c == '"' {
        seq!['\\', '"']
    } else if c == '\n' {
        seq!['\\', 'n']
    } else if c == '\r' {
        seq!['\\', 'r']
    } else if c == '\t' {
        seq!['\\', 't']
    } else {
        seq![c]
    }
}

/// `s` with each character replaced by its escape sequence.
pub open spec fn escape_all(s: Seq<char>) -> Seq<char>
    decreases s.len(),
{
    if s.len() == 0 {
        Seq::empty()
    } else {
        escape_all(s.drop_last()) + escape_char(s.last())
    }
}

/// The double-quoted JavaScript literal of `s`.
pub open spec fn spec_js_string(s: Seq<char>) -> Seq<char> {
    seq!['"'] + escape_all(s) + seq!['"']
}

/// The double-quoted JavaScript literal of `s`, with backslashes, quotes, line
/// feeds, carriage returns and tabs escaped.
pub fn serialize_js_string(s: &str) -> (r: String)
    ensures
        r@ == spec_js_string(s@),
{
    let chars = chars_of(s);
    let mut r = String::new();
    push_char(&mut r, '"');
    let mut i: usize = 0;
    while i < chars.len()
        invariant
            i <= chars.len(),
            chars@ == s@,
            r@ == seq!['"'] + escape_all(chars@.take(i as int)),
        decreases chars.len() - i,
    {
        let c = chars[i];
        if c == '\\' {
            r.append("\\\\");
        } else if c == '"' {
            r.append("\\\"");
        } else if c == '\n' {
            r.append("\\n");
        } else if c == '\r' {
            r.append("\\r");
        } else if c == '\t' {
            r.append("\\t");
        } else {
            push_char(&mut r, c);
        }
        proof {
            reveal_strlit("\\\\");
            reveal_strlit("\\\"");
            reveal_strlit("\\n");
            reveal_strlit("\\r");
            reveal_strlit("\\t");
            assert(chars@.take(i + 1).drop_last() =~= chars@.take(i as int));
        }
        i = i + 1;
        assert(r@ =~= seq!['"'] + escape_all(chars@.take(i as int)));
    }
    push_char(&mut r, '"');
    assert(chars@.take(chars.len() as int) =~= s@);
    assert(r@ =~= spec_js_string(s@));
    r
}

/// An escaped text holds no raw line feed, carriage return or tab, and each
/// double quote in it follows a backslash.
pub proof fn escaped_text_is_one_line(s: Seq<char>)
    ensures
        forall|i: int| 0 <= i < escape_all(s).len() ==> #[trigger] escape_all(s)[i] != '\n'
            && escape_all(s)[i] != '\r' && escape_all(s)[i] != '\t',
        forall|i: int| 0 <= i < escape_all(s).len() && #[trigger] escape_all(s)[i] == '"' ==> i > 0
            && escape_all(s)[i - 1] == '\\',
    decreases s.len(),
{
    if s.len() > 0 {
        escaped_text_is_one_line(s.drop_last());
        let a = escape_all(s.drop_last());
        let b = escape_char(s.last());
        assert(escape_all(s) == a + b);
        assert forall|i: int| 0 <= i < escape_all(s).len() && #[trigger] escape_all(s)[i] == '"' implies i > 0
            && escape_all(s)[i - 1] == '\\' by {
            if i < a.len() {
                assert(escape_all(s)[i] == a[i]);
                assert(escape_all(s)[i - 1] == a[i - 1]);
            } else {
                assert(escape_all(s)[i] == b[i - a.len()]);
                if i - a.len() == 1 {
                    assert(escape_all(s)[i - 1] == b[0]);
                }
            }
        }
        assert forall|i: int| 0 <= i < escape_all(s).len() implies #[trigger] escape_all(s)[i] != '\n'
            && escape_all(s)[i] != '\r' && escape_all(s)[i] != '\t' by {
            if i < a.len() {
                assert(escape_all(s)[i] == a[i]);
            } else {
                assert(escape_all(s)[i] == b[i - a.len()]);
            }
        }
    }
}

/// Whether `s` can stand unquoted as a key: it starts with a letter and holds
/// only letters, digits and underscores.
pub open spec fn is_js_identifier(s: Seq<char>) -> bool {
    &&& s.len() > 0
    &&& unicode_alphabetic(s[0])
    &&& forall|i: int| 0 <= i < s.len() ==> unicode_alphanumeric(#[trigger] s[i]) || s[i] == '_'
}

/// `s` with a backslash before each double quote.
pub open spec fn escape_quotes(s: Seq<char>) -> Seq<char>
    decreases s.len(),
{
    if s.len() == 0 {
        Seq::empty()
    } else if s.last() == '"' {
        escape_quotes(s.drop_last()) + seq!['\\', '"']
    } else {
        escape_quotes(s.drop_last()).push(s.last())
    }
}

/// How the key `s` is written in an object literal.
pub open spec fn spec_js_key(s: Seq<char>) -> Seq<char> {
    if is_js_identifier(s) {
        s
    } else {
        seq!['"'] + escape_quotes(s) + seq!['"']
    }
}

/// Whether `s` can stand unquoted as a key.
pub fn is_valid_identifier(s: &str) -> (r: bool)
    ensures
        r == is_js_identifier(s@),
{
    let chars = chars_of(s);
    if chars.len() == 0 {
        return false;
    }
    if !char_is_alphabetic(chars[0]) {
        return false;
    }
    let mut i: usize = 0;
    while i < chars.len()
        invariant
            i <= chars.len(),
            chars@ == s@,
            forall|j: int| 0 <= j < i ==> unicode_alphanumeric(#[trigger] chars@[j]) || chars@[j] == '_',
        decreases chars.len() - i,
    {
        if !(char_is_alphanumeric(chars[i]) || chars[i] == '_') {
            return false;
        }
        i = i + 1;
    }
    true
}

/// Whether `s` can stand unquoted, given whether its first character is a
/// letter and, for each position, whether the character there is a letter or
/// a digit (a position past `alnum` counts as neither).
pub open spec fn bare_key(s: Seq<char>, first_alpha: bool, alnum: Seq<bool>) -> bool {
    &&& s.len() > 0
    &&& first_alpha
    &&& forall|i: int| 0 <= i < s.len() ==> #[trigger] key_char_ok(s, alnum, i)
}

/// Whether the character at `i` may stand in an unquoted key: a letter or a
/// digit by `alnum`, or an underscore.
pub open spec fn key_char_ok(s: Seq<char>, alnum: Seq<bool>, i: int) -> bool {
    (0 <= i < alnum.len() && alnum[i]) || s[i] == '_'
}

/// How a key is written, given the classification of its characters: as it is
/// when it can stand unquoted, else quoted with its double quotes escaped.
pub open spec fn key_text(s: Seq<char>, first_alpha: bool, alnum: Seq<bool>) -> Seq<char> {
    if bare_key(s, first_alpha, alnum) {
        s
    } else {
        seq!['"'] + escape_quotes(s) + seq!['"']
    }
}

/// The classification of the characters of `s` by the Unicode properties.
pub open spec fn alnum_flags(s: Seq<char>) -> Seq<bool> {
    Seq::new(s.len(), |i: int| unicode_alphanumeric(s[i]))
}

/// How a key is written, given whether its first character is a letter and,
/// for each of its characters, whether it is a letter or a digit.
pub fn key_form(s: &str, first_alpha: bool, alnum: &Vec<bool>) -> (r: String)
    ensures
        r@ == key_text(s@, first_alpha, alnum@),
{
    let chars = chars_of(s);
    let mut bare = chars.len() > 0 && first_alpha;
    let mut i: usize = 0;
    while i < chars.len()
        invariant
            i <= chars.len(),
            chars@ == s@,
            bare == (chars@.len() > 0 && first_alpha && forall|j: int|
                0 <= j < i ==> #[trigger] key_char_ok(chars@, alnum@, j)),
        decreases chars.len() - i,
    {
        let ok = (i < alnum.len() && alnum[i]) || chars[i] == '_';
        assert(ok == key_char_ok(chars@, alnum@, i as int));
        bare = bare && ok;
        i = i + 1;
    }
    if bare {
        return string_of(s);
    }
    let mut r = String::new();
    push_char(&mut r, '"');
    let mut i: usize = 0;
    while i < chars.len()
        invariant
            i <= chars.len(),
            chars@ == s@,
            r@ == seq!['"'] + escape_quotes(chars@.take(i as int)),
        decreases chars.len() - i,
    {
        let c = chars[i];
        if c == '"' {
            push_char(&mut r, '\\');
            push_char(&mut r, '"');
        } else {
            push_char(&mut r, c);
        }
        assert(chars@.take(i + 1).drop_last() =~= chars@.take(i as int));
        i = i + 1;
        assert(r@ =~= seq!['"'] + escape_quotes(chars@.take(i as int)));
    }
    push_char(&mut r, '"');
    assert(chars@.take(chars.len() as int) =~= s@);
    r
}

/// How the key `s` is written in an object literal: as it is when it is an
/// identifier, else quoted with its double quotes escaped.
pub fn format_js_key(s: &str) -> (r: String)
    ensures
        r@ == spec_js_key(s@),
        r@ == key_text(s@, s@.len() > 0 && unicode_alphabetic(s@[0]), alnum_flags(s@)),
{
    let chars = chars_of(s);
    let first_alpha = chars.len() > 0 && char_is_alphabetic(chars[0]);
    let mut alnum: Vec<bool> = Vec::new();
    let mut i: usize = 0;
    while i < chars.len()
        invariant
            i <= chars.len(),
            chars@ == s@,
            alnum@ == alnum_flags(s@).take(i as int),
        decreases chars.len() - i,
    {
        alnum.push(char_is_alphanumeric(chars[i]));
        i = i + 1;
        assert(alnum@ =~= alnum_flags(s@).take(i as int));
    }
    assert(alnum@ =~= alnum_flags(s@));
    let r = key_form(s, first_alpha, &alnum);
    assert(bare_key(s@, first_alpha, alnum@) == is_js_identifier(s@)) by {
        if is_js_identifier(s@) {
            assert forall|i: int| 0 <= i < s@.len() implies #[trigger] key_char_ok(s@, alnum@, i) by {
                assert(alnum@[i] == unicode_alphanumeric(s@[i]));
            }
        }
        if bare_key(s@, first_alpha, alnum@) {
            assert forall|i: int| 0 <= i < s@.len() implies unicode_alphanumeric(#[trigger] s@[i]) || s@[i] == '_' by {
                assert(key_char_ok(s@, alnum@, i));
            }
        }
    }
    r
}

/// The views of a list of strings.
pub open spec fn views(v: Seq<String>) -> Seq<Seq<char>> {
    v.map_values(|s: String| s@)
}

/// The views of a list of pairs of strings.
pub open spec fn pair_views(v: Seq<(String, String)>) -> Seq<(Seq<char>, Seq<char>)> {
    v.map_values(|p: (String, String)| (p.0@, p.1@))
}

/// Whether every part is shorter than `limit` bytes.
pub open spec fn all_shorter(parts: Seq<Seq<char>>, limit: nat) -> bool {
    forall|i: int| 0 <= i < parts.len() ==> byte_len(#[trigger] parts[i]) < limit
}

/// The text of an array built by the array helper from its serialized items:
/// up to three short items on one line, else one item a line.
pub open spec fn spec_js_array(parts: Seq<Seq<char>>) -> Seq<char> {
    if parts.len() == 0 {
        "[]"@
    } else if parts.len() <= 3 && all_shorter(parts, 30) {
        "[ "@ + join(parts, ", "@) + " ]"@
    } else {
        "[\n  "@ + join(parts, ",\n  "@) + "\n]"@
    }
}

/// Concatenates three strings.
fn concat3(a: &str, b: &str, c: &str) -> (r: String)
    ensures
        r@ == a@ + b@ + c@,
{
    let mut r = string_of(a);
    r.append(b);
    r.append(c);
    r
}

/// The text of an array built by the array helper, from its serialized items.
pub fn format_js_array(parts: &Vec<String>) -> (r: String)
    ensures
        r@ == spec_js_array(views(parts@)),
{
    if parts.len() == 0 {
        return string_of("[]");
    }
    let mut short = parts.len() <= 3;
    let mut i: usize = 0;
    while i < parts.len()
        invariant
            i <= parts.len(),
            short == (parts.len() <= 3 && forall|j: int| 0 <= j < i ==> byte_len(
                #[trigger] views(parts@)[j],
            ) < 30),
        decreases parts.len() - i,
    {
        let n = byte_length(parts[i].as_str());
        assert(views(parts@)[i as int] == parts@[i as int]@);
        if n >= 30 {
            short = false;
        }
        i = i + 1;
    }
    assert(short == (parts.len() <= 3 && all_shorter(views(parts@), 30)));
    if short {
        let body = join_strings(parts, ", ");
        concat3("[ ", body.as_str(), " ]")
    } else {
        let body = join_strings(parts, ",\n  ");
        concat3("[\n  ", body.as_str(), "\n]")
    }
}

/// The largest byte length among the first components of `entries`.
pub open spec fn longest_key(entries: Seq<(Seq<char>, Seq<char>)>) -> nat
    decreases entries.len(),
{
    if entries.len() == 0 {
        0
    } else {
        let rest = longest_key(entries.drop_last());
        let n = byte_len(entries.last().0);
        if n > rest { n } else { rest }
    }
}

/// The largest byte length among the keys.
fn longest_key_len(entries: &Vec<(String, String)>) -> (r: usize)
    ensures
        r == longest_key(pair_views(entries@)),
{
    let mut best: usize = 0;
    let mut i: usize = 0;
    while i < entries.len()
        invariant
            i <= entries.len(),
            best == longest_key(pair_views(entries@).take(i as int)),
        decreases entries.len() - i,
    {
        let n = byte_length(entries[i].0.as_str());
        if n > best {
            best = n;
        }
        assert(pair_views(entries@).take(i + 1).drop_last() =~= pair_views(entries@).take(i as int));
        i = i + 1;
    }
    assert(pair_views(entries@).take(entries.len() as int) =~= pair_views(entries@));
    best
}

/// The padding width is the longest key: no key is longer, and with keys,
/// some key is that long (with none, it is zero).
pub proof fn longest_key_is_max(entries: Seq<(Seq<char>, Seq<char>)>)
    ensures
        forall|i: int| 0 <= i < entries.len() ==> byte_len(#[trigger] entries[i].0) <= longest_key(entries),
        entries.len() == 0 ==> longest_key(entries) == 0,
        entries.len() > 0 ==> exists|i: int| 0 <= i < entries.len() && longest_key(entries) == byte_len(#[trigger] entries[i].0),
    decreases entries.len(),
{
    if entries.len() > 0 {
        let p = entries.drop_last();
        longest_key_is_max(p);
        let n = entries.len() - 1;
        assert forall|i: int| 0 <= i < entries.len() implies byte_len(#[trigger] entries[i].0) <= longest_key(entries) by {
            if i < n {
                assert(entries[i] == p[i]);
            }
        }
        if byte_len(entries.last().0) > longest_key(p) || p.len() == 0 {
            assert(longest_key(entries) == byte_len(entries[n].0));
        } else {
            let i = choose|i: int| 0 <= i < p.len() && longest_key(p) == byte_len(#[trigger] p[i].0);
            assert(entries[i] == p[i]);
            assert(longest_key(entries) == byte_len(entries[i].0));
        }
    }
}

/// Exported names are aligned: every name, padded, is as many bytes long as
/// the longest name.
pub proof fn export_names_aligned(entries: Seq<(Seq<char>, Seq<char>)>)
    ensures
        forall|i: int| 0 <= i < entries.len() ==> byte_len(
            spec_pad_to_width(#[trigger] entries[i].0, longest_key(entries)),
        ) == longest_key(entries),
{
    longest_key_is_max(entries);
    assert forall|i: int| 0 <= i < entries.len() implies byte_len(
        spec_pad_to_width(#[trigger] entries[i].0, longest_key(entries)),
    ) == longest_key(entries) by {
        pad_reaches_width(entries[i].0, longest_key(entries));
    }
}

/// One line of an object built by the object helper.
pub open spec fn object_line(key: Seq<char>, value: Seq<char>, width: nat) -> Seq<char> {
    "  "@ + spec_pad_to_width(spec_js_key(key), width) + ": "@ + value
}

/// The text of an object built by the object helper from its string keys and
/// serialized values: one entry a line, keys padded to the longest key.
pub open spec fn spec_js_object(entries: Seq<(Seq<char>, Seq<char>)>) -> Seq<char> {
    if entries.len() == 0 {
        "{}"@
    } else {
        let w = longest_key(entries);
        "{\n"@ + join(
            entries.map_values(|e: (Seq<char>, Seq<char>)| object_line(e.0, e.1, w)),
            ",\n"@,
        ) + "\n}"@
    }
}

/// The text of an object built by the object helper, from its string keys
/// and serialized values in the order they are visited.
pub fn format_js_object(entries: &Vec<(String, String)>) -> (r: String)
    ensures
        r@ == spec_js_object(pair_views(entries@)),
{
    if entries.len() == 0 {
        return string_of("{}");
    }
    let w = longest_key_len(entries);
    let ghost ev = pair_views(entries@);
    let mut lines: Vec<String> = Vec::new();
    let mut i: usize = 0;
    while i < entries.len()
        invariant
            i <= entries.len(),
            ev == pair_views(entries@),
            w == longest_key(ev),
            views(lines@) == ev.take(i as int).map_values(
                |e: (Seq<char>, Seq<char>)| object_line(e.0, e.1, w as nat),
            ),
        decreases entries.len() - i,
    {
        let key = format_js_key(entries[i].0.as_str());
        let padded = pad_to_width(key.as_str(), w);
        let mut line = concat3("  ", padded.as_str(), ": ");
        line.append(entries[i].1.as_str());
        let ghost prev = lines@;
        lines.push(line);
        assert(views(lines@) =~= views(prev).push(object_line(ev[i as int].0, ev[i as int].1, w as nat)));
        assert(views(lines@) =~= ev.take(i + 1).map_values(
            |e: (Seq<char>, Seq<char>)| object_line(e.0, e.1, w as nat),
        ));
        i = i + 1;
    }
    assert(ev.take(entries.len() as int) =~= ev);
    let body = join_strings(&lines, ",\n");
    concat3("{\n", body.as_str(), "\n}")
}


/// The text of a plain table serialized as an array: its items on one line.
pub open spec fn spec_table_array(parts: Seq<Seq<char>>) -> Seq<char> {
    "["@ + join(parts, ", "@) + "]"@
}

/// The text of a plain table serialized as an array.
pub fn format_table_array(parts: &Vec<String>) -> (r: String)
    ensures
        r@ == spec_table_array(views(parts@)),
{
    let body = join_strings(parts, ", ");
    concat3("[", body.as_str(), "]")
}

/// One entry of a plain table serialized as an object.
pub open spec fn object_entry(key: Seq<char>, value: Seq<char>) -> Seq<char> {
    spec_js_key(key) + ": "@ + value
}

/// The text of a plain table serialized as an object: its string-keyed
/// entries on one line.
pub open spec fn spec_table_object(entries: Seq<(Seq<char>, Seq<char>)>) -> Seq<char> {
    "{ "@ + join(
        entries.map_values(|e: (Seq<char>, Seq<char>)| object_entry(e.0, e.1)),
        ", "@,
    ) + " }"@
}

/// The text of a plain table serialized as an object, from its string keys and
/// serialized values in the order they are visited.
pub fn format_table_object(entries: &Vec<(String, String)>) -> (r: String)
    ensures
        r@ == spec_table_object(pair_views(entries@)),
{
    let ghost ev = pair_views(entries@);
    let mut parts: Vec<String> = Vec::new();
    let mut i: usize = 0;
    while i < entries.len()
        invariant
            i <= entries.len(),
            ev == pair_views(entries@),
            views(parts@) == ev.take(i as int).map_values(
                |e: (Seq<char>, Seq<char>)| object_entry(e.0, e.1),
            ),
        decreases entries.len() - i,
    {
        let key = format_js_key(entries[i].0.as_str());
        let part = concat3(key.as_str(), ": ", entries[i].1.as_str());
        let ghost prev = parts@;
        parts.push(part);
        assert(views(parts@) =~= views(prev).push(object_entry(ev[i as int].0, ev[i as int].1)));
        assert(views(parts@) =~= ev.take(i + 1).map_values(
            |e: (Seq<char>, Seq<char>)| object_entry(e.0, e.1),
        ));
        i = i + 1;
    }
    assert(ev.take(entries.len() as int) =~= ev);
    let body = join_strings(&parts, ", ");
    concat3("{ ", body.as_str(), " }")
}

/// How a table is serialized.
#[derive(Copy, Clone, Debug, PartialEq, Eq, Structural)]
pub enum TableForm {
    /// By its `__tostring` metamethod.
    ToString,
    /// As `null`.
    Null,
    /// As `undefined`.
    Undefined,
    /// As an array of its items.
    Array,
    /// As an object of its string-keyed entries.
    Object,
}

/// How a table is serialized, from what its metatable marks it as and its
/// length: imports by their text, the null and undefined markers by name, other
/// tables with a `__tostring` by it, the rest as an array when they have items
/// at `1..=len`, else as an object.
pub fn table_form(
    has_metatable: bool,
    is_import: bool,
    is_null: bool,
    is_undefined: bool,
    has_to_string: bool,
    len: i64,
) -> (r: TableForm)
    ensures
        r == (if has_metatable && is_import {
            TableForm::ToString
        } else if has_metatable && is_null {
            TableForm::Null
        } else if has_metatable && is_undefined {
            TableForm::Undefined
        } else if has_metatable && has_to_string {
            TableForm::ToString
        } else if len > 0 {
            TableForm::Array
        } else {
            TableForm::Object
        }),
{
    if has_metatable {
        if is_import {
            return TableForm::ToString;
        } else if is_null {
            return TableForm::Null;
        } else if is_undefined {
            return TableForm::Undefined;
        } else if has_to_string {
            return TableForm::ToString;
        }
    }
    if len > 0 {
        TableForm::Array
    } else {
        TableForm::Object
    }
}

/// The decimal notation of `i`, with a minus sign when it is negative.
pub open spec fn signed_decimal(i: int) -> Seq<char> {
    if i < 0 {
        seq!['-'] + crate::text::decimal((-i) as nat)
    } else {
        crate::text::decimal(i as nat)
    }
}

/// `i64`'s `to_string`: the standard library writes integers in decimal, with
/// a minus sign when negative.
#[verifier::external_body]
pub(crate) fn i64_to_string(i: i64) -> (r: String)
    ensures
        r@ == signed_decimal(i as int),
{
    i.to_string()
}

/// The text of a boolean.
pub fn serialize_js_bool(b: bool) -> (r: String)
    ensures
        r@ == (if b { "true"@ } else { "false"@ }),
{
    if b { string_of("true") } else { string_of("false") }
}

/// The text of an integer.
pub fn serialize_js_integer(i: i64) -> (r: String)
    ensures
        r@ == signed_decimal(i as int),
{
    i64_to_string(i)
}

/// The text of `nil` and of the values that have no JavaScript form.
pub fn serialize_js_null() -> (r: String)
    ensures
        r@ == "null"@,
{
    string_of("null")
}

/// The text of a default export.
pub fn format_default_export(value: &str) -> (r: String)
    ensures
        r@ == "export default "@ + value@,
{
    let mut r = string_of("export default ");
    r.append(value);
    r
}

/// One line of the named exports.
pub open spec fn export_line(name: Seq<char>, value: Seq<char>, width: nat) -> Seq<char> {
    "export const "@ + spec_pad_to_width(name, width) + " = "@ + value
}

/// The text of the named exports: one line each, names padded to the longest.
pub open spec fn spec_named_exports(entries: Seq<(Seq<char>, Seq<char>)>) -> Seq<char> {
    let w = longest_key(entries);
    join(
        entries.map_values(|e: (Seq<char>, Seq<char>)| export_line(e.0, e.1, w)),
        "\n"@,
    )
}

/// The text of the named exports, from their names and serialized values in
/// the order they are visited.
pub fn format_named_exports(entries: &Vec<(String, String)>) -> (r: String)
    ensures
        r@ == spec_named_exports(pair_views(entries@)),
{
    let w = longest_key_len(entries);
    let ghost ev = pair_views(entries@);
    let mut lines: Vec<String> = Vec::new();
    let mut i: usize = 0;
    while i < entries.len()
        invariant
            i <= entries.len(),
            ev == pair_views(entries@),
            w == longest_key(ev),
            views(lines@) == ev.take(i as int).map_values(
                |e: (Seq<char>, Seq<char>)| export_line(e.0, e.1, w as nat),
            ),
        decreases entries.len() - i,
    {
        let padded = pad_to_width(entries[i].0.as_str(), w);
        let mut line = concat3("export const ", padded.as_str(), " = ");
        line.append(entries[i].1.as_str());
        let ghost prev = lines@;
        lines.push(line);
        assert(views(lines@) =~= views(prev).push(export_line(ev[i as int].0, ev[i as int].1, w as nat)));
        assert(views(lines@) =~= ev.take(i + 1).map_values(
            |e: (Seq<char>, Seq<char>)| export_line(e.0, e.1, w as nat),
        ));
        i = i + 1;
    }
    assert(ev.take(entries.len() as int) =~= ev);
    join_strings(&lines, "\n")
}

/// The name a call is written with: the given one, else `function`.
pub open spec fn call_name(name: Option<Seq<char>>) -> Seq<char> {
    match name {
        Some(n) => n,
        None => "function"@,
    }
}

/// The text of a call of `name` with serialized arguments: `()` without
/// arguments, one short argument inline, else one argument a line.
pub open spec fn spec_js_call(name: Option<Seq<char>>, args: Seq<Seq<char>>) -> Seq<char> {
    let f = call_name(name);
    if args.len() == 0 {
        f + "()"@
    } else if args.len() == 1 && byte_len(args[0]) < 60 {
        f + "("@ + args[0] + ")"@
    } else {
        f + "(\n  "@ + join(args, ",\n  "@) + "\n)"@
    }
}

/// The text of a call, from the name of the function (when it has one) and the
/// serialized arguments.
pub fn format_js_call(name: Option<&str>, args: &Vec<String>) -> (r: String)
    ensures
        r@ == spec_js_call(
            match name {
                Some(n) => Some(n@),
                None => None,
            },
            views(args@),
        ),
{
    let f = match name {
        Some(n) => string_of(n),
        None => string_of("function"),
    };
    if args.len() == 0 {
        let mut r = f;
        r.append("()");
        return r;
    }
    if args.len() == 1 && byte_length(args[0].as_str()) < 60 {
        let mut r = concat3(f.as_str(), "(", args[0].as_str());
        r.append(")");
        return r;
    }
    let body = join_strings(args, ",\n  ");
    let mut r = concat3(f.as_str(), "(\n  ", body.as_str());
    r.append("\n)");
    r
}

} // verus!
