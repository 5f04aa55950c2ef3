//! Markdown text built by the scripting helpers.
use vstd::prelude::*;
use vstd::string::StringExecFns;
use crate::text::{decimal, join, join_strings, push_repeat, repeat_char, string_of, usize_to_string};
use crate::js::{pair_views, views};

verus! {

/// A link.
pub fn link(name: &str, url: &str) -> (r: String)
    ensures
        r@ == "["@ + name@ + "]("@ + url@ + ")"@,
{
    let mut r = string_of("[");
    r.append(name);
    r.append("](");
    r.append(url);
    r.append(")");
    r
}

/// Words joined by single spaces.
pub fn text(parts: &Vec<String>) -> (r: String)
    ensures
        r@ == join(views(parts@), " "@),
{
    join_strings(parts, " ")
}

/// Text between `mark`s.
fn wrap(mark: &str, t: &str, end: &str) -> (r: String)
    ensures
        r@ == mark@ + t@ + end@,
{
    let mut r = string_of(mark);
    r.append(t);
    r.append(end);
    r
}

/// Bold text.
pub fn bold(t: &str) -> (r: String)
    ensures
        r@ == "**"@ + t@ + "**"@,
{
    wrap("**", t, "**")
}

/// Italic text.
pub fn italic(t: &str) -> (r: String)
    ensures
        r@ == "*"@ + t@ + "*"@,
{
    wrap("*", t, "*")
}

/// Underlined text.
pub fn underline(t: &str) -> (r: String)
    ensures
        r@ == "<u>"@ + t@ + "</u>"@,
{
    wrap("<u>", t, "</u>")
}

/// A heading of the given level: that many `#`, a space, the text.
pub fn heading(level: usize, t: &str) -> (r: String)
    ensures
        r@ == repeat_char('#', level as nat) + " "@ + t@,
{
    let mut r = String::new();
    push_repeat(&mut r, '#', level);
    r.append(" ");
    r.append(t);
    r
}

/// One item of an ordered list, numbered from 1.
pub open spec fn ol_item(i: int, item: Seq<char>) -> Seq<char> {
    decimal((i + 1) as nat) + ". "@ + item
}

/// An ordered list: one numbered item a line.
pub open spec fn spec_ordered_list(items: Seq<Seq<char>>) -> Seq<char> {
    join(Seq::new(items.len(), |i: int| ol_item(i, items[i])), "\n"@)
}

/// An ordered list: one numbered item a line.
pub fn ordered_list(items: &Vec<String>) -> (r: String)
    ensures
        r@ == spec_ordered_list(views(items@)),
{
    let ghost iv = views(items@);
    let mut lines: Vec<String> = Vec::new();
    let mut i: usize = 0;
    while i < items.len()
        invariant
            i <= items.len(),
            iv == views(items@),
            views(lines@) == Seq::new(i as nat, |j: int| ol_item(j, iv[j])),
        decreases items.len() - i,
    {
        let mut line = usize_to_string(i + 1);
        line.append(". ");
        line.append(items[i].as_str());
        let ghost prev = lines@;
        lines.push(line);
        assert(views(lines@) =~= views(prev).push(ol_item(i as int, iv[i as int])));
        assert(views(lines@) =~= Seq::new((i + 1) as nat, |j: int| ol_item(j, iv[j])));
        i = i + 1;
    }
    join_strings(&lines, "\n")
}

/// An unordered list: one item a line, after a dash.
pub open spec fn spec_unordered_list(items: Seq<Seq<char>>) -> Seq<char> {
    join(items.map_values(|it: Seq<char>| "- "@ + it), "\n"@)
}

/// An unordered list: one item a line, after a dash.
pub fn unordered_list(items: &Vec<String>) -> (r: String)
    ensures
        r@ == spec_unordered_list(views(items@)),
{
    let ghost iv = views(items@);
    let mut lines: Vec<String> = Vec::new();
    let mut i: usize = 0;
    while i < items.len()
        invariant
            i <= items.len(),
            iv == views(items@),
            views(lines@) == iv.take(i as int).map_values(|it: Seq<char>| "- "@ + it),
        decreases items.len() - i,
    {
        let mut line = string_of("- ");
        line.append(items[i].as_str());
        let ghost prev = lines@;
        lines.push(line);
        assert(views(lines@) =~= views(prev).push("- "@ + iv[i as int]));
        assert(views(lines@) =~= iv.take(i + 1).map_values(|it: Seq<char>| "- "@ + it));
        i = i + 1;
    }
    assert(iv.take(items.len() as int) =~= iv);
    join_strings(&lines, "\n")
}

/// A fenced code block, with its language when one is given.
pub fn code_block(language: Option<&str>, code: &str) -> (r: String)
    ensures
        r@ == (match language {
            Some(l) => "```"@ + l@ + "\n"@ + code@ + "\n```"@,
            None => "```\n"@ + code@ + "\n```"@,
        }),
{
    match language {
        Some(l) => {
            let mut r = wrap("```", l, "\n");
            r.append(code);
            r.append("\n```");
            r
        },
        None => wrap("```\n", code, "\n```"),
    }
}

/// A line break.
pub fn newline() -> (r: String)
    ensures
        r@ == "\n"@,
{
    string_of("\n")
}

/// `hs` with `k` added at the end unless it is already there.
pub open spec fn add_header(hs: Seq<Seq<char>>, k: Seq<char>) -> Seq<Seq<char>> {
    if hs.contains(k) { hs } else { hs.push(k) }
}

/// The keys of `row` added to `hs` in order, each once.
pub open spec fn add_headers(hs: Seq<Seq<char>>, row: Seq<(Seq<char>, Seq<char>)>) -> Seq<Seq<char>>
    decreases row.len(),
{
    if row.len() == 0 {
        hs
    } else {
        add_header(add_headers(hs, row.drop_last()), row.last().0)
    }
}

/// The keys of all rows, in the order they first appear.
pub open spec fn table_headers(rows: Seq<Seq<(Seq<char>, Seq<char>)>>) -> Seq<Seq<char>>
    decreases rows.len(),
{
    if rows.len() == 0 {
        Seq::empty()
    } else {
        add_headers(table_headers(rows.drop_last()), rows.last())
    }
}

/// A table: a header line of every key, a separator line, and a line per row
/// of its values in the order they come.
pub open spec fn spec_table(rows: Seq<Seq<(Seq<char>, Seq<char>)>>) -> Seq<char> {
    let hs = table_headers(rows);
    join(hs, " | "@) + "\n"@ + join(hs.map_values(|h: Seq<char>| "---"@), " | "@) + "\n"@
        + join(
        rows.map_values(
            |row: Seq<(Seq<char>, Seq<char>)>|
                join(row.map_values(|e: (Seq<char>, Seq<char>)| e.1), " | "@),
        ),
        "\n"@,
    )
}

/// The views of the rows of a table.
pub open spec fn rows_view(rows: Seq<Vec<(String, String)>>) -> Seq<Seq<(Seq<char>, Seq<char>)>> {
    rows.map_values(|r: Vec<(String, String)>| pair_views(r@))
}

/// Whether `hs` holds `k`.
fn contains_string(hs: &Vec<String>, k: &String) -> (r: bool)
    ensures
        r == views(hs@).contains(k@),
{
    let mut i: usize = 0;
    while i < hs.len()
        invariant
            i <= hs.len(),
            forall|j: int| 0 <= j < i ==> views(hs@)[j] != k@,
        decreases hs.len() - i,
    {
        if hs[i] == *k {
            assert(views(hs@)[i as int] == k@);
            return true;
        }
        i = i + 1;
    }
    false
}

/// A table: a header line of every key, a separator line, and a line per row
/// of its values in the order they come.
pub fn table(rows: &Vec<Vec<(String, String)>>) -> (r: String)
    ensures
        r@ == spec_table(rows_view(rows@)),
{
    let ghost rv = rows_view(rows@);
    let mut headers: Vec<String> = Vec::new();
    let mut lines: Vec<String> = Vec::new();
    let mut i: usize = 0;
    while i < rows.len()
        invariant
            i <= rows.len(),
            rv == rows_view(rows@),
            views(headers@) == table_headers(rv.take(i as int)),
            views(lines@) == rv.take(i as int).map_values(
                |row: Seq<(Seq<char>, Seq<char>)>|
                    join(row.map_values(|e: (Seq<char>, Seq<char>)| e.1), " | "@),
            ),
        decreases rows.len() - i,
    {
        let row = &rows[i];
        let ghost pv = pair_views(row@);
        let ghost h0 = views(headers@);
        let mut values: Vec<String> = Vec::new();
        let mut j: usize = 0;
        while j < row.len()
            invariant
                j <= row.len(),
                pv == pair_views(row@),
                views(headers@) == add_headers(h0, pv.take(j as int)),
                views(values@) == pv.take(j as int).map_values(|e: (Seq<char>, Seq<char>)| e.1),
            decreases row.len() - j,
        {
            let key = &row[j].0;
            assert(pv.take(j + 1).drop_last() =~= pv.take(j as int));
            if !contains_string(&headers, key) {
                let ghost hp = headers@;
                headers.push(key.clone());
                assert(views(headers@) =~= views(hp).push(key@));
            }
            let ghost vp = values@;
            values.push(row[j].1.clone());
            assert(views(values@) =~= views(vp).push(pv[j as int].1));
            assert(views(values@) =~= pv.take(j + 1).map_values(|e: (Seq<char>, Seq<char>)| e.1));
            j = j + 1;
        }
        assert(pv.take(row.len() as int) =~= pv);
        let line = join_strings(&values, " | ");
        let ghost lp = lines@;
        lines.push(line);
        assert(views(lines@) =~= views(lp).push(join(pv.map_values(|e: (Seq<char>, Seq<char>)| e.1), " | "@)));
        assert(rv.take(i + 1).drop_last() =~= rv.take(i as int));
        assert(rv[i as int] == pv);
        assert(views(lines@) =~= rv.take(i + 1).map_values(
            |row: Seq<(Seq<char>, Seq<char>)>|
                join(row.map_values(|e: (Seq<char>, Seq<char>)| e.1), " | "@),
        ));
        i = i + 1;
    }
    assert(rv.take(rows.len() as int) =~= rv);
    let mut seps: Vec<String> = Vec::new();
    let mut k: usize = 0;
    while k < headers.len()
        invariant
            k <= headers.len(),
            views(seps@) == views(headers@).take(k as int).map_values(|h: Seq<char>| "---"@),
        decreases headers.len() - k,
    {
        let ghost sp = seps@;
        seps.push(string_of("---"));
        assert(views(seps@) =~= views(sp).push("---"@));
        assert(views(seps@) =~= views(headers@).take(k + 1).map_values(|h: Seq<char>| "---"@));
        k = k + 1;
    }
    assert(views(headers@).take(headers.len() as int) =~= views(headers@));
    let mut r = join_strings(&headers, " | ");
    r.append("\n");
    let sep = join_strings(&seps, " | ");
    r.append(sep.as_str());
    r.append("\n");
    let body = join_strings(&lines, "\n");
    r.append(body.as_str());
    r
}

} // verus!
