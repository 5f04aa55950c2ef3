//! The log store, its entries' text, and the scrolling window that shows them.
use vstd::prelude::*;
use vstd::string::StringExecFns;
use crate::text::{decimal, split_on, split_str, usize_to_string};

verus! {

/// How serious a log entry is.
#[derive(Copy, Clone, Debug, Default, PartialEq, Eq, Structural)]
pub enum LogKind {
    #[default]
    Info,
    Success,
    Error,
    Warn,
    Debug,
}

/// The tag that starts a log line of the given kind.
pub open spec fn spec_log_prefix(kind: LogKind) -> Seq<char> {
    match kind {
        LogKind::Info => "[info]:"@,
        LogKind::Success => "[success]:"@,
        LogKind::Error => "[error]:"@,
        LogKind::Warn => "[warn]:"@,
        LogKind::Debug => "[debug]:"@,
    }
}

/// The text stored for a message: its kind's tag, a space, the message.
pub open spec fn spec_log_line(kind: LogKind, message: Seq<char>) -> Seq<char> {
    spec_log_prefix(kind) + " "@ + message
}

/// The tag that starts a log line of the given kind.
pub fn log_prefix(kind: LogKind) -> (r: &'static str)
    ensures
        r@ == spec_log_prefix(kind),
{
    match kind {
        LogKind::Info => "[info]:",
        LogKind::Success => "[success]:",
        LogKind::Error => "[error]:",
        LogKind::Warn => "[warn]:",
        LogKind::Debug => "[debug]:",
    }
}

/// The line that is stored (and appended to the log file) for `message`.
pub fn format_log_line(kind: LogKind, message: &str) -> (r: String)
    ensures
        r@ == spec_log_line(kind, message@),
{
    let mut r = String::new();
    r.append(log_prefix(kind));
    r.append(" ");
    r.append(message);
    r
}

/// Scroll offset of the log view: the index of the first line shown.
#[derive(Debug, Clone, Copy)]
pub struct LogsState {
    scroll: usize,
}

impl View for LogsState {
    type V = usize;

    closed spec fn view(&self) -> usize {
        self.scroll
    }
}

/// The offset after moving `amount` lines down from `scroll`.
pub open spec fn scrolled_down(scroll: usize, amount: usize) -> usize {
    if scroll + amount <= usize::MAX { (scroll + amount) as usize } else { usize::MAX }
}

/// The offset after moving `amount` lines up from `scroll`.
pub open spec fn scrolled_up(scroll: usize, amount: usize) -> usize {
    if scroll >= amount { (scroll - amount) as usize } else { 0 }
}

/// The offset that shows the last `visible` of `total` lines.
pub open spec fn bottom_scroll(total: usize, visible: usize) -> usize {
    if total > visible { (total - visible) as usize } else { 0 }
}

/// Scrolling up undoes scrolling down by the same amount, unless scrolling
/// down stopped at the end of the range.
pub proof fn scroll_up_undoes_scroll_down(scroll: usize, amount: usize)
    requires
        scroll + amount <= usize::MAX,
    ensures
        scrolled_up(scrolled_down(scroll, amount), amount) == scroll,
{
}

impl Default for LogsState {
    fn default() -> (s: Self)
        ensures
            s@ == 0,
    {
        LogsState { scroll: 0 }
    }
}

impl LogsState {
    /// A view scrolled to the top.
    pub fn new() -> (s: Self)
        ensures
            s@ == 0,
    {
        LogsState { scroll: 0 }
    }

    /// The current scroll offset.
    pub fn scroll(&self) -> (r: usize)
        ensures
            r == self@,
    {
        self.scroll
    }

    /// Moves the view `amount` lines down, stopping at `usize::MAX`.
    pub fn scroll_down(&mut self, amount: usize)
        ensures
            final(self)@ == scrolled_down(old(self)@, amount),
    {
        self.scroll = self.scroll.saturating_add(amount);
    }

    /// Moves the view `amount` lines up, stopping at the top.
    pub fn scroll_up(&mut self, amount: usize)
        ensures
            final(self)@ == scrolled_up(old(self)@, amount),
    {
        self.scroll = self.scroll.saturating_sub(amount);
    }

    /// Moves the view back to the top.
    pub fn reset_scroll(&mut self)
        ensures
            final(self)@ == 0,
    {
        self.scroll = 0;
    }

    /// Moves the view so that the last `visible_lines` of `total_lines` are shown.
    pub fn scroll_to_bottom(&mut self, total_lines: usize, visible_lines: usize)
        ensures
            final(self)@ == bottom_scroll(total_lines, visible_lines),
    {
        if total_lines > visible_lines {
            self.scroll = total_lines - visible_lines;
        } else {
            self.scroll = 0;
        }
    }
}

/// Every log entry in the order it was added: its kind and its stored line.
pub struct LogStore {
    entries: Vec<(LogKind, String)>,
}

impl View for LogStore {
    type V = Seq<(LogKind, Seq<char>)>;

    closed spec fn view(&self) -> Seq<(LogKind, Seq<char>)> {
        entries_view(self.entries@)
    }
}

/// The entries with each line taken by its characters.
pub open spec fn entries_view(s: Seq<(LogKind, String)>) -> Seq<(LogKind, Seq<char>)> {
    s.map_values(|e: (LogKind, String)| (e.0, e.1@))
}

impl LogStore {
    /// A store without entries.
    pub fn new() -> (s: Self)
        ensures
            s@ == Seq::<(LogKind, Seq<char>)>::empty(),
    {
        let s = LogStore { entries: Vec::new() };
        assert(s@ =~= Seq::<(LogKind, Seq<char>)>::empty());
        s
    }

    /// The number of entries.
    pub fn len(&self) -> (r: usize)
        ensures
            r == self@.len(),
    {
        self.entries.len()
    }
}

/// Read access to the entries of the store.
pub fn get_logs(store: &LogStore) -> (r: &Vec<(LogKind, String)>)
    ensures
        entries_view(r@) == store@,
{
    &store.entries
}

/// Write access to the entries of the store; what is written through the
/// reference is what the store holds afterwards.
pub fn get_logs_mut(store: &mut LogStore) -> (r: &mut Vec<(LogKind, String)>)
    ensures
        entries_view(r@) == old(store)@,
        final(store)@ == entries_view(final(r)@),
{
    &mut store.entries
}

/// Records `message` as an entry of the given kind, tagged with its kind.
pub fn add_log(store: &mut LogStore, kind: LogKind, message: &str)
    ensures
        final(store)@ == old(store)@.push((kind, spec_log_line(kind, message@))),
{
    let line = format_log_line(kind, message);
    store.entries.push((kind, line));
    assert(store@ =~= old(store)@.push((kind, spec_log_line(kind, message@))));
}


/// The lines of `s` as `str::split('\n')` gives them: the text between
/// line breaks, with an empty line after a trailing break.
pub open spec fn split_lines(s: Seq<char>) -> Seq<Seq<char>> {
    split_on(s, '\n')
}

/// Every line of the entries `e`, in order, each with its entry's kind.
pub open spec fn all_lines(e: Seq<(LogKind, Seq<char>)>) -> Seq<(LogKind, Seq<char>)>
    decreases e.len(),
{
    if e.len() == 0 {
        Seq::empty()
    } else {
        let k = e.last().0;
        all_lines(e.drop_last()) + split_lines(e.last().1).map_values(|l: Seq<char>| (k, l))
    }
}

/// How many lines fit inside the border of a view `height` rows high.
pub open spec fn visible_rows(height: u16) -> nat {
    if height >= 2 { (height - 2) as nat } else { 0 }
}

/// The scroll offset after it is kept within reach of the last line.
pub open spec fn clamp_scroll(total: nat, rows: nat, scroll: nat) -> nat {
    if total > rows && scroll > total - rows { (total - rows) as nat } else { scroll }
}

/// The first line shown.
pub open spec fn window_start(total: nat, scroll: nat) -> nat {
    if scroll < total { scroll } else if total == 0 { 0 } else { (total - 1) as nat }
}

/// One past the last line shown.
pub open spec fn window_end(total: nat, rows: nat, start: nat) -> nat {
    if start + rows < total { start + rows } else { total }
}

/// The title of the view: the first and last line numbers shown and the total.
pub open spec fn spec_logs_title(total: nat, rows: nat, scroll: nat) -> Seq<char> {
    let last = if rows < total { rows } else { total };
    "Logs ["@ + decimal(scroll + 1) + "-"@ + decimal(scroll + last) + "/"@ + decimal(total) + "]"@
}

/// The window of lines shown lies within the lines, holds no more lines than
/// fit, and holds a line whenever there is one.
pub proof fn window_fits(total: nat, rows: nat, scroll: nat)
    ensures
        ({
            let s = clamp_scroll(total, rows, scroll);
            let start = window_start(total, s);
            let end = window_end(total, rows, start);
            &&& start <= end <= total
            &&& end - start <= rows
            &&& total > 0 && rows > 0 ==> start < end
        }),
{
}

/// After scrolling to the bottom of a view with room for a line, the window
/// ends at the last line, and it is full when there are enough lines.
pub proof fn bottom_shows_last_lines(total: usize, rows: usize)
    requires
        rows > 0,
    ensures
        ({
            let s = clamp_scroll(total as nat, rows as nat, bottom_scroll(total, rows) as nat);
            let start = window_start(total as nat, s);
            &&& window_end(total as nat, rows as nat, start) == total
            &&& total >= rows ==> start == total - rows
        }),
{
}

/// What the log view shows: its title and the visible lines with their kinds.
pub struct LogView {
    pub title: String,
    pub lines: Vec<(LogKind, String)>,
}

/// The stored lines split at line breaks, each with its entry's kind.
pub fn log_lines(store: &LogStore) -> (r: Vec<(LogKind, String)>)
    ensures
        entries_view(r@) == all_lines(store@),
{
    let entries = get_logs(store);
    let mut r: Vec<(LogKind, String)> = Vec::new();
    let mut i: usize = 0;
    while i < entries.len()
        invariant
            i <= entries.len(),
            entries_view(entries@) == store@,
            entries_view(r@) == all_lines(store@.take(i as int)),
        decreases entries.len() - i,
    {
        let kind = entries[i].0;
        let parts = split_str(entries[i].1.as_str(), '\n');
        let ghost before = entries_view(r@);
        let mut j: usize = 0;
        while j < parts.len()
            invariant
                j <= parts.len(),
                entries_view(r@) == before + parts@.take(j as int).map_values(
                    |l: String| (kind, l@),
                ),
            decreases parts.len() - j,
        {
            let ghost prev = r@;
            r.push((kind, parts[j].clone()));
            assert(r@ =~= prev.push(r@[r@.len() - 1]));
            assert(entries_view(r@) =~= entries_view(prev).push((kind, parts@[j as int]@)));
            assert(parts@.take(j + 1).map_values(|l: String| (kind, l@)) =~= parts@.take(
                j as int,
            ).map_values(|l: String| (kind, l@)).push((kind, parts@[j as int]@)));
            assert(entries_view(r@) =~= before + parts@.take(j + 1).map_values(
                |l: String| (kind, l@),
            ));
            j = j + 1;
        }
        proof {
            let pre = store@.take(i as int);
            let next = store@.take(i + 1);
            assert(next.drop_last() =~= pre);
            assert(next.last() == store@[i as int]);
            assert(parts@.take(parts.len() as int) =~= parts@);
            assert(split_lines(store@[i as int].1).map_values(|l: Seq<char>| (kind, l))
                =~= parts@.map_values(|l: String| (kind, l@)));
        }
        i = i + 1;
    }
    assert(store@.take(entries.len() as int) =~= store@);
    r
}

/// The view of the log lines.
#[derive(Debug, Default, Clone, Copy)]
pub struct LogsWidget;

impl LogsWidget {
    /// What a view `height` rows high shows of the store; the scroll offset is
    /// first kept within reach of the last line.
    pub fn render(&self, store: &LogStore, height: u16, state: &mut LogsState) -> (r: LogView)
        requires
            ({
                let total = all_lines(store@).len();
                let s = clamp_scroll(total, visible_rows(height), old(state)@ as nat);
                &&& s + 1 <= usize::MAX
                &&& s + visible_rows(height) <= usize::MAX || s + total <= usize::MAX
            }),
        ensures
            ({
                let lines = all_lines(store@);
                let total = lines.len();
                let rows = visible_rows(height);
                let s = clamp_scroll(total, rows, old(state)@ as nat);
                let start = window_start(total, s);
                let end = window_end(total, rows, start);
                &&& final(state)@ == s
                &&& entries_view(r.lines@) == lines.subrange(start as int, end as int)
                &&& r.title@ == spec_logs_title(total, rows, s)
            }),
    {
        let lines = log_lines(store);
        let total = lines.len();
        let rows: usize = if height >= 2 { (height - 2) as usize } else { 0 };
        if total > rows && state.scroll > total - rows {
            state.scroll = total - rows;
        }
        let scroll = state.scroll;
        let start = if scroll < total { scroll } else if total == 0 { 0 } else { total - 1 };
        let end = if start < total && rows < total - start { start + rows } else { total };
        let mut shown: Vec<(LogKind, String)> = Vec::new();
        let mut i = start;
        while i < end
            invariant
                start <= i <= end <= total == lines.len(),
                entries_view(shown@) == entries_view(lines@).subrange(start as int, i as int),
            decreases end - i,
        {
            let ghost prev = shown@;
            shown.push((lines[i].0, lines[i].1.clone()));
            assert(shown@ =~= prev.push(shown@[shown@.len() - 1]));
            assert(entries_view(shown@) =~= entries_view(prev).push(entries_view(lines@)[i as int]));
            assert(entries_view(shown@) =~= entries_view(lines@).subrange(start as int, i + 1));
            i = i + 1;
        }
        let last = if rows < total { rows } else { total };
        let mut title = String::new();
        title.append("Logs [");
        let a = usize_to_string(scroll + 1);
        title.append(a.as_str());
        title.append("-");
        let b = usize_to_string(scroll + last);
        title.append(b.as_str());
        title.append("/");
        let c = usize_to_string(total);
        title.append(c.as_str());
        title.append("]");
        LogView { title, lines: shown }
    }
}

} // verus!
