//! The Markdown listing of a project's files that is handed to the assistant.
use vstd::prelude::*;
use vstd::string::StringExecFns;
use crate::text::string_of;

verus! {

/// One file of the listing: its path relative to the listed directory (when it
/// lies under it), its extension (when it has one), and its contents (when
/// they could be read).
pub struct FileEntry {
    pub relative_path: Option<String>,
    pub extension: Option<String>,
    pub contents: Option<String>,
}

/// The view of an optional string.
pub open spec fn opt_chars(o: Option<String>) -> Option<Seq<char>> {
    match o {
        Some(s) => Some(s@),
        None => None,
    }
}

/// The section of the listing for one file: a header with its path, then its
/// contents in a code block marked with its extension.
pub open spec fn spec_file_section(
    rel: Option<Seq<char>>,
    ext: Option<Seq<char>>,
    contents: Option<Seq<char>>,
) -> Seq<char> {
    (match rel {
        Some(p) => "\n**File:** `"@ + p + "`\n"@,
        None => Seq::empty(),
    }) + (match ext {
        Some(e) => "```"@ + e + "\n"@,
        None => "```\n"@,
    }) + (match contents {
        Some(c) => c,
        None => "[Could not read file]"@,
    }) + "\n```\n"@
}

/// The listing of the files, in the order they are walked.
pub open spec fn spec_listing(files: Seq<FileEntry>) -> Seq<char>
    decreases files.len(),
{
    if files.len() == 0 {
        Seq::empty()
    } else {
        let f = files.last();
        spec_listing(files.drop_last()) + spec_file_section(
            opt_chars(f.relative_path),
            opt_chars(f.extension),
            opt_chars(f.contents),
        )
    }
}

/// Appends the section of one file.
fn push_section(out: &mut String, f: &FileEntry)
    ensures
        final(out)@ == old(out)@ + spec_file_section(
            opt_chars(f.relative_path),
            opt_chars(f.extension),
            opt_chars(f.contents),
        ),
{
    let ghost start = out@;
    let ghost a = match opt_chars(f.relative_path) {
        Some(p) => "\n**File:** `"@ + p + "`\n"@,
        None => Seq::<char>::empty(),
    };
    match &f.relative_path {
        Some(p) => {
            out.append("\n**File:** `");
            out.append(p.as_str());
            out.append("`\n");
        },
        None => {
            assert(out@ =~= start + a);
        },
    }
    assert(out@ =~= start + a);
    let ghost b = match opt_chars(f.extension) {
        Some(e) => "```"@ + e + "\n"@,
        None => "```\n"@,
    };
    match &f.extension {
        Some(e) => {
            out.append("```");
            out.append(e.as_str());
            out.append("\n");
        },
        None => {
            out.append("```\n");
        },
    }
    assert(out@ =~= start + a + b);
    match &f.contents {
        Some(c) => {
            out.append(c.as_str());
        },
        None => {
            out.append("[Could not read file]");
        },
    }
    out.append("\n```\n");
}

/// The Markdown listing of the files: for each, its path and its contents in
/// a code block.
pub fn generate_markdown_from_files(files: &Vec<FileEntry>) -> (r: String)
    ensures
        r@ == spec_listing(files@),
{
    let mut out = String::new();
    let mut i: usize = 0;
    while i < files.len()
        invariant
            i <= files.len(),
            out@ == spec_listing(files@.take(i as int)),
        decreases files.len() - i,
    {
        push_section(&mut out, &files[i]);
        assert(files@.take(i + 1).drop_last() =~= files@.take(i as int));
        i = i + 1;
    }
    assert(files@.take(files.len() as int) =~= files@);
    out
}

} // verus!
