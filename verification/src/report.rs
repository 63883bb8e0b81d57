//! Reporting the findings of a check: the Markdown table of unapproved
//! external types and whether any finding is an error.
use vstd::prelude::*;
use vstd::string::{StringExecFns, StrSliceExecFns};
use crate::text::{chars_of, decimal, push_decimal, sort_strings, sorted_seqs, texts};

verus! {

/// A place in a source file.
#[derive(Clone, Debug, PartialEq, Eq)]
pub struct Location {
    /// The file, as a path.
    pub file: String,
    /// The line, counting from one.
    pub line: usize,
    /// The column, counting from one.
    pub column: usize,
}

/// One finding of the external-type check.
#[derive(Clone, Debug, PartialEq, Eq)]
pub struct Finding {
    /// The finding is an error (not a warning).
    pub is_error: bool,
    /// The finding is a reference to an external type that no pattern
    /// approves.
    pub unapproved_type: bool,
    /// The full path of the type that the finding is about.
    pub type_path: String,
    /// Where in the source the finding arises, when that is known.
    pub location: Option<Location>,
}

/// The index of the first `::` in `s` at or after `from`, or `s.len()` when
/// there is none.
pub open spec fn first_path_separator(s: Seq<char>, from: int) -> int
    decreases s.len() - from,
{
    if from < 0 || from + 1 >= s.len() {
        s.len() as int
    } else if s[from] == ':' && s[from + 1] == ':' {
        from
    } else {
        first_path_separator(s, from + 1)
    }
}

/// The crate that a type path names: the text before its first `::`, or the
/// whole path when it has none.
pub open spec fn crate_part(type_path: Seq<char>) -> Seq<char> {
    type_path.take(first_path_separator(type_path, 0))
}

/// The crate that a type path names.
pub fn crate_name_of(type_path: &str) -> (r: String)
    ensures
        r@ == crate_part(type_path@),
{
    let cs = chars_of(type_path);
    let n = cs.len();
    let mut i: usize = 0;
    while n > 0 && i < n - 1
        invariant
            n == cs@.len(),
            i <= n,
            cs@ == type_path@,
            first_path_separator(type_path@, 0) == first_path_separator(type_path@, i as int),
        decreases n - i,
    {
        if cs[i] == ':' && cs[i + 1] == ':' {
            return String::from_str(type_path.substring_char(0, i));
        }
        i = i + 1;
    }
    assert(type_path@.take(type_path@.len() as int) =~= type_path@);
    String::from_str(type_path)
}

/// The table row for a finding: crate, type and `file:line:column`.
pub open spec fn table_row(f: Finding) -> Seq<char> {
    let loc = f.location->0;
    "| "@ + crate_part(f.type_path@) + " | "@ + f.type_path@ + " | "@ + loc.file@ + ":"@
        + decimal(loc.line as nat) + ":"@ + decimal(loc.column as nat) + " |"@
}

/// Formats the table row for a finding whose location is known.
pub fn markdown_row(f: &Finding) -> (r: String)
    requires
        f.location is Some,
    ensures
        r@ == table_row(*f),
{
    let loc = f.location.as_ref().unwrap();
    let mut row = String::from_str("| ");
    let krate = crate_name_of(f.type_path.as_str());
    row.append(krate.as_str());
    row.append(" | ");
    row.append(f.type_path.as_str());
    row.append(" | ");
    row.append(loc.file.as_str());
    row.append(":");
    push_decimal(&mut row, loc.line);
    row.append(":");
    push_decimal(&mut row, loc.column);
    row.append(" |");
    row
}

/// Every unapproved-type finding has a location.
pub open spec fn rows_have_locations(fs: Seq<Finding>) -> bool {
    forall|i: int| 0 <= i < fs.len() && (#[trigger] fs[i]).unapproved_type ==> fs[i].location is Some
}

/// Whether every unapproved-type finding has a location (a table can be
/// made of them only then).
pub fn locations_known(fs: &Vec<Finding>) -> (r: bool)
    ensures
        r == rows_have_locations(fs@),
{
    let n = fs.len();
    for i in 0..n
        invariant
            n == fs@.len(),
            forall|j: int| 0 <= j < i && (#[trigger] fs@[j]).unapproved_type ==> fs@[j].location is Some,
    {
        if fs[i].unapproved_type && fs[i].location.is_none() {
            return false;
        }
    }
    true
}

/// The rows of the unapproved-type findings, in the findings' order.
pub open spec fn table_rows(fs: Seq<Finding>) -> Seq<Seq<char>>
    decreases fs.len(),
{
    if fs.len() == 0 {
        Seq::empty()
    } else if fs.last().unapproved_type {
        table_rows(fs.drop_last()).push(table_row(fs.last()))
    } else {
        table_rows(fs.drop_last())
    }
}

/// The two header lines of the table.
pub open spec fn table_header() -> Seq<Seq<char>> {
    seq!["| Crate | Type | Used In |"@, "| ---   | ---  | ---     |"@]
}

/// The lines that open a package's table: a heading in workspace mode.
pub open spec fn table_opening(package_name: Seq<char>, workspace_mode: bool) -> Seq<Seq<char>> {
    if workspace_mode {
        seq!["## "@ + package_name, Seq::<char>::empty()]
    } else {
        Seq::empty()
    }
}

/// The lines that close a package's table: a blank line in workspace mode.
pub open spec fn table_closing(workspace_mode: bool) -> Seq<Seq<char>> {
    if workspace_mode {
        seq![Seq::<char>::empty()]
    } else {
        Seq::empty()
    }
}

/// `lines` is the Markdown table for these findings: the opening, the header,
/// the rows of the unapproved-type findings sorted as strings, the closing.
pub open spec fn is_markdown_table(
    lines: Seq<Seq<char>>,
    package_name: Seq<char>,
    workspace_mode: bool,
    fs: Seq<Finding>,
) -> bool {
    exists|rows: Seq<Seq<char>>|
        #![trigger rows.to_multiset()]
        rows.to_multiset() == table_rows(fs).to_multiset() && sorted_seqs(rows) && lines
            == table_opening(package_name, workspace_mode) + table_header() + rows
            + table_closing(workspace_mode)
}

/// Lays out the Markdown table of a package's unapproved external types.
pub fn markdown_table(package_name: &str, workspace_mode: bool, fs: &Vec<Finding>) -> (lines: Vec<String>)
    requires
        rows_have_locations(fs@),
    ensures
        is_markdown_table(texts(lines@), package_name@, workspace_mode, fs@),
{
    let mut rows: Vec<String> = Vec::new();
    let n = fs.len();
    for i in 0..n
        invariant
            n == fs@.len(),
            rows_have_locations(fs@),
            texts(rows@) == table_rows(fs@.take(i as int)),
    {
        assert(fs@.take(i + 1).drop_last() =~= fs@.take(i as int));
        if fs[i].unapproved_type {
            let row = markdown_row(&fs[i]);
            rows.push(row);
            assert(texts(rows@) =~= table_rows(fs@.take(i as int)).push(table_row(fs@[i as int])));
        }
    }
    assert(fs@.take(n as int) =~= fs@);
    let sorted = sort_strings(rows);
    let mut lines: Vec<String> = Vec::new();
    if workspace_mode {
        let mut heading = String::from_str("## ");
        heading.append(package_name);
        lines.push(heading);
        lines.push(String::new());
    }
    lines.push(String::from_str("| Crate | Type | Used In |"));
    lines.push(String::from_str("| ---   | ---  | ---     |"));
    let ghost before = texts(lines@);
    let m = sorted.len();
    for j in 0..m
        invariant
            m == sorted@.len(),
            texts(lines@) == before + texts(sorted@).take(j as int),
    {
        let ghost prev = lines@;
        let item = sorted[j].clone();
        lines.push(item);
        assert(lines@ == prev.push(item));
        assert(texts(lines@) =~= texts(prev).push(item@));
        assert(texts(sorted@).take(j + 1) =~= texts(sorted@).take(j as int).push(sorted@[j as int]@));
        assert(texts(lines@) =~= before + texts(sorted@).take(j + 1));
    }
    if workspace_mode {
        lines.push(String::new());
    }
    proof {
        let rows_v = texts(sorted@);
        assert(rows_v.take(m as int) =~= rows_v);
        assert(before =~= table_opening(package_name@, workspace_mode) + table_header());
        assert(texts(lines@) =~= table_opening(package_name@, workspace_mode) + table_header() + rows_v
            + table_closing(workspace_mode));
    }
    lines
}

/// Whether any finding is an error.
pub fn has_errors(fs: &Vec<Finding>) -> (r: bool)
    ensures
        r == exists|i: int| 0 <= i < fs@.len() && (#[trigger] fs@[i]).is_error,
{
    let n = fs.len();
    for i in 0..n
        invariant
            n == fs@.len(),
            forall|j: int| 0 <= j < i ==> !(#[trigger] fs@[j]).is_error,
    {
        if fs[i].is_error {
            return true;
        }
    }
    false
}

} // verus!
