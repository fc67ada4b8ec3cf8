use vstd::prelude::*;
use vstd::string::StringSliceAdditionalSpecFns;
use kuchiki::traits::TendrilSink;
use crate::error::ScheduleError;
use crate::extract::{body_view, extract_schedule, schedule_of};
use crate::run::{runs_view, Run};
use crate::text::texts;

verus! {

/// The longest HTML text, in bytes, that is parsed: the parser keeps text in
/// buffers whose length is a `u32`, and may turn one input byte into three
/// (U+FFFD for a NUL), so a quarter of `u32::MAX` leaves room for both.
pub const MAX_HTML_BYTES: usize = 1_073_741_823;

/// For the HTML text `html`: the cells of each row of the body of the table
/// with id `runTable`, each cell as its whole text content untrimmed, with
/// only element children counted as rows and as cells; `None` where the
/// document has no such table or the table no `tbody`.
pub uninterp spec fn run_table_cells(html: Seq<char>) -> Option<Seq<Seq<Seq<char>>>>;

/// Relies on kuchiki: `parse_html().one` builds the document tree (its
/// buffers, tendril's, panic past `u32::MAX` bytes, hence the bound),
/// `NodeRef::select_first` finds `#runTable` and then its `tbody`,
/// `NodeRef::children` with `NodeRef::into_element_ref` keeps the element
/// children, and `text_contents` reads each cell's text.
#[verifier::external_body]
fn html_run_table(html: &str) -> (r: Option<Vec<Vec<String>>>)
    requires
        html.spec_bytes().len() <= MAX_HTML_BYTES,
    ensures
        body_view(r) == run_table_cells(html@),
{
    let document = kuchiki::parse_html().one(html);
    let table = document.select_first("#runTable").ok()?;
    let body = table.as_node().select_first("tbody").ok()?;
    let rows = body.as_node().children().filter_map(kuchiki::NodeRef::into_element_ref);
    Some(
        rows.map(|row| {
            let cells = row.as_node().children().filter_map(kuchiki::NodeRef::into_element_ref);
            cells.map(|cell| cell.text_contents()).collect()
        }).collect(),
    )
}

/// The characters with the Unicode `White_Space` property.
pub open spec fn is_white_space(c: char) -> bool {
    ('\u{9}' <= c && c <= '\u{d}') || c == ' ' || c == '\u{85}' || c == '\u{a0}' || c
        == '\u{1680}' || ('\u{2000}' <= c && c <= '\u{200a}') || c == '\u{2028}' || c
        == '\u{2029}' || c == '\u{202f}' || c == '\u{205f}' || c == '\u{3000}'
}

/// The first position at or after `i` that holds no white space.
pub open spec fn trim_start_at(s: Seq<char>, i: int) -> int
    decreases s.len() - i,
{
    if i < 0 || i >= s.len() {
        s.len() as int
    } else if is_white_space(s[i]) {
        trim_start_at(s, i + 1)
    } else {
        i
    }
}

/// The end of `s.subrange(lo, j)` once trailing white space is dropped.
pub open spec fn trim_end_at(s: Seq<char>, lo: int, j: int) -> int
    decreases j - lo,
{
    if j <= lo {
        lo
    } else if is_white_space(s[j - 1]) {
        trim_end_at(s, lo, j - 1)
    } else {
        j
    }
}

/// `s` without leading and trailing white space, as `str::trim` gives it.
pub open spec fn trimmed(s: Seq<char>) -> Seq<char> {
    let a = trim_start_at(s, 0);
    s.subrange(a, trim_end_at(s, a, s.len() as int))
}

/// The table with every cell trimmed.
pub open spec fn trimmed_body(body: Option<Seq<Seq<Seq<char>>>>) -> Option<Seq<Seq<Seq<char>>>> {
    match body {
        Some(rows) => Some(
            rows.map_values(|row: Seq<Seq<char>>| row.map_values(|c: Seq<char>| trimmed(c))),
        ),
        None => None,
    }
}

fn white_space(c: char) -> (r: bool)
    ensures
        r == is_white_space(c),
{
    ('\u{9}' <= c && c <= '\u{d}') || c == ' ' || c == '\u{85}' || c == '\u{a0}' || c
        == '\u{1680}' || ('\u{2000}' <= c && c <= '\u{200a}') || c == '\u{2028}' || c
        == '\u{2029}' || c == '\u{202f}' || c == '\u{205f}' || c == '\u{3000}'
}

/// Drops leading and trailing white space.
pub fn trim_text(s: &str) -> (r: String)
    ensures
        r@ == trimmed(s@),
{
    let n = s.unicode_len();
    let mut a: usize = 0;
    let mut found = false;
    while !found && a < n
        invariant
            a <= n,
            n == s@.len(),
            trim_start_at(s@, 0) == trim_start_at(s@, a as int),
            found ==> a < n && !is_white_space(s@[a as int]),
        decreases n - a + (if found { 0int } else { 1int }),
    {
        if white_space(s.get_char(a)) {
            a = a + 1;
        } else {
            found = true;
        }
    }
    assert(trim_start_at(s@, 0) == a);
    let mut b: usize = n;
    let mut kept = false;
    while !kept && b > a
        invariant
            a <= b <= n,
            n == s@.len(),
            trim_end_at(s@, a as int, n as int) == trim_end_at(s@, a as int, b as int),
            kept ==> b > a && !is_white_space(s@[b - 1]),
        decreases b + (if kept { 0int } else { 1int }),
    {
        if white_space(s.get_char(b - 1)) {
            b = b - 1;
        } else {
            kept = true;
        }
    }
    assert(trim_end_at(s@, a as int, n as int) == b);
    String::from_str(s.substring_char(a, b))
}

/// Trims every cell of a table.
pub fn trim_cells(body: &Option<Vec<Vec<String>>>) -> (r: Option<Vec<Vec<String>>>)
    ensures
        body_view(r) == trimmed_body(body_view(*body)),
{
    let rows = match body {
        Some(rows) => rows,
        None => return None,
    };
    let mut out: Vec<Vec<String>> = Vec::new();
    let mut i: usize = 0;
    while i < rows.len()
        invariant
            i <= rows@.len(),
            out@.len() == i,
            forall|k: int|
                0 <= k < i ==> texts(#[trigger] out@[k]@) == texts(rows@[k]@).map_values(
                    |c: Seq<char>| trimmed(c),
                ),
        decreases rows.len() - i,
    {
        let row = &rows[i];
        let mut cells: Vec<String> = Vec::new();
        let mut j: usize = 0;
        while j < row.len()
            invariant
                j <= row@.len(),
                cells@.len() == j,
                forall|k: int| 0 <= k < j ==> (#[trigger] cells@[k])@ == trimmed(row@[k]@),
            decreases row.len() - j,
        {
            cells.push(trim_text(row[j].as_str()));
            j = j + 1;
        }
        assert(texts(cells@) =~= texts(row@).map_values(|c: Seq<char>| trimmed(c)));
        out.push(cells);
        i = i + 1;
    }
    proof {
        let tb = trimmed_body(body_view(*body));
        assert(body_view(Some(out))->0 =~= tb->0);
    }
    Some(out)
}

/// The runs of the schedule table in an HTML page: the table's cells,
/// trimmed, turned into runs by `extract_schedule`.
pub fn schedule_from_html(html: &str) -> (r: Result<Vec<Run>, ScheduleError>)
    requires
        html.spec_bytes().len() <= MAX_HTML_BYTES,
    ensures
        match schedule_of(trimmed_body(run_table_cells(html@))) {
            Ok(runs) => r is Ok && runs_view(r->Ok_0@) == runs,
            Err(e) => r == Err::<Vec<Run>, ScheduleError>(e),
        },
{
    let cells = html_run_table(html);
    let body = trim_cells(&cells);
    extract_schedule(&body)
}

} // verus!
