//! Reading a page's table and finding the row that bears a date key.

use crate::text::chars_of;
use crate::text::trim_from;
use crate::text::trimmed;
use scraper::Html;
use scraper::Selector;
use vstd::prelude::*;

verus! {

/// A table cell as read from a page: all the text under it, and its inner
/// markup.
#[derive(Debug)]
pub struct Cell {
    pub text: String,
    pub html: String,
}

/// A `Cell` as characters.
pub struct CellView {
    pub text: Seq<char>,
    pub html: Seq<char>,
}

impl View for Cell {
    type V = CellView;

    open spec fn view(&self) -> CellView {
        CellView { text: self.text@, html: self.html@ }
    }
}

impl DeepView for Cell {
    type V = CellView;

    open spec fn deep_view(&self) -> CellView {
        self@
    }
}

/// Why a page has no table to read.
#[derive(Clone, Copy, Debug, PartialEq, Eq, Structural)]
pub enum TableFault {
    /// One of the two selectors is not a selector.
    SelectorRejected,
    /// No element of the page matches the table selector.
    TableMissing,
}

/// The rows of the first element of the HTML document `document` that the CSS
/// selector `table` matches: the elements under it that the selector `row`
/// matches, in document order, each as the list of its child elements.
pub uninterp spec fn table_rows(document: Seq<char>, table: Seq<char>, row: Seq<char>) -> Result<
    Seq<Seq<CellView>>,
    TableFault,
>;

/// `Selector::parse` on both selectors, `Html::parse_document` on the
/// document, `Html::select` for the first element matching `table`,
/// `ElementRef::select` under it for the rows, and of each row its
/// `child_elements`, each with the text that `ElementRef::text` iterates over
/// and its `inner_html`. All this is a function of the three texts; nothing
/// more is claimed of it.
#[verifier::external_body]
pub(crate) fn read_table(document: &str, table: &str, row: &str) -> (r: Result<
    Vec<Vec<Cell>>,
    TableFault,
>)
    ensures
        table_rows(document@, table@, row@) == match r {
            Ok(rows) => Ok(rows.deep_view()),
            Err(fault) => Err(fault),
        },
{
    let (Ok(table), Ok(row)) = (Selector::parse(table), Selector::parse(row)) else {
        return Err(TableFault::SelectorRejected);
    };
    let page = Html::parse_document(document);
    let Some(body) = page.select(&table).next() else {
        return Err(TableFault::TableMissing);
    };
    let cells = |tr: scraper::ElementRef| {
        tr.child_elements().map(|td| Cell { text: td.text().collect(), html: td.inner_html() })
            .collect()
    };
    Ok(body.select(&row).map(cells).collect())
}

/// Whether a row bears `key`: it has at least `min_columns` cells, and at
/// least one, and the text of the first, without the white space around it,
/// is `key`.
pub open spec fn row_matches(row: Seq<CellView>, key: Seq<char>, min_columns: nat) -> bool {
    &&& row.len() >= min_columns
    &&& row.len() >= 1
    &&& trimmed(row[0].text) == key
}

/// Whether row `i` is the first of `rows` that bears `key`.
pub open spec fn is_first_match(
    rows: Seq<Seq<CellView>>,
    key: Seq<char>,
    min_columns: nat,
    i: int,
) -> bool {
    &&& 0 <= i < rows.len()
    &&& row_matches(rows[i], key, min_columns)
    &&& forall|j: int| 0 <= j < i ==> !row_matches(#[trigger] rows[j], key, min_columns)
}

/// The index of the first of `rows` that bears `key`, if any does.
pub open spec fn first_match(rows: Seq<Seq<CellView>>, key: Seq<char>, min_columns: nat) -> Option<
    int,
> {
    if exists|i: int| is_first_match(rows, key, min_columns, i) {
        Some(choose|i: int| is_first_match(rows, key, min_columns, i))
    } else {
        None
    }
}

/// Whether `a` and `b` hold the same characters.
pub fn same_chars(a: &Vec<char>, b: &Vec<char>) -> (r: bool)
    ensures
        r == (a@ == b@),
{
    if a.len() != b.len() {
        return false;
    }
    let mut i: usize = 0;
    while i < a.len()
        invariant
            i <= a.len(),
            a.len() == b.len(),
            a@.take(i as int) == b@.take(i as int),
        decreases a.len() - i,
    {
        if a[i] != b[i] {
            return false;
        }
        i += 1;
    }
    assert(a@.take(a.len() as int) == a@);
    assert(b@.take(b.len() as int) == b@);
    true
}

fn row_bears(row: &Vec<Cell>, key: &Vec<char>, min_columns: usize) -> (r: bool)
    ensures
        r == row_matches(row.deep_view(), key@, min_columns as nat),
{
    if row.len() < min_columns || row.len() < 1 {
        return false;
    }
    let text = chars_of(row[0].text.as_str());
    let shown = trim_from(&text, 0);
    assert(text@.skip(0) == text@);
    same_chars(&shown, key)
}

/// Finds the first row that bears `key` among those with at least
/// `min_columns` cells. An empty table has none.
pub fn find_row(rows: &Vec<Vec<Cell>>, key: &str, min_columns: usize) -> (r: Option<usize>)
    ensures
        r == match first_match(rows.deep_view(), key@, min_columns as nat) {
            Some(i) => Some(i as usize),
            None => None,
        },
        r matches Some(i) ==> is_first_match(rows.deep_view(), key@, min_columns as nat, i as int),
        r is None <==> forall|j: int|
            0 <= j < rows.len() ==> !row_matches(
                #[trigger] rows.deep_view()[j],
                key@,
                min_columns as nat,
            ),
{
    let wanted = chars_of(key);
    let ghost view = rows.deep_view();
    let ghost min = min_columns as nat;
    let mut i: usize = 0;
    while i < rows.len()
        invariant
            i <= rows.len(),
            wanted@ == key@,
            view == rows.deep_view(),
            min == min_columns as nat,
            forall|j: int| 0 <= j < i ==> !row_matches(#[trigger] view[j], key@, min),
        decreases rows.len() - i,
    {
        if row_bears(&rows[i], &wanted, min_columns) {
            proof {
                lemma_first_match_is(view, key@, min, i as int);
            }
            return Some(i);
        }
        i += 1;
    }
    None
}

/// The first matching row is the one `first_match` names.
pub proof fn lemma_first_match_is(
    rows: Seq<Seq<CellView>>,
    key: Seq<char>,
    min_columns: nat,
    i: int,
)
    requires
        is_first_match(rows, key, min_columns, i),
    ensures
        first_match(rows, key, min_columns) == Some(i),
{
}

} // verus!
