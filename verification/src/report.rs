//! The records a cycle extracts from the two pages, and their rendering.

use crate::calendar::date_key;
use crate::calendar::date_key_of;
use crate::calendar::Instant;
use crate::cell::convert_link;
use crate::cell::normalized_cell;
use crate::cell::strip_link;
use crate::error::ExtractError;
use crate::error::ExtractFault;
use crate::schedule::get_current_weekly_date;
use crate::schedule::resolved_key;
use crate::schedule::ScheduleKind;
use crate::table::Cell;
use crate::table::CellView;
use crate::table::find_row;
use crate::table::first_match;
use crate::table::read_table;
use crate::table::table_rows;
use crate::table::TableFault;
use crate::text::chars_of;
use crate::text::string_of;
use crate::text::trim_from;
use crate::text::trimmed;
use vstd::prelude::*;
use vstd::string::StringExecFns;

verus! {

/// The selector of the table body that holds a page's rows.
pub const TABLE_SELECTOR: &'static str = "div.mw-parser-output table tbody";

/// The selector of a row under the table body.
pub const ROW_SELECTOR: &'static str = "tr";

/// The cells a row of the daily table has at least.
pub const DAILY_COLUMNS: usize = 8;

/// The cells a row of the weekly table has at least.
pub const WEEKLY_COLUMNS: usize = 5;

/// The daily activities: Nicholas Sandford, Vanguard Quest, Wanted (Shining
/// Blade), and the Zaishen Mission, Bounty, Combat and Vanquish.
#[derive(Debug)]
pub struct DailyData {
    pub ns: String,
    pub vq: String,
    pub sb: String,
    pub zm: String,
    pub zb: String,
    pub zc: String,
    pub zv: String,
}

/// The weekly activities: Nicholas the Traveller and the PvE and PvP bonuses.
#[derive(Debug)]
pub struct WeeklyData {
    pub ni: String,
    pub pve: String,
    pub pvp: String,
}

/// A `DailyData` as characters.
pub struct DailyText {
    pub ns: Seq<char>,
    pub vq: Seq<char>,
    pub sb: Seq<char>,
    pub zm: Seq<char>,
    pub zb: Seq<char>,
    pub zc: Seq<char>,
    pub zv: Seq<char>,
}

/// A `WeeklyData` as characters.
pub struct WeeklyText {
    pub ni: Seq<char>,
    pub pve: Seq<char>,
    pub pvp: Seq<char>,
}

impl View for DailyData {
    type V = DailyText;

    open spec fn view(&self) -> DailyText {
        DailyText {
            ns: self.ns@,
            vq: self.vq@,
            sb: self.sb@,
            zm: self.zm@,
            zb: self.zb@,
            zc: self.zc@,
            zv: self.zv@,
        }
    }
}

impl View for WeeklyData {
    type V = WeeklyText;

    open spec fn view(&self) -> WeeklyText {
        WeeklyText { ni: self.ni@, pve: self.pve@, pvp: self.pvp@ }
    }
}

/// A result with both sides as characters.
pub open spec fn viewed<T: View>(r: Result<T, ExtractError>) -> Result<T::V, ExtractFault> {
    match r {
        Ok(value) => Ok(value@),
        Err(error) => Err(error@),
    }
}

/// The fault that a table fault is reported as.
pub open spec fn reported(fault: TableFault) -> ExtractFault {
    match fault {
        TableFault::SelectorRejected => ExtractFault::SelectorRejected,
        TableFault::TableMissing => ExtractFault::TableMissing,
    }
}

/// A cell's inner markup without the white space around it.
pub open spec fn cell_markup(cell: CellView) -> Seq<char> {
    trimmed(cell.html)
}

/// A cell as text with its link kept.
pub open spec fn linked_cell(cell: CellView) -> Seq<char> {
    normalized_cell(cell_markup(cell), true)
}

/// A cell as text with its link dropped.
pub open spec fn plain_cell(cell: CellView) -> Seq<char> {
    normalized_cell(cell_markup(cell), false)
}

/// The daily record of a table: the cells 1 to 6 of the first row that bears
/// `daily_key` are the Zaishen Mission, Bounty, Combat and Vanquish, Wanted
/// and the Vanguard Quest; cell 7 of the first row that bears `ns_key` is
/// Nicholas Sandford. All keep their links.
pub open spec fn daily_record(
    rows: Seq<Seq<CellView>>,
    daily_key: Seq<char>,
    ns_key: Seq<char>,
) -> Result<DailyText, ExtractFault> {
    match first_match(rows, daily_key, DAILY_COLUMNS as nat) {
        None => Err(ExtractFault::DailyRowMissing(daily_key)),
        Some(i) => match first_match(rows, ns_key, DAILY_COLUMNS as nat) {
            None => Err(ExtractFault::SandfordRowMissing(ns_key)),
            Some(j) => Ok(
                DailyText {
                    zm: linked_cell(rows[i][1]),
                    zb: linked_cell(rows[i][2]),
                    zc: linked_cell(rows[i][3]),
                    zv: linked_cell(rows[i][4]),
                    sb: linked_cell(rows[i][5]),
                    vq: linked_cell(rows[i][6]),
                    ns: linked_cell(rows[j][7]),
                },
            ),
        },
    }
}

/// The weekly record of a table: the cells 1 and 2 of the first row that
/// bears `key` are the PvE and the PvP bonus, without links; cell 3 is
/// Nicholas the Traveller, with its link.
pub open spec fn weekly_record(rows: Seq<Seq<CellView>>, key: Seq<char>) -> Result<
    WeeklyText,
    ExtractFault,
> {
    match first_match(rows, key, WEEKLY_COLUMNS as nat) {
        None => Err(ExtractFault::WeeklyRowMissing(key)),
        Some(i) => Ok(
            WeeklyText {
                pve: plain_cell(rows[i][1]),
                pvp: plain_cell(rows[i][2]),
                ni: linked_cell(rows[i][3]),
            },
        ),
    }
}

/// A cell's inner markup without the white space around it.
pub fn get_html(cell: &Cell) -> (markup: String)
    ensures
        markup@ == cell_markup(cell@),
{
    let all = chars_of(cell.html.as_str());
    assert(all@.skip(0) == all@);
    string_of(&trim_from(&all, 0))
}

fn linked(cell: &Cell) -> (text: String)
    ensures
        text@ == linked_cell(cell@),
{
    convert_link(get_html(cell).as_str()).unwrap()
}

fn plain(cell: &Cell) -> (text: String)
    ensures
        text@ == plain_cell(cell@),
{
    strip_link(get_html(cell).as_str()).unwrap()
}

/// The daily record of the rows of a table.
pub fn extract_daily(rows: &Vec<Vec<Cell>>, daily_key: &str, ns_key: &str) -> (r: Result<
    DailyData,
    ExtractError,
>)
    ensures
        viewed(r) == daily_record(rows.deep_view(), daily_key@, ns_key@),
{
    let i = match find_row(rows, daily_key, DAILY_COLUMNS) {
        Some(i) => i,
        None => {
            return Err(ExtractError::DailyRowMissing(String::from_str(daily_key)));
        },
    };
    let j = match find_row(rows, ns_key, DAILY_COLUMNS) {
        Some(j) => j,
        None => {
            return Err(ExtractError::SandfordRowMissing(String::from_str(ns_key)));
        },
    };
    let row = &rows[i];
    let ns_row = &rows[j];
    Ok(
        DailyData {
            zm: linked(&row[1]),
            zb: linked(&row[2]),
            zc: linked(&row[3]),
            zv: linked(&row[4]),
            sb: linked(&row[5]),
            vq: linked(&row[6]),
            ns: linked(&ns_row[7]),
        },
    )
}

/// The weekly record of the rows of a table.
pub fn extract_weekly(rows: &Vec<Vec<Cell>>, key: &str) -> (r: Result<WeeklyData, ExtractError>)
    ensures
        viewed(r) == weekly_record(rows.deep_view(), key@),
{
    let i = match find_row(rows, key, WEEKLY_COLUMNS) {
        Some(i) => i,
        None => {
            return Err(ExtractError::WeeklyRowMissing(String::from_str(key)));
        },
    };
    let row = &rows[i];
    Ok(WeeklyData { pve: plain(&row[1]), pvp: plain(&row[2]), ni: linked(&row[3]) })
}

/// The rows of the first element of `document` that the selector `table`
/// matches: the elements under it that `row` matches, each as its cells.
pub fn read_rows(document: &str, table: &str, row: &str) -> (r: Result<
    Vec<Vec<Cell>>,
    ExtractError,
>)
    ensures
        match r {
            Ok(rows) => table_rows(document@, table@, row@) == Ok::<
                Seq<Seq<CellView>>,
                TableFault,
            >(rows.deep_view()),
            Err(error) => table_rows(document@, table@, row@) matches Err(fault) && error@
                == reported(fault),
        },
{
    match read_table(document, table, row) {
        Ok(rows) => Ok(rows),
        Err(TableFault::SelectorRejected) => Err(ExtractError::SelectorRejected),
        Err(TableFault::TableMissing) => Err(ExtractError::TableMissing),
    }
}

/// The daily record of the page `body`: its primary cells from the row dated
/// with the day of `daily_date`, Nicholas Sandford from the row dated with the
/// day of `ns_date`. The two dates are looked up apart, for they may differ.
pub fn get_daily_data(body: &str, daily_date: &Instant, ns_date: &Instant) -> (r: Result<
    DailyData,
    ExtractError,
>)
    ensures
        viewed(r) == match table_rows(body@, TABLE_SELECTOR@, ROW_SELECTOR@) {
            Ok(rows) => daily_record(rows, date_key_of(daily_date@), date_key_of(ns_date@)),
            Err(fault) => Err(reported(fault)),
        },
{
    let daily_search = date_key(daily_date);
    let ns_search = date_key(ns_date);
    match read_rows(body, TABLE_SELECTOR, ROW_SELECTOR) {
        Ok(rows) => extract_daily(&rows, daily_search.as_str(), ns_search.as_str()),
        Err(error) => Err(error),
    }
}

/// The weekly record of the page `body`, from the row dated with the day the
/// weekly schedule resolves `now` to.
pub fn get_weekly_data(body: &str, now: &Instant) -> (r: Result<WeeklyData, ExtractError>)
    ensures
        viewed(r) == match table_rows(body@, TABLE_SELECTOR@, ROW_SELECTOR@) {
            Ok(rows) => weekly_record(rows, resolved_key(now@, ScheduleKind::Weekly)),
            Err(fault) => Err(reported(fault)),
        },
{
    let weekly_date = get_current_weekly_date(now);
    let search = date_key(&weekly_date);
    match read_rows(body, TABLE_SELECTOR, ROW_SELECTOR) {
        Ok(rows) => extract_weekly(&rows, search.as_str()),
        Err(error) => Err(error),
    }
}

} // verus!
