//! Rendering the two records: as plain text, as Markdown, as an HTML page, or
//! as the body of a chat message. Every form shows the fields in one order:
//! Nicholas Sandford, Vanguard Quest, Wanted; the Zaishen Mission, Bounty,
//! Combat and Vanquish; Nicholas the Traveller, the PvE and the PvP bonus.

use crate::calendar::date_key;
use crate::calendar::date_key_of;
use crate::calendar::DAY_SECONDS;
use crate::calendar::EARLIEST_SECONDS;
use crate::calendar::Instant;
use crate::error::ExtractError;
use crate::error::ExtractFault;
use crate::links::html_linked;
use crate::links::markdown_to_html_links;
use crate::links::strip_markdown_links;
use crate::links::unlinked;
use crate::markup::without_tags;
use crate::report::daily_record;
use crate::report::DailyData;
use crate::report::DailyText;
use crate::report::get_daily_data;
use crate::report::get_weekly_data;
use crate::report::reported;
use crate::report::ROW_SELECTOR;
use crate::report::TABLE_SELECTOR;
use crate::report::weekly_record;
use crate::report::WeeklyData;
use crate::report::WeeklyText;
use crate::schedule::get_current_daily_date;
use crate::schedule::get_nicholas_sandford_date;
use crate::schedule::reaches_back;
use crate::schedule::resolved_key;
use crate::schedule::ScheduleKind;
use crate::table::CellView;
use crate::table::table_rows;
use crate::table::TableFault;
use vstd::prelude::*;
use vstd::string::StringExecFns;

verus! {

/// The forms a report is rendered in.
#[derive(Clone, Copy, Debug, PartialEq, Eq, Structural)]
pub enum OutputFormat {
    /// The body of a chat message.
    Discord,
    /// Plain text.
    Txt,
    /// Markdown.
    Md,
    /// An HTML page.
    Html,
}

/// A field as a form shows it: in plain text without link syntax and tags, in
/// HTML with anchors for links, else as it is.
pub open spec fn shown(field: Seq<char>, format: OutputFormat) -> Seq<char> {
    match format {
        OutputFormat::Txt => without_tags(unlinked(field)),
        OutputFormat::Html => html_linked(field),
        _ => field,
    }
}

/// The ten fields of the two records in the order every form shows them.
pub open spec fn fields_in_order(daily: DailyText, weekly: WeeklyText) -> Seq<Seq<char>> {
    seq![
        daily.ns,
        daily.vq,
        daily.sb,
        daily.zm,
        daily.zb,
        daily.zc,
        daily.zv,
        weekly.ni,
        weekly.pve,
        weekly.pvp,
    ]
}

/// What a form puts in front of the date, where it shows the date: the title
/// line in text and Markdown, the page's head and heading in HTML.
pub open spec fn opening(date: Seq<char>, format: OutputFormat) -> Seq<char> {
    match format {
        OutputFormat::Discord => Seq::empty(),
        OutputFormat::Txt => "Dailies for "@ + date + "\n\n"@,
        OutputFormat::Md => "# Dailies for "@ + date + "\n\n"@,
        OutputFormat::Html => "<!DOCTYPE html>\n<html>\n<head>\n<meta charset=\"utf-8\">\n<title>Dailies for "@
            + date
            + "</title>\n<style>\nbody { font-family: Arial, sans-serif; max-width: 800px; margin: 20px auto; padding: 20px; }\nh1 { color: #2c3e50; }\nh2 { color: #34495e; margin-top: 30px; }\n.activity { margin: 10px 0; padding: 8px; background: #ecf0f1; border-radius: 4px; }\n.label { font-weight: bold; display: inline-block; width: 200px; }\na { color: #3498db; text-decoration: none; }\na:hover { text-decoration: underline; }\n</style>\n</head>\n<body>\n<h1>Dailies for "@
            + date + "</h1>\n"@,
    }
}

/// What ends a form after the last field.
pub open spec fn closing(format: OutputFormat) -> Seq<char> {
    match format {
        OutputFormat::Html => "</div>\n</body>\n</html>"@,
        _ => Seq::empty(),
    }
}

/// What a form puts in front of field `index`, counted in the order of
/// `fields_in_order`: the end of the field before, and the field's label.
pub open spec fn lead(index: int, format: OutputFormat) -> Seq<char> {
    match format {
        OutputFormat::Discord => if index == 0 {
            "`Nicholas Sandford.....`: "@
        } else if index == 1 {
            "\n`Vanguard Quest........`: "@
        } else if index == 2 {
            "\n`Wanted................`: "@
        } else if index == 3 {
            "\n\n`Zaishen Mission.......`: "@
        } else if index == 4 {
            "\n`Zaishen Bounty........`: "@
        } else if index == 5 {
            "\n`Zaishen Combat........`: "@
        } else if index == 6 {
            "\n`Zaishen Vanquish......`: "@
        } else if index == 7 {
            "\n\n**Weekly bonuses:**\n`Nicholas the Traveller`: "@
        } else if index == 8 {
            "\n`PvE Bonus.............`: "@
        } else {
            "\n`PvP Bonus.............`: "@
        },
        OutputFormat::Txt => if index == 0 {
            "Nicholas Sandford.....: "@
        } else if index == 1 {
            "\nVanguard Quest........: "@
        } else if index == 2 {
            "\nWanted................: "@
        } else if index == 3 {
            "\n\nZaishen Mission.......: "@
        } else if index == 4 {
            "\nZaishen Bounty........: "@
        } else if index == 5 {
            "\nZaishen Combat........: "@
        } else if index == 6 {
            "\nZaishen Vanquish......: "@
        } else if index == 7 {
            "\n\nWeekly bonuses:\nNicholas the Traveller: "@
        } else if index == 8 {
            "\nPvE Bonus.............: "@
        } else {
            "\nPvP Bonus.............: "@
        },
        OutputFormat::Md => if index == 0 {
            "- **Nicholas Sandford**: "@
        } else if index == 1 {
            "\n- **Vanguard Quest**: "@
        } else if index == 2 {
            "\n- **Wanted**: "@
        } else if index == 3 {
            "\n\n## Zaishen Quests\n\n- **Zaishen Mission**: "@
        } else if index == 4 {
            "\n- **Zaishen Bounty**: "@
        } else if index == 5 {
            "\n- **Zaishen Combat**: "@
        } else if index == 6 {
            "\n- **Zaishen Vanquish**: "@
        } else if index == 7 {
            "\n\n## Weekly bonuses\n\n- **Nicholas the Traveller**: "@
        } else if index == 8 {
            "\n- **PvE Bonus**: "@
        } else {
            "\n- **PvP Bonus**: "@
        },
        OutputFormat::Html => if index == 0 {
            "<div class=\"activity\"><span class=\"label\">Nicholas Sandford:</span> "@
        } else if index == 1 {
            "</div>\n<div class=\"activity\"><span class=\"label\">Vanguard Quest:</span> "@
        } else if index == 2 {
            "</div>\n<div class=\"activity\"><span class=\"label\">Wanted:</span> "@
        } else if index == 3 {
            "</div>\n<h2>Zaishen Quests</h2>\n<div class=\"activity\"><span class=\"label\">Zaishen Mission:</span> "@
        } else if index == 4 {
            "</div>\n<div class=\"activity\"><span class=\"label\">Zaishen Bounty:</span> "@
        } else if index == 5 {
            "</div>\n<div class=\"activity\"><span class=\"label\">Zaishen Combat:</span> "@
        } else if index == 6 {
            "</div>\n<div class=\"activity\"><span class=\"label\">Zaishen Vanquish:</span> "@
        } else if index == 7 {
            "</div>\n<h2>Weekly bonuses</h2>\n<div class=\"activity\"><span class=\"label\">Nicholas the Traveller:</span> "@
        } else if index == 8 {
            "</div>\n<div class=\"activity\"><span class=\"label\">PvE Bonus:</span> "@
        } else {
            "</div>\n<div class=\"activity\"><span class=\"label\">PvP Bonus:</span> "@
        },
    }
}

/// The first `count` fields of a form, each behind its lead.
pub open spec fn body_upto(fields: Seq<Seq<char>>, format: OutputFormat, count: int) -> Seq<char>
    decreases count,
{
    if count <= 0 {
        Seq::empty()
    } else {
        body_upto(fields, format, count - 1) + lead(count - 1, format) + shown(
            fields[count - 1],
            format,
        )
    }
}

/// The report on the two records for the day whose date key is `date`.
pub open spec fn rendered(
    daily: DailyText,
    weekly: WeeklyText,
    date: Seq<char>,
    format: OutputFormat,
) -> Seq<char> {
    opening(date, format) + body_upto(fields_in_order(daily, weekly), format, 10) + closing(format)
}

fn lead_label(index: usize, format: OutputFormat) -> (label: &'static str)
    ensures
        label@ == lead(index as int, format),
{
    match format {
        OutputFormat::Discord => if index == 0 {
            "`Nicholas Sandford.....`: "
        } else if index == 1 {
            "\n`Vanguard Quest........`: "
        } else if index == 2 {
            "\n`Wanted................`: "
        } else if index == 3 {
            "\n\n`Zaishen Mission.......`: "
        } else if index == 4 {
            "\n`Zaishen Bounty........`: "
        } else if index == 5 {
            "\n`Zaishen Combat........`: "
        } else if index == 6 {
            "\n`Zaishen Vanquish......`: "
        } else if index == 7 {
            "\n\n**Weekly bonuses:**\n`Nicholas the Traveller`: "
        } else if index == 8 {
            "\n`PvE Bonus.............`: "
        } else {
            "\n`PvP Bonus.............`: "
        },
        OutputFormat::Txt => if index == 0 {
            "Nicholas Sandford.....: "
        } else if index == 1 {
            "\nVanguard Quest........: "
        } else if index == 2 {
            "\nWanted................: "
        } else if index == 3 {
            "\n\nZaishen Mission.......: "
        } else if index == 4 {
            "\nZaishen Bounty........: "
        } else if index == 5 {
            "\nZaishen Combat........: "
        } else if index == 6 {
            "\nZaishen Vanquish......: "
        } else if index == 7 {
            "\n\nWeekly bonuses:\nNicholas the Traveller: "
        } else if index == 8 {
            "\nPvE Bonus.............: "
        } else {
            "\nPvP Bonus.............: "
        },
        OutputFormat::Md => if index == 0 {
            "- **Nicholas Sandford**: "
        } else if index == 1 {
            "\n- **Vanguard Quest**: "
        } else if index == 2 {
            "\n- **Wanted**: "
        } else if index == 3 {
            "\n\n## Zaishen Quests\n\n- **Zaishen Mission**: "
        } else if index == 4 {
            "\n- **Zaishen Bounty**: "
        } else if index == 5 {
            "\n- **Zaishen Combat**: "
        } else if index == 6 {
            "\n- **Zaishen Vanquish**: "
        } else if index == 7 {
            "\n\n## Weekly bonuses\n\n- **Nicholas the Traveller**: "
        } else if index == 8 {
            "\n- **PvE Bonus**: "
        } else {
            "\n- **PvP Bonus**: "
        },
        OutputFormat::Html => if index == 0 {
            "<div class=\"activity\"><span class=\"label\">Nicholas Sandford:</span> "
        } else if index == 1 {
            "</div>\n<div class=\"activity\"><span class=\"label\">Vanguard Quest:</span> "
        } else if index == 2 {
            "</div>\n<div class=\"activity\"><span class=\"label\">Wanted:</span> "
        } else if index == 3 {
            "</div>\n<h2>Zaishen Quests</h2>\n<div class=\"activity\"><span class=\"label\">Zaishen Mission:</span> "
        } else if index == 4 {
            "</div>\n<div class=\"activity\"><span class=\"label\">Zaishen Bounty:</span> "
        } else if index == 5 {
            "</div>\n<div class=\"activity\"><span class=\"label\">Zaishen Combat:</span> "
        } else if index == 6 {
            "</div>\n<div class=\"activity\"><span class=\"label\">Zaishen Vanquish:</span> "
        } else if index == 7 {
            "</div>\n<h2>Weekly bonuses</h2>\n<div class=\"activity\"><span class=\"label\">Nicholas the Traveller:</span> "
        } else if index == 8 {
            "</div>\n<div class=\"activity\"><span class=\"label\">PvE Bonus:</span> "
        } else {
            "</div>\n<div class=\"activity\"><span class=\"label\">PvP Bonus:</span> "
        },
    }
}

fn push_opening(out: &mut String, date: &str, format: OutputFormat)
    ensures
        final(out)@ == old(out)@ + opening(date@, format),
{
    match format {
        OutputFormat::Discord => {
        },
        OutputFormat::Txt => {
            out.append("Dailies for ");
            out.append(date);
            out.append("\n\n");
        },
        OutputFormat::Md => {
            out.append("# Dailies for ");
            out.append(date);
            out.append("\n\n");
        },
        OutputFormat::Html => {
            out.append(
                "<!DOCTYPE html>\n<html>\n<head>\n<meta charset=\"utf-8\">\n<title>Dailies for ",
            );
            out.append(date);
            out.append(
                "</title>\n<style>\nbody { font-family: Arial, sans-serif; max-width: 800px; margin: 20px auto; padding: 20px; }\nh1 { color: #2c3e50; }\nh2 { color: #34495e; margin-top: 30px; }\n.activity { margin: 10px 0; padding: 8px; background: #ecf0f1; border-radius: 4px; }\n.label { font-weight: bold; display: inline-block; width: 200px; }\na { color: #3498db; text-decoration: none; }\na:hover { text-decoration: underline; }\n</style>\n</head>\n<body>\n<h1>Dailies for ",
            );
            out.append(date);
            out.append("</h1>\n");
        },
    }
}

fn show(field: &String, format: OutputFormat) -> (text: String)
    ensures
        text@ == shown(field@, format),
{
    match format {
        OutputFormat::Txt => strip_markdown_links(field.as_str()),
        OutputFormat::Html => markdown_to_html_links(field.as_str()),
        _ => field.clone(),
    }
}

fn field_at<'a>(daily: &'a DailyData, weekly: &'a WeeklyData, index: usize) -> (field: &'a String)
    requires
        index < 10,
    ensures
        field@ == fields_in_order(daily@, weekly@)[index as int],
{
    if index == 0 {
        &daily.ns
    } else if index == 1 {
        &daily.vq
    } else if index == 2 {
        &daily.sb
    } else if index == 3 {
        &daily.zm
    } else if index == 4 {
        &daily.zb
    } else if index == 5 {
        &daily.zc
    } else if index == 6 {
        &daily.zv
    } else if index == 7 {
        &weekly.ni
    } else if index == 8 {
        &weekly.pve
    } else {
        &weekly.pvp
    }
}

/// The report on the two records, headed by the date key of `now` where the
/// form has a heading.
pub fn format_output(
    daily: &DailyData,
    weekly: &WeeklyData,
    now: &Instant,
    format: &OutputFormat,
) -> (out: String)
    ensures
        out@ == rendered(daily@, weekly@, date_key_of(now@), *format),
{
    let date_str = date_key(now);
    let mut out = String::new();
    push_opening(&mut out, date_str.as_str(), *format);
    let ghost fields = fields_in_order(daily@, weekly@);
    let ghost head = out@;
    let mut index: usize = 0;
    while index < 10
        invariant
            index <= 10,
            fields == fields_in_order(daily@, weekly@),
            out@ == head + body_upto(fields, *format, index as int),
        decreases 10 - index,
    {
        out.append(lead_label(index, *format));
        out.append(show(field_at(daily, weekly, index), *format).as_str());
        index += 1;
    }
    match format {
        OutputFormat::Html => {
            out.append("</div>\n</body>\n</html>");
        },
        _ => {
        },
    }
    out
}

/// The title of the chat message for the day of `now`.
pub open spec fn message_title(date: Seq<char>) -> Seq<char> {
    "Dailies for "@ + date
}

/// The title and the description of the chat message on the two records.
pub fn create_daily_message(daily: &DailyData, weekly: &WeeklyData, now: &Instant) -> (message: (
    String,
    String,
))
    ensures
        message.0@ == message_title(date_key_of(now@)),
        message.1@ == rendered(daily@, weekly@, date_key_of(now@), OutputFormat::Discord),
{
    let mut title = String::from_str("Dailies for ");
    title.append(date_key(now).as_str());
    let description = format_output(daily, weekly, now, &OutputFormat::Discord);
    (title, description)
}

/// The report of a cycle as characters: the daily record is read for the days
/// the two daily schedules resolve `now` to, the weekly record for the day the
/// weekly schedule resolves it to, and the report is headed by the primary
/// day. A fault of the daily page comes before one of the weekly page.
pub open spec fn cycle_report(
    daily_rows: Result<Seq<Seq<CellView>>, TableFault>,
    weekly_rows: Result<Seq<Seq<CellView>>, TableFault>,
    now: int,
    format: OutputFormat,
) -> Result<Seq<char>, ExtractFault> {
    let daily = match daily_rows {
        Ok(rows) => daily_record(
            rows,
            resolved_key(now, ScheduleKind::Primary),
            resolved_key(now, ScheduleKind::Secondary),
        ),
        Err(fault) => Err(reported(fault)),
    };
    let weekly = match weekly_rows {
        Ok(rows) => weekly_record(rows, resolved_key(now, ScheduleKind::Weekly)),
        Err(fault) => Err(reported(fault)),
    };
    match daily {
        Err(fault) => Err(fault),
        Ok(d) => match weekly {
            Err(fault) => Err(fault),
            Ok(w) => Ok(rendered(d, w, resolved_key(now, ScheduleKind::Primary), format)),
        },
    }
}

/// The report of the cycle at `now` on the two pages, in the form `format`.
/// Before the primary cutoff of the day `now` must not lie on the calendar's
/// first day.
pub fn render_report(daily_body: &str, weekly_body: &str, now: &Instant, format: &OutputFormat) -> (r:
    Result<String, ExtractError>)
    requires
        reaches_back(now@, ScheduleKind::Primary) ==> now@ - DAY_SECONDS >= EARLIEST_SECONDS,
    ensures
        match r {
            Ok(text) => cycle_report(
                table_rows(daily_body@, TABLE_SELECTOR@, ROW_SELECTOR@),
                table_rows(weekly_body@, TABLE_SELECTOR@, ROW_SELECTOR@),
                now@,
                *format,
            ) == Ok::<Seq<char>, ExtractFault>(text@),
            Err(error) => cycle_report(
                table_rows(daily_body@, TABLE_SELECTOR@, ROW_SELECTOR@),
                table_rows(weekly_body@, TABLE_SELECTOR@, ROW_SELECTOR@),
                now@,
                *format,
            ) == Err::<Seq<char>, ExtractFault>(error@),
        },
{
    let daily_date = get_current_daily_date(now);
    let ns_date = get_nicholas_sandford_date(now);
    let daily = match get_daily_data(daily_body, &daily_date, &ns_date) {
        Ok(daily) => daily,
        Err(error) => {
            return Err(error);
        },
    };
    let weekly = match get_weekly_data(weekly_body, now) {
        Ok(weekly) => weekly,
        Err(error) => {
            return Err(error);
        },
    };
    Ok(format_output(&daily, &weekly, &daily_date, format))
}

} // verus!
