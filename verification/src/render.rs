use vstd::prelude::*;
use chrono::TimeZone;
use crate::config::Colors;
use crate::entry::Entry;
use crate::order;
use crate::size;
use crate::text::{self, chars_of, string_from_chars};

verus! {

/// `text` wrapped in the ANSI escape that sets color `code` and the one that
/// resets it.
pub open spec fn colored_spec(text: Seq<char>, code: Seq<char>) -> Seq<char> {
    seq!['\x1b', '['] + code + seq!['m'] + text + seq!['\x1b', '[', '0', 'm']
}

fn push_colored(out: &mut Vec<char>, text: &Vec<char>, code: &str)
    ensures
        final(out)@ == old(out)@ + colored_spec(text@, code@),
{
    let ghost start = out@;
    out.push('\x1b');
    out.push('[');
    text::push_str(out, code);
    out.push('m');
    let ghost mid = out@;
    for i in 0..text.len()
        invariant
            out@ == mid + text@.take(i as int),
    {
        out.push(text[i]);
        assert(text@.take(i + 1) =~= text@.take(i as int).push(text@[i as int]));
    }
    assert(text@.take(text.len() as int) =~= text@);
    out.push('\x1b');
    out.push('[');
    out.push('0');
    out.push('m');
    assert(out@ =~= start + colored_spec(text@, code@));
}

/// `text` in the color `code` of the terminal.
pub fn colored(text: &str, code: &str) -> (r: String)
    ensures
        r@ == colored_spec(text@, code@),
{
    let mut out: Vec<char> = Vec::new();
    let t = chars_of(text);
    push_colored(&mut out, &t, code);
    assert(out@ =~= colored_spec(text@, code@));
    string_from_chars(&out)
}

/// The color code an entry's name is shown in: directories, executables and
/// other files each have their own.
pub open spec fn name_color(e: Entry, colors: Colors) -> Seq<char> {
    if e.is_dir {
        colors.dir@
    } else if e.is_exec {
        colors.executable@
    } else {
        colors.file@
    }
}

/// One line of a listing: the permission string right-aligned in 10 columns
/// (only with `show_permissions`), then the size in 8, the date in 11 and the
/// time in 8 columns, each followed by a space and in its color, then the name in
/// the color of its kind.
pub open spec fn entry_line_spec(
    e: Entry,
    show_permissions: bool,
    colors: Colors,
    date: Seq<char>,
    time: Seq<char>,
) -> Seq<char> {
    (if show_permissions {
        text::pad_left(e.permissions@, 10).push(' ')
    } else {
        Seq::empty()
    }) + colored_spec(
        text::pad_left(size::format_size_spec(e.size as nat, e.is_dir), 8).push(' '),
        colors.size@,
    ) + colored_spec(text::pad_left(date, 11).push(' '), colors.date@) + colored_spec(
        text::pad_left(time, 8).push(' '),
        colors.time@,
    ) + colored_spec(e.name@, name_color(e, colors))
}

fn padded_field(s: &str, width: usize) -> (r: Vec<char>)
    ensures
        r@ == text::pad_left(s@, width as nat).push(' '),
{
    let mut out: Vec<char> = Vec::new();
    let v = chars_of(s);
    text::push_padded(&mut out, &v, width);
    out.push(' ');
    assert(out@ =~= text::pad_left(s@, width as nat).push(' '));
    out
}

/// The text of one listing line for `entry`, given its date and time as shown
/// (see [`entry_line_spec`]).
pub fn entry_line(entry: &Entry, show_permissions: bool, colors: &Colors, date: &str, time: &str) -> (r: String)
    ensures
        r@ == entry_line_spec(*entry, show_permissions, *colors, date@, time@),
{
    let mut out: Vec<char> = Vec::new();
    if show_permissions {
        let p = padded_field(entry.permissions.as_str(), 10);
        for i in 0..p.len()
            invariant
                out@ == p@.take(i as int),
        {
            out.push(p[i]);
            assert(p@.take(i + 1) =~= p@.take(i as int).push(p@[i as int]));
        }
        assert(p@.take(p.len() as int) =~= p@);
    }
    let ghost head = out@;
    let size_text = size::format_size(entry.size, entry.is_dir);
    let s = padded_field(size_text.as_str(), 8);
    push_colored(&mut out, &s, colors.size.as_str());
    let d = padded_field(date, 11);
    push_colored(&mut out, &d, colors.date.as_str());
    let t = padded_field(time, 8);
    push_colored(&mut out, &t, colors.time.as_str());
    let name = chars_of(entry.name.as_str());
    let code = if entry.is_dir {
        colors.dir.as_str()
    } else if entry.is_exec {
        colors.executable.as_str()
    } else {
        colors.file.as_str()
    };
    push_colored(&mut out, &name, code);
    assert(out@ =~= entry_line_spec(*entry, show_permissions, *colors, date@, time@));
    string_from_chars(&out)
}

/// Whether chrono can represent the time `secs` seconds from the Unix epoch:
/// `chrono::DateTime::from_timestamp(secs, 0)` gives a time exactly when the day
/// `secs.div_euclid(86_400)` falls between `NaiveDate::MIN` (1 January 262144 BCE, year -262143,
/// day -95_746_129 from the common era) and `NaiveDate::MAX` (31 December 262142
/// CE, day 95_745_399), the Unix epoch being day 719_163.
pub open spec fn chrono_time_in_range(secs: i64) -> bool {
    -8_334_601_228_800 <= secs <= 8_210_266_876_799
}

/// `c` is an ASCII decimal digit.
pub open spec fn is_digit(c: char) -> bool {
    '0' <= c && c <= '9'
}

/// `s` is a number from `lo` to `hi` written without padding: one or two digits,
/// the first not zero.
pub open spec fn is_unpadded_number(s: Seq<char>, lo: int, hi: int) -> bool {
    &&& 1 <= s.len() <= 2
    &&& forall|i: int| 0 <= i < s.len() ==> is_digit(#[trigger] s[i])
    &&& s[0] != '0'
    &&& lo <= (if s.len() == 1 {
        s[0] as int - 48
    } else {
        10 * (s[0] as int - 48) + (s[1] as int - 48)
    }) <= hi
}

/// `m` is the English three-letter abbreviation of a month.
pub open spec fn is_month_abbreviation(m: Seq<char>) -> bool {
    ||| m == seq!['J', 'a', 'n']
    ||| m == seq!['F', 'e', 'b']
    ||| m == seq!['M', 'a', 'r']
    ||| m == seq!['A', 'p', 'r']
    ||| m == seq!['M', 'a', 'y']
    ||| m == seq!['J', 'u', 'n']
    ||| m == seq!['J', 'u', 'l']
    ||| m == seq!['A', 'u', 'g']
    ||| m == seq!['S', 'e', 'p']
    ||| m == seq!['O', 'c', 't']
    ||| m == seq!['N', 'o', 'v']
    ||| m == seq!['D', 'e', 'c']
}

/// `y` is a year as chrono's `%Y` prints it: four digits for years 0 to 9999,
/// else a sign and at least four digits.
pub open spec fn is_year_text(y: Seq<char>) -> bool {
    ||| y.len() == 4 && forall|i: int| 0 <= i < 4 ==> is_digit(#[trigger] y[i])
    ||| y.len() >= 5 && (y[0] == '+' || y[0] == '-') && forall|i: int|
        1 <= i < y.len() ==> is_digit(#[trigger] y[i])
}

/// A date as "%-d %b %Y" prints it: the day (1 to 31, unpadded), a space, the
/// month's abbreviation, a space, the year.
pub open spec fn is_date_text(t: Seq<char>) -> bool {
    let k: int = if t.len() >= 2 && t[1] == ' ' { 1 } else { 2 };
    &&& t.len() >= k + 9
    &&& is_unpadded_number(t.take(k), 1, 31)
    &&& t[k] == ' '
    &&& is_month_abbreviation(t.subrange(k + 1, k + 4))
    &&& t[k + 4] == ' '
    &&& is_year_text(t.skip(k + 5))
}

/// A clock time as "%-I:%M %p" prints it: the hour (1 to 12, unpadded), ':', the
/// minute in two digits (00 to 59), a space and "AM" or "PM".
pub open spec fn is_clock_text(t: Seq<char>) -> bool {
    let k: int = if t.len() >= 2 && t[1] == ':' { 1 } else { 2 };
    &&& t.len() == k + 6
    &&& is_unpadded_number(t.take(k), 1, 12)
    &&& t[k] == ':'
    &&& is_digit(t[k + 1]) && t[k + 1] <= '5'
    &&& is_digit(t[k + 2])
    &&& t[k + 3] == ' '
    &&& (t[k + 4] == 'A' || t[k + 4] == 'P')
    &&& t[k + 5] == 'M'
}

/// The text chrono's `format` gives, with format string `format`, for the naive
/// (time-zone-free) date and time `secs` seconds after 1970-01-01 00:00:00 in the
/// proleptic Gregorian calendar. A function of its arguments alone.
pub uninterp spec fn naive_text(secs: int, format: Seq<char>) -> Seq<char>;

/// `date` is the date of `secs` in some time zone whose offset from UTC is less
/// than a day, as "%-d %b %Y" prints it.
pub open spec fn local_date_at(secs: i64, date: Seq<char>) -> bool {
    exists|local: int|
        secs - 86_400 < local < secs + 86_400 && date == #[trigger] naive_text(local, "%-d %b %Y"@)
}

/// `time` is the clock time of `secs` in some time zone whose offset from UTC is
/// less than a day, as "%-I:%M %p" prints it.
pub open spec fn local_time_at(secs: i64, time: Seq<char>) -> bool {
    exists|local: int|
        secs - 86_400 < local < secs + 86_400 && time == #[trigger] naive_text(local, "%-I:%M %p"@)
}

/// `date` and `time` are the date and clock time of `secs` in one and the same
/// time zone, whose offset from UTC is less than a day.
pub open spec fn local_texts_at(secs: i64, date: Seq<char>, time: Seq<char>) -> bool {
    exists|local: int|
        secs - 86_400 < local < secs + 86_400 && date == #[trigger] naive_text(local, "%-d %b %Y"@)
            && time == naive_text(local, "%-I:%M %p"@)
}

/// What a local rendering gives, where it gives anything: a date and a clock time,
/// each in its documented shape.
pub open spec fn gives_text_shapes(r: Option<(String, String)>) -> bool {
    match r {
        Some(p) => is_date_text(p.0@) && is_clock_text(p.1@),
        None => true,
    }
}

/// Renders `secs` (seconds from the Unix epoch) in the machine's local time zone
/// with `chrono`: `chrono::Local.timestamp_opt(secs, 0)`, kept where it names a
/// single local time, formatted by `DateTime::format` once with `date_format` and
/// once with `time_format`.
/// The contract claims:
/// - a pair comes back exactly where `chrono_time_in_range(secs)`:
///   `timestamp_opt` gives `None` where `DateTime::from_timestamp(secs, 0)` does
///   and a single local time otherwise, whatever the time zone;
/// - both texts render the one local time: the naive time `secs + offset`, where
///   the offset of chrono's `Local` is a `FixedOffset`, less than a day either
///   way (`naive_text` names chrono's rendering of a naive time);
/// - the shape of each text, which chrono's format documentation and formatter
///   give (`%-d` and `%-I` unpadded, `%b` the three-letter English month, `%Y`
///   four digits or a sign and at least four, `%M` two digits, `%p` "AM" or "PM").
/// Which offset applies depends on the time zone of the machine and is left unsaid.
/// The `requires` admits only the two formats the listing uses, which chrono
/// parses without error (an invalid format would make `to_string` panic).
#[verifier::external_body]
fn local_time_texts(secs: i64, date_format: &str, time_format: &str) -> (r: Option<(String, String)>)
    requires
        date_format@ == "%-d %b %Y"@,
        time_format@ == "%-I:%M %p"@,
    ensures
        r is Some <==> chrono_time_in_range(secs),
        r is Some ==> exists|local: int|
            secs - 86_400 < local < secs + 86_400 && r.unwrap().0@ == #[trigger] naive_text(
                local,
                date_format@,
            ) && r.unwrap().1@ == naive_text(local, time_format@),
        gives_text_shapes(r),
{
    chrono::Local.timestamp_opt(secs, 0).single().map(
        |dt| (dt.format(date_format).to_string(), dt.format(time_format).to_string()),
    )
}

/// The text shown for a time that chrono could render, or "?" where it could not.
pub fn text_or_unknown(text: Option<String>) -> (r: String)
    ensures
        r@ == match text {
            Some(t) => t@,
            None => seq!['?'],
        },
{
    match text {
        Some(t) => t,
        None => {
            let r = String::from_str("?");
            proof {
                reveal_strlit("?");
            }
            r
        },
    }
}

/// The date and time columns for a modification time of `secs`: where chrono can
/// represent it, its date and its clock time in the local time zone (one zone for
/// both), else "?" in both.
pub open spec fn time_columns_fit(secs: i64, date: Seq<char>, time: Seq<char>) -> bool {
    if chrono_time_in_range(secs) {
        local_texts_at(secs, date, time) && is_date_text(date) && is_clock_text(time)
    } else {
        date == seq!['?'] && time == seq!['?']
    }
}

/// The local date and clock time of `secs` (seconds from the epoch), such as
/// ("5 Mar 2024", "3:07 PM"), from one reading of the local time zone; "?" for
/// both where it is out of chrono's range.
pub fn format_date_and_time(secs: i64) -> (r: (String, String))
    ensures
        time_columns_fit(secs, r.0@, r.1@),
{
    let texts = local_time_texts(secs, "%-d %b %Y", "%-I:%M %p");
    match texts {
        Some(p) => p,
        None => (text_or_unknown(None), text_or_unknown(None)),
    }
}

proof fn lemma_split_local_texts(secs: i64, date: Seq<char>, time: Seq<char>)
    requires
        local_texts_at(secs, date, time),
    ensures
        local_date_at(secs, date),
        local_time_at(secs, time),
{
    let local = choose|local: int|
        secs - 86_400 < local < secs + 86_400 && date == #[trigger] naive_text(local, "%-d %b %Y"@)
            && time == naive_text(local, "%-I:%M %p"@);
    assert(date == naive_text(local, "%-d %b %Y"@));
    assert(time == naive_text(local, "%-I:%M %p"@));
}

/// The local date of `secs` (seconds from the epoch) such as "5 Mar 2024", or "?"
/// where it is out of chrono's range.
pub fn format_date(secs: i64) -> (r: String)
    ensures
        !chrono_time_in_range(secs) ==> r@ == seq!['?'],
        chrono_time_in_range(secs) ==> local_date_at(secs, r@) && is_date_text(r@),
{
    let (date, time) = format_date_and_time(secs);
    proof {
        if chrono_time_in_range(secs) {
            lemma_split_local_texts(secs, date@, time@);
        }
    }
    date
}

/// The local time of `secs` (seconds from the epoch) such as "3:07 PM", or "?"
/// where it is out of chrono's range.
pub fn format_time(secs: i64) -> (r: String)
    ensures
        !chrono_time_in_range(secs) ==> r@ == seq!['?'],
        chrono_time_in_range(secs) ==> local_time_at(secs, r@) && is_clock_text(r@),
{
    let (date, time) = format_date_and_time(secs);
    proof {
        if chrono_time_in_range(secs) {
            lemma_split_local_texts(secs, date@, time@);
        }
    }
    time
}

/// `line` is the listing line of `e`, with its local modification date in the
/// date column and its local modification time in the time column.
pub open spec fn shows_entry(line: Seq<char>, e: Entry, show_permissions: bool, colors: Colors) -> bool {
    exists|date: Seq<char>, time: Seq<char>|
        line == #[trigger] entry_line_spec(e, show_permissions, colors, date, time)
            && time_columns_fit(e.modified, date, time)
}

/// The listing line of `entry`, its date and time in the machine's local time zone.
pub fn print_entry(entry: &Entry, show_permissions: bool, colors: &Colors) -> (r: String)
    ensures
        shows_entry(r@, *entry, show_permissions, *colors),
{
    let (date, time) = format_date_and_time(entry.modified);
    let line = entry_line(entry, show_permissions, colors, date.as_str(), time.as_str());
    assert(line@ == entry_line_spec(*entry, show_permissions, *colors, date@, time@));
    line
}

/// The lines of a directory listing: the entries in listing order (directories
/// first unless `show_dirs` is false, which leaves them out; then files; each group
/// by sort name), one line each.
pub fn print_entries(entries: Vec<Entry>, show_dirs: bool, show_permissions: bool, colors: &Colors) -> (r: Vec<String>)
    ensures
        exists|ordered: Seq<Entry>|
            #[trigger] order::is_stable_sort(order::listed_entries(entries@, show_dirs), ordered)
                && r@.len() == ordered.len() && forall|i: int|
                0 <= i < ordered.len() ==> shows_entry(
                    (#[trigger] r@[i])@,
                    ordered[i],
                    show_permissions,
                    *colors,
                ),
{
    let ordered = order::order_entries(entries, show_dirs);
    let mut lines: Vec<String> = Vec::new();
    for k in 0..ordered.len()
        invariant
            lines@.len() == k,
            forall|i: int|
                0 <= i < k ==> shows_entry(
                    (#[trigger] lines@[i])@,
                    ordered@[i],
                    show_permissions,
                    *colors,
                ),
    {
        let line = print_entry(&ordered[k], show_permissions, colors);
        lines.push(line);
    }
    lines
}

/// The escape sequence that switches the terminal to color `code`.
pub open spec fn color_escape(code: Seq<char>) -> Seq<char> {
    seq!['\x1b', '['] + code + seq!['m']
}

/// The escape sequence that resets the terminal's color.
pub open spec fn reset_escape() -> Seq<char> {
    seq!['\x1b', '[', '0', 'm']
}

/// The layout of a listing line, field by field: the permission string (only with
/// `show_permissions`), then the size, date and time fields, each switched into
/// its own configured color (size, date, time) and back, then the name in the
/// color of its kind: the directory color for a directory, the executable color
/// for an executable file, the file color for any other.
pub proof fn law_line_layout(e: Entry, show_permissions: bool, colors: Colors, date: Seq<char>, time: Seq<char>)
    ensures
        entry_line_spec(e, show_permissions, colors, date, time) == (if show_permissions {
            text::pad_left(e.permissions@, 10).push(' ')
        } else {
            Seq::empty()
        }) + color_escape(colors.size@) + text::pad_left(size::format_size_spec(e.size as nat, e.is_dir), 8).push(' ')
            + reset_escape() + color_escape(colors.date@) + text::pad_left(date, 11).push(' ') + reset_escape()
            + color_escape(colors.time@) + text::pad_left(time, 8).push(' ') + reset_escape()
            + color_escape(if e.is_dir { colors.dir@ } else if e.is_exec { colors.executable@ } else { colors.file@ })
            + e.name@ + reset_escape(),
{
    let line = entry_line_spec(e, show_permissions, colors, date, time);
    assert(line =~= (if show_permissions {
        text::pad_left(e.permissions@, 10).push(' ')
    } else {
        Seq::empty()
    }) + color_escape(colors.size@) + text::pad_left(size::format_size_spec(e.size as nat, e.is_dir), 8).push(' ')
        + reset_escape() + color_escape(colors.date@) + text::pad_left(date, 11).push(' ') + reset_escape()
        + color_escape(colors.time@) + text::pad_left(time, 8).push(' ') + reset_escape()
        + color_escape(if e.is_dir { colors.dir@ } else if e.is_exec { colors.executable@ } else { colors.file@ })
        + e.name@ + reset_escape());
}

/// A listing line ends with the time field in the configured time color,
/// directly followed by the name; and just before the time field stands the date
/// field in the configured date color.
pub proof fn law_date_and_time_fields_keep_their_colors(
    e: Entry,
    show_permissions: bool,
    colors: Colors,
    date: Seq<char>,
    time: Seq<char>,
)
    ensures
        ({
            let line = entry_line_spec(e, show_permissions, colors, date, time);
            let name_field = color_escape(
                if e.is_dir { colors.dir@ } else if e.is_exec { colors.executable@ } else { colors.file@ },
            ) + e.name@ + reset_escape();
            let time_field = color_escape(colors.time@) + text::pad_left(time, 8).push(' ') + reset_escape();
            let date_field = color_escape(colors.date@) + text::pad_left(date, 11).push(' ') + reset_escape();
            &&& line.len() >= date_field.len() + time_field.len() + name_field.len()
            &&& line.skip(line.len() - (time_field.len() + name_field.len())) == time_field + name_field
            &&& line.skip(line.len() - (date_field.len() + time_field.len() + name_field.len()))
                == date_field + time_field + name_field
        }),
{
    law_line_layout(e, show_permissions, colors, date, time);
    let line = entry_line_spec(e, show_permissions, colors, date, time);
    let name_field = color_escape(
        if e.is_dir { colors.dir@ } else if e.is_exec { colors.executable@ } else { colors.file@ },
    ) + e.name@ + reset_escape();
    let time_field = color_escape(colors.time@) + text::pad_left(time, 8).push(' ') + reset_escape();
    let date_field = color_escape(colors.date@) + text::pad_left(date, 11).push(' ') + reset_escape();
    let head = (if show_permissions {
        text::pad_left(e.permissions@, 10).push(' ')
    } else {
        Seq::empty()
    }) + color_escape(colors.size@) + text::pad_left(size::format_size_spec(e.size as nat, e.is_dir), 8).push(' ')
        + reset_escape();
    assert(line =~= head + date_field + time_field + name_field);
    assert(line.skip(line.len() - (time_field.len() + name_field.len())) =~= time_field + name_field);
    assert(line.skip(line.len() - (date_field.len() + time_field.len() + name_field.len()))
        =~= date_field + time_field + name_field);
}

} // verus!
