//! The layout of a listing: the short form on one line, and the long
//! form as a table with aligned columns.

use vstd::prelude::*;
use vstd::string::StringExecFns;
use vstd::string::StrSliceExecFns;
use vstd::string::StringSliceAdditionalSpecFns;
use vstd::utf8::{encode_utf8, is_ascii_chars, is_ascii_chars_encode_utf8};
use crate::ls::utils::{file_is_dir, get_mode_string, mode_text};
use crate::ls::{Cli, FileEntry};
use crate::text::{decimal, to_decimal};

verus! {

/// Why a long listing could not be laid out.
#[derive(Clone, Copy, Debug, PartialEq, Eq, Structural)]
pub enum ListingError {
    /// A time of status change, shifted to local time, lies outside the
    /// calendar.
    DateOutOfRange,
    /// A cell takes more bytes than its column is wide in characters.
    ColumnOverflow,
}

/// One entry of the short listing: the name, a slash behind a directory
/// where entries are classified, a comma where asked, and four spaces.
pub open spec fn short_item(entry: FileEntry, classify: bool, fill_width: bool) -> Seq<char> {
    entry.name@ + (if classify && entry.is_dir {
        seq!['/']
    } else {
        Seq::empty()
    }) + (if fill_width {
        seq![',']
    } else {
        Seq::empty()
    }) + seq![' ', ' ', ' ', ' ']
}

/// The short listing: every entry in turn, on one line.
pub open spec fn short_listing(entries: Seq<FileEntry>, classify: bool, fill_width: bool) -> Seq<
    char,
>
    decreases entries.len(),
{
    if entries.len() == 0 {
        Seq::empty()
    } else {
        short_listing(entries.drop_last(), classify, fill_width) + short_item(
            entries.last(),
            classify,
            fill_width,
        )
    }
}

/// Lays out the short listing as one line.
pub fn short_listing_display(contents: &Vec<FileEntry>, classify: &bool, fill_width: &bool) -> (line:
    String)
    ensures
        line@ == short_listing(contents@, *classify, *fill_width),
{
    let mut output = String::new();
    let mut i: usize = 0;
    while i < contents.len()
        invariant
            i <= contents.len(),
            output@ == short_listing(contents@.take(i as int), *classify, *fill_width),
        decreases contents.len() - i,
    {
        let ghost before = output@;
        let element = &contents[i];
        output.append(element.name.as_str());
        if *classify && file_is_dir(element) {
            output.append("/");
        }
        if *fill_width {
            output.append(",");
        }
        output.append("    ");
        proof {
            reveal_strlit("/");
            reveal_strlit(",");
            reveal_strlit("    ");
            assert(contents@.take(i + 1).drop_last() == contents@.take(i as int));
            assert("    "@ =~= seq![' ', ' ', ' ', ' ']);
            assert(output@ =~= before + short_item(contents@[i as int], *classify, *fill_width));
        }
        i = i + 1;
    }
    proof {
        assert(contents@.take(i as int) == contents@);
    }
    output
}

/// The name to print for an owner: the name itself, or a fixed text where
/// the name cannot be written.
pub open spec fn owner_text(name: Option<String>) -> Seq<char> {
    match name {
        Some(text) => text@,
        None => "NO USERNAME FOUND"@,
    }
}

/// The name to print for a group: the name itself, or a fixed text where
/// the name cannot be written.
pub open spec fn group_text(name: Option<String>) -> Seq<char> {
    match name {
        Some(text) => text@,
        None => "NO GROUP ASSIGNED"@,
    }
}

/// The owner of an entry as the listing shows it.
pub fn get_username(entry: &FileEntry) -> (name: String)
    ensures
        name@ == owner_text(entry.user),
{
    match &entry.user {
        Some(text) => text.clone(),
        None => String::from_str("NO USERNAME FOUND"),
    }
}

/// The group of an entry as the listing shows it.
pub fn get_group_name(entry: &FileEntry) -> (name: String)
    ensures
        name@ == group_text(entry.group),
{
    match &entry.group {
        Some(text) => text.clone(),
        None => String::from_str("NO GROUP ASSIGNED"),
    }
}

/// The calendar date and time of day, written as `chrono` writes a
/// `NaiveDateTime`, that lies `utc_offset` seconds after the instant
/// `changed` seconds from the epoch; `None` where `chrono` cannot
/// represent one of the two instants.
pub uninterp spec fn status_date_text(changed: i64, utc_offset: i32) -> Option<Seq<char>>;

/// Asks `chrono` for the text of a time of status change in local time.
///
/// Trusted: the body calls `DateTime::from_timestamp`, shifts the result
/// with `NaiveDateTime::checked_add_signed` and writes it with `to_string`.
/// The contract only names what comes back; it depends on nothing but the
/// two numbers.
#[verifier::external_body]
fn format_status_date(changed: i64, utc_offset: i32) -> (text: Option<String>)
    ensures
        match text {
            Some(t) => status_date_text(changed, utc_offset) == Some(t@),
            None => status_date_text(changed, utc_offset) is None,
        },
{
    let utc = chrono::DateTime::from_timestamp(changed, 0)?.naive_utc();
    let local = utc.checked_add_signed(chrono::Duration::seconds(i64::from(utc_offset)))?;
    Some(local.to_string())
}

/// The time of last status change of an entry, in local time, as text.
/// `utc_offset` is what local time is ahead of UTC, in seconds.
pub fn get_file_status_date(entry: &FileEntry, utc_offset: i32) -> (date: Option<String>)
    ensures
        match date {
            Some(t) => status_date_text(entry.status_changed, utc_offset) == Some(t@),
            None => status_date_text(entry.status_changed, utc_offset) is None,
        },
{
    format_status_date(entry.status_changed, utc_offset)
}

/// The cells of one row of the long listing: mode, link count, owner,
/// group unless left out, size, date and name.
pub open spec fn row_texts(entry: FileEntry, no_group: bool, date: Seq<char>) -> Seq<Seq<char>> {
    seq![mode_text(entry.is_dir, entry.mode), decimal(entry.link_count as nat), owner_text(entry.user)]
        + (if no_group {
        Seq::empty()
    } else {
        seq![group_text(entry.group)]
    }) + seq![decimal(entry.size as nat), date, entry.name@]
}

/// The texts of a row of strings.
pub open spec fn texts_of(row: Seq<String>) -> Seq<Seq<char>> {
    Seq::new(row.len(), |j: int| row[j]@)
}

/// The texts of a table of strings.
pub open spec fn table_of(rows: Seq<Vec<String>>) -> Seq<Seq<Seq<char>>> {
    Seq::new(rows.len(), |i: int| texts_of(rows[i]@))
}

/// Builds one row of the long listing from an entry and its date.
pub fn file_data_row(entry: &FileEntry, config: &Cli, date: String) -> (row: Vec<String>)
    ensures
        texts_of(row@) == row_texts(*entry, config.no_group, date@),
{
    let mut output_line: Vec<String> = Vec::new();
    output_line.push(get_mode_string(entry));
    output_line.push(to_decimal(entry.link_count));
    output_line.push(get_username(entry));
    if !config.no_group {
        output_line.push(get_group_name(entry));
    }
    output_line.push(to_decimal(entry.size));
    output_line.push(date);
    output_line.push(entry.name.clone());
    assert(texts_of(output_line@) =~= row_texts(*entry, config.no_group, date@));
    output_line
}

/// Collects the row of one entry; `None` where its date lies outside the
/// calendar.
pub fn gather_file_data(entry: &FileEntry, config: &Cli, utc_offset: i32) -> (row: Option<
    Vec<String>,
>)
    ensures
        match (row, status_date_text(entry.status_changed, utc_offset)) {
            (Some(cells), Some(date)) => texts_of(cells@) == row_texts(
                *entry,
                config.no_group,
                date,
            ),
            (None, None) => true,
            _ => false,
        },
{
    match get_file_status_date(entry, utc_offset) {
        Some(date) => Some(file_data_row(entry, config, date)),
        None => None,
    }
}

/// Width of a column in characters: that of its widest cell.
pub open spec fn column_width(table: Seq<Seq<Seq<char>>>, column: int) -> nat
    decreases table.len(),
{
    if table.len() == 0 {
        0
    } else {
        let above = column_width(table.drop_last(), column);
        let row = table.last();
        if 0 <= column < row.len() && row[column].len() > above {
            row[column].len()
        } else {
            above
        }
    }
}

/// Number of cells of the longest row.
pub open spec fn column_count(table: Seq<Seq<Seq<char>>>) -> nat
    decreases table.len(),
{
    if table.len() == 0 {
        0
    } else {
        let above = column_count(table.drop_last());
        if table.last().len() > above {
            table.last().len()
        } else {
            above
        }
    }
}

/// Number of bytes that a text takes.
pub open spec fn byte_len(text: Seq<char>) -> nat {
    encode_utf8(text).len()
}

/// Every cell takes no more bytes than its column is wide in characters.
/// A table of plain ASCII always fits.
pub open spec fn table_fits(table: Seq<Seq<Seq<char>>>) -> bool {
    forall|i: int, j: int|
        0 <= i < table.len() && 0 <= j < table[i].len() ==> byte_len(#[trigger] table[i][j])
            <= column_width(table, j)
}

/// A run of `n` spaces.
pub open spec fn spaces(n: nat) -> Seq<char> {
    Seq::new(n, |k: int| ' ')
}

/// A cell, one space, and as many more spaces as the cell's bytes fall
/// short of the column's width.
pub open spec fn padded_cell(cell: Seq<char>, width: nat) -> Seq<char> {
    cell + seq![' '] + spaces((width - byte_len(cell)) as nat)
}

/// The first `upto` cells of a row, padded.
pub open spec fn row_line(table: Seq<Seq<Seq<char>>>, row: Seq<Seq<char>>, upto: int) -> Seq<char>
    decreases upto,
{
    if upto <= 0 {
        Seq::empty()
    } else {
        row_line(table, row, upto - 1) + padded_cell(row[upto - 1], column_width(table, upto - 1))
    }
}

/// The lines of a table, or nothing where it does not fit.
pub open spec fn listing_lines(table: Seq<Seq<Seq<char>>>) -> Option<Seq<Seq<char>>> {
    if table_fits(table) {
        Some(Seq::new(table.len(), |i: int| row_line(table, table[i], table[i].len() as int)))
    } else {
        None
    }
}

/// Every cell is plain ASCII.
pub open spec fn table_is_ascii(table: Seq<Seq<Seq<char>>>) -> bool {
    forall|i: int, j: int|
        0 <= i < table.len() && 0 <= j < table[i].len() ==> is_ascii_chars(
            #[trigger] table[i][j],
        )
}

/// A table of plain ASCII always fits, and so always has its lines.
pub proof fn lemma_ascii_table_fits(table: Seq<Seq<Seq<char>>>)
    requires
        table_is_ascii(table),
    ensures
        table_fits(table),
        listing_lines(table) is Some,
{
    assert forall|i: int, j: int| 0 <= i < table.len() && 0 <= j < table[i].len() implies byte_len(
        #[trigger] table[i][j],
    ) <= column_width(table, j) by {
        is_ascii_chars_encode_utf8(table[i][j]);
        lemma_column_width_covers(table, i, j);
    }
}

/// A column is at least as wide as each of its cells.
pub proof fn lemma_column_width_covers(table: Seq<Seq<Seq<char>>>, i: int, j: int)
    requires
        0 <= i < table.len(),
        0 <= j < table[i].len(),
    ensures
        table[i][j].len() <= column_width(table, j),
        j < column_count(table),
    decreases table.len(),
{
    if i < table.len() - 1 {
        lemma_column_width_covers(table.drop_last(), i, j);
    }
}

fn count_columns(output: &Vec<Vec<String>>) -> (columns: usize)
    ensures
        columns == column_count(table_of(output@)),
{
    let ghost table = table_of(output@);
    let mut columns: usize = 0;
    let mut i: usize = 0;
    while i < output.len()
        invariant
            i <= output.len(),
            table == table_of(output@),
            columns == column_count(table.take(i as int)),
        decreases output.len() - i,
    {
        proof {
            assert(table.take(i + 1).drop_last() == table.take(i as int));
        }
        if output[i].len() > columns {
            columns = output[i].len();
        }
        i = i + 1;
    }
    proof {
        assert(table.take(i as int) == table);
    }
    columns
}

fn measure_column(output: &Vec<Vec<String>>, column: usize) -> (width: usize)
    ensures
        width == column_width(table_of(output@), column as int),
{
    let ghost table = table_of(output@);
    let mut width: usize = 0;
    let mut i: usize = 0;
    while i < output.len()
        invariant
            i <= output.len(),
            table == table_of(output@),
            width == column_width(table.take(i as int), column as int),
        decreases output.len() - i,
    {
        proof {
            assert(table.take(i + 1).drop_last() == table.take(i as int));
        }
        if column < output[i].len() {
            let str_length = output[i][column].as_str().unicode_len();
            if str_length > width {
                width = str_length;
            }
        }
        i = i + 1;
    }
    proof {
        assert(table.take(i as int) == table);
    }
    width
}

fn push_spaces(out: &mut String, n: usize)
    ensures
        final(out)@ == old(out)@ + spaces(n as nat),
{
    let mut k: usize = 0;
    assert(out@ =~= old(out)@ + spaces(0));
    while k < n
        invariant
            k <= n,
            out@ == old(out)@ + spaces(k as nat),
        decreases n - k,
    {
        proof {
            reveal_strlit(" ");
        }
        out.append(" ");
        k = k + 1;
        assert(out@ =~= old(out)@ + spaces(k as nat));
    }
}

/// Lays out a table: every cell is followed by a space and padded to the
/// width of its column. Gives nothing where a cell takes more bytes than
/// its column is wide.
pub fn display_listing(output: &Vec<Vec<String>>) -> (lines: Option<Vec<String>>)
    ensures
        match (lines, listing_lines(table_of(output@))) {
            (Some(out), Some(expected)) => texts_of(out@) == expected,
            (None, None) => true,
            _ => false,
        },
{
    let ghost table = table_of(output@);
    let columns = count_columns(output);
    let mut padding: Vec<usize> = Vec::new();
    let mut c: usize = 0;
    while c < columns
        invariant
            c <= columns,
            table == table_of(output@),
            padding.len() == c,
            forall|k: int| 0 <= k < c ==> padding[k] == column_width(table, k),
        decreases columns - c,
    {
        padding.push(measure_column(output, c));
        c = c + 1;
    }
    let mut lines: Vec<String> = Vec::new();
    let mut i: usize = 0;
    while i < output.len()
        invariant
            i <= output.len(),
            table == table_of(output@),
            columns == column_count(table),
            padding.len() == columns,
            forall|k: int| 0 <= k < columns ==> padding[k] == column_width(table, k),
            lines.len() == i,
            forall|r: int, j: int|
                0 <= r < i && 0 <= j < table[r].len() ==> byte_len(#[trigger] table[r][j])
                    <= column_width(table, j),
            forall|r: int|
                0 <= r < i ==> (#[trigger] lines@[r])@ == row_line(
                    table,
                    table[r],
                    table[r].len() as int,
                ),
        decreases output.len() - i,
    {
        let row = &output[i];
        let mut output_string = String::new();
        let mut j: usize = 0;
        while j < row.len()
            invariant
                j <= row.len(),
                i < output.len(),
                row == &output[i as int],
                table == table_of(output@),
                columns == column_count(table),
                padding.len() == columns,
                forall|k: int| 0 <= k < columns ==> padding[k] == column_width(table, k),
                forall|k: int|
                    0 <= k < j ==> byte_len(#[trigger] table[i as int][k]) <= column_width(
                        table,
                        k,
                    ),
                output_string@ == row_line(table, table[i as int], j as int),
            decreases row.len() - j,
        {
            let cell = row[j].as_str();
            let cell_bytes: usize = cell.as_bytes().len();
            proof {
                reveal_strlit(" ");
                lemma_column_width_covers(table, i as int, j as int);
                assert(table[i as int][j as int] == cell@);
                assert(cell_bytes == byte_len(cell@));
            }
            if cell_bytes > padding[j] {
                return None;
            }
            let ghost before = output_string@;
            output_string.append(cell);
            output_string.append(" ");
            push_spaces(&mut output_string, padding[j] - cell_bytes);
            proof {
                assert(output_string@ =~= before + padded_cell(
                    cell@,
                    column_width(table, j as int),
                ));
            }
            j = j + 1;
        }
        lines.push(output_string);
        i = i + 1;
    }
    proof {
        assert(table_fits(table));
        assert(texts_of(lines@) =~= listing_lines(table)->0);
    }
    Some(lines)
}

/// The table of the long listing, one row for each entry; nothing where
/// the date of an entry lies outside the calendar.
pub open spec fn long_rows(entries: Seq<FileEntry>, no_group: bool, utc_offset: i32) -> Option<
    Seq<Seq<Seq<char>>>,
>
    decreases entries.len(),
{
    if entries.len() == 0 {
        Some(Seq::empty())
    } else {
        match (
            long_rows(entries.drop_last(), no_group, utc_offset),
            status_date_text(entries.last().status_changed, utc_offset),
        ) {
            (Some(rows), Some(date)) => Some(
                rows.push(row_texts(entries.last(), no_group, date)),
            ),
            _ => None,
        }
    }
}

/// The lines of the long listing.
pub open spec fn long_listing(entries: Seq<FileEntry>, no_group: bool, utc_offset: i32) -> Result<
    Seq<Seq<char>>,
    ListingError,
> {
    match long_rows(entries, no_group, utc_offset) {
        Some(table) => match listing_lines(table) {
            Some(lines) => Ok(lines),
            None => Err(ListingError::ColumnOverflow),
        },
        None => Err(ListingError::DateOutOfRange),
    }
}

/// Where the first entries have no table, all of them have none.
pub proof fn lemma_long_rows_prefix(
    entries: Seq<FileEntry>,
    no_group: bool,
    utc_offset: i32,
    n: int,
)
    requires
        0 <= n <= entries.len(),
        long_rows(entries.take(n), no_group, utc_offset) is None,
    ensures
        long_rows(entries, no_group, utc_offset) is None,
    decreases entries.len(),
{
    if n < entries.len() {
        assert(entries.drop_last().take(n) == entries.take(n));
        lemma_long_rows_prefix(entries.drop_last(), no_group, utc_offset, n);
    } else {
        assert(entries.take(n) == entries);
    }
}

/// Lays out the long listing of `contents`: one line for each entry, the
/// columns aligned. `utc_offset` is what local time is ahead of UTC, in
/// seconds.
pub fn long_listing_display(contents: &Vec<FileEntry>, config: &Cli, utc_offset: i32) -> (lines:
    Result<Vec<String>, ListingError>)
    ensures
        match (lines, long_listing(contents@, config.no_group, utc_offset)) {
            (Ok(out), Ok(expected)) => texts_of(out@) == expected,
            (Err(e), Err(f)) => e == f,
            _ => false,
        },
{
    let mut output: Vec<Vec<String>> = Vec::new();
    let mut i: usize = 0;
    assert(table_of(output@) =~= Seq::empty());
    while i < contents.len()
        invariant
            i <= contents.len(),
            long_rows(contents@.take(i as int), config.no_group, utc_offset) == Some(
                table_of(output@),
            ),
        decreases contents.len() - i,
    {
        let ghost before = table_of(output@);
        proof {
            assert(contents@.take(i + 1).drop_last() == contents@.take(i as int));
        }
        match gather_file_data(&contents[i], config, utc_offset) {
            Some(output_line) => {
                output.push(output_line);
                proof {
                    assert(table_of(output@) =~= before.push(texts_of(output_line@)));
                }
            },
            None => {
                proof {
                    lemma_long_rows_prefix(contents@, config.no_group, utc_offset, i + 1);
                }
                return Err(ListingError::DateOutOfRange);
            },
        }
        i = i + 1;
    }
    proof {
        assert(contents@.take(i as int) == contents@);
    }
    match display_listing(&output) {
        Some(lines) => Ok(lines),
        None => Err(ListingError::ColumnOverflow),
    }
}

} // verus!
