//! Rows of the unit-file listing.

use vstd::prelude::*;
use crate::error::CtlError;
use crate::text::chars_of;
use crate::text::find;
use crate::text::is_char;
use crate::text::is_str;
use crate::text::lemma_first_where_found;
use crate::text::lines;
use crate::text::lines_of;
use crate::text::string_of;
use crate::text::views;
use crate::text::words;
use crate::text::words_of;
use crate::text::CharClass;

verus! {

/// One row of the unit-file listing.
#[derive(Clone, Debug, PartialEq, Eq)]
pub struct UnitList {
    /// The dotted name of the unit file: name, `.`, type.
    pub unit_file: String,
    /// The state column as the tool wrote it. It is kept as text: the
    /// listing has a vocabulary of its own.
    pub state: String,
    /// The vendor preset: enabled, disabled, or not known.
    pub vendor_preset: Option<bool>,
}

/// What a [`UnitList`] holds, as sequences of characters.
pub struct UnitListView {
    pub unit_file: Seq<char>,
    pub state: Seq<char>,
    pub vendor_preset: Option<bool>,
}

impl View for UnitList {
    type V = UnitListView;

    open spec fn view(&self) -> UnitListView {
        UnitListView {
            unit_file: self.unit_file@,
            state: self.state@,
            vendor_preset: self.vendor_preset,
        }
    }
}

impl Default for UnitList {
    fn default() -> (r: UnitList)
        ensures
            r@ == (UnitListView {
                unit_file: Seq::empty(),
                state: Seq::empty(),
                vendor_preset: None,
            }),
    {
        UnitList { unit_file: String::new(), state: String::new(), vendor_preset: None }
    }
}

/// What the rows of `v` hold.
pub open spec fn row_views(v: Seq<UnitList>) -> Seq<UnitListView> {
    v.map_values(|r: UnitList| r@)
}

/// The unit-file names of `rows`, in order.
pub open spec fn unit_files(rows: Seq<UnitListView>) -> Seq<Seq<char>> {
    rows.map_values(|r: UnitListView| r.unit_file)
}

/// The meaning of the preset column: `enabled` and `disabled` are known,
/// `-` and everything else is not.
pub open spec fn preset_of(column: Seq<char>) -> Option<bool> {
    if column == "enabled"@ {
        Some(true)
    } else if column == "disabled"@ {
        Some(false)
    } else {
        None
    }
}

/// Whether a line of the listing is a data row: its first column holds a
/// `.` and does not end with one. Headers, footers and blank lines are not.
pub open spec fn is_data_row(line: Seq<char>) -> bool {
    let columns = words(line);
    columns.len() > 0 && columns[0].contains('.') && columns[0].last() != '.'
}

/// The reading of one data row: it needs three columns.
pub open spec fn parse_row(line: Seq<char>) -> Result<UnitListView, CtlError> {
    let columns = words(line);
    if columns.len() < 3 {
        Err(CtlError::MalformedDescriptor)
    } else {
        Ok(
            UnitListView {
                unit_file: columns[0],
                state: columns[1],
                vendor_preset: preset_of(columns[2]),
            },
        )
    }
}

/// The reading of the given lines: the data rows among them, in order. One
/// data row with fewer than three columns fails the whole listing.
pub open spec fn parse_rows(rows: Seq<Seq<char>>) -> Result<Seq<UnitListView>, CtlError>
    decreases rows.len(),
{
    if rows.len() == 0 {
        Ok(Seq::empty())
    } else {
        match parse_rows(rows.drop_last()) {
            Err(e) => Err(e),
            Ok(done) => if is_data_row(rows.last()) {
                match parse_row(rows.last()) {
                    Err(e) => Err(e),
                    Ok(row) => Ok(done.push(row)),
                }
            } else {
                Ok(done)
            },
        }
    }
}

/// The reading of a whole listing.
pub open spec fn parse_listing(text: Seq<char>) -> Result<Seq<UnitListView>, CtlError> {
    parse_rows(lines(text))
}

/// What the outcome of a reading holds.
pub open spec fn rows_outcome(r: Result<Vec<UnitList>, CtlError>) -> Result<
    Seq<UnitListView>,
    CtlError,
> {
    match r {
        Ok(rows) => Ok(row_views(rows@)),
        Err(e) => Err(e),
    }
}

/// Reads the preset column.
pub fn read_preset(column: &Vec<char>) -> (r: Option<bool>)
    ensures
        r == preset_of(column@),
{
    if is_str(column, "enabled") {
        Some(true)
    } else if is_str(column, "disabled") {
        Some(false)
    } else {
        None
    }
}

/// Reads one line of the listing: `Ok(None)` for a line that is no data
/// row, `Ok(Some(..))` for a data row, an error for a data row that lacks
/// a column.
pub fn read_row(line: &Vec<char>) -> (r: Result<Option<UnitList>, CtlError>)
    ensures
        !is_data_row(line@) ==> r == Ok::<Option<UnitList>, CtlError>(None),
        is_data_row(line@) ==> match r {
            Ok(Some(row)) => parse_row(line@) == Ok::<UnitListView, CtlError>(row@),
            Ok(None) => false,
            Err(e) => parse_row(line@) == Err::<UnitListView, CtlError>(e),
        },
{
    let columns = words_of(line);
    assert(views(columns@).len() == columns@.len());
    if columns.len() == 0 {
        return Ok(None);
    }
    let first = &columns[0];
    assert(views(columns@)[0] == first@);
    assert(first@.skip(0) == first@);
    let dot = find(first, 0, CharClass::Is('.'));
    proof {
        lemma_first_where_found(first@, is_char('.'));
        if dot < first.len() {
            assert(first@[dot as int] == '.');
        }
    }
    if dot >= first.len() || first[first.len() - 1] == '.' {
        return Ok(None);
    }
    if columns.len() < 3 {
        return Err(CtlError::MalformedDescriptor);
    }
    assert(views(columns@)[1] == columns@[1]@);
    assert(views(columns@)[2] == columns@[2]@);
    Ok(
        Some(
            UnitList {
                unit_file: string_of(first),
                state: string_of(&columns[1]),
                vendor_preset: read_preset(&columns[2]),
            },
        ),
    )
}

/// Reads a whole listing.
///
/// The result holds one record for each data row, in the order of the
/// text. It is an error, `MalformedDescriptor`, exactly when some data row
/// has fewer than three columns.
pub fn read_listing(text: &str) -> (r: Result<Vec<UnitList>, CtlError>)
    ensures
        rows_outcome(r) == parse_listing(text@),
        r is Err ==> r->Err_0 == CtlError::MalformedDescriptor,
{
    let v = chars_of(text);
    let all = lines_of(&v);
    proof {
        lemma_rows_error(lines(text@));
    }
    let mut out: Vec<UnitList> = Vec::new();
    let mut i: usize = 0;
    assert(views(all@).take(0) == Seq::<Seq<char>>::empty());
    assert(row_views(out@) == Seq::<UnitListView>::empty());
    while i < all.len()
        invariant
            i <= all.len(),
            views(all@) == lines(text@),
            parse_rows(views(all@).take(i as int)) == Ok::<Seq<UnitListView>, CtlError>(
                row_views(out@),
            ),
        decreases all.len() - i,
    {
        let ghost upto = views(all@).take(i + 1);
        assert(upto.drop_last() == views(all@).take(i as int));
        assert(upto.last() == all@[i as int]@);
        let ghost before = row_views(out@);
        match read_row(&all[i]) {
            Err(e) => {
                proof {
                    lemma_rows_fail_later(views(all@), i + 1);
                }
                return Err(e);
            },
            Ok(None) => {},
            Ok(Some(row)) => {
                out.push(row);
                assert(row_views(out@) == before.push(row@));
            },
        }
        i += 1;
    }
    assert(views(all@).take(all.len() as int) == views(all@));
    Ok(out)
}

/// A listing fails in one way only.
pub proof fn lemma_rows_error(rows: Seq<Seq<char>>)
    ensures
        parse_rows(rows) is Err ==> parse_rows(rows) == Err::<Seq<UnitListView>, CtlError>(
            CtlError::MalformedDescriptor,
        ),
    decreases rows.len(),
{
    if rows.len() > 0 {
        lemma_rows_error(rows.drop_last());
    }
}

/// A listing is read in full exactly when each of its data rows has three
/// columns, and then it has one record for each data row.
pub proof fn lemma_rows_ok(rows: Seq<Seq<char>>)
    ensures
        parse_rows(rows) is Ok <==> forall|i: int|
            0 <= i < rows.len() && is_data_row(#[trigger] rows[i]) ==> words(rows[i]).len() >= 3,
        parse_rows(rows) is Ok ==> parse_rows(rows)->Ok_0.len() == rows.filter(
            |l: Seq<char>| is_data_row(l),
        ).len(),
    decreases rows.len(),
{
    reveal(Seq::filter);
    if rows.len() > 0 {
        let head = rows.drop_last();
        lemma_rows_ok(head);
        assert forall|i: int| 0 <= i < head.len() implies head[i] == rows[i] by {}
        if parse_rows(rows) is Ok {
            assert forall|i: int|
                0 <= i < rows.len() && is_data_row(#[trigger] rows[i]) implies words(rows[i]).len()
                >= 3 by {
                if i < head.len() {
                    assert(head[i] == rows[i]);
                }
            }
        }
        if forall|i: int|
            0 <= i < rows.len() && is_data_row(#[trigger] rows[i]) ==> words(rows[i]).len() >= 3 {
            assert forall|i: int|
                0 <= i < head.len() && is_data_row(#[trigger] head[i]) implies words(head[i]).len()
                >= 3 by {
                assert(head[i] == rows[i]);
            }
            assert(rows.last() == rows[rows.len() - 1]);
        }
    }
}

/// Two readings of the same listing give the same outcome, character for
/// character.
pub proof fn lemma_same_text_same_rows(
    text: Seq<char>,
    first: Result<Vec<UnitList>, CtlError>,
    second: Result<Vec<UnitList>, CtlError>,
)
    requires
        rows_outcome(first) == parse_listing(text),
        rows_outcome(second) == parse_listing(text),
    ensures
        rows_outcome(first) == rows_outcome(second),
        first is Ok <==> second is Ok,
        first is Ok ==> row_views(first->Ok_0@) == row_views(second->Ok_0@),
        first is Err ==> first->Err_0 == second->Err_0,
{
}

/// Once a prefix of the lines fails, the whole listing fails in the same
/// way.
pub proof fn lemma_rows_fail_later(rows: Seq<Seq<char>>, k: int)
    requires
        0 <= k <= rows.len(),
        parse_rows(rows.take(k)) is Err,
    ensures
        parse_rows(rows) == parse_rows(rows.take(k)),
    decreases rows.len() - k,
{
    if k == rows.len() {
        assert(rows.take(k) == rows);
    } else {
        assert(rows.drop_last().take(k) == rows.take(k));
        lemma_rows_fail_later(rows.drop_last(), k);
    }
}

} // verus!
