//! The records of finished frogs and the table that is written from them.

use crate::text::{decimal, is_digit, push_decimal, push_signed_decimal, signed_decimal};
use crate::text::{law_decimal_injective, law_decimal_is_digits, law_signed_decimal_injective};
use vstd::prelude::*;
use vstd::string::*;

verus! {

/// What is kept of a frog that came home.
#[derive(Clone, Copy, PartialEq, Eq, Debug, Structural)]
pub struct ResultRecord {
    /// The number of the frog, where frogs are numbered.
    pub frog_id: Option<usize>,
    /// The jumps that the frog took; setting it on the first pad counts as one.
    pub step_count: usize,
    /// The furthest pad that the frog reached, negative for a frog that set
    /// out to the left.
    pub signed_displacement: isize,
}

/// One row of the table: the number of the frog where it has one, its jumps
/// and its furthest distance, separated by commas and ended by a newline.
pub open spec fn csv_row(frog_id: Option<usize>, step_count: nat, displacement: int) -> Seq<char> {
    let number = match frog_id {
        Some(id) => decimal(id as nat).push(','),
        None => Seq::<char>::empty(),
    };
    number + decimal(step_count).push(',') + signed_decimal(displacement).push('\n')
}

/// The rows of `records`, one after the other.
pub open spec fn rows_text(records: Seq<ResultRecord>) -> Seq<char>
    decreases records.len(),
{
    if records.len() == 0 {
        Seq::<char>::empty()
    } else {
        rows_text(records.drop_last()) + records.last().row_text()
    }
}

/// The first line of the table, with a column for the numbers of the frogs
/// where `with_ids` holds.
pub open spec fn header_text(with_ids: bool) -> Seq<char> {
    if with_ids {
        "Frog ID,Total Jumps,Furthest distance\n"@
    } else {
        "Total Jumps,Furthest distance\n"@
    }
}

/// Whether no comma stands in `text`.
pub open spec fn comma_free(text: Seq<char>) -> bool {
    forall|i: int| 0 <= i < text.len() ==> #[trigger] text[i] != ','
}

/// A text is cut at its first comma in one way only.
pub proof fn lemma_first_comma(
    before: Seq<char>,
    after: Seq<char>,
    other_before: Seq<char>,
    other_after: Seq<char>,
)
    requires
        comma_free(before),
        comma_free(other_before),
        before.push(',') + after == other_before.push(',') + other_after,
    ensures
        before == other_before,
        after == other_after,
{
    let whole = before.push(',') + after;
    let other = other_before.push(',') + other_after;
    assert(whole[before.len() as int] == ',');
    assert(other[other_before.len() as int] == ',');
    if before.len() < other_before.len() {
        assert(other[before.len() as int] == other_before[before.len() as int]);
    }
    if other_before.len() < before.len() {
        assert(whole[other_before.len() as int] == before[other_before.len() as int]);
    }
    assert(before =~= other_before) by {
        assert forall|i: int| 0 <= i < before.len() implies before[i] == other_before[i] by {
            assert(whole[i] == before[i]);
            assert(other[i] == other_before[i]);
        }
    }
    assert(after =~= other_after) by {
        assert(whole.len() == other.len());
        assert forall|i: int| 0 <= i < after.len() implies after[i] == other_after[i] by {
            assert(whole[before.len() + 1 + i] == after[i]);
            assert(other[before.len() + 1 + i] == other_after[i]);
        }
    }
}

/// Neither a number nor a signed number, with the end of the line behind
/// it, holds a comma.
pub proof fn lemma_numbers_are_comma_free(n: nat, v: int)
    ensures
        comma_free(decimal(n)),
        comma_free(signed_decimal(v).push('\n')),
{
    law_decimal_is_digits(n);
    assert forall|i: int| 0 <= i < decimal(n).len() implies #[trigger] decimal(n)[i] != ',' by {
        assert(is_digit(decimal(n)[i]));
    }
    let magnitude = if v < 0 {
        (-v) as nat
    } else {
        v as nat
    };
    law_decimal_is_digits(magnitude);
    let line = signed_decimal(v).push('\n');
    assert forall|i: int| 0 <= i < line.len() implies #[trigger] line[i] != ',' by {
        if i < signed_decimal(v).len() {
            if v < 0 {
                if i > 0 {
                    assert(is_digit(decimal(magnitude)[i - 1]));
                }
            } else {
                assert(is_digit(decimal(magnitude)[i]));
            }
        }
    }
}

/// Rows that read the same stand for the same number, jumps and distance:
/// nothing is lost when a result is written down.
pub proof fn law_row_injective(
    frog_id: Option<usize>,
    step_count: nat,
    displacement: int,
    other_id: Option<usize>,
    other_count: nat,
    other_displacement: int,
)
    requires
        csv_row(frog_id, step_count, displacement) == csv_row(
            other_id,
            other_count,
            other_displacement,
        ),
    ensures
        frog_id == other_id,
        step_count == other_count,
        displacement == other_displacement,
{
    let tail = signed_decimal(displacement).push('\n');
    let other_tail = signed_decimal(other_displacement).push('\n');
    let rest = decimal(step_count).push(',') + tail;
    let other_rest = decimal(other_count).push(',') + other_tail;
    let row = csv_row(frog_id, step_count, displacement);
    let other_row = csv_row(other_id, other_count, other_displacement);
    lemma_numbers_are_comma_free(step_count, displacement);
    lemma_numbers_are_comma_free(other_count, other_displacement);
    match (frog_id, other_id) {
        (Some(id), Some(other)) => {
            lemma_numbers_are_comma_free(id as nat, 0);
            lemma_numbers_are_comma_free(other as nat, 0);
            assert(row =~= decimal(id as nat).push(',') + rest);
            assert(other_row =~= decimal(other as nat).push(',') + other_rest);
            lemma_first_comma(decimal(id as nat), rest, decimal(other as nat), other_rest);
            law_decimal_injective(id as nat, other as nat);
        },
        (None, None) => {
            assert(row =~= rest);
            assert(other_row =~= other_rest);
        },
        (Some(id), None) => {
            lemma_numbers_are_comma_free(id as nat, 0);
            assert(row =~= decimal(id as nat).push(',') + rest);
            assert(other_row =~= other_rest);
            lemma_first_comma(decimal(id as nat), rest, decimal(other_count), other_tail);
            assert(rest[decimal(step_count).len() as int] == ',');
            assert(false);
        },
        (None, Some(other)) => {
            lemma_numbers_are_comma_free(other as nat, 0);
            assert(row =~= rest);
            assert(other_row =~= decimal(other as nat).push(',') + other_rest);
            lemma_first_comma(decimal(step_count), tail, decimal(other as nat), other_rest);
            assert(other_rest[decimal(other_count).len() as int] == ',');
            assert(false);
        },
    }
    lemma_first_comma(decimal(step_count), tail, decimal(other_count), other_tail);
    law_decimal_injective(step_count, other_count);
    assert(tail.drop_last() =~= signed_decimal(displacement));
    assert(other_tail.drop_last() =~= signed_decimal(other_displacement));
    law_signed_decimal_injective(displacement, other_displacement);
}

/// Appends the row of a frog to `out`.
pub fn push_csv_row(out: &mut String, frog_id: Option<usize>, step_count: usize, displacement: isize)
    ensures
        final(out)@ == old(out)@ + csv_row(frog_id, step_count as nat, displacement as int),
{
    proof {
        reveal_strlit(",");
        reveal_strlit("\n");
    }
    if let Some(id) = frog_id {
        push_decimal(out, id);
        out.append(",");
    }
    push_decimal(out, step_count);
    out.append(",");
    push_signed_decimal(out, displacement);
    out.append("\n");
    assert(out@ =~= old(out)@ + csv_row(frog_id, step_count as nat, displacement as int));
}

impl ResultRecord {
    /// The row that stands for this record in the table.
    pub open spec fn row_text(self) -> Seq<char> {
        csv_row(self.frog_id, self.step_count as nat, self.signed_displacement as int)
    }

    /// Renders the record as one row of the table.
    pub fn row(&self) -> (row: String)
        ensures
            row@ == self.row_text(),
    {
        let mut row = String::new();
        push_csv_row(&mut row, self.frog_id, self.step_count, self.signed_displacement);
        assert(row@ =~= self.row_text());
        row
    }
}

/// The records of a run in the order in which they came in. Either every
/// record bears the number of its frog and the table has a column for it, or
/// none does and the table has none.
pub struct Aggregator {
    with_ids: bool,
    records: Vec<ResultRecord>,
}

impl Aggregator {
    #[verifier::type_invariant]
    spec fn columns_agree(self) -> bool {
        forall|i: int|
            0 <= i < self.records@.len() ==> (#[trigger] self.records@[i]).frog_id.is_some()
                == self.with_ids
    }

    /// Whether `record` has what the columns of the table ask for: the
    /// number of its frog where the table has a column for it, and none
    /// where it has not.
    pub open spec fn fits(&self, record: ResultRecord) -> bool {
        record.frog_id.is_some() == self.with_ids()
    }

    /// Whether `record` has what the columns of the table ask for.
    pub fn accepts(&self, record: &ResultRecord) -> (fitting: bool)
        ensures
            fitting == self.fits(*record),
    {
        record.frog_id.is_some() == self.with_ids
    }

    /// Whether the table has a column for the numbers of the frogs.
    pub closed spec fn with_ids(&self) -> bool {
        self.with_ids
    }

    /// The records taken so far, oldest first.
    pub closed spec fn records(&self) -> Seq<ResultRecord> {
        self.records@
    }

    /// The whole table: the header, then one row for each record.
    pub open spec fn table_text(&self) -> Seq<char> {
        header_text(self.with_ids()) + rows_text(self.records())
    }

    /// An empty table with room for `capacity` records.
    pub fn new(with_ids: bool, capacity: usize) -> (table: Aggregator)
        ensures
            table.with_ids() == with_ids,
            table.records() == Seq::<ResultRecord>::empty(),
    {
        Aggregator { with_ids, records: Vec::with_capacity(capacity) }
    }

    /// Takes one more record, behind those that came before.
    pub fn push(&mut self, record: ResultRecord)
        requires
            old(self).fits(record),
        ensures
            final(self).with_ids() == old(self).with_ids(),
            final(self).records() == old(self).records().push(record),
    {
        proof {
            use_type_invariant(&*self);
        }
        let mut records: Vec<ResultRecord> = Vec::new();
        std::mem::swap(&mut records, &mut self.records);
        records.push(record);
        self.records = records;
    }

    /// The number of records taken so far.
    pub fn len(&self) -> (n: usize)
        ensures
            n == self.records().len(),
    {
        self.records.len()
    }

    /// The record that came in as number `index`, counting from zero.
    pub fn get(&self, index: usize) -> (record: Option<ResultRecord>)
        ensures
            index < self.records().len() ==> record == Some(self.records()[index as int]),
            index >= self.records().len() ==> record.is_none(),
            record matches Some(r) ==> self.fits(r),
    {
        proof {
            use_type_invariant(self);
        }
        if index < self.records.len() {
            Some(self.records[index])
        } else {
            None
        }
    }

    /// Renders the table as delimited text.
    pub fn render(&self) -> (table: String)
        ensures
            table@ == self.table_text(),
    {
        let mut table = if self.with_ids {
            String::from_str("Frog ID,Total Jumps,Furthest distance\n")
        } else {
            String::from_str("Total Jumps,Furthest distance\n")
        };
        let mut done: usize = 0;
        assert(self.records@.take(0) =~= Seq::<ResultRecord>::empty());
        while done < self.records.len()
            invariant
                done <= self.records@.len(),
                table@ == header_text(self.with_ids) + rows_text(self.records@.take(done as int)),
            decreases self.records@.len() - done,
        {
            let record = self.records[done];
            push_csv_row(
                &mut table,
                record.frog_id,
                record.step_count,
                record.signed_displacement,
            );
            proof {
                let next = self.records@.take(done + 1);
                assert(next.drop_last() =~= self.records@.take(done as int));
                assert(next.last() == record);
                assert(table@ =~= header_text(self.with_ids) + rows_text(next));
            }
            done = done + 1;
        }
        assert(self.records@.take(done as int) =~= self.records@);
        table
    }
}

} // verus!
