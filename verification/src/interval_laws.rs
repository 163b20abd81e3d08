//! What holds of interval lines and number fields.

use vstd::prelude::*;
use crate::decimal::{decimal, is_digit, lemma_decimal_denotes};
use crate::emit::TAB;
use crate::error::PipelineError;
use crate::interval::{
    field_end,
    parse_interval,
    parse_number_spec,
    unsigned_part,
    IntervalModel,
};

verus! {

/// A field ends at or after its beginning and within the line, no tab lies
/// inside it, and where it ends before the end of the line a tab follows.
pub proof fn lemma_field_end(line: Seq<u8>, from: int)
    requires
        0 <= from <= line.len(),
    ensures
        from <= field_end(line, from) <= line.len(),
        forall|i: int| from <= i < field_end(line, from) ==> line[i] != TAB,
        field_end(line, from) < line.len() ==> line[field_end(line, from)] == TAB,
    decreases line.len() - from,
{
    if from < line.len() && line[from] != TAB {
        lemma_field_end(line, from + 1);
    }
}

/// Whether no byte of `bytes` is a tab.
pub open spec fn tab_free(bytes: Seq<u8>) -> bool {
    forall|i: int| 0 <= i < bytes.len() ==> #[trigger] bytes[i] != TAB
}

/// The line that is made of a name, a start field and an end field with a
/// tab between them, and of whatever follows the end field.
pub open spec fn interval_line(
    name: Seq<u8>,
    start_field: Seq<u8>,
    end_field: Seq<u8>,
    rest: Seq<u8>,
) -> Seq<u8> {
    name + seq![TAB] + start_field + seq![TAB] + end_field + rest
}

/// A field that begins at `from` ends at `end` where no tab lies between the
/// two and a tab or the end of the line stands at `end`.
pub proof fn lemma_field_ends_at(line: Seq<u8>, from: int, end: int)
    requires
        0 <= from <= end <= line.len(),
        forall|i: int| from <= i < end ==> line[i] != TAB,
        end < line.len() ==> line[end] == TAB,
    ensures
        field_end(line, from) == end,
    decreases end - from,
{
    if from < end {
        lemma_field_ends_at(line, from + 1, end);
    }
}

/// A field that denotes a number holds no tab.
pub proof fn lemma_number_is_tab_free(field: Seq<u8>)
    requires
        parse_number_spec(field) is Some,
    ensures
        tab_free(field),
{
    let digits = unsigned_part(field);
    assert forall|i: int| 0 <= i < field.len() implies #[trigger] field[i] != TAB by {
        if digits == field {
            assert(is_digit(digits[i]));
        } else if i > 0 {
            assert(is_digit(digits[i - 1]));
        }
    }
}

/// The grammar of an interval line, read forwards: a name without a tab,
/// then a tab, a number, a tab and a number, and after that nothing or a tab
/// and anything, is accepted as that name and those numbers.
pub proof fn lemma_interval_line_accepted(
    name: Seq<u8>,
    start_field: Seq<u8>,
    end_field: Seq<u8>,
    rest: Seq<u8>,
)
    requires
        tab_free(name),
        parse_number_spec(start_field) is Some,
        parse_number_spec(end_field) is Some,
        rest.len() == 0 || rest[0] == TAB,
    ensures
        parse_interval(interval_line(name, start_field, end_field, rest)) == Ok::<
            IntervalModel,
            PipelineError,
        >(
            IntervalModel {
                reference_name: name,
                start: parse_number_spec(start_field)->0,
                end: parse_number_spec(end_field)->0,
            },
        ),
{
    let line = interval_line(name, start_field, end_field, rest);
    let name_end = name.len() as int;
    let start_end = name_end + 1 + start_field.len();
    let end_end = start_end + 1 + end_field.len();
    lemma_number_is_tab_free(start_field);
    lemma_number_is_tab_free(end_field);
    assert forall|i: int| 0 <= i < name_end implies line[i] != TAB by {
        assert(line[i] == name[i]);
    }
    assert forall|i: int| name_end + 1 <= i < start_end implies line[i] != TAB by {
        assert(line[i] == start_field[i - name_end - 1]);
    }
    assert forall|i: int| start_end + 1 <= i < end_end implies line[i] != TAB by {
        assert(line[i] == end_field[i - start_end - 1]);
    }
    assert(line[name_end] == TAB);
    assert(line[start_end] == TAB);
    if end_end < line.len() {
        assert(line[end_end] == rest[0]);
    }
    lemma_field_ends_at(line, 0, name_end);
    lemma_field_ends_at(line, name_end + 1, start_end);
    lemma_field_ends_at(line, start_end + 1, end_end);
    assert(line.subrange(0, name_end) == name);
    assert(line.subrange(name_end + 1, start_end) == start_field);
    assert(line.subrange(start_end + 1, end_end) == end_field);
}

/// The grammar of an interval line, read backwards: every accepted line is
/// made of the name that was read, which holds no tab, a tab, a field that
/// denotes the start, a tab, a field that denotes the end, and after that
/// nothing or a tab and anything.
pub proof fn lemma_accepted_interval_line(line: Seq<u8>)
    requires
        parse_interval(line) is Ok,
    ensures
        exists|start_field: Seq<u8>, end_field: Seq<u8>, rest: Seq<u8>|
            {
                &&& line == #[trigger] interval_line(
                    parse_interval(line)->Ok_0.reference_name,
                    start_field,
                    end_field,
                    rest,
                )
                &&& tab_free(parse_interval(line)->Ok_0.reference_name)
                &&& parse_number_spec(start_field) == Some(parse_interval(line)->Ok_0.start)
                &&& parse_number_spec(end_field) == Some(parse_interval(line)->Ok_0.end)
                &&& (rest.len() == 0 || rest[0] == TAB)
            },
{
    let name_end = field_end(line, 0);
    lemma_field_end(line, 0);
    let start_end = field_end(line, name_end + 1);
    lemma_field_end(line, name_end + 1);
    let end_end = field_end(line, start_end + 1);
    lemma_field_end(line, start_end + 1);
    let name = line.subrange(0, name_end);
    let start_field = line.subrange(name_end + 1, start_end);
    let end_field = line.subrange(start_end + 1, end_end);
    let rest = line.subrange(end_end, line.len() as int);
    assert(line =~= interval_line(name, start_field, end_field, rest));
    assert(tab_free(name)) by {
        assert forall|i: int| 0 <= i < name.len() implies #[trigger] name[i] != TAB by {
            assert(name[i] == line[i]);
        }
    }
    if rest.len() > 0 {
        assert(rest[0] == line[end_end]);
    }
    assert(parse_interval(line)->Ok_0.reference_name == name);
    assert(parse_number_spec(start_field) == Some(parse_interval(line)->Ok_0.start));
    assert(parse_number_spec(end_field) == Some(parse_interval(line)->Ok_0.end));
}

/// A number that is written in decimal notation is read back as itself.
pub proof fn lemma_number_round_trip(n: nat)
    requires
        n <= u32::MAX,
    ensures
        parse_number_spec(decimal(n)) == Some(n),
{
    lemma_decimal_denotes(n);
    assert(is_digit(decimal(n)[0]));
}

} // verus!
