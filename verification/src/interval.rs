//! Interval lines: a reference name, a start and an end, separated by tabs.

use vstd::prelude::*;
use vstd::slice::{slice_subrange, slice_to_vec};
use crate::config::Region;
use crate::decimal::{all_digits, digits_value, is_digit};
use crate::emit::TAB;
use crate::error::PipelineError;

verus! {

/// The sign that may stand before the digits of a number.
pub const PLUS: u8 = 0x2b;

/// The mathematical content of an [`IntervalRequest`].
pub struct IntervalModel {
    pub reference_name: Seq<u8>,
    pub start: nat,
    pub end: nat,
}

/// One interval of an interval list: the bytes of the reference name and the
/// half-open range `[start, end)` on that reference.
#[derive(Debug, PartialEq, Eq)]
pub struct IntervalRequest {
    pub reference_name: Vec<u8>,
    pub start: u32,
    pub end: u32,
}

impl View for IntervalRequest {
    type V = IntervalModel;

    open spec fn view(&self) -> IntervalModel {
        IntervalModel {
            reference_name: self.reference_name@,
            start: self.start as nat,
            end: self.end as nat,
        }
    }
}

impl IntervalRequest {
    /// The range of the request as a region.
    pub fn region(&self) -> (region: Region)
        ensures
            region == (Region { start: self.start, end: self.end }),
    {
        Region { start: self.start, end: self.end }
    }
}

/// Where the field that begins at `from` ends: at the first tab at or after
/// `from`, or at the end of the line where no tab follows.
pub open spec fn field_end(line: Seq<u8>, from: int) -> int
    decreases line.len() - from,
{
    if from < 0 || from >= line.len() {
        line.len() as int
    } else if line[from] == TAB {
        from
    } else {
        field_end(line, from + 1)
    }
}

/// The digits of a number field: the field without a leading plus sign.
pub open spec fn unsigned_part(field: Seq<u8>) -> Seq<u8> {
    if field.len() > 0 && field[0] == PLUS {
        field.drop_first()
    } else {
        field
    }
}

/// The number that a field denotes: the field is an optional plus sign and
/// then one decimal digit or more, and the number fits in 32 bits.
pub open spec fn parse_number_spec(field: Seq<u8>) -> Option<nat> {
    let digits = unsigned_part(field);
    if digits.len() > 0 && all_digits(digits) && digits_value(digits) <= u32::MAX {
        Some(digits_value(digits))
    } else {
        None
    }
}

/// The interval that a line denotes. The first three tab-separated fields are
/// the reference name, the start and the end; further fields are ignored. A
/// line with fewer than three fields, or with a start or end that is no
/// number, is refused.
pub open spec fn parse_interval(line: Seq<u8>) -> Result<IntervalModel, PipelineError> {
    let name_end = field_end(line, 0);
    let start_end = field_end(line, name_end + 1);
    let end_end = field_end(line, start_end + 1);
    if name_end >= line.len() || start_end >= line.len() {
        Err(PipelineError::InvalidInterval)
    } else {
        match (
            parse_number_spec(line.subrange(name_end + 1, start_end)),
            parse_number_spec(line.subrange(start_end + 1, end_end)),
        ) {
            (Some(start), Some(end)) => Ok(
                IntervalModel { reference_name: line.subrange(0, name_end), start, end },
            ),
            _ => Err(PipelineError::InvalidInterval),
        }
    }
}

/// The contents of what parsing a line returns.
pub open spec fn interval_model(parsed: Result<IntervalRequest, PipelineError>) -> Result<
    IntervalModel,
    PipelineError,
> {
    match parsed {
        Ok(request) => Ok(request@),
        Err(e) => Err(e),
    }
}

/// Among digits a longer sequence denotes no less than its beginning.
proof fn lemma_digits_value_monotone(digits: Seq<u8>, k: int)
    requires
        all_digits(digits),
        0 <= k <= digits.len(),
    ensures
        digits_value(digits.take(k)) <= digits_value(digits),
    decreases digits.len(),
{
    if k == digits.len() {
        assert(digits.take(k) == digits);
    } else {
        assert(digits.drop_last().take(k) == digits.take(k));
        assert(is_digit(digits[digits.len() - 1]));
        lemma_digits_value_monotone(digits.drop_last(), k);
    }
}

fn find_field_end(line: &[u8], from: usize) -> (end: usize)
    requires
        from <= line@.len(),
    ensures
        end == field_end(line@, from as int),
        from <= end <= line@.len(),
{
    let mut end: usize = from;
    while end < line.len() && line[end] != TAB
        invariant
            from <= end <= line@.len(),
            field_end(line@, from as int) == field_end(line@, end as int),
        decreases line@.len() - end,
    {
        end = end + 1;
    }
    end
}

/// Reads a number of 32 bits from a field: an optional plus sign, then one
/// decimal digit or more.
pub fn parse_number(field: &[u8]) -> (number: Option<u32>)
    ensures
        match number {
            Some(value) => parse_number_spec(field@) == Some(value as nat),
            None => parse_number_spec(field@) is None,
        },
{
    let first: usize = if field.len() > 0 && field[0] == PLUS {
        1
    } else {
        0
    };
    let ghost digits = unsigned_part(field@);
    assert(digits == field@.subrange(first as int, field@.len() as int));
    if first == field.len() {
        return None;
    }
    let mut value: u64 = 0;
    let mut i: usize = first;
    assert(digits.take(0) == Seq::<u8>::empty());
    while i < field.len()
        invariant
            first <= i <= field@.len(),
            digits == unsigned_part(field@),
            digits == field@.subrange(first as int, field@.len() as int),
            all_digits(digits.take(i - first)),
            value == digits_value(digits.take(i - first)),
            value <= u32::MAX,
        decreases field@.len() - i,
    {
        let byte = field[i];
        let ghost done = digits.take(i - first);
        let ghost next = digits.take(i - first + 1);
        proof {
            assert(next.drop_last() == done);
            assert(next.last() == byte);
        }
        if byte < 0x30 || byte > 0x39 {
            assert(!is_digit(digits[i - first]));
            return None;
        }
        value = value * 10 + (byte - 0x30) as u64;
        proof {
            assert forall|j: int| 0 <= j < next.len() implies is_digit(#[trigger] next[j]) by {
                if j < done.len() {
                    assert(next[j] == done[j]);
                }
            }
        }
        if value > u32::MAX as u64 {
            proof {
                if all_digits(digits) {
                    lemma_digits_value_monotone(digits, i - first + 1);
                }
            }
            return None;
        }
        i = i + 1;
    }
    assert(digits.take(i - first) == digits);
    Some(value as u32)
}

/// Reads one line of an interval list. The line comes without its line
/// terminator.
pub fn parse_interval_line(line: &[u8]) -> (parsed: Result<IntervalRequest, PipelineError>)
    ensures
        interval_model(parsed) == parse_interval(line@),
{
    let name_end = find_field_end(line, 0);
    if name_end >= line.len() {
        return Err(PipelineError::InvalidInterval);
    }
    let start_end = find_field_end(line, name_end + 1);
    if start_end >= line.len() {
        return Err(PipelineError::InvalidInterval);
    }
    let end_end = find_field_end(line, start_end + 1);
    let start = parse_number(slice_subrange(line, name_end + 1, start_end));
    let end = parse_number(slice_subrange(line, start_end + 1, end_end));
    match (start, end) {
        (Some(start), Some(end)) => Ok(
            IntervalRequest {
                reference_name: slice_to_vec(slice_subrange(line, 0, name_end)),
                start,
                end,
            },
        ),
        _ => Err(PipelineError::InvalidInterval),
    }
}

} // verus!
