//! The record emitter: one tab-separated row per record.

use vstd::prelude::*;
use vstd::slice::slice_to_vec;
use crate::decimal::{decimal, push_decimal, push_signed_decimal, signed_decimal};
use crate::record::{DeltaModel, DeltaRecord};

verus! {

/// The byte that separates the fields of a row.
pub const TAB: u8 = 0x09;

/// A count as a field that follows another: a tab, then the decimal notation.
pub open spec fn count_field(count: int) -> Seq<u8> {
    seq![TAB] + decimal(count as nat)
}

/// A difference as a field that follows another: a tab, then the signed
/// decimal notation.
pub open spec fn delta_field(delta: int) -> Seq<u8> {
    seq![TAB] + signed_decimal(delta)
}

/// The row of a record, without a line terminator.
///
/// The plain row has the columns reference name, coordinate, coverage count,
/// skip count, skip delta. The strand-aware row has the columns reference
/// name, coordinate, skip delta in total, forward and reverse, skip count in
/// total, forward and reverse, coverage count in total, forward and reverse.
pub open spec fn record_line(record: DeltaModel, strand_aware: bool) -> Seq<u8> {
    if strand_aware {
        record.reference_name + count_field(record.coordinate) + delta_field(record.delta_skip)
            + delta_field(record.delta_skip_fwd) + delta_field(record.delta_skip_rev)
            + count_field(record.skip_count) + count_field(record.skip_count_fwd) + count_field(
            record.skip_count_rev,
        ) + count_field(record.coverage_count) + count_field(record.coverage_count_fwd)
            + count_field(record.coverage_count_rev)
    } else {
        record.reference_name + count_field(record.coordinate) + count_field(
            record.coverage_count,
        ) + count_field(record.skip_count) + delta_field(record.delta_skip)
    }
}

fn push_count_field(line: &mut Vec<u8>, count: u32)
    ensures
        final(line)@ == old(line)@ + count_field(count as int),
{
    line.push(TAB);
    push_decimal(line, count as u64);
    assert(line@ =~= old(line)@ + count_field(count as int));
}

fn push_delta_field(line: &mut Vec<u8>, delta: i64)
    ensures
        final(line)@ == old(line)@ + delta_field(delta as int),
{
    line.push(TAB);
    push_signed_decimal(line, delta);
    assert(line@ =~= old(line)@ + delta_field(delta as int));
}

/// Renders a record as one row of tab-separated fields, in the column order
/// of the chosen mode.
pub fn format_record(record: &DeltaRecord, strand_aware: bool) -> (line: Vec<u8>)
    ensures
        line@ == record_line(record@, strand_aware),
{
    let mut line = slice_to_vec(record.reference_name.as_slice());
    push_count_field(&mut line, record.coordinate);
    if strand_aware {
        push_delta_field(&mut line, record.delta_skip);
        push_delta_field(&mut line, record.delta_skip_fwd);
        push_delta_field(&mut line, record.delta_skip_rev);
        push_count_field(&mut line, record.skip_count);
        push_count_field(&mut line, record.skip_count_fwd);
        push_count_field(&mut line, record.skip_count_rev);
        push_count_field(&mut line, record.coverage_count);
        push_count_field(&mut line, record.coverage_count_fwd);
        push_count_field(&mut line, record.coverage_count_rev);
    } else {
        push_count_field(&mut line, record.coverage_count);
        push_count_field(&mut line, record.skip_count);
        push_delta_field(&mut line, record.delta_skip);
    }
    line
}

} // verus!
