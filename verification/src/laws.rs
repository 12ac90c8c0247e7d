//! What holds of the parser and the selector on every input.

use vstd::prelude::*;
use crate::parser::{
    basic_label, code_field, consecutive, expand, is_data_line, is_selectable, line_range,
    line_records, pool_of, type_label,
};
use crate::record::{is_scalar_value, EmojiData, EmojiError, EmojiType};
use crate::select::{is_selection, shown};

verus! {

/// A line that does not start with an alphanumeric character, and so any
/// comment or empty line, yields no record.
pub proof fn lemma_comment_yields_nothing(line: Seq<char>)
    requires
        !is_data_line(line),
    ensures
        line_records(line) == Ok::<Seq<EmojiData>, EmojiError>(Seq::empty()),
{
}

/// A line whose second field is not the basic label yields no record,
/// whatever its first field holds.
pub proof fn lemma_other_label_yields_nothing(line: Seq<char>)
    requires
        type_label(line) != basic_label(),
    ensures
        line_records(line) == Ok::<Seq<EmojiData>, EmojiError>(Seq::empty()),
{
}

/// A line whose first field holds a space names a sequence of code points
/// and yields no record, whatever its label.
pub proof fn lemma_sequence_yields_nothing(line: Seq<char>)
    requires
        code_field(line).contains(' '),
    ensures
        line_records(line) == Ok::<Seq<EmojiData>, EmojiError>(Seq::empty()),
{
}

/// A range yields one record for each of its values, in ascending order,
/// and all of them basic; a range whose bounds are out of order yields
/// none.
pub proof fn lemma_range_records(low: u32, high: u32)
    ensures
        low <= high ==> expand(low, high).len() == high - low + 1,
        low > high ==> expand(low, high).len() == 0,
        forall|i: int|
            0 <= i < expand(low, high).len() ==> {
                &&& (#[trigger] expand(low, high)[i]).character_raw == low + i
                &&& expand(low, high)[i].emoji_type == EmojiType::Basic
            },
{
}

/// Every record that a line yields is basic.
pub proof fn lemma_line_records_are_basic(line: Seq<char>, i: int)
    requires
        line_records(line) is Ok,
        0 <= i < line_records(line).unwrap().len(),
    ensures
        line_records(line).unwrap()[i].emoji_type == EmojiType::Basic,
{
    match line_range(line) {
        Ok(Some((low, high))) => {
            lemma_range_records(low, high);
        },
        _ => {},
    }
}

/// Parsing fails only with a format error.
pub proof fn lemma_pool_error_is_format(lines: Seq<Seq<char>>)
    requires
        pool_of(lines) is Err,
    ensures
        pool_of(lines) == Err::<Seq<EmojiData>, EmojiError>(EmojiError::Format),
    decreases lines.len(),
{
    if lines.len() > 0 && pool_of(lines.drop_last()) is Err {
        lemma_pool_error_is_format(lines.drop_last());
    }
}

/// Parsing fails exactly when one of the lines does.
pub proof fn lemma_pool_fails_iff_a_line_fails(lines: Seq<Seq<char>>)
    ensures
        pool_of(lines) is Err <==> exists|k: int|
            0 <= k < lines.len() && (#[trigger] line_records(lines[k])) is Err,
    decreases lines.len(),
{
    if lines.len() > 0 {
        let front = lines.drop_last();
        lemma_pool_fails_iff_a_line_fails(front);
        if pool_of(lines) is Err {
            if pool_of(front) is Err {
                let k = choose|k: int|
                    0 <= k < front.len() && (#[trigger] line_records(front[k])) is Err;
                assert(line_records(lines[k]) is Err);
            } else {
                assert(line_records(lines[lines.len() - 1]) is Err);
            }
        }
        if exists|k: int| 0 <= k < lines.len() && (#[trigger] line_records(lines[k])) is Err {
            let k = choose|k: int|
                0 <= k < lines.len() && (#[trigger] line_records(lines[k])) is Err;
            if k < front.len() {
                assert(line_records(front[k]) is Err);
            }
        }
    }
}

/// The pool of two runs of lines, one after the other, is the pool of the
/// first followed by the pool of the second: the records keep the order of
/// the lines.
pub proof fn lemma_pool_of_concat(first: Seq<Seq<char>>, second: Seq<Seq<char>>)
    ensures
        pool_of(first + second) == match (pool_of(first), pool_of(second)) {
            (Err(e), _) => Err::<Seq<EmojiData>, EmojiError>(e),
            (Ok(_), Err(e)) => Err(e),
            (Ok(a), Ok(b)) => Ok(a + b),
        },
    decreases second.len(),
{
    if second.len() == 0 {
        assert(first + second =~= first);
        if let Ok(a) = pool_of(first) {
            assert(a + Seq::<EmojiData>::empty() =~= a);
        }
    } else {
        let front = second.drop_last();
        assert((first + second).drop_last() =~= first + front);
        assert((first + second).last() == second.last());
        lemma_pool_of_concat(first, front);
        if let (Ok(a), Ok(b), Ok(c)) = (pool_of(first), pool_of(front), line_records(second.last())) {
            assert((a + b) + c =~= a + (b + c));
        }
    }
}

/// Every record of the pool is a record of one of the lines.
pub proof fn lemma_pool_record_has_a_line(lines: Seq<Seq<char>>, j: int)
    requires
        pool_of(lines) is Ok,
        0 <= j < pool_of(lines).unwrap().len(),
    ensures
        exists|k: int|
            0 <= k < lines.len() && (#[trigger] line_records(lines[k])) is Ok && line_records(
                lines[k],
            ).unwrap().contains(pool_of(lines).unwrap()[j]),
    decreases lines.len(),
{
    let front = lines.drop_last();
    let before = pool_of(front).unwrap();
    if j < before.len() {
        lemma_pool_record_has_a_line(front, j);
        let k = choose|k: int|
            0 <= k < front.len() && (#[trigger] line_records(front[k])) is Ok && line_records(
                front[k],
            ).unwrap().contains(before[j]);
        assert(line_records(lines[k]) is Ok);
    } else {
        let k = lines.len() - 1;
        let more = line_records(lines[k]).unwrap();
        assert(more[j - before.len()] == pool_of(lines).unwrap()[j]);
        assert(line_records(lines[k]) is Ok);
    }
}

/// Every record of every line is in the pool.
pub proof fn lemma_line_record_is_in_pool(lines: Seq<Seq<char>>, k: int, record: EmojiData)
    requires
        pool_of(lines) is Ok,
        0 <= k < lines.len(),
        line_records(lines[k]) is Ok,
        line_records(lines[k]).unwrap().contains(record),
    ensures
        pool_of(lines).unwrap().contains(record),
    decreases lines.len(),
{
    let front = lines.drop_last();
    let before = pool_of(front).unwrap();
    let more = line_records(lines.last()).unwrap();
    if k < front.len() {
        lemma_line_record_is_in_pool(front, k, record);
        let j = choose|j: int| 0 <= j < before.len() && before[j] == record;
        assert((before + more)[j] == record);
    } else {
        let j = choose|j: int| 0 <= j < more.len() && more[j] == record;
        assert((before + more)[before.len() + j] == record);
    }
}

/// Every record of the pool is basic.
pub proof fn lemma_pool_is_basic(lines: Seq<Seq<char>>, j: int)
    requires
        pool_of(lines) is Ok,
        0 <= j < pool_of(lines).unwrap().len(),
    ensures
        pool_of(lines).unwrap()[j].emoji_type == EmojiType::Basic,
{
    lemma_pool_record_has_a_line(lines, j);
    let k = choose|k: int|
        0 <= k < lines.len() && (#[trigger] line_records(lines[k])) is Ok && line_records(
            lines[k],
        ).unwrap().contains(pool_of(lines).unwrap()[j]);
    let records = line_records(lines[k]).unwrap();
    let i = choose|i: int| 0 <= i < records.len() && records[i] == pool_of(lines).unwrap()[j];
    lemma_line_records_are_basic(lines[k], i);
}

/// Lines of which none is selectable, such as a file of comments, have an
/// empty pool.
pub proof fn lemma_nothing_selectable_empty_pool(lines: Seq<Seq<char>>)
    requires
        forall|k: int| 0 <= k < lines.len() ==> !is_selectable(#[trigger] lines[k]),
    ensures
        pool_of(lines) == Ok::<Seq<EmojiData>, EmojiError>(Seq::empty()),
    decreases lines.len(),
{
    if lines.len() > 0 {
        let front = lines.drop_last();
        assert forall|k: int| 0 <= k < front.len() implies !is_selectable(#[trigger] front[k]) by {
            assert(front[k] == lines[k]);
        }
        lemma_nothing_selectable_empty_pool(front);
        assert(!is_selectable(lines[lines.len() - 1]));
        assert(Seq::<EmojiData>::empty() + Seq::<EmojiData>::empty() =~= Seq::<EmojiData>::empty());
    }
}

/// What a selection can be. From an empty pool it is the empty-pool error
/// and from no other pool. A character that is returned is the character of
/// a record of the pool. A conversion error means that the pool holds a
/// record that is no Unicode scalar value; where it holds none, the
/// selection succeeds. A selection is never a format error.
pub proof fn lemma_selection_cases(pool: Seq<EmojiData>, r: Result<char, EmojiError>)
    requires
        is_selection(pool, r),
    ensures
        r == Err::<char, EmojiError>(EmojiError::EmptyPool) <==> pool.len() == 0,
        r matches Ok(c) ==> exists|i: int|
            0 <= i < pool.len() && (#[trigger] pool[i]).character_raw == c as u32,
        r == Err::<char, EmojiError>(EmojiError::Conversion) ==> exists|i: int|
            0 <= i < pool.len() && !is_scalar_value((#[trigger] pool[i]).character_raw),
        r != Err::<char, EmojiError>(EmojiError::Format),
        pool.len() > 0 && (forall|i: int|
            0 <= i < pool.len() ==> is_scalar_value((#[trigger] pool[i]).character_raw)) ==> r is Ok,
{
    if pool.len() > 0 {
        let i = choose|i: int| 0 <= i < pool.len() && r == shown(#[trigger] pool[i]);
        assert(r == shown(pool[i]));
    }
}

} // verus!
