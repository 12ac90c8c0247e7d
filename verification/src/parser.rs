//! The record parser: from the lines of a data file to the pool of
//! selectable code points.
//!
//! A data line has the shape `<code points> ; <label> ; ...`. Its code-point
//! field is one hexadecimal number or a range `low..high`; its label says
//! what kind of emoji the code points are. Lines that do not start with an
//! alphanumeric character are comments.

use vstd::prelude::*;
use crate::hex::{hex_value, parse_hex_range};
use crate::record::{EmojiData, EmojiError, EmojiType};
use crate::scan::{
    find_char, find_dots, first_dots, first_index, has_space, lemma_first_dots_bound,
    lemma_first_index_bound, trim, trim_span,
};
use crate::text::{alphanumeric, to_chars};

verus! {

/// The label of the lines whose code points are selectable.
pub open spec fn basic_label() -> Seq<char> {
    "Basic_Emoji"@
}

/// The category that a label stands for.
pub open spec fn classify(label: Seq<char>) -> EmojiType {
    if label == basic_label() {
        EmojiType::Basic
    } else {
        EmojiType::Unknown
    }
}

/// Whether `line` is a data line: its first character is alphanumeric.
/// Empty lines and comments are not.
pub open spec fn is_data_line(line: Seq<char>) -> bool {
    line.len() > 0 && alphanumeric(line.first())
}

/// The first field of `line`: what stands before the first `;`, trimmed.
pub open spec fn code_field(line: Seq<char>) -> Seq<char> {
    trim(line.take(first_index(line, ';') as int))
}

/// The second field of `line`: what stands between the first `;` and the
/// next one, trimmed. A line without `;` has an empty label.
pub open spec fn type_label(line: Seq<char>) -> Seq<char> {
    let semi = first_index(line, ';');
    if semi < line.len() {
        let rest = line.skip((semi + 1) as int);
        trim(rest.take(first_index(rest, ';') as int))
    } else {
        Seq::empty()
    }
}

/// Whether `line` contributes to the pool: it is a data line, its label is
/// the basic one, and its code-point field names a single code point or a
/// range of them, not a sequence of several separated by spaces.
pub open spec fn is_selectable(line: Seq<char>) -> bool {
    &&& is_data_line(line)
    &&& classify(type_label(line)) == EmojiType::Basic
    &&& !code_field(line).contains(' ')
}

/// The bounds that a code-point field names. A field without `..` is one
/// number, which is both bounds. Otherwise the lower bound stands before the
/// first `..` and the upper bound after it, up to the next `..` if there is
/// one. `None` when a bound is not a hexadecimal number.
pub open spec fn code_range(field: Seq<char>) -> Option<(u32, u32)> {
    let dots = first_dots(field);
    if dots >= field.len() {
        match hex_value(field) {
            Some(value) => Some((value, value)),
            None => None,
        }
    } else {
        let rest = field.skip((dots + 2) as int);
        let upper = rest.take(first_dots(rest) as int);
        match (hex_value(field.take(dots as int)), hex_value(upper)) {
            (Some(low), Some(high)) => Some((low, high)),
            _ => None,
        }
    }
}

/// `count` basic records with consecutive raw values, starting at `low`.
pub open spec fn consecutive(low: u32, count: nat) -> Seq<EmojiData> {
    Seq::new(
        count,
        |i: int| EmojiData { character_raw: (low + i) as u32, emoji_type: EmojiType::Basic },
    )
}

/// One basic record for every value of `low..=high`, in ascending order.
/// Empty when `low > high`.
pub open spec fn expand(low: u32, high: u32) -> Seq<EmojiData> {
    if low <= high {
        consecutive(low, (high - low + 1) as nat)
    } else {
        Seq::empty()
    }
}

/// The code points that `line` contributes, as the bounds of a range:
/// `Ok(None)` for a line that is not selectable, `Err(Format)` for a
/// selectable line whose code-point field cannot be read.
pub open spec fn line_range(line: Seq<char>) -> Result<Option<(u32, u32)>, EmojiError> {
    if !is_selectable(line) {
        Ok(None)
    } else {
        match code_range(code_field(line)) {
            Some(bounds) => Ok(Some(bounds)),
            None => Err(EmojiError::Format),
        }
    }
}

/// The records that `line` yields.
pub open spec fn line_records(line: Seq<char>) -> Result<Seq<EmojiData>, EmojiError> {
    match line_range(line) {
        Ok(Some((low, high))) => Ok(expand(low, high)),
        Ok(None) => Ok(Seq::empty()),
        Err(e) => Err(e),
    }
}

/// The records that `lines` yield, in the order of the lines; the error of
/// the first line that has one.
pub open spec fn pool_of(lines: Seq<Seq<char>>) -> Result<Seq<EmojiData>, EmojiError>
    decreases lines.len(),
{
    if lines.len() == 0 {
        Ok(Seq::empty())
    } else {
        match pool_of(lines.drop_last()) {
            Err(e) => Err(e),
            Ok(records) => match line_records(lines.last()) {
                Err(e) => Err(e),
                Ok(more) => Ok(records + more),
            },
        }
    }
}

/// The text of each line.
pub open spec fn texts(lines: Seq<String>) -> Seq<Seq<char>> {
    Seq::new(lines.len(), |i: int| lines[i]@)
}

/// Whether the executable result `r` is the outcome `expected`.
pub open spec fn yields(
    r: Result<Vec<EmojiData>, EmojiError>,
    expected: Result<Seq<EmojiData>, EmojiError>,
) -> bool {
    match r {
        Ok(records) => expected == Ok::<Seq<EmojiData>, EmojiError>(records@),
        Err(e) => expected == Err::<Seq<EmojiData>, EmojiError>(e),
    }
}

/// Whether `chars[from..to]` is the basic label.
pub fn is_basic_label(chars: &Vec<char>, from: usize, to: usize) -> (b: bool)
    requires
        from <= to <= chars.len(),
    ensures
        b == (classify(chars@.subrange(from as int, to as int)) == EmojiType::Basic),
{
    let label = to_chars("Basic_Emoji");
    let ghost span = chars@.subrange(from as int, to as int);
    if to - from != label.len() {
        return false;
    }
    let mut i: usize = 0;
    while i < label.len()
        invariant
            from <= to <= chars.len(),
            to - from == label.len(),
            i <= label.len(),
            label@ == basic_label(),
            span == chars@.subrange(from as int, to as int),
            span.take(i as int) == label@.take(i as int),
        decreases label.len() - i,
    {
        if chars[from + i] != label[i] {
            assert(span[i as int] != label@[i as int]);
            return false;
        }
        assert(span.take(i + 1) =~= span.take(i as int).push(span[i as int]));
        assert(label@.take(i + 1) =~= label@.take(i as int).push(label@[i as int]));
        i = i + 1;
    }
    assert(span.take(i as int) =~= span);
    assert(label@.take(i as int) =~= label@);
    true
}

/// Reads the code-point field `chars[from..to]`.
pub fn parse_code_range(chars: &Vec<char>, from: usize, to: usize) -> (r: Option<(u32, u32)>)
    requires
        from <= to <= chars.len(),
    ensures
        r == code_range(chars@.subrange(from as int, to as int)),
{
    let ghost field = chars@.subrange(from as int, to as int);
    let dots = find_dots(chars, from, to);
    if dots == to {
        return match parse_hex_range(chars, from, to) {
            Some(value) => Some((value, value)),
            None => None,
        };
    }
    let next = find_dots(chars, dots + 2, to);
    proof {
        let rest = field.skip(dots - from + 2);
        assert(rest =~= chars@.subrange(dots + 2, to as int));
        assert(rest.take(first_dots(rest) as int) =~= chars@.subrange(dots + 2, next as int));
        assert(field.take(dots - from) =~= chars@.subrange(from as int, dots as int));
    }
    let low = parse_hex_range(chars, from, dots);
    let high = parse_hex_range(chars, dots + 2, next);
    match (low, high) {
        (Some(low), Some(high)) => Some((low, high)),
        _ => None,
    }
}

/// Reads one line: the bounds of the code points it contributes, if any.
pub fn parse_line_range(chars: &Vec<char>) -> (r: Result<Option<(u32, u32)>, EmojiError>)
    ensures
        r == line_range(chars@),
{
    let n = chars.len();
    let ghost line = chars@;
    if n == 0 || !chars[0].is_alphanumeric() {
        return Ok(None);
    }
    assert(chars@.subrange(0, n as int) =~= line);
    let semi = find_char(chars, 0, n, ';');
    if semi == n {
        proof {
            reveal_strlit("Basic_Emoji");
            assert(type_label(line).len() == 0);
        }
        return Ok(None);
    }
    let end = find_char(chars, semi + 1, n, ';');
    let label = trim_span(chars, semi + 1, end);
    proof {
        let rest = line.skip(semi + 1);
        assert(rest =~= chars@.subrange(semi + 1, n as int));
        assert(rest.take(first_index(rest, ';') as int) =~= chars@.subrange(
            semi + 1,
            end as int,
        ));
    }
    if !is_basic_label(chars, label.0, label.1) {
        return Ok(None);
    }
    let field = trim_span(chars, 0, semi);
    assert(line.take(semi as int) =~= chars@.subrange(0, semi as int));
    if has_space(chars, field.0, field.1) {
        return Ok(None);
    }
    match parse_code_range(chars, field.0, field.1) {
        Some(bounds) => Ok(Some(bounds)),
        None => Err(EmojiError::Format),
    }
}

/// Appends one basic record for every value of `low..=high`, in ascending
/// order.
pub fn push_range(records: &mut Vec<EmojiData>, low: u32, high: u32)
    ensures
        final(records)@ == old(records)@ + expand(low, high),
{
    let ghost before = records@;
    if low > high {
        assert(before + expand(low, high) =~= before);
        return;
    }
    let mut n: u32 = low;
    assert(before + consecutive(low, 0) =~= before);
    while n < high
        invariant
            low <= n <= high,
            records@ == before + consecutive(low, (n - low) as nat),
        decreases high - n,
    {
        records.push(EmojiData { character_raw: n, emoji_type: EmojiType::Basic });
        assert(before + consecutive(low, (n - low + 1) as nat) =~= (before + consecutive(
            low,
            (n - low) as nat,
        )).push(EmojiData { character_raw: n, emoji_type: EmojiType::Basic }));
        n = n + 1;
    }
    records.push(EmojiData { character_raw: high, emoji_type: EmojiType::Basic });
    assert(before + consecutive(low, (high - low + 1) as nat) =~= (before + consecutive(
        low,
        (high - low) as nat,
    )).push(EmojiData { character_raw: high, emoji_type: EmojiType::Basic }));
}

/// The records of one line of a data file.
///
/// A line that is a comment, carries another label than `Basic_Emoji`, or
/// names a sequence of code points yields nothing. A selectable line yields
/// its code point, or every code point of its range in ascending order. A
/// selectable line whose code-point field is not hexadecimal is an error.
pub fn parse_line(line: &str) -> (r: Result<Vec<EmojiData>, EmojiError>)
    ensures
        yields(r, line_records(line@)),
{
    let chars = to_chars(line);
    let mut records: Vec<EmojiData> = Vec::new();
    match parse_line_range(&chars) {
        Err(e) => Err(e),
        Ok(None) => Ok(records),
        Ok(Some((low, high))) => {
            push_range(&mut records, low, high);
            assert(records@ =~= expand(low, high));
            Ok(records)
        },
    }
}

/// Once a prefix of the lines has failed, the whole input fails with the
/// same error.
pub proof fn lemma_pool_error_is_final(lines: Seq<Seq<char>>, k: int)
    requires
        0 <= k <= lines.len(),
        pool_of(lines.take(k)) is Err,
    ensures
        pool_of(lines) == pool_of(lines.take(k)),
    decreases lines.len() - k,
{
    if k == lines.len() {
        assert(lines.take(k) =~= lines);
    } else {
        assert(lines.drop_last().take(k) =~= lines.take(k));
        lemma_pool_error_is_final(lines.drop_last(), k);
    }
}

/// The pool of a data file, given as its lines in file order.
///
/// The records come in the order of the lines, those of a range in
/// ascending order. The first selectable line whose code-point field is not
/// hexadecimal makes the whole input an error.
pub fn parse_emoji_data(lines: &Vec<String>) -> (r: Result<Vec<EmojiData>, EmojiError>)
    ensures
        yields(r, pool_of(texts(lines@))),
{
    let ghost all = texts(lines@);
    let mut records: Vec<EmojiData> = Vec::new();
    let mut i: usize = 0;
    while i < lines.len()
        invariant
            i <= lines.len(),
            all == texts(lines@),
            pool_of(all.take(i as int)) == Ok::<Seq<EmojiData>, EmojiError>(records@),
        decreases lines.len() - i,
    {
        let chars = to_chars(lines[i].as_str());
        proof {
            assert(all.take(i + 1).drop_last() =~= all.take(i as int));
            assert(all.take(i + 1).last() == chars@);
        }
        match parse_line_range(&chars) {
            Err(e) => {
                proof {
                    lemma_pool_error_is_final(all, i + 1);
                }
                return Err(e);
            },
            Ok(None) => {
                assert(records@ + Seq::<EmojiData>::empty() =~= records@);
            },
            Ok(Some((low, high))) => {
                push_range(&mut records, low, high);
            },
        }
        i = i + 1;
    }
    assert(all.take(i as int) =~= all);
    Ok(records)
}

} // verus!
