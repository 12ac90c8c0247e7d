//! The random selector: one record of the pool, chosen by the thread-local
//! generator of the `rand` crate, and shown as a character.

use rand::rngs::ThreadRng;
use rand::seq::IteratorRandom;
use vstd::prelude::*;
use crate::parser::{parse_emoji_data, pool_of, texts};
use crate::record::{scalar_char, EmojiData, EmojiError};

verus! {

/// `rand::rngs::ThreadRng`, the handle to the thread-local generator.
/// Nothing is known of its state.
#[verifier::external_type_specification]
#[verifier::external_body]
pub struct ExThreadRng(ThreadRng);

/// `rand::thread_rng`: the handle to the generator of the current thread.
/// Nothing is claimed of the handle. The first call on a thread seeds the
/// generator from the operating system, and panics if the system gives no
/// entropy.
pub assume_specification[ rand::thread_rng ]() -> (rng: ThreadRng)
;

/// `IteratorRandom::choose` of the `rand` crate, on the positions
/// `0..count`. It returns `None` exactly when there is no position, and
/// otherwise one of the positions. Which one depends on the generator, and
/// nothing is claimed of that.
#[verifier::external_body]
fn choose_position(count: usize, rng: &mut ThreadRng) -> (position: Option<usize>)
    ensures
        position is None <==> count == 0,
        position matches Some(i) ==> i < count,
{
    (0..count).choose(rng)
}

/// What a record shows as: its character, or a conversion error when its
/// raw value is no Unicode scalar value.
pub open spec fn shown(record: EmojiData) -> Result<char, EmojiError> {
    match scalar_char(record.character_raw) {
        Some(c) => Ok(c),
        None => Err(EmojiError::Conversion),
    }
}

/// The outcome of selecting `position` in `pool`: an empty-pool error when
/// no position was chosen, else what the record there shows as.
pub open spec fn selected(pool: Seq<EmojiData>, position: Option<usize>) -> Result<
    char,
    EmojiError,
> {
    match position {
        None => Err(EmojiError::EmptyPool),
        Some(i) => shown(pool[i as int]),
    }
}

/// Whether `r` is what some record of `pool` shows as.
pub open spec fn shows_one_of(pool: Seq<EmojiData>, r: Result<char, EmojiError>) -> bool {
    exists|i: int| 0 <= i < pool.len() && r == shown(#[trigger] pool[i])
}

/// What a selection from `pool` may return: the empty-pool error when
/// there is nothing to select from, else what one of the records shows as.
pub open spec fn is_selection(pool: Seq<EmojiData>, r: Result<char, EmojiError>) -> bool {
    if pool.len() == 0 {
        r == Err::<char, EmojiError>(EmojiError::EmptyPool)
    } else {
        shows_one_of(pool, r)
    }
}

/// The character for a chosen position of the pool.
pub fn emoji_at(pool: &Vec<EmojiData>, position: Option<usize>) -> (r: Result<char, EmojiError>)
    requires
        position matches Some(i) ==> i < pool.len(),
    ensures
        r == selected(pool@, position),
{
    match position {
        None => Err(EmojiError::EmptyPool),
        Some(i) => match pool[i].to_char() {
            Some(c) => Ok(c),
            None => Err(EmojiError::Conversion),
        },
    }
}

/// Selects one record of `pool` at random and returns its character.
pub fn choose_emoji(pool: &Vec<EmojiData>, rng: &mut ThreadRng) -> (r: Result<char, EmojiError>)
    ensures
        is_selection(pool@, r),
{
    let position = choose_position(pool.len(), rng);
    emoji_at(pool, position)
}

/// One basic emoji of the data file whose lines are `lines`, chosen at
/// random.
pub fn random_emoji(lines: &Vec<String>) -> (r: Result<char, EmojiError>)
    ensures
        match pool_of(texts(lines@)) {
            Err(e) => r == Err::<char, EmojiError>(e),
            Ok(pool) => is_selection(pool, r),
        },
{
    match parse_emoji_data(lines) {
        Err(e) => Err(e),
        Ok(pool) => {
            let mut rng = rand::thread_rng();
            choose_emoji(&pool, &mut rng)
        },
    }
}

} // verus!
