//! Answering one user's query against the current snapshot.
//!
//! A query arrives as an optional identifier text. An absent text asks for
//! the plain landing page and is not an error; a present text must be a
//! decimal `u64`, is looked up in the live snapshot, and a hit is turned
//! into the level information the caller renders.

use crate::store::SnapshotStore;
use vstd::prelude::*;

verus! {

use vstd::string::StringSliceAdditionalSpecFns;
use vstd::utf8::encode_utf8;

/// What answering a query can fail with. `UnknownId` is the caller-facing
/// shape of a lookup miss, not a fault of the cache itself.
#[derive(Clone, Copy, Debug, PartialEq, Eq, Structural)]
pub enum Error {
    /// The query's identifier text is not a decimal `u64`.
    UnparseableId,
    /// The identifier is absent from the current snapshot.
    UnknownId,
}

/// One user's query: the identifier text, when one was submitted.
pub struct SubmitQuery {
    pub id: Option<String>,
}

/// Whether `b` is the UTF-8 byte of a decimal digit.
pub open spec fn is_digit_byte(b: u8) -> bool {
    48 <= b && b <= 57
}

/// Whether every byte of `s` is a decimal digit.
pub open spec fn all_digits(s: Seq<u8>) -> bool {
    forall|i: int| 0 <= i < s.len() ==> is_digit_byte(s[i])
}

/// The number a sequence of digit bytes spells in decimal.
pub open spec fn digits_value(s: Seq<u8>) -> int
    decreases s.len(),
{
    if s.len() == 0 {
        0
    } else {
        digits_value(s.drop_last()) * 10 + (s.last() - 48)
    }
}

/// The digit part of an identifier text's bytes: everything after one
/// optional leading plus sign.
pub open spec fn digits_part(s: Seq<u8>) -> Seq<u8> {
    if s.len() > 0 && s[0] == 43 {
        s.drop_first()
    } else {
        s
    }
}

/// Whether `s` is the byte form of a decimal `u64`: after one optional
/// leading plus sign, at least one digit, only digits, and a value that
/// fits in a `u64`.
pub open spec fn is_valid_id_bytes(s: Seq<u8>) -> bool {
    digits_part(s).len() > 0 && all_digits(digits_part(s)) && digits_value(digits_part(s))
        <= u64::MAX
}

/// Whether the identifier text parses as a decimal `u64`.
pub open spec fn valid_id_text(text: Seq<char>) -> bool {
    is_valid_id_bytes(encode_utf8(text))
}

/// The identifier a valid text denotes.
pub open spec fn id_text_u64(text: Seq<char>) -> u64 {
    digits_value(digits_part(encode_utf8(text))) as u64
}

/// The value of a sequence of digit bytes is never negative.
proof fn lemma_digits_value_nonneg(s: Seq<u8>)
    requires
        all_digits(s),
    ensures
        digits_value(s) >= 0,
    decreases s.len(),
{
    if s.len() > 0 {
        assert(all_digits(s.drop_last())) by {
            assert(forall|i: int|
                0 <= i < s.drop_last().len() ==> s.drop_last()[i] == s[i] && is_digit_byte(s[i]));
        }
        lemma_digits_value_nonneg(s.drop_last());
    }
}

/// Reading one more digit multiplies the value so far by ten and adds it.
proof fn lemma_digits_value_step(s: Seq<u8>, start: int, i: int)
    requires
        0 <= start <= i < s.len(),
    ensures
        digits_value(s.subrange(start, i + 1)) == digits_value(s.subrange(start, i)) * 10 + (
        s[i] - 48),
{
    assert(s.subrange(start, i + 1).drop_last() =~= s.subrange(start, i));
    assert(s.subrange(start, i + 1).last() == s[i]);
}

/// A prefix of a digit sequence never spells a larger number than the
/// whole sequence.
proof fn lemma_digits_value_prefix_le(s: Seq<u8>, j: int)
    requires
        all_digits(s),
        0 <= j <= s.len(),
    ensures
        digits_value(s.take(j)) <= digits_value(s),
    decreases s.len() - j,
{
    if j == s.len() {
        assert(s.take(j) =~= s);
    } else {
        assert(s.take(j + 1).drop_last() =~= s.take(j));
        assert(s.take(j + 1).last() == s[j]);
        assert(all_digits(s.take(j))) by {
            assert(forall|i: int|
                0 <= i < s.take(j).len() ==> s.take(j)[i] == s[i] && is_digit_byte(s[i]));
        }
        lemma_digits_value_nonneg(s.take(j));
        assert(digits_value(s.take(j + 1)) >= digits_value(s.take(j)));
        lemma_digits_value_prefix_le(s, j + 1);
    }
}

/// Parses an identifier text as the decimal `u64` it spells.
///
/// Returns `Ok` exactly when the text is one optional plus sign, then one
/// or more decimal digits whose value fits in a `u64`; any other text is
/// answered with `Error::UnparseableId`.
pub fn parse_id(text: &str) -> (r: Result<u64, Error>)
    ensures
        match r {
            Ok(v) => is_valid_id_bytes(text.spec_bytes()) && v == digits_value(
                digits_part(text.spec_bytes()),
            ),
            Err(e) => e == Error::UnparseableId && !is_valid_id_bytes(text.spec_bytes()),
        },
{
    let bytes = text.as_bytes();
    let n = bytes.len();
    let mut start: usize = 0;
    // One optional leading plus sign (byte 43).
    if n > 0 && bytes[0] == 43 {
        start = 1;
    }
    proof {
        assert(digits_part(text.spec_bytes()) =~= bytes@.subrange(start as int, n as int));
    }
    if start == n {
        return Err(Error::UnparseableId);
    }
    let mut acc: u64 = 0;
    let mut i: usize = start;
    while i < n
        invariant
            start <= i <= n,
            n == bytes@.len(),
            bytes@ == text.spec_bytes(),
            digits_part(text.spec_bytes()) == bytes@.subrange(start as int, n as int),
            all_digits(bytes@.subrange(start as int, i as int)),
            acc == digits_value(bytes@.subrange(start as int, i as int)),
        decreases n - i,
    {
        let b = bytes[i];
        proof {
            lemma_digits_value_step(bytes@, start as int, i as int);
        }
        if b < 48 || b > 57 {
            proof {
                let d = bytes@.subrange(start as int, n as int);
                assert(d[i - start] == bytes@[i as int]);
                assert(!all_digits(d));
            }
            return Err(Error::UnparseableId);
        }
        // `acc * 10 + digit` overflows exactly when `acc` is above
        // `u64::MAX / 10`, or equals it and the digit is above
        // `u64::MAX % 10` (five, byte 53).
        if acc > 1844674407370955161u64 || (acc == 1844674407370955161u64 && b > 53) {
            proof {
                let d = bytes@.subrange(start as int, n as int);
                if all_digits(d) {
                    assert(bytes@.subrange(start as int, i as int + 1) =~= d.take(
                        i as int + 1 - start,
                    ));
                    lemma_digits_value_prefix_le(d, i as int + 1 - start);
                    assert(digits_value(d) > u64::MAX);
                }
            }
            return Err(Error::UnparseableId);
        }
        acc = acc * 10 + ((b - 48) as u64);
        i = i + 1;
        proof {
            let shorter = bytes@.subrange(start as int, i as int - 1);
            let longer = bytes@.subrange(start as int, i as int);
            assert(longer[i as int - 1 - start as int] == bytes@[i as int - 1]);
            assert(forall|k: int|
                0 <= k < shorter.len() ==> longer[k] == shorter[k] && is_digit_byte(shorter[k]));
            assert(all_digits(longer));
        }
    }
    proof {
        assert(bytes@.subrange(start as int, i as int) =~= digits_part(text.spec_bytes()));
    }
    Ok(acc)
}

/// The level the external level formula assigns to an xp value: it depends
/// on the xp alone.
pub uninterp spec fn level_of(xp: u64) -> u64;

/// Relies on `mee6::LevelInfo`: `new` computes the level from the xp value
/// alone, and `level` hands that field back. The maximal `u64` is excluded:
/// `new` searches for the first level threshold above the xp, and since the
/// thresholds are clamped to `u64::MAX`, no threshold is ever above that
/// score and the search does not return.
#[verifier::external_body]
fn mee6_level(xp: u64) -> (level: u64)
    requires
        xp < u64::MAX,
    ensures
        level == level_of(xp),
{
    mee6::LevelInfo::new(xp).level()
}

/// The score whose level a lookup reports: the score itself, except that
/// the maximal `u64` — which the level formula cannot be asked about —
/// is answered as the greatest score it can be asked about.
pub open spec fn level_query_xp(xp: u64) -> u64 {
    if xp == u64::MAX {
        (u64::MAX - 1) as u64
    } else {
        xp
    }
}

/// A successful answer to a query: the identifier asked for, its score in
/// the current snapshot, and the level that score amounts to.
#[derive(Clone, Copy, Debug, PartialEq, Eq, Structural)]
pub struct UserLevel {
    pub id: u64,
    pub xp: u64,
    pub level: u64,
}

/// Exactly what answering a query returns, given the live mapping and the
/// submitted identifier text: the landing page (`Ok(None)`) when no text
/// was submitted; the full answer when the text is a valid identifier with
/// an entry (the level is the formula's level for `level_query_xp` of the
/// score); and otherwise the one error the text deserves.
pub open spec fn query_answer(
    scores: Map<u64, u64>,
    query_id: Option<Seq<char>>,
    r: Result<Option<UserLevel>, Error>,
) -> bool {
    match query_id {
        None => r == Ok::<Option<UserLevel>, Error>(None),
        Some(text) => match r {
            Ok(Some(u)) => valid_id_text(text) && u.id == id_text_u64(text)
                && scores.contains_key(u.id) && u.xp == scores[u.id] && u.level == level_of(
                level_query_xp(u.xp),
            ),
            Ok(None) => false,
            Err(Error::UnparseableId) => !valid_id_text(text),
            Err(Error::UnknownId) => valid_id_text(text) && !scores.contains_key(
                id_text_u64(text),
            ),
        },
    }
}

/// Answers one user's query against the most recently published snapshot.
///
/// No submitted identifier asks for the landing page; a malformed
/// identifier or one the snapshot does not know is answered with the
/// matching error; otherwise the score and its level are returned. For
/// the one score the level formula cannot be asked about, the maximal
/// `u64`, the level reported is that of the score one below it.
pub fn fetch_user(store: &SnapshotStore, query: &SubmitQuery) -> (r: Result<
    Option<UserLevel>,
    Error,
>)
    ensures
        query_answer(store@, query.id.deep_view(), r),
{
    let text = match &query.id {
        None => {
            return Ok(None);
        },
        Some(text) => text,
    };
    let id = match parse_id(text.as_str()) {
        Err(e) => {
            return Err(e);
        },
        Ok(id) => id,
    };
    let xp = match store.get(id) {
        None => {
            return Err(Error::UnknownId);
        },
        Some(xp) => xp,
    };
    let level = if xp == u64::MAX {
        mee6_level(xp - 1)
    } else {
        mee6_level(xp)
    };
    Ok(Some(UserLevel { id, xp, level }))
}

} // verus!
