//! The time of day out of a spot's timestamp.

use vstd::prelude::*;
use vstd::string::*;
use crate::text::{chars_of, push_char};

verus! {

/// The character between the date and the time of a timestamp.
pub const TIME_MARK: char = 'T';

/// The suffix of a timestamp in universal time.
pub const ZULU: char = 'Z';

/// A character that ends the seconds: the start of a fraction or of a zone
/// offset.
pub open spec fn ends_clock(c: char) -> bool {
    c == '.' || c == '+' || c == '-'
}

/// The number of characters in front of the first `TIME_MARK`; the length of
/// `text` where it holds none.
pub open spec fn date_len(text: Seq<char>) -> nat
    decreases text.len(),
{
    if text.len() == 0 || text[0] == TIME_MARK {
        0
    } else {
        date_len(text.drop_first()) + 1
    }
}

/// The length of `text` without the `ZULU`s at its end.
pub open spec fn trimmed_len(text: Seq<char>) -> nat
    decreases text.len(),
{
    if text.len() == 0 || text.last() != ZULU {
        text.len()
    } else {
        trimmed_len(text.drop_last())
    }
}

/// The number of characters in front of the first that ends the clock; the
/// length of `text` where none does.
pub open spec fn clock_len(text: Seq<char>) -> nat
    decreases text.len(),
{
    if text.len() == 0 || ends_clock(text[0]) {
        0
    } else {
        clock_len(text.drop_first()) + 1
    }
}

/// The time of day in the timestamp `text`: what follows the first
/// `TIME_MARK`, without the `ZULU`s at its end, up to the first fraction or
/// zone offset. A text without a `TIME_MARK` stands for itself.
pub open spec fn time_of_day(text: Seq<char>) -> Seq<char> {
    if date_len(text) == text.len() {
        text
    } else {
        let time = text.skip(date_len(text) as int + 1);
        let trimmed = time.take(trimmed_len(time) as int);
        trimmed.take(clock_len(trimmed) as int)
    }
}

proof fn lemma_date_len(text: Seq<char>, at: int)
    requires
        0 <= at <= text.len(),
        forall|i: int| 0 <= i < at ==> text[i] != TIME_MARK,
        at == text.len() || text[at] == TIME_MARK,
    ensures
        date_len(text) == at,
    decreases at,
{
    if at > 0 {
        let tail = text.drop_first();
        assert forall|i: int| 0 <= i < at - 1 implies tail[i] != TIME_MARK by {
            assert(tail[i] == text[i + 1]);
        }
        lemma_date_len(tail, at - 1);
    }
}

proof fn lemma_trimmed_len(text: Seq<char>, at: int)
    requires
        0 <= at <= text.len(),
        forall|i: int| at <= i < text.len() ==> text[i] == ZULU,
        at == 0 || text[at - 1] != ZULU,
    ensures
        trimmed_len(text) == at,
    decreases text.len() - at,
{
    if at < text.len() {
        let front = text.drop_last();
        assert forall|i: int| at <= i < front.len() implies front[i] == ZULU by {
            assert(front[i] == text[i]);
        }
        lemma_trimmed_len(front, at);
    }
}

proof fn lemma_clock_len(text: Seq<char>, at: int)
    requires
        0 <= at <= text.len(),
        forall|i: int| 0 <= i < at ==> !ends_clock(text[i]),
        at == text.len() || ends_clock(text[at]),
    ensures
        clock_len(text) == at,
    decreases at,
{
    if at > 0 {
        let tail = text.drop_first();
        assert forall|i: int| 0 <= i < at - 1 implies !ends_clock(tail[i]) by {
            assert(tail[i] == text[i + 1]);
        }
        lemma_clock_len(tail, at - 1);
    }
}

/// The time of day in a timestamp such as `2024-05-01T12:34:56.000Z`, for
/// which it is `12:34:56`.
pub fn format_time(ts: &str) -> (time: String)
    ensures
        time@ == time_of_day(ts@),
{
    let chars = chars_of(ts);
    let mut mark: usize = 0;
    while mark < chars.len() && chars[mark] != TIME_MARK
        invariant
            mark <= chars.len(),
            forall|i: int| 0 <= i < mark ==> chars[i] != TIME_MARK,
        decreases chars.len() - mark,
    {
        mark += 1;
    }
    proof {
        lemma_date_len(chars@, mark as int);
    }
    if mark == chars.len() {
        return ts.to_owned();
    }
    let start = mark + 1;
    let ghost rest = chars@.skip(start as int);
    let mut end = chars.len();
    while end > start && chars[end - 1] == ZULU
        invariant
            start <= end <= chars.len(),
            forall|i: int| end <= i < chars.len() ==> chars[i] == ZULU,
        decreases end,
    {
        end -= 1;
    }
    proof {
        assert forall|i: int| end - start <= i < rest.len() implies rest[i] == ZULU by {
            assert(rest[i] == chars[i + start]);
        }
        lemma_trimmed_len(rest, end - start);
    }
    let ghost trimmed = rest.take(end - start);
    let mut time = String::new();
    let mut at = start;
    while at < end && !(chars[at] == '.' || chars[at] == '+' || chars[at] == '-')
        invariant
            start <= at <= end <= chars.len(),
            trimmed == chars@.subrange(start as int, end as int),
            time@ == trimmed.take(at - start),
            forall|i: int| 0 <= i < at - start ==> !ends_clock(trimmed[i]),
        decreases end - at,
    {
        push_char(&mut time, chars[at]);
        at += 1;
        assert(trimmed.take(at - start) =~= trimmed.take(at - start - 1).push(chars[at - 1]));
    }
    proof {
        lemma_clock_len(trimmed, at - start);
    }
    time
}

} // verus!
