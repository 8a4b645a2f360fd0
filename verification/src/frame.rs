//! Assembly of `;`-terminated frames from text that arrives in chunks of any
//! length.

use vstd::prelude::*;
use vstd::string::*;
use crate::text::push_char;

verus! {

/// The character that ends every command and every response.
pub const DELIMITER: char = ';';

/// No delimiter occurs in `text`.
pub open spec fn delimiter_free(text: Seq<char>) -> bool {
    forall|i: int| 0 <= i < text.len() ==> text[i] != DELIMITER
}

/// `text` is exactly one frame: it ends with the delimiter and holds no other.
pub open spec fn is_frame(text: Seq<char>) -> bool {
    &&& text.len() > 0
    &&& text.last() == DELIMITER
    &&& delimiter_free(text.drop_last())
}

/// The length of the first frame in `text`, its delimiter included; 0 where
/// `text` holds no delimiter.
pub open spec fn frame_len(text: Seq<char>) -> nat
    decreases text.len(),
{
    if text.len() == 0 {
        0
    } else if text[0] == DELIMITER {
        1
    } else if frame_len(text.drop_first()) == 0 {
        0
    } else {
        frame_len(text.drop_first()) + 1
    }
}

/// The first frame in `text`; empty where `text` holds no delimiter.
pub open spec fn first_frame(text: Seq<char>) -> Seq<char> {
    text.take(frame_len(text) as int)
}

/// What stays of `text` once its first frame is taken out.
pub open spec fn after_first_frame(text: Seq<char>) -> Seq<char> {
    text.skip(frame_len(text) as int)
}

/// `frame_len` finds the first delimiter: it is 0 exactly on text without
/// one, and otherwise the text up to it is one frame.
pub proof fn lemma_frame_len(text: Seq<char>)
    ensures
        frame_len(text) <= text.len(),
        frame_len(text) == 0 <==> delimiter_free(text),
        frame_len(text) > 0 ==> is_frame(first_frame(text)),
    decreases text.len(),
{
    if text.len() == 0 {
    } else if text[0] == DELIMITER {
        assert(first_frame(text).drop_last() =~= Seq::<char>::empty());
    } else {
        let tail = text.drop_first();
        lemma_frame_len(tail);
        if frame_len(tail) == 0 {
            assert forall|i: int| 0 <= i < text.len() implies text[i] != DELIMITER by {
                if i > 0 {
                    assert(tail[i - 1] == text[i]);
                }
            }
        } else {
            let n = frame_len(tail) as int;
            assert(tail[n - 1] == first_frame(tail).last());
            assert(text[n] == tail[n - 1]);
            assert(text[n] == DELIMITER);
            assert(!delimiter_free(text));
            let head = first_frame(text).drop_last();
            assert forall|i: int| 0 <= i < head.len() implies head[i] != DELIMITER by {
                if i > 0 {
                    assert(head[i] == first_frame(tail).drop_last()[i - 1]);
                }
            }
        }
    }
}

/// The first delimiter of `text` stands at `at`: the first frame ends there.
pub proof fn lemma_frame_ends_at(text: Seq<char>, at: int)
    requires
        0 <= at < text.len(),
        text[at] == DELIMITER,
        delimiter_free(text.take(at)),
    ensures
        frame_len(text) == at + 1,
    decreases at,
{
    if at == 0 {
    } else {
        assert(text.take(at)[0] == text[0]);
        let tail = text.drop_first();
        let head = tail.take(at - 1);
        assert forall|i: int| 0 <= i < head.len() implies head[i] != DELIMITER by {
            assert(head[i] == text.take(at)[i + 1]);
        }
        lemma_frame_ends_at(tail, at - 1);
    }
}

/// The texts of `parts`, one after the other.
pub open spec fn joined(parts: Seq<Seq<char>>) -> Seq<char>
    decreases parts.len(),
{
    if parts.len() == 0 {
        Seq::empty()
    } else {
        joined(parts.drop_last()) + parts.last()
    }
}

/// What is pending once `chunks` have been pushed, one by one, onto a buffer
/// that held `pending`.
pub open spec fn pending_after(pending: Seq<char>, chunks: Seq<Seq<char>>) -> Seq<char>
    decreases chunks.len(),
{
    if chunks.len() == 0 {
        pending
    } else {
        after_first_frame(pending_after(pending, chunks.drop_last()) + chunks.last())
    }
}

/// What the pushes of `chunks` returned, one entry for each push, on a buffer
/// that held `pending`.
pub open spec fn delivered(pending: Seq<char>, chunks: Seq<Seq<char>>) -> Seq<Seq<char>>
    decreases chunks.len(),
{
    if chunks.len() == 0 {
        Seq::empty()
    } else {
        delivered(pending, chunks.drop_last()).push(
            first_frame(pending_after(pending, chunks.drop_last()) + chunks.last()),
        )
    }
}

/// A push loses nothing and reorders nothing: the frame it returns, followed
/// by what it leaves pending, is what was pending followed by the chunk.
pub proof fn lemma_push_keeps_text(pending: Seq<char>, chunk: Seq<char>)
    ensures
        first_frame(pending + chunk) + after_first_frame(pending + chunk) == pending + chunk,
{
    lemma_frame_len(pending + chunk);
    assert(first_frame(pending + chunk) + after_first_frame(pending + chunk) =~= pending + chunk);
}

/// A push returns a frame as soon as one is complete, and never a part of
/// one: its result is empty exactly when no delimiter has arrived yet, and is
/// otherwise one whole frame.
pub proof fn lemma_push_returns_whole_frames(pending: Seq<char>, chunk: Seq<char>)
    ensures
        first_frame(pending + chunk).len() == 0 <==> delimiter_free(pending + chunk),
        first_frame(pending + chunk).len() > 0 ==> is_frame(first_frame(pending + chunk)),
{
    lemma_frame_len(pending + chunk);
}

/// Where a chunk is cut does not matter: if its first part completes no
/// frame, pushing the two parts in turn returns and leaves what pushing the
/// whole chunk would have.
pub proof fn lemma_chunk_boundaries_do_not_matter(
    pending: Seq<char>,
    first: Seq<char>,
    second: Seq<char>,
)
    requires
        delimiter_free(pending + first),
    ensures
        first_frame(pending + first).len() == 0,
        first_frame(after_first_frame(pending + first) + second) == first_frame(
            pending + (first + second),
        ),
        after_first_frame(after_first_frame(pending + first) + second) == after_first_frame(
            pending + (first + second),
        ),
{
    lemma_frame_len(pending + first);
    assert(after_first_frame(pending + first) =~= pending + first);
    assert((pending + first) + second =~= pending + (first + second));
}

/// Over any run of pushes the frames come out intact and in order: every
/// result is empty or one whole frame, and the results, followed by what is
/// still pending, spell what was pending followed by all the chunks.
pub proof fn lemma_frames_recovered_in_order(pending: Seq<char>, chunks: Seq<Seq<char>>)
    ensures
        delivered(pending, chunks).len() == chunks.len(),
        forall|i: int|
            0 <= i < chunks.len() ==> {
                let frame = #[trigger] delivered(pending, chunks)[i];
                frame.len() == 0 || is_frame(frame)
            },
        joined(delivered(pending, chunks)) + pending_after(pending, chunks) == pending + joined(
            chunks,
        ),
    decreases chunks.len(),
{
    if chunks.len() == 0 {
        assert(joined(delivered(pending, chunks)) + pending_after(pending, chunks) =~= pending
            + joined(chunks));
    } else {
        let earlier = chunks.drop_last();
        let before = pending_after(pending, earlier);
        let text = before + chunks.last();
        lemma_frames_recovered_in_order(pending, earlier);
        lemma_push_keeps_text(before, chunks.last());
        lemma_push_returns_whole_frames(before, chunks.last());
        let out = delivered(pending, chunks);
        assert(out.drop_last() =~= delivered(pending, earlier));
        assert(out.last() == first_frame(text));
        assert forall|i: int| 0 <= i < chunks.len() implies {
            let frame = #[trigger] out[i];
            frame.len() == 0 || is_frame(frame)
        } by {
            if i < chunks.len() - 1 {
                assert(out[i] == delivered(pending, earlier)[i]);
            }
        }
        assert(joined(out) + pending_after(pending, chunks) =~= joined(
            delivered(pending, earlier),
        ) + (first_frame(text) + after_first_frame(text)));
        assert(joined(delivered(pending, earlier)) + (before + chunks.last()) =~= (joined(
            delivered(pending, earlier),
        ) + before) + chunks.last());
        assert((pending + joined(earlier)) + chunks.last() =~= pending + joined(chunks));
    }
}

/// Splits `text` behind its first delimiter. Without a delimiter the first
/// part is empty and the second is all of `text`.
pub fn split_first_frame(text: &str) -> (parts: (String, String))
    ensures
        parts.0@ == first_frame(text@),
        parts.1@ == after_first_frame(text@),
{
    broadcast use group_string_axioms;

    let mut head = String::new();
    let mut tail = String::new();
    let mut found = false;
    for c in it: text.chars()
        invariant
            it.seq() == text@,
            !found ==> head@ == text@.take(it.index()) && tail@.len() == 0 && delimiter_free(head@),
            found ==> 0 < frame_len(text@) <= it.index() && head@ == first_frame(text@) && tail@
                == text@.subrange(frame_len(text@) as int, it.index()),
    {
        let ghost at = it.index();
        assert(c == text@[at]);
        if found {
            push_char(&mut tail, c);
            assert(tail@ == text@.subrange(frame_len(text@) as int, at + 1));
        } else {
            push_char(&mut head, c);
            assert(head@ == text@.take(at + 1));
            if c == DELIMITER {
                found = true;
                proof {
                    lemma_frame_ends_at(text@, at);
                    assert(tail@ == text@.subrange(at + 1, at + 1));
                }
            }
        }
    }
    proof {
        lemma_frame_len(text@);
        assert(text@.take(text@.len() as int) == text@);
    }
    if found {
        (head, tail)
    } else {
        assert(head@ == after_first_frame(text@));
        (tail, head)
    }
}

/// Appends `chunk` to what is `pending` and takes the first complete frame
/// out, delimiter included. The first part of the result is that frame, empty
/// while no frame is complete; the second part is what stays pending.
pub fn take_frame(pending: &str, chunk: &str) -> (parts: (String, String))
    ensures
        parts.0@ == first_frame(pending@ + chunk@),
        parts.1@ == after_first_frame(pending@ + chunk@),
{
    let mut text = pending.to_owned();
    text.append(chunk);
    split_first_frame(text.as_str())
}

} // verus!
