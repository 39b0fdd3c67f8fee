//! Replacing a header's value inside the message buffer.
//!
//! The value is overwritten where it stands. Where the new value is shorter
//! or longer than the old one, the bytes behind it are moved and the buffer
//! is cut or extended; nothing is parsed again and nothing else is touched.

use vstd::prelude::*;
use vstd::slice::slice_subrange;
use vstd::string::StringSliceAdditionalSpecFns;

use crate::header::{find_header, header_raw_value, header_text, line_needle, raw_value};
use crate::locate::{
    crlf_blank, ends_at, fold, header_first, lemma_header_found, lemma_locates_unique, lf_blank,
    locates,
    marker_ends_at, occurs_at, tie_free,
};

verus! {

/// `buf` with the `old_len` bytes from `start` on replaced by `new`.
pub open spec fn spliced(buf: Seq<u8>, start: int, old_len: int, new: Seq<u8>) -> Seq<u8> {
    buf.subrange(0, start) + new + buf.subrange(start + old_len, buf.len() as int)
}

/// Replaces the `old_len` bytes of `buffer` from `start` on by `new`.
///
/// The bytes behind the span move towards the side that is vacated, in the
/// order that is safe where source and destination overlap.
pub fn splice(buffer: &mut Vec<u8>, start: usize, old_len: usize, new: &[u8])
    requires
        start + old_len <= old(buffer)@.len(),
        old(buffer)@.len() - old_len + new@.len() <= usize::MAX,
    ensures
        final(buffer)@ == spliced(old(buffer)@, start as int, old_len as int, new@),
{
    let ghost orig = buffer@;
    let len = buffer.len();
    let new_len = new.len();
    let tail = start + old_len;
    if new_len < old_len {
        let gap = old_len - new_len;
        let mut i = tail;
        while i < len
            invariant
                tail <= i <= len,
                gap <= tail,
                buffer@.len() == len,
                orig.len() == len,
                forall|k: int| 0 <= k < tail - gap ==> buffer@[k] == orig[k],
                forall|k: int| tail - gap <= k < i - gap ==> buffer@[k] == orig[k + gap],
                forall|k: int| i <= k < len ==> buffer@[k] == orig[k],
            decreases len - i,
        {
            let b = buffer[i];
            buffer.set(i - gap, b);
            i += 1;
        }
        buffer.truncate(len - gap);
    } else if new_len > old_len {
        let gap = new_len - old_len;
        buffer.resize(len + gap, 0u8);
        let mut i = len;
        while i > tail
            invariant
                tail <= i <= len,
                len + gap <= usize::MAX,
                buffer@.len() == len + gap,
                orig.len() == len,
                forall|k: int| 0 <= k < i ==> buffer@[k] == orig[k],
                forall|k: int| i + gap <= k < len + gap ==> buffer@[k] == orig[k - gap],
            decreases i,
        {
            i -= 1;
            let b = buffer[i];
            buffer.set(i + gap, b);
        }
    }
    let mut j: usize = 0;
    while j < new_len
        invariant
            j <= new_len,
            new_len == new@.len(),
            tail == start + old_len,
            tail <= len,
            orig.len() == len,
            buffer@.len() == len - old_len + new_len,
            buffer@.len() <= usize::MAX,
            forall|k: int| 0 <= k < start ==> buffer@[k] == orig[k],
            forall|k: int| start <= k < start + j ==> buffer@[k] == new@[k - start],
            forall|k: int|
                start + new_len <= k < buffer@.len() ==> buffer@[k] == orig[k - new_len + old_len],
        decreases new_len - j,
    {
        buffer.set(start + j, new[j]);
        j += 1;
    }
}

/// `pat` stands in `hay` from `at` on, byte for byte.
pub open spec fn found_at(hay: Seq<u8>, pat: Seq<u8>, at: int) -> bool {
    0 <= at && at + pat.len() <= hay.len() && hay.subrange(at, at + pat.len()) == pat
}

/// `at` is the first place at which `pat` stands in `hay`.
pub open spec fn is_first_found(hay: Seq<u8>, pat: Seq<u8>, at: int) -> bool {
    found_at(hay, pat, at) && forall|j: int| 0 <= j < at ==> !found_at(hay, pat, j)
}

/// The first place at which `pat` stands in `hay`, if it stands there at all.
pub open spec fn first_index(hay: Seq<u8>, pat: Seq<u8>) -> Option<int> {
    if exists|at: int| is_first_found(hay, pat, at) {
        Some(choose|at: int| is_first_found(hay, pat, at))
    } else {
        None
    }
}

/// `memchr::memmem::find` returns the index of the first occurrence of the
/// needle in the haystack, and nothing where there is none.
pub assume_specification[ memchr::memmem::find ](haystack: &[u8], needle: &[u8]) -> (r: Option<
    usize,
>)
    ensures
        r matches Some(at) ==> is_first_found(haystack@, needle@, at as int),
        r is None ==> forall|j: int| !found_at(haystack@, needle@, j),
;

/// The first occurrence is one place: whoever holds it holds `first_index`.
pub proof fn lemma_first_index(hay: Seq<u8>, pat: Seq<u8>, at: int)
    requires
        is_first_found(hay, pat, at),
    ensures
        first_index(hay, pat) == Some(at),
{
}

/// Where the name of the header that begins `text` ends: at the first colon
/// or newline from `from` on, or at the end of `text`.
pub open spec fn key_end(text: Seq<u8>, from: int) -> int
    decreases text.len() - from,
{
    if from < 0 || from >= text.len() {
        text.len() as int
    } else if text[from] == 58u8 || text[from] == 10u8 {
        from
    } else {
        key_end(text, from + 1)
    }
}

/// The first place from `from` on that holds no space, or the end of `text`.
pub open spec fn past_spaces(text: Seq<u8>, from: int) -> int
    decreases text.len() - from,
{
    if from < 0 || from >= text.len() {
        text.len() as int
    } else if text[from] == 32u8 {
        past_spaces(text, from + 1)
    } else {
        from
    }
}

/// Where the value of the header that begins `text` begins: behind the
/// colon that ends the header's name and the spaces that follow it. In a
/// line without a colon the value is empty and stands at the line's end.
pub open spec fn value_start(text: Seq<u8>) -> int {
    let end = key_end(text, 0);
    if end < text.len() && text[end] == 58u8 {
        past_spaces(text, end + 1)
    } else {
        end
    }
}

/// The span of the value that a rewrite of the header `name` replaces, as
/// its start and its length, given what the search for the header returned.
///
/// There is none where the header was not found, where `mailparse` refuses
/// its text, or where the bytes of the parsed value do not stand in the
/// header's text from `value_start` on. Otherwise it is the first
/// occurrence of those bytes from there on: an empty value lies where the
/// header's value begins.
pub open spec fn value_span(buffer: Seq<u8>, name: Seq<u8>, at: Option<usize>) -> Option<
    (int, int),
> {
    match at {
        None => None,
        Some(end) => {
            let text = header_text(buffer, name, end as int);
            match header_raw_value(text) {
                None => None,
                Some(old_value) => match first_index(
                    text.subrange(value_start(text), text.len() as int),
                    old_value,
                ) {
                    None => None,
                    Some(i) => Some(
                        (end - name.len() + value_start(text) + i, old_value.len() as int),
                    ),
                },
            }
        },
    }
}

/// The message after the value of the header `name` was set to `value`,
/// given what the search for the header returned: the value's span is
/// replaced, unless there is none or the result would be longer than a
/// buffer can be.
pub open spec fn rewritten_at(
    buffer: Seq<u8>,
    name: Seq<u8>,
    value: Seq<u8>,
    at: Option<usize>,
) -> Seq<u8> {
    match value_span(buffer, name, at) {
        Some((start, old_len)) => if buffer.len() - old_len + value.len() <= usize::MAX {
            spliced(buffer, start, old_len, value)
        } else {
            buffer
        },
        None => buffer,
    }
}

/// A splice changes the span and nothing else: the bytes before the span
/// stay, the new bytes take the span's place, the bytes behind the span
/// follow them unchanged, and the length changes by the difference of the
/// two lengths.
pub proof fn lemma_splice_keeps_outside(buf: Seq<u8>, start: int, old_len: int, new: Seq<u8>)
    requires
        0 <= start,
        0 <= old_len,
        start + old_len <= buf.len(),
    ensures
        spliced(buf, start, old_len, new).len() == buf.len() - old_len + new.len(),
        spliced(buf, start, old_len, new).subrange(0, start) == buf.subrange(0, start),
        spliced(buf, start, old_len, new).subrange(start, start + new.len()) == new,
        spliced(buf, start, old_len, new).subrange(
            start + new.len(),
            buf.len() - old_len + new.len(),
        ) == buf.subrange(start + old_len, buf.len() as int),
{
    let after = spliced(buf, start, old_len, new);
    assert(after.subrange(start + new.len(), buf.len() - old_len + new.len()) =~= buf.subrange(
        start + old_len,
        buf.len() as int,
    ));
}

/// The name's end and the value's start lie inside the text, in that order.
pub proof fn lemma_value_start_in_range(text: Seq<u8>, from: int)
    requires
        0 <= from <= text.len(),
    ensures
        from <= key_end(text, from) <= text.len(),
        key_end(text, from) < text.len() ==> text[key_end(text, from)] == 58u8 || text[key_end(
            text,
            from,
        )] == 10u8,
        from <= past_spaces(text, from) <= text.len(),
        from == 0 ==> 0 <= value_start(text) <= text.len(),
    decreases text.len() - from,
{
    if from < text.len() {
        lemma_value_start_in_range(text, from + 1);
    }
    if from == 0 {
        let end = key_end(text, 0);
        if end < text.len() {
            lemma_value_start_in_range(text, end + 1);
        }
    }
}

/// The span that a rewrite replaces lies inside the message, from the
/// start of the header's line on.
pub proof fn lemma_value_span_in_range(buffer: Seq<u8>, name: Seq<u8>, at: Option<usize>)
    requires
        at matches Some(end) ==> name.len() <= end <= buffer.len(),
    ensures
        value_span(buffer, name, at) matches Some((start, old_len)) ==> at is Some && at->0
            - name.len() <= start && 0 <= old_len && start + old_len <= buffer.len(),
{
    if let Some(end) = at {
        lemma_value_start_in_range(header_text(buffer, name, end as int), 0);
    }
}

/// A name that holds no newline, and no colon but at its end.
pub open spec fn plain_name(name: Seq<u8>) -> bool {
    forall|i: int|
        0 <= i < name.len() ==> #[trigger] name[i] != 10u8 && (name[i] != 58u8 || i == name.len()
            - 1)
}

/// In a text that begins with a plain name, letters in either case, the
/// value begins behind the name.
pub proof fn lemma_value_starts_behind_name(text: Seq<u8>, name: Seq<u8>, from: int)
    requires
        plain_name(name),
        occurs_at(text, name, 0),
        0 <= from <= name.len(),
    ensures
        from < name.len() ==> key_end(text, from) >= name.len() - 1,
        from == name.len() ==> key_end(text, from) >= name.len(),
        from == 0 ==> value_start(text) >= name.len(),
    decreases name.len() - from,
{
    if from < name.len() {
        assert(fold(text[0 + from]) == fold(name[from]));
        lemma_value_start_in_range(text, from);
        lemma_value_starts_behind_name(text, name, from + 1);
    } else {
        lemma_value_start_in_range(text, from);
    }
    if from == 0 {
        let end = key_end(text, 0);
        lemma_value_start_in_range(text, 0);
        if end < text.len() {
            lemma_value_start_in_range(text, end + 1);
        }
        if name.len() > 0 && end == name.len() - 1 {
            assert(fold(text[0 + end]) == fold(name[end]));
        }
    }
}

/// Setting a header changes the value's span and nothing else. Either the
/// message stays as it is, or the bytes before the span stay, the span
/// holds the new value, the bytes behind it follow unchanged, and the
/// length changes by the difference between the new value's length and the
/// old one's.
pub proof fn lemma_rewrite_keeps_outside(
    buffer: Seq<u8>,
    name: Seq<u8>,
    value: Seq<u8>,
    at: Option<usize>,
)
    requires
        at matches Some(end) ==> name.len() <= end <= buffer.len(),
    ensures
        ({
            let after = rewritten_at(buffer, name, value, at);
            ||| after == buffer
            ||| value_span(buffer, name, at) matches Some((start, old_len)) && {
                &&& after.len() == buffer.len() - old_len + value.len()
                &&& after.subrange(0, start) == buffer.subrange(0, start)
                &&& after.subrange(start, start + value.len()) == value
                &&& after.subrange(start + value.len(), after.len() as int) == buffer.subrange(
                    start + old_len,
                    buffer.len() as int,
                )
            }
        }),
{
    lemma_value_span_in_range(buffer, name, at);
    if let Some((start, old_len)) = value_span(buffer, name, at) {
        lemma_splice_keeps_outside(buffer, start, old_len, value);
    }
}

/// An occurrence that lies in a part shared by two messages is an
/// occurrence in both.
proof fn lemma_occurs_in_shared_prefix(a: Seq<u8>, b: Seq<u8>, shared: int, pat: Seq<u8>, end: int)
    requires
        0 <= shared <= a.len(),
        shared <= b.len(),
        a.subrange(0, shared) == b.subrange(0, shared),
        end <= shared,
        ends_at(a, pat, end),
    ensures
        ends_at(b, pat, end),
{
    let at = end - pat.len();
    assert forall|k: int| 0 <= k < pat.len() implies fold(b[at + k]) == fold(
        #[trigger] pat[k],
    ) by {
        assert(b.subrange(0, shared)[at + k] == b[at + k]);
    }
}

/// A header that was rewritten is found again where it was: after the
/// header `name` was set to any value, a search for it returns the offset
/// that the search before returned.
pub proof fn lemma_rewrite_keeps_place(
    buffer: Seq<u8>,
    name: Seq<u8>,
    value: Seq<u8>,
    at: Option<usize>,
    again: Option<usize>,
)
    requires
        plain_name(name),
    ensures
        locates(buffer, line_needle(name), at) && at is Some && locates(
            rewritten_at(buffer, name, value, at),
            line_needle(name),
            again,
        ) ==> again == at,
{
    let needle = line_needle(name);
    let after = rewritten_at(buffer, name, value, at);
    if locates(buffer, needle, at) && at is Some && locates(after, needle, again) {
        let end = at->0 as int;
        let text = header_text(buffer, name, end);
        assert(occurs_at(buffer, needle, end - needle.len()));
        assert(occurs_at(text, name, 0)) by {
            assert forall|k: int| 0 <= k < name.len() implies fold(text[0 + k]) == fold(
                #[trigger] name[k],
            ) by {
                assert(fold(buffer[end - needle.len() + (k + 1)]) == fold(needle[k + 1]));
            }
        }
        lemma_value_starts_behind_name(text, name, 0);
        lemma_value_span_in_range(buffer, name, at);
        assert(tie_free(needle));
        assert(after.subrange(0, end) == buffer.subrange(0, end)) by {
            if let Some((start, old_len)) = value_span(buffer, name, at) {
                lemma_splice_keeps_outside(buffer, start, old_len, value);
            }
        }
        assert(end <= after.len()) by {
            if let Some((start, old_len)) = value_span(buffer, name, at) {
                lemma_splice_keeps_outside(buffer, start, old_len, value);
            }
        }
        lemma_occurs_in_shared_prefix(buffer, after, end, needle, end);
        assert forall|e: int|
            #![trigger ends_at(after, needle, e)]
            #![trigger marker_ends_at(after, e)]
            e < end implies !ends_at(after, needle, e) && !marker_ends_at(after, e) by {
            if ends_at(after, needle, e) {
                lemma_occurs_in_shared_prefix(after, buffer, end, needle, e);
            }
            if ends_at(after, crlf_blank(), e) {
                lemma_occurs_in_shared_prefix(after, buffer, end, crlf_blank(), e);
            }
            if ends_at(after, lf_blank(), e) {
                lemma_occurs_in_shared_prefix(after, buffer, end, lf_blank(), e);
            }
            assert(!ends_at(buffer, needle, e) && !marker_ends_at(buffer, e));
        }
        lemma_header_found(after, needle, end, again);
    }
}

/// `after` is `before` with the header `name` set to `value`.
pub open spec fn rewrites(before: Seq<u8>, name: Seq<u8>, value: Seq<u8>, after: Seq<u8>) -> bool {
    exists|at: Option<usize>| #[trigger]
        locates(before, line_needle(name), at) && after == rewritten_at(before, name, value, at)
}

/// Setting a header changes one span of the message at most: the message
/// stays as it is, or it becomes what it was with one span replaced by the
/// new value, every byte before and behind that span unchanged.
pub proof fn lemma_rewrites_one_span(before: Seq<u8>, name: Seq<u8>, value: Seq<u8>, after: Seq<u8>)
    ensures
        rewrites(before, name, value, after) ==> after == before || exists|
            start: int,
            old_len: int,
        |
            0 <= start && 0 <= old_len && start + old_len <= before.len() && after.len()
                == before.len() - old_len + value.len() && #[trigger] spliced(
                before,
                start,
                old_len,
                value,
            ) == after,
{
    if rewrites(before, name, value, after) && after != before {
        let at = choose|at: Option<usize>| #[trigger]
            locates(before, line_needle(name), at) && after == rewritten_at(
                before,
                name,
                value,
                at,
            );
        assert(occurs_at(before, line_needle(name), at->0 - line_needle(name).len()));
        lemma_value_span_in_range(before, name, at);
        let (start, old_len) = value_span(before, name, at)->0;
        lemma_splice_keeps_outside(before, start, old_len, value);
    }
}

/// Setting a header has one result: for a name that does not end in a
/// newline, the message after the rewrite is determined by the message
/// before, the name and the value.
pub proof fn lemma_rewrite_is_determined(
    before: Seq<u8>,
    name: Seq<u8>,
    value: Seq<u8>,
    after: Seq<u8>,
    other: Seq<u8>,
)
    requires
        tie_free(line_needle(name)),
    ensures
        rewrites(before, name, value, after) && rewrites(before, name, value, other) ==> after
            == other,
{
    if rewrites(before, name, value, after) && rewrites(before, name, value, other) {
        let at = choose|at: Option<usize>| #[trigger]
            locates(before, line_needle(name), at) && after == rewritten_at(
                before,
                name,
                value,
                at,
            );
        let at_other = choose|at: Option<usize>| #[trigger]
            locates(before, line_needle(name), at) && other == rewritten_at(
                before,
                name,
                value,
                at,
            );
        lemma_locates_unique(before, line_needle(name), at, at_other);
    }
}

/// Finds where the value of the header that begins `text` begins.
pub fn value_start_of(text: &[u8]) -> (from: usize)
    ensures
        from == value_start(text@),
        from <= text@.len(),
{
    let mut end: usize = 0;
    while end < text.len() && text[end] != 58u8 && text[end] != 10u8
        invariant
            end <= text@.len(),
            key_end(text@, 0) == key_end(text@, end as int),
        decreases text@.len() - end,
    {
        end += 1;
    }
    if end < text.len() && text[end] == 58u8 {
        let mut from = end + 1;
        while from < text.len() && text[from] == 32u8
            invariant
                end < from <= text@.len(),
                past_spaces(text@, end + 1) == past_spaces(text@, from as int),
            decreases text@.len() - from,
        {
            from += 1;
        }
        from
    } else {
        end
    }
}

/// Sets the value of the header `name` in `buffer` to `value`, in place.
///
/// The header is looked up at the start of a line, inside the header block.
/// Where it is missing or cannot be parsed, nothing happens: a header that
/// is not there cannot be rewritten, and that is no error.
pub fn set_header_bytes(buffer: &mut Vec<u8>, name: &[u8], value: &[u8])
    ensures
        rewrites(old(buffer)@, name@, value@, final(buffer)@),
{
    let found = find_header(buffer.as_slice(), name);
    let end = match found {
        Some(end) => end,
        None => {
            return ;
        },
    };
    let line = end - name.len();
    let text = slice_subrange(buffer.as_slice(), line, buffer.len());
    let parsed = raw_value(text);
    let old_value = match parsed {
        Some(v) => v,
        None => {
            return ;
        },
    };
    let from = value_start_of(text);
    let rest = slice_subrange(text, from, text.len());
    let hit = memchr::memmem::find(rest, old_value.as_slice());
    let at = match hit {
        Some(at) => at,
        None => {
            assert(first_index(rest@, old_value@) is None);
            return ;
        },
    };
    proof {
        lemma_first_index(rest@, old_value@, at as int);
    }
    if value.len() > usize::MAX - (buffer.len() - old_value.len()) {
        return ;
    }
    splice(buffer, line + from + at, old_value.len(), value);
}

/// Sets the value of the header `header_name` in `buffer` to `new_value`, in
/// place. See `set_header_bytes`.
pub fn set_header(buffer: &mut Vec<u8>, header_name: &str, new_value: &str)
    ensures
        rewrites(
            old(buffer)@,
            header_name.spec_bytes(),
            new_value.spec_bytes(),
            final(buffer)@,
        ),
{
    set_header_bytes(buffer, header_name.as_bytes(), new_value.as_bytes())
}

} // verus!
