//! Finding a header's name in the header block of a raw message.
//!
//! A message is searched for three needles at once: the header's name, and
//! the two forms of the blank line that ends the header block. The name is
//! found only where it is the first of the three to be completed, so a
//! search never leaves the header block. Letters match without regard to
//! ASCII case.

use vstd::prelude::*;
use vstd::string::StringSliceAdditionalSpecFns;

verus! {

/// `b`, with an ASCII capital letter turned into its small letter.
pub open spec fn fold(b: u8) -> u8 {
    if 65 <= b <= 90 {
        (b + 32) as u8
    } else {
        b
    }
}

/// The blank line of a message with CRLF line ends.
pub open spec fn crlf_blank() -> Seq<u8> {
    seq![13u8, 10u8, 13u8, 10u8]
}

/// The blank line of a message with LF line ends.
pub open spec fn lf_blank() -> Seq<u8> {
    seq![10u8, 10u8]
}

/// `pat` stands in `hay` from `at` on, ASCII case aside.
pub open spec fn occurs_at(hay: Seq<u8>, pat: Seq<u8>, at: int) -> bool {
    &&& 0 <= at
    &&& at + pat.len() <= hay.len()
    &&& forall|k: int| 0 <= k < pat.len() ==> fold(hay[at + k]) == fold(#[trigger] pat[k])
}

/// An occurrence of `pat` in `hay` stops just before `end`.
pub open spec fn ends_at(hay: Seq<u8>, pat: Seq<u8>, end: int) -> bool {
    occurs_at(hay, pat, end - pat.len())
}

/// A blank line of either form stops just before `end`.
pub open spec fn marker_ends_at(hay: Seq<u8>, end: int) -> bool {
    ends_at(hay, crlf_blank(), end) || ends_at(hay, lf_blank(), end)
}

/// Neither `name` nor a blank line is completed before `end`.
pub open spec fn nothing_ends_before(hay: Seq<u8>, name: Seq<u8>, end: int) -> bool {
    forall|e: int|
        #![trigger ends_at(hay, name, e)]
        #![trigger marker_ends_at(hay, e)]
        e < end ==> !ends_at(hay, name, e) && !marker_ends_at(hay, e)
}

/// `name` is completed at `end`, and nothing before it.
pub open spec fn header_first(hay: Seq<u8>, name: Seq<u8>, end: int) -> bool {
    ends_at(hay, name, end) && nothing_ends_before(hay, name, end)
}

/// A blank line is completed at `end`, and nothing before it.
pub open spec fn marker_first(hay: Seq<u8>, name: Seq<u8>, end: int) -> bool {
    marker_ends_at(hay, end) && nothing_ends_before(hay, name, end)
}

/// Whether `aho_corasick::AhoCorasickBuilder::build` accepts the three
/// needles. It refuses only needles beyond the size limits of its automata.
pub uninterp spec fn searcher_builds(first: Seq<u8>, second: Seq<u8>, third: Seq<u8>) -> bool;

/// Whether a searcher is built for `name` and the two blank lines.
pub open spec fn builds(name: Seq<u8>) -> bool {
    searcher_builds(name, crlf_blank(), lf_blank())
}

/// What one scan of a message for three needles comes to.
enum Scan {
    /// No searcher could be built for the needles.
    Unbuilt,
    /// None of the needles occurs.
    Absent,
    /// The needle with number `needle` occupies `start..end`.
    Found { needle: usize, start: usize, end: usize },
}

/// The needle with the given number.
pub open spec fn needle(first: Seq<u8>, second: Seq<u8>, third: Seq<u8>, which: int) -> Seq<u8> {
    if which == 0 {
        first
    } else if which == 1 {
        second
    } else {
        third
    }
}

/// One of the three needles is completed at `end`.
pub open spec fn any_ends_at(
    hay: Seq<u8>,
    first: Seq<u8>,
    second: Seq<u8>,
    third: Seq<u8>,
    end: int,
) -> bool {
    ends_at(hay, first, end) || ends_at(hay, second, end) || ends_at(hay, third, end)
}

/// Builds an `aho_corasick` searcher for the three needles, with the crate's
/// standard match kind and blind to ASCII case as `blind` says, and runs
/// `AhoCorasick::find` on `hay`. The contract speaks of the search that is
/// blind to case.
///
/// Trusted: the searcher is built exactly when `searcher_builds` says so;
/// `find` reports a needle where it does occur; with the standard match kind
/// it reports the match that is completed first while reading `hay`, so no
/// needle is completed before the reported end; and it reports nothing only
/// if no needle occurs. Which needle is reported when two are completed at
/// the same place is left open.
#[verifier::external_body]
fn scan(hay: &[u8], first: &[u8], second: &[u8], third: &[u8], blind: bool) -> (r: Scan)
    requires
        blind,
    ensures
        r is Unbuilt <==> !searcher_builds(first@, second@, third@),
        r is Absent ==> forall|e: int| #[trigger]
            any_ends_at(hay@, first@, second@, third@, e) ==> false,
        r matches Scan::Found { needle: n, start, end } ==> {
            &&& n < 3
            &&& start + needle(first@, second@, third@, n as int).len() == end
            &&& occurs_at(hay@, needle(first@, second@, third@, n as int), start as int)
            &&& forall|e: int|
                e < end ==> !#[trigger] any_ends_at(hay@, first@, second@, third@, e)
        },
{
    let built = aho_corasick::AhoCorasickBuilder::new().ascii_case_insensitive(blind).build(
        [first, second, third],
    );
    match built {
        Err(_) => Scan::Unbuilt,
        Ok(searcher) => match searcher.find(hay) {
            None => Scan::Absent,
            Some(m) => Scan::Found {
                needle: m.pattern().as_usize(),
                start: m.start(),
                end: m.end(),
            },
        },
    }
}

/// What a search of `hay` for `name` may return: the end of the name's
/// occurrence where the name is completed first, nothing otherwise.
///
/// Where the name and a blank line are completed at the same place, either
/// answer is admitted; `lemma_no_tie` shows when that cannot happen.
pub open spec fn locates(hay: Seq<u8>, name: Seq<u8>, r: Option<usize>) -> bool {
    match r {
        Some(end) => builds(name) && header_first(hay, name, end as int),
        None => builds(name) ==> forall|e: int| #[trigger]
            header_first(hay, name, e) ==> marker_first(hay, name, e),
    }
}

/// Searches `buffer` for `name` as `locate` does, with the name given as bytes.
pub fn locate_bytes(buffer: &[u8], name: &[u8]) -> (r: Option<usize>)
    ensures
        locates(buffer@, name@, r),
        r matches Some(end) ==> name@.len() <= end <= buffer@.len(),
{
    let crlf: Vec<u8> = vec![13u8, 10u8, 13u8, 10u8];
    let lf: Vec<u8> = vec![10u8, 10u8];
    assert(crlf@ == crlf_blank());
    assert(lf@ == lf_blank());
    match scan(buffer, name, crlf.as_slice(), lf.as_slice(), true) {
        Scan::Found { needle, start, end } => {
            assert forall|e: int|
                #![trigger ends_at(buffer@, name@, e)]
                #![trigger marker_ends_at(buffer@, e)]
                e < end implies !ends_at(buffer@, name@, e) && !marker_ends_at(buffer@, e) by {
                assert(!any_ends_at(buffer@, name@, crlf@, lf@, e));
            }
            if needle == 0 {
                Some(end)
            } else {
                // a blank line is completed at `end` and nothing before it, so
                // the name is not completed first anywhere else
                assert(marker_first(buffer@, name@, end as int));
                None
            }
        },
        Scan::Absent => {
            assert forall|e: int| #[trigger] header_first(buffer@, name@, e) implies false by {
                assert(any_ends_at(buffer@, name@, crlf@, lf@, e));
            }
            None
        },
        Scan::Unbuilt => None,
    }
}

/// Finds the header `header_name` in the header block of `buffer`.
///
/// `header_name` is expected to begin with a newline, so that it matches at
/// the start of a line only. The result is the offset just behind the name's
/// occurrence, given where that occurrence is completed before any other
/// occurrence of the name and before any blank line: headers are never found
/// behind the end of the header block. A header on the very first line has
/// no newline before it and is not found.
pub fn locate(buffer: &[u8], header_name: &str) -> (r: Option<usize>)
    ensures
        locates(buffer@, header_name.spec_bytes(), r),
        r matches Some(end) ==> header_name.spec_bytes().len() <= end <= buffer@.len(),
{
    locate_bytes(buffer, header_name.as_bytes())
}

/// A name for which no occurrence can be completed at the same place as a
/// blank line: it does not end in a newline, or is no longer than one byte.
pub open spec fn tie_free(name: Seq<u8>) -> bool {
    name.len() <= 1 || name.last() != 10u8
}

/// The same bytes with every ASCII capital letter made small.
pub open spec fn lowered(s: Seq<u8>) -> Seq<u8> {
    s.map_values(|b: u8| fold(b))
}

/// For a name that is `tie_free`, the name and a blank line are never both
/// the first to be completed.
pub proof fn lemma_no_tie(hay: Seq<u8>, name: Seq<u8>, end: int)
    requires
        tie_free(name),
    ensures
        !(header_first(hay, name, end) && marker_first(hay, name, end)),
{
    if header_first(hay, name, end) && marker_first(hay, name, end) {
        if name.len() == 0 {
            // the empty name is completed at every place, also before `end`
            assert(ends_at(hay, name, end - 1));
        } else if name.last() == 10u8 {
            // the name is a single newline, which a blank line holds before its end
            if ends_at(hay, crlf_blank(), end) {
                assert(ends_at(hay, name, end - 2));
            } else {
                assert(ends_at(hay, name, end - 1));
            }
        } else {
            // a blank line ends in a newline, the name does not
            assert(fold(hay[end - name.len() + (name.len() - 1)]) == fold(name.last()));
        }
    }
}

/// A search has one answer: two results that `locates` admits for the same
/// message and the same `tie_free` name are equal.
pub proof fn lemma_locates_unique(
    hay: Seq<u8>,
    name: Seq<u8>,
    r1: Option<usize>,
    r2: Option<usize>,
)
    requires
        tie_free(name),
    ensures
        locates(hay, name, r1) && locates(hay, name, r2) ==> r1 == r2,
{
    if let Some(end) = r1 {
        lemma_no_tie(hay, name, end as int);
    }
    if let Some(end) = r2 {
        lemma_no_tie(hay, name, end as int);
    }
}

/// A header behind the end of the header block is not found: where a blank
/// line is completed before every occurrence of the name is, the search
/// returns nothing.
pub proof fn lemma_marker_hides_header(
    hay: Seq<u8>,
    name: Seq<u8>,
    marker_end: int,
    r: Option<usize>,
)
    requires
        marker_ends_at(hay, marker_end),
        forall|e: int| #[trigger] ends_at(hay, name, e) ==> marker_end < e,
    ensures
        locates(hay, name, r) ==> r is None,
{
}

/// A header inside the header block is found: where an occurrence of a
/// `tie_free` name is completed at `end`, before any other and before any
/// blank line, every search for which a searcher is built returns `end`.
pub proof fn lemma_header_found(hay: Seq<u8>, name: Seq<u8>, end: int, r: Option<usize>)
    requires
        tie_free(name),
        header_first(hay, name, end),
    ensures
        locates(hay, name, r) && builds(name) ==> r == Some(end as usize) && end
            <= usize::MAX,
{
    lemma_no_tie(hay, name, end);
}

/// Two names that are equal up to ASCII case are found alike: they are
/// completed at the same places, and where a searcher is built for each of
/// them, a search for the one returns what a search for the other returns.
pub proof fn lemma_names_up_to_case(
    hay: Seq<u8>,
    name: Seq<u8>,
    other: Seq<u8>,
    r: Option<usize>,
    r_other: Option<usize>,
)
    requires
        lowered(name) == lowered(other),
        tie_free(name),
    ensures
        forall|e: int| #[trigger] ends_at(hay, name, e) == ends_at(hay, other, e),
        forall|e: int| #[trigger] header_first(hay, name, e) == header_first(hay, other, e),
        locates(hay, name, r) && locates(hay, other, r_other) && builds(name) && builds(other)
            ==> r == r_other,
{
    assert(name.len() == lowered(name).len() == other.len());
    assert forall|k: int| 0 <= k < name.len() implies fold(#[trigger] name[k]) == fold(
        other[k],
    ) by {
        assert(lowered(name)[k] == fold(name[k]));
        assert(lowered(other)[k] == fold(other[k]));
    }
    assert forall|e: int| #[trigger] ends_at(hay, name, e) == ends_at(hay, other, e) by {
        if ends_at(hay, name, e) {
            assert forall|k: int| 0 <= k < other.len() implies fold(hay[e - other.len() + k])
                == fold(#[trigger] other[k]) by {
                assert(fold(hay[e - name.len() + k]) == fold(name[k]));
            }
        }
        if ends_at(hay, other, e) {
            assert forall|k: int| 0 <= k < name.len() implies fold(hay[e - name.len() + k])
                == fold(#[trigger] name[k]) by {
                assert(fold(hay[e - other.len() + k]) == fold(other[k]));
            }
        }
    }
    assert forall|e: int| #[trigger]
        header_first(hay, name, e) == header_first(hay, other, e) by {
        assert(ends_at(hay, name, e) == ends_at(hay, other, e));
        if nothing_ends_before(hay, name, e) {
            assert forall|x: int|
                #![trigger ends_at(hay, other, x)]
                #![trigger marker_ends_at(hay, x)]
                x < e implies !ends_at(hay, other, x) && !marker_ends_at(hay, x) by {
                assert(ends_at(hay, name, x) == ends_at(hay, other, x));
            }
        }
        if nothing_ends_before(hay, other, e) {
            assert forall|x: int|
                #![trigger ends_at(hay, name, x)]
                #![trigger marker_ends_at(hay, x)]
                x < e implies !ends_at(hay, name, x) && !marker_ends_at(hay, x) by {
                assert(ends_at(hay, name, x) == ends_at(hay, other, x));
            }
        }
    }
    if locates(hay, name, r) && locates(hay, other, r_other) && builds(name) && builds(other) {
        assert(tie_free(other)) by {
            if other.len() > 1 {
                assert(fold(name[name.len() - 1]) == fold(other[name.len() - 1]));
            }
        }
        match r {
            Some(end) => {
                assert(header_first(hay, other, end as int));
                lemma_header_found(hay, other, end as int, r_other);
            },
            None => {
                if let Some(end) = r_other {
                    assert(header_first(hay, name, end as int));
                    lemma_header_found(hay, name, end as int, r);
                }
            },
        }
    }
}

/// The search is blind to ASCII case: a needle occurs at a place exactly if
/// it does so once both the message and the needle are written in small
/// letters.
pub proof fn lemma_case_blind(hay: Seq<u8>, pat: Seq<u8>, at: int)
    ensures
        occurs_at(hay, pat, at) <==> occurs_at(lowered(hay), lowered(pat), at),
{
    assert forall|b: u8| fold(fold(b)) == fold(b) by {}
    if occurs_at(hay, pat, at) {
        assert forall|k: int| 0 <= k < lowered(pat).len() implies fold(lowered(hay)[at + k])
            == fold(#[trigger] lowered(pat)[k]) by {
            assert(fold(hay[at + k]) == fold(pat[k]));
        }
    }
    if occurs_at(lowered(hay), lowered(pat), at) {
        assert forall|k: int| 0 <= k < pat.len() implies fold(hay[at + k]) == fold(
            #[trigger] pat[k],
        ) by {
            assert(fold(lowered(hay)[at + k]) == fold(lowered(pat)[k]));
        }
    }
}

} // verus!
