//! Reading one header out of a raw message.
//!
//! A header is looked up by its name at the start of a line. What the header
//! holds is left to `mailparse`, which is handed the header's text: the bytes
//! from the start of its line on.

use vstd::prelude::*;
use vstd::slice::slice_subrange;
use vstd::string::StringSliceAdditionalSpecFns;

use crate::address::{Address, GroupInfo, MailAddr, MailAddrList, SingleInfo};
use crate::locate::{lemma_locates_unique, locate_bytes, locates, tie_free};

verus! {

/// What is searched for to find the header `name`: a newline, then the name.
pub open spec fn line_needle(name: Seq<u8>) -> Seq<u8> {
    seq![10u8] + name
}

/// The text of the header whose name's occurrence stops just before `end`:
/// the message from the start of that line on.
pub open spec fn header_text(buffer: Seq<u8>, name: Seq<u8>, end: int) -> Seq<u8> {
    buffer.subrange(end - name.len(), buffer.len() as int)
}

/// The raw value that `mailparse::parse_header` finds in the header with
/// which `text` begins, as `MailHeader::get_value_raw` gives it; nothing
/// where `parse_header` refuses `text`.
pub uninterp spec fn header_raw_value(text: Seq<u8>) -> Option<Seq<u8>>;

/// Calls `mailparse::parse_header` on `text` and copies what
/// `MailHeader::get_value_raw` returns for the header it parsed.
///
/// Trusted: the result is that of these two calls, which depends on the
/// bytes of `text` alone.
#[verifier::external_body]
pub(crate) fn raw_value(text: &[u8]) -> (r: Option<Vec<u8>>)
    ensures
        r matches Some(v) ==> header_raw_value(text@) == Some(v@),
        r is None ==> header_raw_value(text@) is None,
{
    match mailparse::parse_header(text) {
        Ok((header, _)) => Some(header.get_value_raw().to_vec()),
        Err(_) => None,
    }
}

/// The value that `mailparse::parse_header` finds in the header with which
/// `text` begins, as `MailHeader::get_value` gives it: decoded and unfolded.
/// Nothing where `parse_header` refuses `text`.
pub uninterp spec fn header_value(text: Seq<u8>) -> Option<Seq<char>>;

/// Calls `mailparse::parse_header` on `text` and returns what
/// `MailHeader::get_value` gives for the header it parsed.
///
/// Trusted: the result is that of these two calls, which depends on the
/// bytes of `text` alone.
#[verifier::external_body]
pub(crate) fn value_of(text: &[u8]) -> (r: Option<String>)
    ensures
        r matches Some(v) ==> header_value(text@) == Some(v@),
        r is None ==> header_value(text@) is None,
{
    match mailparse::parse_header(text) {
        Ok((header, _)) => Some(header.get_value()),
        Err(_) => None,
    }
}

/// The addresses that `mailparse::addrparse_header` reads from the header
/// with which `text` begins, once `mailparse::parse_header` has parsed it.
/// Nothing where either of the two refuses its input.
pub uninterp spec fn header_addresses(text: Seq<u8>) -> Option<Seq<Address>>;

/// Calls `mailparse::parse_header` on `text` and `mailparse::addrparse_header`
/// on the header it parsed, and copies the addresses into this library's
/// types, field by field.
///
/// Trusted: the result is that of these two calls, which depends on the
/// bytes of `text` alone.
#[verifier::external_body]
pub(crate) fn addresses_of(text: &[u8]) -> (r: Option<MailAddrList>)
    ensures
        r matches Some(list) ==> header_addresses(text@) == Some(list@),
        r is None ==> header_addresses(text@) is None,
{
    let (header, _) = mailparse::parse_header(text).ok()?;
    let parsed = mailparse::addrparse_header(&header).ok()?;
    let own = |s: mailparse::SingleInfo| SingleInfo { display_name: s.display_name, addr: s.addr };
    Some(MailAddrList(parsed.into_inner().into_iter().map(|a| match a {
        mailparse::MailAddr::Single(s) => MailAddr::Single(own(s)),
        mailparse::MailAddr::Group(g) => MailAddr::Group(GroupInfo {
            group_name: g.group_name,
            addrs: g.addrs.into_iter().map(own).collect(),
        }),
    }).collect()))
}

/// Finds the header `name` in the header block of `buffer`, at the start of
/// a line, and returns the offset just behind the name.
pub fn find_header(buffer: &[u8], name: &[u8]) -> (r: Option<usize>)
    ensures
        locates(buffer@, line_needle(name@), r),
        r matches Some(end) ==> name@.len() < end <= buffer@.len(),
{
    let mut needle: Vec<u8> = Vec::new();
    needle.push(10u8);
    let mut i: usize = 0;
    while i < name.len()
        invariant
            i <= name@.len(),
            needle@ == line_needle(name@.subrange(0, i as int)),
        decreases name@.len() - i,
    {
        needle.push(name[i]);
        i += 1;
    }
    assert(name@.subrange(0, i as int) == name@);
    locate_bytes(buffer, needle.as_slice())
}

/// The addresses of the header `name`, given what the search for the header
/// returned: none where the header was not found, and none where
/// `mailparse` cannot read addresses from its text.
pub open spec fn addresses_at(contents: Seq<u8>, name: Seq<u8>, at: Option<usize>) -> Seq<
    Address,
> {
    match at {
        Some(end) => match header_addresses(header_text(contents, name, end as int)) {
            Some(list) => list,
            None => Seq::empty(),
        },
        None => Seq::empty(),
    }
}

/// `list` is what the header `name` of `contents` holds as addresses.
pub open spec fn holds_addresses(contents: Seq<u8>, name: Seq<u8>, list: Seq<Address>) -> bool {
    exists|at: Option<usize>| #[trigger]
        locates(contents, line_needle(name), at) && list == addresses_at(contents, name, at)
}

/// The value of the header `name`, given what the search for the header
/// returned: empty where the header was not found or `mailparse` refuses
/// its text.
pub open spec fn value_at(contents: Seq<u8>, name: Seq<u8>, at: Option<usize>) -> Seq<char> {
    match at {
        Some(end) => match header_value(header_text(contents, name, end as int)) {
            Some(text) => text,
            None => Seq::empty(),
        },
        None => Seq::empty(),
    }
}

/// `text` is what the header `name` of `contents` holds as its value.
pub open spec fn holds_value(contents: Seq<u8>, name: Seq<u8>, text: Seq<char>) -> bool {
    exists|at: Option<usize>| #[trigger]
        locates(contents, line_needle(name), at) && text == value_at(contents, name, at)
}

/// A header holds one thing: for a name that does not end in a newline, the
/// addresses and the value that are read from a message are determined by
/// the message.
pub proof fn lemma_reading_is_determined(
    contents: Seq<u8>,
    name: Seq<u8>,
    list: Seq<Address>,
    other_list: Seq<Address>,
    text: Seq<char>,
    other_text: Seq<char>,
)
    requires
        tie_free(line_needle(name)),
    ensures
        holds_addresses(contents, name, list) && holds_addresses(contents, name, other_list)
            ==> list == other_list,
        holds_value(contents, name, text) && holds_value(contents, name, other_text) ==> text
            == other_text,
{
    if holds_addresses(contents, name, list) && holds_addresses(contents, name, other_list) {
        let at = choose|at: Option<usize>| #[trigger]
            locates(contents, line_needle(name), at) && list == addresses_at(contents, name, at);
        let other = choose|at: Option<usize>| #[trigger]
            locates(contents, line_needle(name), at) && other_list == addresses_at(
                contents,
                name,
                at,
            );
        lemma_locates_unique(contents, line_needle(name), at, other);
    }
    if holds_value(contents, name, text) && holds_value(contents, name, other_text) {
        let at = choose|at: Option<usize>| #[trigger]
            locates(contents, line_needle(name), at) && text == value_at(contents, name, at);
        let other = choose|at: Option<usize>| #[trigger]
            locates(contents, line_needle(name), at) && other_text == value_at(
                contents,
                name,
                at,
            );
        lemma_locates_unique(contents, line_needle(name), at, other);
    }
}

/// Reads the addresses of the header `name` of `buffer`. A header that is
/// missing or cannot be read yields the empty list.
pub fn read_addresses(buffer: &[u8], name: &str) -> (list: MailAddrList)
    ensures
        holds_addresses(buffer@, name.spec_bytes(), list@),
{
    let name = name.as_bytes();
    let at = find_header(buffer, name);
    let read = match at {
        Some(end) => addresses_of(slice_subrange(buffer, end - name.len(), buffer.len())),
        None => None,
    };
    let list = match read {
        Some(list) => list,
        None => MailAddrList::new(),
    };
    list
}

/// Reads the value of the header `name` of `buffer`, decoded and unfolded. A
/// header that is missing or cannot be read yields the empty string.
pub fn read_value(buffer: &[u8], name: &str) -> (text: String)
    ensures
        holds_value(buffer@, name.spec_bytes(), text@),
{
    let name = name.as_bytes();
    let at = find_header(buffer, name);
    let read = match at {
        Some(end) => value_of(slice_subrange(buffer, end - name.len(), buffer.len())),
        None => None,
    };
    let text = match read {
        Some(text) => text,
        None => String::new(),
    };
    text
}

} // verus!
