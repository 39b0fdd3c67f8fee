//! Mail addresses as they stand in an address header or on the envelope.

use vstd::prelude::*;

verus! {

/// One mailbox: a routing address and, possibly, a display name.
#[derive(Clone, Debug, PartialEq, Eq, Hash)]
pub struct SingleInfo {
    pub display_name: Option<String>,
    pub addr: String,
}

/// A named group of mailboxes.
#[derive(Clone, Debug, PartialEq, Eq, Hash)]
pub struct GroupInfo {
    pub group_name: String,
    pub addrs: Vec<SingleInfo>,
}

/// One entry of an address list: a group or a single mailbox.
#[derive(Clone, Debug, PartialEq, Eq, Hash)]
pub enum MailAddr {
    Group(GroupInfo),
    Single(SingleInfo),
}

/// A list of addresses, in the order in which they were written.
#[derive(Clone, Debug, PartialEq, Eq, Hash)]
pub struct MailAddrList(pub Vec<MailAddr>);

/// What a `SingleInfo` stands for.
pub struct Mailbox {
    pub display_name: Option<Seq<char>>,
    pub addr: Seq<char>,
}

/// What a `GroupInfo` stands for.
pub struct MailGroup {
    pub group_name: Seq<char>,
    pub addrs: Seq<Mailbox>,
}

/// What a `MailAddr` stands for.
pub enum Address {
    Group(MailGroup),
    Single(Mailbox),
}

impl View for SingleInfo {
    type V = Mailbox;

    open spec fn view(&self) -> Mailbox {
        Mailbox {
            display_name: match self.display_name {
                Some(name) => Some(name@),
                None => None,
            },
            addr: self.addr@,
        }
    }
}

impl View for GroupInfo {
    type V = MailGroup;

    open spec fn view(&self) -> MailGroup {
        MailGroup {
            group_name: self.group_name@,
            addrs: self.addrs@.map_values(|s: SingleInfo| s@),
        }
    }
}

impl View for MailAddr {
    type V = Address;

    open spec fn view(&self) -> Address {
        match self {
            MailAddr::Group(g) => Address::Group(g@),
            MailAddr::Single(s) => Address::Single(s@),
        }
    }
}

impl View for MailAddrList {
    type V = Seq<Address>;

    open spec fn view(&self) -> Seq<Address> {
        self.0@.map_values(|a: MailAddr| a@)
    }
}

/// The mailboxes of one entry: the entry itself, or the members of the group.
pub open spec fn mailboxes_of(entry: Address) -> Seq<Mailbox> {
    match entry {
        Address::Group(g) => g.addrs,
        Address::Single(s) => seq![s],
    }
}

/// All mailboxes of a list in order, each group replaced by its members.
pub open spec fn mailboxes(list: Seq<Address>) -> Seq<Mailbox>
    decreases list.len(),
{
    if list.len() == 0 {
        Seq::empty()
    } else {
        mailboxes(list.drop_last()) + mailboxes_of(list.last())
    }
}

/// The addresses that `mailparse::addrparse` reads from `text`; nothing
/// where it refuses `text`.
pub uninterp spec fn parsed_addresses(text: Seq<char>) -> Option<Seq<Address>>;

/// The text that `mailparse` writes for a list of addresses, through its
/// `Display` for `MailAddrList`.
pub uninterp spec fn rendered_addresses(list: Seq<Address>) -> Seq<char>;

/// Calls `mailparse::addrparse` on `text` and copies the addresses into this
/// library's types, field by field.
///
/// Trusted: the result is that of the call, which depends on `text` alone.
#[verifier::external_body]
fn addrparse(text: &str) -> (r: Option<MailAddrList>)
    ensures
        r matches Some(list) ==> parsed_addresses(text@) == Some(list@),
        r is None ==> parsed_addresses(text@) is None,
{
    let parsed = mailparse::addrparse(text).ok()?;
    let own = |s: mailparse::SingleInfo| SingleInfo { display_name: s.display_name, addr: s.addr };
    Some(MailAddrList(parsed.into_inner().into_iter().map(|a| match a {
        mailparse::MailAddr::Single(s) => MailAddr::Single(own(s)),
        mailparse::MailAddr::Group(g) => MailAddr::Group(GroupInfo {
            group_name: g.group_name,
            addrs: g.addrs.into_iter().map(own).collect(),
        }),
    }).collect()))
}

/// Copies `list` into `mailparse`'s types, field by field, and returns what
/// `mailparse`'s `Display` for `MailAddrList` writes for it.
///
/// Trusted: the result is that of the formatting, which depends on the
/// addresses alone.
#[verifier::external_body]
fn render(list: &MailAddrList) -> (text: String)
    ensures
        text@ == rendered_addresses(list@),
{
    let theirs = |s: &SingleInfo| mailparse::SingleInfo {
        display_name: s.display_name.clone(),
        addr: s.addr.clone(),
    };
    mailparse::MailAddrList::from(list.0.iter().map(|a| match a {
        MailAddr::Single(s) => mailparse::MailAddr::Single(theirs(s)),
        MailAddr::Group(g) => mailparse::MailAddr::Group(mailparse::GroupInfo {
            group_name: g.group_name.clone(),
            addrs: g.addrs.iter().map(theirs).collect(),
        }),
    }).collect::<Vec<_>>()).to_string()
}

impl MailAddrList {
    /// Reads a list of addresses as it is written in an address header.
    /// Nothing is returned where the text is no such list.
    pub fn parse(text: &str) -> (r: Option<MailAddrList>)
        ensures
            r matches Some(list) ==> parsed_addresses(text@) == Some(list@),
            r is None ==> parsed_addresses(text@) is None,
    {
        addrparse(text)
    }

    /// The list as it is written in an address header.
    pub fn render(&self) -> (text: String)
        ensures
            text@ == rendered_addresses(self@),
    {
        render(self)
    }

    /// The list without any address.
    pub fn new() -> (list: MailAddrList)
        ensures
            list@ == Seq::<Address>::empty(),
    {
        let list = MailAddrList(Vec::new());
        list
    }

    /// The number of entries, a group counting as one.
    pub fn len(&self) -> (n: usize)
        ensures
            n == self@.len(),
    {
        self.0.len()
    }
}

impl From<Vec<MailAddr>> for MailAddrList {
    fn from(addrs: Vec<MailAddr>) -> (list: MailAddrList) {
        MailAddrList(addrs)
    }
}

impl vstd::std_specs::convert::FromSpecImpl<Vec<MailAddr>> for MailAddrList {
    open spec fn obeys_from_spec() -> bool {
        true
    }

    open spec fn from_spec(addrs: Vec<MailAddr>) -> MailAddrList {
        MailAddrList(addrs)
    }
}

} // verus!
