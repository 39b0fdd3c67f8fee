//! Making a mail from what a mail server hands over: the message, and the
//! envelope as arguments of the form `-f <sender> -- <recipient>...`.

use vstd::prelude::*;
use vstd::string::StringExecFns;

use crate::address::{parsed_addresses, Address, MailAddrList};
use crate::mail::{MailView, UnparsedMail};

verus! {

/// Why a list of arguments names no envelope.
#[derive(Clone, Copy, Debug, PartialEq, Eq)]
pub enum ArgsError {
    /// The first argument is not `-f`.
    SenderFlag,
    /// Nothing follows `-f`.
    Sender,
    /// The third argument is not `--`.
    Separator,
    /// The sender is no address list.
    SenderAddress,
    /// The recipients are no address list.
    RecipientAddresses,
}

/// The texts of `items` in order, with `, ` between them.
pub open spec fn joined(items: Seq<String>) -> Seq<char>
    decreases items.len(),
{
    if items.len() == 0 {
        Seq::empty()
    } else if items.len() == 1 {
        items[0]@
    } else {
        joined(items.drop_last()) + ", "@ + items.last()@
    }
}

/// The sender and the recipients that the arguments name.
///
/// The arguments are `-f`, the sender, `--`, and the recipients, each of
/// which is one entry of a list. The first thing that is amiss decides the
/// error.
pub open spec fn envelope_of(args: Seq<String>) -> Result<(Seq<Address>, Seq<Address>), ArgsError> {
    if args.len() == 0 || args[0]@ != "-f"@ {
        Err(ArgsError::SenderFlag)
    } else if args.len() == 1 {
        Err(ArgsError::Sender)
    } else if args.len() == 2 || args[2]@ != "--"@ {
        Err(ArgsError::Separator)
    } else {
        match parsed_addresses(args[1]@) {
            None => Err(ArgsError::SenderAddress),
            Some(from) => match parsed_addresses(joined(args.subrange(3, args.len() as int))) {
                None => Err(ArgsError::RecipientAddresses),
                Some(to) => Ok((from, to)),
            },
        }
    }
}

/// Writes the arguments from `from` on as one list, with `, ` between them.
fn join_from(args: &Vec<String>, from: usize) -> (text: String)
    requires
        from <= args@.len(),
    ensures
        text@ == joined(args@.subrange(from as int, args@.len() as int)),
{
    let mut text = String::new();
    let mut i = from;
    while i < args.len()
        invariant
            from <= i <= args@.len(),
            text@ == joined(args@.subrange(from as int, i as int)),
        decreases args@.len() - i,
    {
        let ghost done = args@.subrange(from as int, i as int);
        let ghost more = args@.subrange(from as int, i + 1);
        assert(more.drop_last() == done);
        if i > from {
            text.append(", ");
        }
        text.append(args[i].as_str());
        i += 1;
    }
    text
}

/// The sender and the recipients that the arguments name.
pub fn envelope_from_args(args: &Vec<String>) -> (r: Result<
    (MailAddrList, MailAddrList),
    ArgsError,
>)
    ensures
        r matches Ok(envelope) ==> envelope_of(args@) == Ok::<
            (Seq<Address>, Seq<Address>),
            ArgsError,
        >((envelope.0@, envelope.1@)),
        r matches Err(e) ==> envelope_of(args@) == Err::<(Seq<Address>, Seq<Address>), ArgsError>(
            e,
        ),
{
    if args.len() == 0 || args[0] != "-f".to_owned() {
        return Err(ArgsError::SenderFlag);
    }
    if args.len() == 1 {
        return Err(ArgsError::Sender);
    }
    if args.len() == 2 || args[2] != "--".to_owned() {
        return Err(ArgsError::Separator);
    }
    let recipients = join_from(args, 3);
    let from = match MailAddrList::parse(args[1].as_str()) {
        Some(list) => list,
        None => {
            return Err(ArgsError::SenderAddress);
        },
    };
    let to = match MailAddrList::parse(recipients.as_str()) {
        Some(list) => list,
        None => {
            return Err(ArgsError::RecipientAddresses);
        },
    };
    Ok((from, to))
}

impl UnparsedMail {
    /// The mail with the message `buf` and the envelope that `args` name.
    /// Nothing has been read from its headers yet.
    pub fn from_args(buf: Vec<u8>, args: &Vec<String>) -> (r: Result<UnparsedMail, ArgsError>)
        ensures
            r matches Ok(mail) ==> envelope_of(args@) == Ok::<
                (Seq<Address>, Seq<Address>),
                ArgsError,
            >((mail@.from, mail@.to)) && mail@ == (MailView {
                contents: buf@,
                from: mail@.from,
                to: mail@.to,
                recipients: None,
                sender: None,
                cc: None,
                bcc: None,
                subject: None,
                user_agent: None,
            }),
            r matches Err(e) ==> envelope_of(args@) == Err::<
                (Seq<Address>, Seq<Address>),
                ArgsError,
            >(e),
    {
        match envelope_from_args(args) {
            Ok((from, to)) => Ok(UnparsedMail::new(buf, from, to)),
            Err(e) => Err(e),
        }
    }
}

} // verus!
