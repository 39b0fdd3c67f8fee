//! What the recipients header shows once the recipients were replaced.

use vstd::prelude::*;
use vstd::string::StringExecFns;

verus! {

/// How the recipients header presents the new recipients of a mail.
#[derive(Clone, Debug, PartialEq, Eq)]
pub enum RecipientDisclosure {
    /// The header lists the new recipients. Every recipient sees the
    /// others.
    Open,
    /// The header shows `name` and no address.
    Undisclosed { name: String },
    /// The header stays as it is.
    Keep,
    /// The header shows `name` with the sender's address.
    Sender { name: String },
}

/// The header value that names `name` and no address: `name <>`.
pub open spec fn undisclosed_value(name: Seq<char>) -> Seq<char> {
    name + " <>"@
}

/// The header value that names `name` with the address `addr`:
/// `name <addr>`.
pub open spec fn named_value(name: Seq<char>, addr: Seq<char>) -> Seq<char> {
    name + " <"@ + addr + ">"@
}

impl RecipientDisclosure {
    /// The usual way to hide the recipients.
    pub fn undisclosed_recipients() -> (policy: RecipientDisclosure)
        ensures
            policy matches RecipientDisclosure::Undisclosed { name } && name@
                == "Undisclosed Recipients"@,
    {
        RecipientDisclosure::Undisclosed { name: "Undisclosed Recipients".to_owned() }
    }
}

/// Writes `name <>`.
pub fn undisclosed_text(name: &str) -> (text: String)
    ensures
        text@ == undisclosed_value(name@),
{
    let mut text = name.to_owned();
    text.append(" <>");
    text
}

/// Writes `name <addr>`.
pub fn named_text(name: &str, addr: &str) -> (text: String)
    ensures
        text@ == named_value(name@, addr@),
{
    let mut text = name.to_owned();
    text.append(" <");
    text.append(addr);
    text.append(">");
    text
}

} // verus!
