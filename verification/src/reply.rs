//! SMTP-style rejection replies.

use vstd::prelude::*;
use vstd::string::StringExecFns;

verus! {

/// An SMTP reply: a numeric status followed by free text.
#[derive(Clone, Debug, PartialEq, Eq)]
pub struct Error {
    /// The reply code.
    pub status: u16,
    /// The text behind the code. Anything will do.
    pub message: String,
}

/// The character for a decimal digit.
pub open spec fn digit(d: int) -> char {
    if d == 0 {
        '0'
    } else if d == 1 {
        '1'
    } else if d == 2 {
        '2'
    } else if d == 3 {
        '3'
    } else if d == 4 {
        '4'
    } else if d == 5 {
        '5'
    } else if d == 6 {
        '6'
    } else if d == 7 {
        '7'
    } else if d == 8 {
        '8'
    } else {
        '9'
    }
}

/// A number written in decimal, without leading zeros.
pub open spec fn decimal(n: nat) -> Seq<char>
    decreases n,
{
    if n < 10 {
        seq![digit(n as int)]
    } else {
        decimal(n / 10).push(digit((n % 10) as int))
    }
}

/// A reply as it is sent: the status in decimal, a space, the message.
pub open spec fn rendered(status: u16, message: Seq<char>) -> Seq<char> {
    decimal(status as nat) + seq![' '] + message
}

fn digit_text(d: u16) -> (text: &'static str)
    requires
        d < 10,
    ensures
        text@ == seq![digit(d as int)],
{
    proof {
        reveal_strlit("0");
        reveal_strlit("1");
        reveal_strlit("2");
        reveal_strlit("3");
        reveal_strlit("4");
        reveal_strlit("5");
        reveal_strlit("6");
        reveal_strlit("7");
        reveal_strlit("8");
        reveal_strlit("9");
    }
    if d == 0 {
        "0"
    } else if d == 1 {
        "1"
    } else if d == 2 {
        "2"
    } else if d == 3 {
        "3"
    } else if d == 4 {
        "4"
    } else if d == 5 {
        "5"
    } else if d == 6 {
        "6"
    } else if d == 7 {
        "7"
    } else if d == 8 {
        "8"
    } else {
        "9"
    }
}

fn push_decimal(out: &mut String, n: u16)
    ensures
        final(out)@ == old(out)@ + decimal(n as nat),
    decreases n,
{
    if n >= 10 {
        push_decimal(out, n / 10);
    }
    out.append(digit_text(n % 10));
}

impl Error {
    /// The standard reply to a client that has not authenticated.
    pub fn unauthorized() -> (e: Error)
        ensures
            e.status == 530,
            e.message@ == "5.7.0 Authentication required"@,
    {
        Error { status: 530, message: "5.7.0 Authentication required".to_owned() }
    }

    /// The reply as it is sent to the client: `<status> <message>`.
    pub fn render(&self) -> (text: String)
        ensures
            text@ == rendered(self.status, self.message@),
    {
        let mut text = String::new();
        push_decimal(&mut text, self.status);
        proof {
            reveal_strlit(" ");
        }
        text.append(" ");
        text.append(self.message.as_str());
        text
    }
}

} // verus!
