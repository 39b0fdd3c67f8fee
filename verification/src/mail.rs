//! Mails, and a mail that is kept as the bytes it arrived in.

use vstd::prelude::*;
use vstd::string::StringSliceAdditionalSpecFns;
use vstd::utf8::encode_utf8;

use crate::address::{mailboxes, rendered_addresses, Address, MailAddrList};
use crate::disclosure::{
    named_text, named_value, undisclosed_text, undisclosed_value, RecipientDisclosure,
};
use crate::domain::{domain_of_first, first_domain};
use crate::header::{holds_addresses, holds_value, read_addresses, read_value};
use crate::splice::{rewrites, set_header};
use crate::utils::first_addr;

verus! {

/// What is left of a mail when it leaves the pipeline: the message, and the
/// sender and the recipients of its envelope.
pub struct Parts {
    pub contents: Seq<u8>,
    pub sender: Seq<Address>,
    pub recipients: Seq<Address>,
}

/// What every representation of a mail offers.
///
/// The sender and the recipients that the headers declare and those of the
/// envelope, which the mail server supplied, are told apart: they may
/// differ. Reading never changes the message or the envelope.
pub trait BasicMail: Sized {
    /// The message and the envelope of this mail. A representation that
    /// does not say leaves them open.
    open spec fn parts(&self) -> Parts {
        arbitrary()
    }

    /// Takes the mail apart: the message, the envelope's sender, the
    /// envelope's recipients.
    fn into_parts(self) -> (parts: (Vec<u8>, MailAddrList, MailAddrList))
        ensures
            parts.0@ == self.parts().contents,
            parts.1@ == self.parts().sender,
            parts.2@ == self.parts().recipients,
    ;

    /// The domain of the first recipient that the headers declare.
    fn header_domain(&mut self) -> (domain: Option<&str>)
        ensures
            final(self).parts() == old(self).parts(),
    ;

    /// The domain of the first recipient of the envelope.
    fn domain(&mut self) -> (domain: Option<&str>)
        ensures
            final(self).parts() == old(self).parts(),
            domain matches Some(d) ==> first_domain(old(self).parts().recipients) == Some(d@),
            domain is None ==> first_domain(old(self).parts().recipients) is None,
    ;

    /// The recipients that the headers declare.
    fn header_recipients(&mut self) -> (list: &MailAddrList)
        ensures
            final(self).parts() == old(self).parts(),
    ;

    /// The sender that the headers declare.
    fn header_sender(&mut self) -> (list: &MailAddrList)
        ensures
            final(self).parts() == old(self).parts(),
    ;

    /// The recipients of the envelope.
    fn recipients(&mut self) -> (list: &MailAddrList)
        ensures
            final(self).parts() == old(self).parts(),
            list@ == old(self).parts().recipients,
    ;

    /// The sender of the envelope.
    fn sender(&mut self) -> (list: &MailAddrList)
        ensures
            final(self).parts() == old(self).parts(),
            list@ == old(self).parts().sender,
    ;

    /// The addresses of the `cc` header.
    fn cc(&mut self) -> (list: &MailAddrList)
        ensures
            final(self).parts() == old(self).parts(),
    ;

    /// The addresses of the `bcc` header.
    fn bcc(&mut self) -> (list: &MailAddrList)
        ensures
            final(self).parts() == old(self).parts(),
    ;

    /// The subject.
    fn subject(&mut self) -> (text: &str)
        ensures
            final(self).parts() == old(self).parts(),
    ;

    /// The user agent, if the mail names one.
    fn user_agent(&mut self) -> (text: Option<&str>)
        ensures
            final(self).parts() == old(self).parts(),
            text matches Some(t) ==> t@.len() > 0,
    ;

    /// Sets the value of the header `header` to `s`. The envelope cannot be
    /// changed this way: for the recipients there is `set_recipient`.
    fn set_header(&mut self, header: &str, s: &str)
        ensures
            final(self).parts().sender == old(self).parts().sender,
            final(self).parts().recipients == old(self).parts().recipients,
    ;

    /// Replaces the recipients of the envelope by `recipients`, and has the
    /// recipients header show what `disclosure` asks for.
    fn set_recipient(&mut self, recipients: MailAddrList, disclosure: RecipientDisclosure)
        ensures
            final(self).parts().sender == old(self).parts().sender,
            final(self).parts().recipients == recipients@,
    ;
}

/// Mails that were parsed into their parts, for what is hard to do on the
/// raw bytes.
pub trait StructuredMail: BasicMail {

}

/// A mail that is left as the bytes it arrived in. Headers are looked up
/// and rewritten in place, which is cheap where little changes.
///
/// What was read from a header is kept and returned again on every later
/// read. It is not read anew after the header was rewritten: rewrite first,
/// then read.
pub struct UnparsedMail {
    contents: Vec<u8>,
    from: MailAddrList,
    to: MailAddrList,
    recipients: Option<MailAddrList>,
    sender: Option<MailAddrList>,
    cc: Option<MailAddrList>,
    bcc: Option<MailAddrList>,
    subject: Option<String>,
    user_agent: Option<String>,
}

/// What an `UnparsedMail` stands for: the message, the envelope, and what
/// has been read from the headers so far.
pub struct MailView {
    pub contents: Seq<u8>,
    pub from: Seq<Address>,
    pub to: Seq<Address>,
    pub recipients: Option<Seq<Address>>,
    pub sender: Option<Seq<Address>>,
    pub cc: Option<Seq<Address>>,
    pub bcc: Option<Seq<Address>>,
    pub subject: Option<Seq<char>>,
    pub user_agent: Option<Seq<char>>,
}

/// What a list that may have been read stands for.
pub open spec fn list_view(slot: Option<MailAddrList>) -> Option<Seq<Address>> {
    match slot {
        Some(list) => Some(list@),
        None => None,
    }
}

/// What a text that may have been read stands for.
pub open spec fn text_view(slot: Option<String>) -> Option<Seq<char>> {
    match slot {
        Some(text) => Some(text@),
        None => None,
    }
}

impl View for UnparsedMail {
    type V = MailView;

    closed spec fn view(&self) -> MailView {
        MailView {
            contents: self.contents@,
            from: self.from@,
            to: self.to@,
            recipients: list_view(self.recipients),
            sender: list_view(self.sender),
            cc: list_view(self.cc),
            bcc: list_view(self.bcc),
            subject: text_view(self.subject),
            user_agent: text_view(self.user_agent),
        }
    }
}

/// Reading addresses through a slot: what the slot holds is returned;
/// where it is empty, the header `name` of `contents` is read.
pub open spec fn memo_addresses(
    slot: Option<Seq<Address>>,
    contents: Seq<u8>,
    name: Seq<u8>,
    got: Seq<Address>,
) -> bool {
    match slot {
        Some(kept) => got == kept,
        None => holds_addresses(contents, name, got),
    }
}

/// Reading a value through a slot: what the slot holds is returned; where
/// it is empty, the header `name` of `contents` is read.
pub open spec fn memo_value(
    slot: Option<Seq<char>>,
    contents: Seq<u8>,
    name: Seq<u8>,
    got: Seq<char>,
) -> bool {
    match slot {
        Some(kept) => got == kept,
        None => holds_value(contents, name, got),
    }
}

/// The address that stands for the sender in the recipients header: that of
/// the first mailbox of the sender that the headers declare; without one,
/// that of the first mailbox of the envelope's sender; without one, a
/// placeholder.
pub open spec fn sender_address(declared: Seq<Address>, envelope: Seq<Address>) -> Seq<char> {
    if mailboxes(declared).len() > 0 {
        mailboxes(declared)[0].addr
    } else if mailboxes(envelope).len() > 0 {
        mailboxes(envelope)[0].addr
    } else {
        "noreply@localhost"@
    }
}

/// `after` is `before` with the header `name` set to `value`: the message is
/// rewritten, and what was read before stays as it was read.
pub open spec fn header_set(
    before: MailView,
    name: Seq<u8>,
    value: Seq<u8>,
    after: MailView,
) -> bool {
    &&& rewrites(before.contents, name, value, after.contents)
    &&& after == MailView { contents: after.contents, ..before }
}

/// `after` is `before` once the subject was read as `got`.
pub open spec fn subject_read(before: MailView, got: Seq<char>, after: MailView) -> bool {
    &&& memo_value(before.subject, before.contents, "subject:".spec_bytes(), got)
    &&& after == MailView { subject: Some(got), ..before }
}

/// `after` is `before` once the user agent was read as `got`.
pub open spec fn user_agent_read(before: MailView, got: Seq<char>, after: MailView) -> bool {
    &&& memo_value(before.user_agent, before.contents, "user-agent:".spec_bytes(), got)
    &&& after == MailView { user_agent: Some(got), ..before }
}

/// `after` is `before` once the declared recipients were read as `got`.
pub open spec fn recipients_read(before: MailView, got: Seq<Address>, after: MailView) -> bool {
    &&& memo_addresses(before.recipients, before.contents, "to:".spec_bytes(), got)
    &&& after == MailView { recipients: Some(got), ..before }
}

/// `after` is `before` once the declared sender was read as `got`.
pub open spec fn sender_read(before: MailView, got: Seq<Address>, after: MailView) -> bool {
    &&& memo_addresses(before.sender, before.contents, "from:".spec_bytes(), got)
    &&& after == MailView { sender: Some(got), ..before }
}

/// `after` is `before` once the `cc` header was read as `got`.
pub open spec fn cc_read(before: MailView, got: Seq<Address>, after: MailView) -> bool {
    &&& memo_addresses(before.cc, before.contents, "cc:".spec_bytes(), got)
    &&& after == MailView { cc: Some(got), ..before }
}

/// `after` is `before` once the `bcc` header was read as `got`.
pub open spec fn bcc_read(before: MailView, got: Seq<Address>, after: MailView) -> bool {
    &&& memo_addresses(before.bcc, before.contents, "bcc:".spec_bytes(), got)
    &&& after == MailView { bcc: Some(got), ..before }
}

/// `after` is `before` once its recipients were replaced by `recipients`
/// under the policy `disclosure`.
///
/// The envelope's recipients are replaced whatever the policy. The
/// recipients header is set to the new list as `mailparse` writes it
/// (`Open`), to the policy's name without an address (`Undisclosed`), or to
/// the policy's name with the sender's address (`Sender`), for which the
/// declared sender is read; or it is left alone (`Keep`).
pub open spec fn recipient_set(
    before: MailView,
    recipients: Seq<Address>,
    disclosure: RecipientDisclosure,
    after: MailView,
) -> bool {
    match disclosure {
        RecipientDisclosure::Keep => after == MailView { to: recipients, ..before },
        RecipientDisclosure::Open => header_set(
            MailView { to: recipients, ..before },
            "to".spec_bytes(),
            encode_utf8(rendered_addresses(recipients)),
            after,
        ),
        RecipientDisclosure::Undisclosed { name } => header_set(
            MailView { to: recipients, ..before },
            "to".spec_bytes(),
            encode_utf8(undisclosed_value(name@)),
            after,
        ),
        RecipientDisclosure::Sender { name } => exists|declared: Seq<Address>| #[trigger]
            memo_addresses(before.sender, before.contents, "from:".spec_bytes(), declared)
                && header_set(
                MailView { to: recipients, sender: Some(declared), ..before },
                "to".spec_bytes(),
                encode_utf8(named_value(name@, sender_address(declared, before.from))),
                after,
            ),
    }
}

/// Setting a header leaves alone what was read before and the envelope.
pub proof fn lemma_header_set_keeps_memory(
    before: MailView,
    name: Seq<u8>,
    value: Seq<u8>,
    after: MailView,
)
    ensures
        header_set(before, name, value, after) ==> {
            &&& after.recipients == before.recipients
            &&& after.sender == before.sender
            &&& after.cc == before.cc
            &&& after.bcc == before.bcc
            &&& after.subject == before.subject
            &&& after.user_agent == before.user_agent
            &&& after.from == before.from
            &&& after.to == before.to
        },
{
}

/// The subject that was read once is the subject that is read ever after,
/// also where the header was rewritten in between: what was read is
/// remembered, not read anew.
pub proof fn lemma_subject_is_remembered(
    start: MailView,
    first: Seq<char>,
    read: MailView,
    name: Seq<u8>,
    value: Seq<u8>,
    rewritten: MailView,
    second: Seq<char>,
    end: MailView,
)
    ensures
        subject_read(start, first, read) && header_set(read, name, value, rewritten)
            && subject_read(rewritten, second, end) ==> second == first && end == rewritten,
{
}

/// The declared recipients that were read once are those that are read ever
/// after, also where the header was rewritten in between.
pub proof fn lemma_recipients_are_remembered(
    start: MailView,
    first: Seq<Address>,
    read: MailView,
    name: Seq<u8>,
    value: Seq<u8>,
    rewritten: MailView,
    second: Seq<Address>,
    end: MailView,
)
    ensures
        recipients_read(start, first, read) && header_set(read, name, value, rewritten)
            && recipients_read(rewritten, second, end) ==> second == first && end == rewritten,
{
}

/// `after` still holds what `before` had read from the headers.
pub open spec fn remembers(before: MailView, after: MailView) -> bool {
    &&& before.recipients is Some ==> after.recipients == before.recipients
    &&& before.sender is Some ==> after.sender == before.sender
    &&& before.cc is Some ==> after.cc == before.cc
    &&& before.bcc is Some ==> after.bcc == before.bcc
    &&& before.subject is Some ==> after.subject == before.subject
    &&& before.user_agent is Some ==> after.user_agent == before.user_agent
}

/// `after` is `before` after one call of an operation of `UnparsedMail`,
/// whichever it is and whatever it is given.
pub open spec fn one_call(before: MailView, after: MailView) -> bool {
    ||| after == before
    ||| exists|name: Seq<u8>, value: Seq<u8>| #[trigger] header_set(before, name, value, after)
    ||| exists|recipients: Seq<Address>, disclosure: RecipientDisclosure| #[trigger]
        recipient_set(before, recipients, disclosure, after)
    ||| exists|got: Seq<char>| #[trigger] subject_read(before, got, after)
    ||| exists|got: Seq<char>| #[trigger] user_agent_read(before, got, after)
    ||| exists|got: Seq<Address>| #[trigger] recipients_read(before, got, after)
    ||| exists|got: Seq<Address>| #[trigger] sender_read(before, got, after)
    ||| exists|got: Seq<Address>| #[trigger] cc_read(before, got, after)
    ||| exists|got: Seq<Address>| #[trigger] bcc_read(before, got, after)
}

/// No operation forgets: after one call, whatever had been read from the
/// headers is still held as it was read.
pub proof fn lemma_one_call_remembers(before: MailView, after: MailView)
    requires
        one_call(before, after),
    ensures
        remembers(before, after),
{
}

/// No number of operations forgets: `states` are the states of a mail
/// through any number of calls, and the last still holds what the first had
/// read.
pub proof fn lemma_calls_remember(states: Seq<MailView>)
    requires
        states.len() > 0,
        forall|i: int| 0 <= i < states.len() - 1 ==> one_call(#[trigger] states[i], states[i + 1]),
    ensures
        remembers(states.first(), states.last()),
    decreases states.len(),
{
    if states.len() > 1 {
        let shorter = states.drop_last();
        assert forall|i: int| 0 <= i < shorter.len() - 1 implies one_call(
            #[trigger] shorter[i],
            shorter[i + 1],
        ) by {
            assert(one_call(states[i], states[i + 1]));
        }
        lemma_calls_remember(shorter);
        assert(one_call(states[states.len() - 2], states[states.len() - 2 + 1]));
        lemma_one_call_remembers(states[states.len() - 2], states.last());
    }
}

/// What was read once is returned ever after: where the subject was read
/// as `first`, and any number of operations were called on the mail since,
/// a read of the subject returns `first`, and so for every header that is
/// read through a slot.
pub proof fn lemma_reads_are_remembered_for_good(
    states: Seq<MailView>,
    subject: Seq<char>,
    user_agent: Seq<char>,
    recipients: Seq<Address>,
    sender: Seq<Address>,
    cc: Seq<Address>,
    bcc: Seq<Address>,
    end: MailView,
)
    requires
        states.len() > 0,
        forall|i: int| 0 <= i < states.len() - 1 ==> one_call(#[trigger] states[i], states[i + 1]),
    ensures
        states.first().subject is Some && subject_read(states.last(), subject, end) ==> subject
            == states.first().subject->0,
        states.first().user_agent is Some && user_agent_read(states.last(), user_agent, end)
            ==> user_agent == states.first().user_agent->0,
        states.first().recipients is Some && recipients_read(states.last(), recipients, end)
            ==> recipients == states.first().recipients->0,
        states.first().sender is Some && sender_read(states.last(), sender, end) ==> sender
            == states.first().sender->0,
        states.first().cc is Some && cc_read(states.last(), cc, end) ==> cc
            == states.first().cc->0,
        states.first().bcc is Some && bcc_read(states.last(), bcc, end) ==> bcc
            == states.first().bcc->0,
{
    lemma_calls_remember(states);
}

/// Whatever the policy, replacing the recipients makes the new list the
/// recipients of the envelope, and leaves its sender alone.
pub proof fn lemma_recipient_set_envelope(
    before: MailView,
    recipients: Seq<Address>,
    disclosure: RecipientDisclosure,
    after: MailView,
)
    ensures
        recipient_set(before, recipients, disclosure, after) ==> after.to == recipients
            && after.from == before.from,
{
}

/// Under the policy `Keep`, replacing the recipients leaves the message as
/// it is.
pub proof fn lemma_keep_leaves_message(before: MailView, recipients: Seq<Address>, after: MailView)
    ensures
        recipient_set(before, recipients, RecipientDisclosure::Keep, after) ==> after.contents
            == before.contents,
{
}

impl UnparsedMail {
    /// A mail with the message `buf` and the envelope `from`, `to`. Nothing
    /// has been read from its headers yet.
    pub fn new(buf: Vec<u8>, from: MailAddrList, to: MailAddrList) -> (mail: UnparsedMail)
        ensures
            mail@ == (MailView {
                contents: buf@,
                from: from@,
                to: to@,
                recipients: None,
                sender: None,
                cc: None,
                bcc: None,
                subject: None,
                user_agent: None,
            }),
    {
        UnparsedMail {
            contents: buf,
            from,
            to,
            recipients: None,
            sender: None,
            cc: None,
            bcc: None,
            subject: None,
            user_agent: None,
        }
    }

    /// The message as it stands.
    pub fn contents(&self) -> (bytes: &[u8])
        ensures
            bytes@ == self@.contents,
    {
        self.contents.as_slice()
    }
}

impl BasicMail for UnparsedMail {
    open spec fn parts(&self) -> Parts {
        Parts { contents: self@.contents, sender: self@.from, recipients: self@.to }
    }

    fn into_parts(self) -> (parts: (Vec<u8>, MailAddrList, MailAddrList)) {
        (self.contents, self.from, self.to)
    }

    fn header_domain(&mut self) -> (domain: Option<&str>)
        ensures
            final(self)@.recipients is Some,
            recipients_read(old(self)@, final(self)@.recipients->0, final(self)@),
            domain matches Some(d) ==> first_domain(final(self)@.recipients->0) == Some(d@),
            domain is None ==> first_domain(final(self)@.recipients->0) is None,
    {
        domain_of_first(self.header_recipients())
    }

    fn domain(&mut self) -> (domain: Option<&str>)
        ensures
            final(self)@ == old(self)@,
    {
        domain_of_first(&self.to)
    }

    fn header_recipients(&mut self) -> (list: &MailAddrList)
        ensures
            recipients_read(old(self)@, list@, final(self)@),
    {
        if self.recipients.is_none() {
            self.recipients = Some(read_addresses(self.contents.as_slice(), "to:"));
        }
        self.recipients.as_ref().unwrap()
    }

    fn header_sender(&mut self) -> (list: &MailAddrList)
        ensures
            sender_read(old(self)@, list@, final(self)@),
    {
        if self.sender.is_none() {
            self.sender = Some(read_addresses(self.contents.as_slice(), "from:"));
        }
        self.sender.as_ref().unwrap()
    }

    fn recipients(&mut self) -> (list: &MailAddrList)
        ensures
            final(self)@ == old(self)@,
    {
        &self.to
    }

    fn sender(&mut self) -> (list: &MailAddrList)
        ensures
            final(self)@ == old(self)@,
    {
        &self.from
    }

    fn cc(&mut self) -> (list: &MailAddrList)
        ensures
            cc_read(old(self)@, list@, final(self)@),
    {
        if self.cc.is_none() {
            self.cc = Some(read_addresses(self.contents.as_slice(), "cc:"));
        }
        self.cc.as_ref().unwrap()
    }

    fn bcc(&mut self) -> (list: &MailAddrList)
        ensures
            bcc_read(old(self)@, list@, final(self)@),
    {
        if self.bcc.is_none() {
            self.bcc = Some(read_addresses(self.contents.as_slice(), "bcc:"));
        }
        self.bcc.as_ref().unwrap()
    }

    fn subject(&mut self) -> (text: &str)
        ensures
            subject_read(old(self)@, text@, final(self)@),
    {
        if self.subject.is_none() {
            self.subject = Some(read_value(self.contents.as_slice(), "subject:"));
        }
        self.subject.as_ref().unwrap().as_str()
    }

    fn user_agent(&mut self) -> (text: Option<&str>)
        ensures
            final(self)@.user_agent is Some,
            user_agent_read(old(self)@, final(self)@.user_agent->0, final(self)@),
            text matches Some(t) ==> t@ == final(self)@.user_agent->0,
            text is None ==> final(self)@.user_agent->0.len() == 0,
    {
        if self.user_agent.is_none() {
            self.user_agent = Some(read_value(self.contents.as_slice(), "user-agent:"));
        }
        let text = self.user_agent.as_ref().unwrap().as_str();
        if text.is_empty() {
            None
        } else {
            Some(text)
        }
    }

    fn set_header(&mut self, header: &str, s: &str)
        ensures
            header_set(old(self)@, header.spec_bytes(), s.spec_bytes(), final(self)@),
    {
        set_header(&mut self.contents, header, s);
    }

    fn set_recipient(&mut self, recipients: MailAddrList, disclosure: RecipientDisclosure)
        ensures
            recipient_set(old(self)@, recipients@, disclosure, final(self)@),
    {
        match disclosure {
            RecipientDisclosure::Open => {
                let text = recipients.render();
                set_header(&mut self.contents, "to", text.as_str());
            },
            RecipientDisclosure::Undisclosed { name } => {
                let text = undisclosed_text(name.as_str());
                set_header(&mut self.contents, "to", text.as_str());
            },
            RecipientDisclosure::Keep => {},
            RecipientDisclosure::Sender { name } => {
                let declared = match first_addr(self.header_sender()) {
                    Some(single) => Some(single.addr.clone()),
                    None => None,
                };
                let ghost read = self@.sender->0;
                let addr = match declared {
                    Some(addr) => addr,
                    None => match first_addr(&self.from) {
                        Some(single) => single.addr.clone(),
                        None => "noreply@localhost".to_owned(),
                    },
                };
                let text = named_text(name.as_str(), addr.as_str());
                set_header(&mut self.contents, "to", text.as_str());
                assert(memo_addresses(
                    old(self)@.sender,
                    old(self)@.contents,
                    "from:".spec_bytes(),
                    read,
                ));
            },
        }
        self.to = recipients;
    }
}

} // verus!
