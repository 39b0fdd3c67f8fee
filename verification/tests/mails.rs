use mailfilter::utils::{addr_list_from_iter, addr_single, iter_addrs};
use mailfilter::{
    BasicMail, GroupInfo, MailAddr, MailAddrList, RecipientDisclosure, SingleInfo, UnparsedMail,
};

const MAIL: &[u8] = b"Received: by mx\r\nFrom: Bob <bob@example.com>\r\nTo: carol@example.org\r\nCc: dave@example.net, \"Erin\" <erin@example.net>\r\nSubject: hello\r\nUser-Agent: mutt\r\n\r\nbody\r\n";

fn mail_of(bytes: &[u8]) -> UnparsedMail {
    UnparsedMail::new(bytes.to_vec(), addr_single("relay@example.com"), addr_single("list@example.org"))
}

fn with_to(value: &str) -> Vec<u8> {
    let mut bytes = b"Received: by mx\r\nFrom: Bob <bob@example.com>\r\nTo: ".to_vec();
    bytes.extend_from_slice(value.as_bytes());
    bytes.extend_from_slice(b"\r\nCc: dave@example.net, \"Erin\" <erin@example.net>\r\nSubject: hello\r\nUser-Agent: mutt\r\n\r\nbody\r\n");
    bytes
}

fn single(name: Option<&str>, addr: &str) -> SingleInfo {
    SingleInfo { display_name: name.map(String::from), addr: String::from(addr) }
}

#[test]
fn new_mail_comes_apart_as_it_was_made() {
    let (bytes, from, to) = mail_of(MAIL).into_parts();
    assert_eq!(bytes, MAIL.to_vec());
    assert_eq!(from, addr_single("relay@example.com"));
    assert_eq!(to, addr_single("list@example.org"));
}

#[test]
fn contents_are_the_message() {
    let mut mail = mail_of(MAIL);
    assert_eq!(mail.contents(), MAIL);
    mail.set_header("subject", "x");
    assert_eq!(mail.contents().len(), MAIL.len() - 4);
}

#[test]
fn envelope_and_headers_are_told_apart() {
    let mut mail = mail_of(MAIL);
    assert_eq!(mail.recipients(), &addr_single("list@example.org"));
    assert_eq!(mail.sender(), &addr_single("relay@example.com"));
    assert_eq!(mail.header_recipients(), &addr_single("carol@example.org"));
    assert_eq!(
        mail.header_sender(),
        &MailAddrList(vec![MailAddr::Single(single(Some("Bob"), "bob@example.com"))])
    );
    assert_eq!(mail.domain(), Some("example.org"));
    assert_eq!(mail.header_domain(), Some("example.org"));
}

#[test]
fn domains_differ_where_envelope_and_header_differ() {
    let mut mail = UnparsedMail::new(
        MAIL.to_vec(),
        addr_single("relay@example.com"),
        addr_single("someone@elsewhere.test"),
    );
    assert_eq!(mail.domain(), Some("elsewhere.test"));
    assert_eq!(mail.header_domain(), Some("example.org"));
}

#[test]
fn domain_is_missing_without_recipient_or_at() {
    let mut mail = UnparsedMail::new(
        b"A: b\r\n\r\n".to_vec(),
        MailAddrList::new(),
        MailAddrList::new(),
    );
    assert_eq!(mail.domain(), None);
    assert_eq!(mail.header_domain(), None);
    let mut odd = UnparsedMail::new(b"A: b\r\n\r\n".to_vec(), MailAddrList::new(), addr_single("postmaster"));
    assert_eq!(odd.domain(), None);
}

#[test]
fn cc_and_bcc_are_read() {
    let mut mail = mail_of(MAIL);
    assert_eq!(
        mail.cc(),
        &MailAddrList(vec![
            MailAddr::Single(single(None, "dave@example.net")),
            MailAddr::Single(single(Some("Erin"), "erin@example.net")),
        ])
    );
    assert_eq!(mail.bcc(), &MailAddrList::new());
}

#[test]
fn groups_are_read_with_their_members() {
    let mut mail = mail_of(b"A: b\r\nTo: \"friends\": x@example.com, Y <y@example.com>; z@example.com\r\n\r\n");
    let expected = MailAddrList(vec![
        MailAddr::Group(GroupInfo {
            group_name: String::from("friends"),
            addrs: vec![single(None, "x@example.com"), single(Some("Y"), "y@example.com")],
        }),
        MailAddr::Single(single(None, "z@example.com")),
    ]);
    assert_eq!(mail.header_recipients(), &expected);
    assert_eq!(mail.header_domain(), Some("example.com"));
}

#[test]
fn subject_and_user_agent_are_read() {
    let mut mail = mail_of(MAIL);
    assert_eq!(mail.subject(), "hello");
    assert_eq!(mail.user_agent(), Some("mutt"));
}

#[test]
fn subject_is_decoded_and_unfolded() {
    let mut mail = mail_of(b"A: b\r\nSubject: =?utf-8?q?h=C3=A9llo?=\r\n  you\r\n\r\n");
    assert_eq!(mail.subject(), "h\u{e9}llo you");
}

#[test]
fn missing_headers_read_as_empty() {
    let mut mail = mail_of(b"Received: by mx\r\n\r\nSubject: in the body\r\nTo: x@y.z\r\n");
    assert_eq!(mail.subject(), "");
    assert_eq!(mail.user_agent(), None);
    assert_eq!(mail.header_recipients(), &MailAddrList::new());
    assert_eq!(mail.header_sender(), &MailAddrList::new());
    assert_eq!(mail.cc(), &MailAddrList::new());
    assert_eq!(mail.bcc(), &MailAddrList::new());
    assert_eq!(mail.header_domain(), None);
}

#[test]
fn unreadable_addresses_read_as_empty() {
    let mut mail = mail_of(b"A: b\r\nTo: no address here\r\nFrom: <unfinished\r\n\r\n");
    assert_eq!(mail.header_recipients(), &MailAddrList::new());
    assert_eq!(mail.header_sender(), &MailAddrList::new());
}

#[test]
fn empty_user_agent_is_none() {
    let mut mail = mail_of(b"A: b\r\nUser-Agent:\r\nSubject:\r\n\r\n");
    assert_eq!(mail.user_agent(), None);
    assert_eq!(mail.user_agent(), None);
    assert_eq!(mail.subject(), "");
}

#[test]
fn what_was_read_is_remembered() {
    let mut mail = mail_of(MAIL);
    assert_eq!(mail.subject(), "hello");
    mail.set_header("subject", "changed");
    assert_eq!(mail.subject(), "hello");
    assert_eq!(mail.subject(), "hello");
    assert_eq!(mail.user_agent(), Some("mutt"));
    mail.set_header("user-agent", "");
    assert_eq!(mail.user_agent(), Some("mutt"));
    assert_eq!(mail.header_recipients(), &addr_single("carol@example.org"));
    mail.set_header("to", "x@y.z");
    assert_eq!(mail.header_recipients(), &addr_single("carol@example.org"));
    assert_eq!(mail.header_domain(), Some("example.org"));
    let (bytes, _, _) = mail.into_parts();
    assert_eq!(
        bytes,
        b"Received: by mx\r\nFrom: Bob <bob@example.com>\r\nTo: x@y.z\r\nCc: dave@example.net, \"Erin\" <erin@example.net>\r\nSubject: changed\r\nUser-Agent: \r\n\r\nbody\r\n".to_vec()
    );
}

#[test]
fn what_is_rewritten_first_is_read_as_rewritten() {
    let mut mail = mail_of(MAIL);
    mail.set_header("subject", "changed");
    assert_eq!(mail.subject(), "changed");
    mail.set_header("cc", "z@example.net");
    assert_eq!(mail.cc(), &addr_single("z@example.net"));
}

#[test]
fn set_header_leaves_the_envelope_alone() {
    let mut mail = mail_of(MAIL);
    mail.set_header("to", "x@y.z");
    mail.set_header("from", "x@y.z");
    let (bytes, from, to) = mail.into_parts();
    assert_eq!(from, addr_single("relay@example.com"));
    assert_eq!(to, addr_single("list@example.org"));
    assert_eq!(
        bytes,
        b"Received: by mx\r\nFrom: x@y.z\r\nTo: x@y.z\r\nCc: dave@example.net, \"Erin\" <erin@example.net>\r\nSubject: hello\r\nUser-Agent: mutt\r\n\r\nbody\r\n".to_vec()
    );
}

#[test]
fn open_disclosure_lists_the_recipients() {
    let mut mail = mail_of(MAIL);
    mail.set_recipient(addr_single("alice@example.com"), RecipientDisclosure::Open);
    let (bytes, from, to) = mail.into_parts();
    assert_eq!(bytes, with_to("alice@example.com"));
    assert_eq!(from, addr_single("relay@example.com"));
    assert_eq!(to, addr_single("alice@example.com"));
}

#[test]
fn open_disclosure_writes_names_and_groups() {
    let list = MailAddrList(vec![
        MailAddr::Single(single(Some("Al \"the\" One"), "al@example.com")),
        MailAddr::Group(GroupInfo {
            group_name: String::from("team"),
            addrs: vec![single(None, "x@example.com"), single(Some("Y"), "y@example.com")],
        }),
        MailAddr::Single(single(None, "z@example.com")),
    ]);
    assert_eq!(
        list.render(),
        "\"Al \\\"the\\\" One\" <al@example.com>, \"team\": x@example.com, \"Y\" <y@example.com>; z@example.com"
    );
    let mut mail = mail_of(MAIL);
    mail.set_recipient(list.clone(), RecipientDisclosure::Open);
    let (bytes, _, to) = mail.into_parts();
    assert_eq!(
        bytes,
        with_to("\"Al \\\"the\\\" One\" <al@example.com>, \"team\": x@example.com, \"Y\" <y@example.com>; z@example.com")
    );
    assert_eq!(to, list);
}

#[test]
fn undisclosed_shows_a_name_only() {
    let mut mail = mail_of(MAIL);
    mail.set_recipient(
        addr_single("alice@example.com"),
        RecipientDisclosure::Undisclosed { name: String::from("X") },
    );
    let (bytes, _, to) = mail.into_parts();
    assert_eq!(bytes, with_to("X <>"));
    assert_eq!(to, addr_single("alice@example.com"));
}

#[test]
fn standard_undisclosed_recipients() {
    assert_eq!(
        RecipientDisclosure::undisclosed_recipients(),
        RecipientDisclosure::Undisclosed { name: String::from("Undisclosed Recipients") }
    );
    let mut mail = mail_of(MAIL);
    mail.set_recipient(addr_single("alice@example.com"), RecipientDisclosure::undisclosed_recipients());
    let (bytes, _, to) = mail.into_parts();
    assert_eq!(bytes, with_to("Undisclosed Recipients <>"));
    assert_eq!(to, addr_single("alice@example.com"));
}

#[test]
fn keep_leaves_the_header() {
    let mut mail = mail_of(MAIL);
    mail.set_recipient(addr_single("alice@example.com"), RecipientDisclosure::Keep);
    assert_eq!(mail.recipients(), &addr_single("alice@example.com"));
    assert_eq!(mail.domain(), Some("example.com"));
    let (bytes, from, to) = mail.into_parts();
    assert_eq!(bytes, MAIL.to_vec());
    assert_eq!(from, addr_single("relay@example.com"));
    assert_eq!(to, addr_single("alice@example.com"));
}

#[test]
fn sender_disclosure_shows_the_declared_sender() {
    let mut mail = mail_of(MAIL);
    mail.set_recipient(
        addr_single("alice@example.com"),
        RecipientDisclosure::Sender { name: String::from("Y") },
    );
    let (bytes, _, to) = mail.into_parts();
    assert_eq!(bytes, with_to("Y <bob@example.com>"));
    assert_eq!(to, addr_single("alice@example.com"));
}

#[test]
fn sender_disclosure_falls_back_to_the_envelope() {
    let mut mail = mail_of(b"A: b\r\nTo: carol@example.org\r\n\r\n");
    mail.set_recipient(
        addr_single("alice@example.com"),
        RecipientDisclosure::Sender { name: String::from("Y") },
    );
    let (bytes, _, to) = mail.into_parts();
    assert_eq!(bytes, b"A: b\r\nTo: Y <relay@example.com>\r\n\r\n".to_vec());
    assert_eq!(to, addr_single("alice@example.com"));
}

#[test]
fn sender_disclosure_falls_back_to_a_placeholder() {
    let mut mail = UnparsedMail::new(
        b"A: b\r\nTo: carol@example.org\r\n\r\n".to_vec(),
        MailAddrList::new(),
        addr_single("carol@example.org"),
    );
    mail.set_recipient(
        addr_single("alice@example.com"),
        RecipientDisclosure::Sender { name: String::from("Y") },
    );
    let (bytes, from, to) = mail.into_parts();
    assert_eq!(bytes, b"A: b\r\nTo: Y <noreply@localhost>\r\n\r\n".to_vec());
    assert_eq!(from, MailAddrList::new());
    assert_eq!(to, addr_single("alice@example.com"));
}

#[test]
fn sender_disclosure_takes_the_first_member_of_a_group() {
    let mut mail = mail_of(b"A: b\r\nFrom: \"us\": first@example.com, second@example.com;\r\nTo: carol@example.org\r\n\r\n");
    mail.set_recipient(
        addr_single("alice@example.com"),
        RecipientDisclosure::Sender { name: String::from("Us") },
    );
    let (bytes, _, _) = mail.into_parts();
    assert_eq!(
        bytes,
        b"A: b\r\nFrom: \"us\": first@example.com, second@example.com;\r\nTo: Us <first@example.com>\r\n\r\n".to_vec()
    );
}

#[test]
fn sender_disclosure_remembers_the_sender_it_read() {
    let mut mail = mail_of(MAIL);
    mail.set_recipient(
        addr_single("alice@example.com"),
        RecipientDisclosure::Sender { name: String::from("Y") },
    );
    mail.set_header("from", "mallory@example.com");
    assert_eq!(
        mail.header_sender(),
        &MailAddrList(vec![MailAddr::Single(single(Some("Bob"), "bob@example.com"))])
    );
}

#[test]
fn recipients_are_replaced_where_the_header_is_missing() {
    for disclosure in [
        RecipientDisclosure::Open,
        RecipientDisclosure::Undisclosed { name: String::from("X") },
        RecipientDisclosure::Keep,
        RecipientDisclosure::Sender { name: String::from("Y") },
    ] {
        let mut mail = mail_of(b"A: b\r\nSubject: x\r\n\r\nTo: body\r\n");
        mail.set_recipient(addr_single("alice@example.com"), disclosure);
        let (bytes, _, to) = mail.into_parts();
        assert_eq!(bytes, b"A: b\r\nSubject: x\r\n\r\nTo: body\r\n".to_vec());
        assert_eq!(to, addr_single("alice@example.com"));
    }
}

#[test]
fn addresses_are_walked_through_groups() {
    let list = MailAddrList(vec![
        MailAddr::Single(single(None, "a@example.com")),
        MailAddr::Group(GroupInfo { group_name: String::from("none"), addrs: vec![] }),
        MailAddr::Group(GroupInfo {
            group_name: String::from("two"),
            addrs: vec![single(Some("B"), "b@example.com"), single(None, "c@example.com")],
        }),
        MailAddr::Single(single(None, "d@example.com")),
    ]);
    let all: Vec<&str> = iter_addrs(&list).into_iter().map(|s| s.addr.as_str()).collect();
    assert_eq!(all, vec!["a@example.com", "b@example.com", "c@example.com", "d@example.com"]);
    assert_eq!(iter_addrs(&list)[1].display_name, Some(String::from("B")));
    assert_eq!(iter_addrs(&MailAddrList::new()).len(), 0);
    assert_eq!(list.len(), 4);
}

#[test]
fn first_address_skips_empty_groups() {
    let list = MailAddrList(vec![
        MailAddr::Group(GroupInfo { group_name: String::from("none"), addrs: vec![] }),
        MailAddr::Group(GroupInfo {
            group_name: String::from("one"),
            addrs: vec![single(None, "b@example.com")],
        }),
    ]);
    assert_eq!(mailfilter::utils::first_addr(&list), Some(&single(None, "b@example.com")));
    assert_eq!(mailfilter::utils::first_addr(&MailAddrList::new()), None);
}

#[test]
fn lists_are_built_from_single_addresses() {
    let list = addr_list_from_iter(vec![single(Some("A"), "a@example.com"), single(None, "b@example.com")]);
    assert_eq!(
        list,
        MailAddrList(vec![
            MailAddr::Single(single(Some("A"), "a@example.com")),
            MailAddr::Single(single(None, "b@example.com")),
        ])
    );
    assert_eq!(addr_list_from_iter(Vec::new()), MailAddrList::new());
    assert_eq!(
        addr_single("a@example.com"),
        MailAddrList(vec![MailAddr::Single(single(None, "a@example.com"))])
    );
    assert_eq!(MailAddrList::from(vec![MailAddr::Single(single(None, "a@example.com"))]), addr_single("a@example.com"));
}

#[test]
fn address_lists_are_parsed_and_rendered() {
    assert_eq!(MailAddrList::parse("a@example.com"), Some(addr_single("a@example.com")));
    assert_eq!(
        MailAddrList::parse("Al <a@example.com>, b@example.com"),
        Some(MailAddrList(vec![
            MailAddr::Single(single(Some("Al"), "a@example.com")),
            MailAddr::Single(single(None, "b@example.com")),
        ]))
    );
    assert_eq!(MailAddrList::parse(""), Some(MailAddrList::new()));
    assert_eq!(MailAddrList::parse("no address"), None);
    assert_eq!(addr_single("a@example.com").render(), "a@example.com");
    assert_eq!(MailAddrList::new().render(), "");
    assert_eq!(
        MailAddrList::parse("Al <a@example.com>, b@example.com").unwrap().render(),
        "\"Al\" <a@example.com>, b@example.com"
    );
}
