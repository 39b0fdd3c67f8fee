use mailfilter::ingest::{envelope_from_args, ArgsError};
use mailfilter::utils::addr_single;
use mailfilter::{BasicMail, MailAddr, MailAddrList, SingleInfo, UnparsedMail};

fn args(list: &[&str]) -> Vec<String> {
    list.iter().map(|s| String::from(*s)).collect()
}

fn single(addr: &str) -> MailAddr {
    MailAddr::Single(SingleInfo { display_name: None, addr: String::from(addr) })
}

#[test]
fn envelope_is_read_from_arguments() {
    let given = args(&["-f", "bob@example.com", "--", "a@example.com", "b@example.com", "c@example.com"]);
    let (from, to) = envelope_from_args(&given).unwrap();
    assert_eq!(from, addr_single("bob@example.com"));
    assert_eq!(
        to,
        MailAddrList(vec![single("a@example.com"), single("b@example.com"), single("c@example.com")])
    );
}

#[test]
fn one_recipient() {
    let given = args(&["-f", "bob@example.com", "--", "a@example.com"]);
    let (_, to) = envelope_from_args(&given).unwrap();
    assert_eq!(to, addr_single("a@example.com"));
}

#[test]
fn no_recipient() {
    let given = args(&["-f", "bob@example.com", "--"]);
    let (from, to) = envelope_from_args(&given).unwrap();
    assert_eq!(from, addr_single("bob@example.com"));
    assert_eq!(to, MailAddrList::new());
}

#[test]
fn recipient_that_is_a_list_itself() {
    let given = args(&["-f", "bob@example.com", "--", "a@example.com, b@example.com", "c@example.com"]);
    let (_, to) = envelope_from_args(&given).unwrap();
    assert_eq!(
        to,
        MailAddrList(vec![single("a@example.com"), single("b@example.com"), single("c@example.com")])
    );
}

#[test]
fn first_argument_must_be_the_sender_flag() {
    assert_eq!(envelope_from_args(&args(&[])), Err(ArgsError::SenderFlag));
    assert_eq!(envelope_from_args(&args(&["-t"])), Err(ArgsError::SenderFlag));
    assert_eq!(
        envelope_from_args(&args(&["bob@example.com", "--", "a@example.com"])),
        Err(ArgsError::SenderFlag)
    );
    assert_eq!(envelope_from_args(&args(&["-F", "bob@example.com", "--"])), Err(ArgsError::SenderFlag));
}

#[test]
fn sender_must_follow_the_flag() {
    assert_eq!(envelope_from_args(&args(&["-f"])), Err(ArgsError::Sender));
}

#[test]
fn separator_must_follow_the_sender() {
    assert_eq!(envelope_from_args(&args(&["-f", "bob@example.com"])), Err(ArgsError::Separator));
    assert_eq!(
        envelope_from_args(&args(&["-f", "bob@example.com", "a@example.com"])),
        Err(ArgsError::Separator)
    );
    assert_eq!(
        envelope_from_args(&args(&["-f", "not an address", "a@example.com"])),
        Err(ArgsError::Separator)
    );
}

#[test]
fn sender_must_be_an_address() {
    assert_eq!(
        envelope_from_args(&args(&["-f", "not an address", "--", "a@example.com"])),
        Err(ArgsError::SenderAddress)
    );
    assert_eq!(
        envelope_from_args(&args(&["-f", "not an address", "--", "nor this"])),
        Err(ArgsError::SenderAddress)
    );
}

#[test]
fn recipients_must_be_addresses() {
    assert_eq!(
        envelope_from_args(&args(&["-f", "bob@example.com", "--", "a@example.com", "nobody"])),
        Err(ArgsError::RecipientAddresses)
    );
}

#[test]
fn mail_is_made_from_message_and_arguments() {
    let given = args(&["-f", "bob@example.com", "--", "a@example.com"]);
    let mut mail = UnparsedMail::from_args(b"A: b\r\nSubject: hi\r\n\r\n".to_vec(), &given).unwrap();
    assert_eq!(mail.subject(), "hi");
    let (bytes, from, to) = mail.into_parts();
    assert_eq!(bytes, b"A: b\r\nSubject: hi\r\n\r\n".to_vec());
    assert_eq!(from, addr_single("bob@example.com"));
    assert_eq!(to, addr_single("a@example.com"));
    assert!(matches!(
        UnparsedMail::from_args(Vec::new(), &args(&["-f"])),
        Err(ArgsError::Sender)
    ));
}
