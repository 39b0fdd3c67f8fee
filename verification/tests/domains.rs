use mailfilter::disclosure::{named_text, undisclosed_text};
use mailfilter::domain::{domain_of, domain_of_first};
use mailfilter::utils::addr_single;
use mailfilter::MailAddrList;

#[test]
fn domain_stands_behind_the_first_at() {
    assert_eq!(domain_of("alice@example.com"), Some("example.com"));
    assert_eq!(domain_of("a@b@c"), Some("b@c"));
    assert_eq!(domain_of("@"), Some(""));
    assert_eq!(domain_of("alice@"), Some(""));
    assert_eq!(domain_of("@example.com"), Some("example.com"));
}

#[test]
fn no_at_no_domain() {
    assert_eq!(domain_of("alice"), None);
    assert_eq!(domain_of(""), None);
}

#[test]
fn domain_of_an_address_beyond_ascii() {
    assert_eq!(domain_of("j\u{fc}rgen@m\u{fc}nchen.example"), Some("m\u{fc}nchen.example"));
    assert_eq!(domain_of("\u{65e5}\u{672c}@\u{4f8b}.jp"), Some("\u{4f8b}.jp"));
}

#[test]
fn domain_of_the_first_address() {
    assert_eq!(domain_of_first(&addr_single("alice@example.com")), Some("example.com"));
    assert_eq!(domain_of_first(&MailAddrList::new()), None);
    assert_eq!(domain_of_first(&addr_single("alice")), None);
}

#[test]
fn header_values_for_names() {
    assert_eq!(undisclosed_text("X"), "X <>");
    assert_eq!(undisclosed_text(""), " <>");
    assert_eq!(named_text("Y", "bob@example.com"), "Y <bob@example.com>");
    assert_eq!(named_text("", ""), " <>");
}
