//! Inspection and in-place rewriting of raw mail messages on their way through
//! a mail-transfer pipeline.
//!
//! A mail is kept as the bytes it arrived in. Headers are looked up in the
//! header block (`locate`), read once and remembered (`mail`), and rewritten
//! where they stand (`splice`). A `Filter` runs an ordered list of steps over
//! a mail; each step continues, accepts the mail as it is, or rejects it.

pub mod action;
pub mod address;
pub mod disclosure;
pub mod domain;
pub mod filter;
pub mod header;
pub mod ingest;
pub mod locate;
pub mod mail;
pub mod reply;
pub mod splice;
pub mod utils;

pub use action::Action;
pub use address::{GroupInfo, MailAddr, MailAddrList, SingleInfo};
pub use disclosure::RecipientDisclosure;
pub use filter::{Filter, FilterStep, Verdict};
pub use mail::{BasicMail, StructuredMail, UnparsedMail};
pub use reply::Error;
