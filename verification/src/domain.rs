//! The domain of a mail address.

use vstd::prelude::*;
use vstd::string::StrSliceExecFns;

use crate::address::{mailboxes, Address, MailAddrList};
use crate::utils::first_addr;

verus! {

/// What stands behind the first `@` of `addr`, if there is an `@`.
pub open spec fn after_at(addr: Seq<char>) -> Option<Seq<char>>
    decreases addr.len(),
{
    if addr.len() == 0 {
        None
    } else if addr[0] == '@' {
        Some(addr.subrange(1, addr.len() as int))
    } else {
        after_at(addr.drop_first())
    }
}

/// The domain of the first mailbox of `list`: nothing where the list holds
/// no mailbox, or its first mailbox's address no `@`.
pub open spec fn first_domain(list: Seq<Address>) -> Option<Seq<char>> {
    if mailboxes(list).len() == 0 {
        None
    } else {
        after_at(mailboxes(list)[0].addr)
    }
}

proof fn lemma_after_at(addr: Seq<char>, k: int)
    requires
        0 <= k <= addr.len(),
        forall|j: int| 0 <= j < k ==> addr[j] != '@',
    ensures
        k < addr.len() && addr[k] == '@' ==> after_at(addr) == Some(
            addr.subrange(k + 1, addr.len() as int),
        ),
        k == addr.len() ==> after_at(addr) is None,
    decreases k,
{
    if k > 0 {
        let rest = addr.drop_first();
        assert forall|j: int| 0 <= j < k - 1 implies rest[j] != '@' by {
            assert(rest[j] == addr[j + 1]);
        }
        lemma_after_at(rest, k - 1);
    }
}

/// What stands behind the first `@` of `addr`.
pub fn domain_of(addr: &str) -> (domain: Option<&str>)
    ensures
        domain matches Some(d) ==> after_at(addr@) == Some(d@),
        domain is None ==> after_at(addr@) is None,
{
    let len = addr.unicode_len();
    let mut k: usize = 0;
    for c in it: addr.chars()
        invariant
            it.seq() == addr@,
            k == it.index(),
            len == addr@.len(),
            forall|j: int| 0 <= j < k ==> addr@[j] != '@',
    {
        if c == '@' {
            proof {
                lemma_after_at(addr@, k as int);
            }
            return Some(addr.substring_char(k + 1, len));
        }
        k += 1;
    }
    proof {
        lemma_after_at(addr@, k as int);
    }
    None
}

/// The domain of the first mailbox of `list`.
pub fn domain_of_first(list: &MailAddrList) -> (domain: Option<&str>)
    ensures
        domain matches Some(d) ==> first_domain(list@) == Some(d@),
        domain is None ==> first_domain(list@) is None,
{
    match first_addr(list) {
        Some(single) => domain_of(single.addr.as_str()),
        None => None,
    }
}

} // verus!
