//! Helpers for building address lists and for walking through them.

use vstd::prelude::*;

use crate::address::{mailboxes, mailboxes_of, Address, Mailbox, MailAddr, MailAddrList, SingleInfo};

verus! {

/// What a sequence of borrowed mailboxes stands for.
pub open spec fn views_of(items: Seq<&SingleInfo>) -> Seq<Mailbox> {
    items.map_values(|s: &SingleInfo| s@)
}

/// An address list of single mailboxes.
pub open spec fn singles(items: Seq<SingleInfo>) -> Seq<Address> {
    items.map_values(|s: SingleInfo| Address::Single(s@))
}

proof fn lemma_mailboxes_step(list: Seq<Address>, i: int)
    requires
        0 <= i < list.len(),
    ensures
        mailboxes(list.subrange(0, i + 1)) == mailboxes(list.subrange(0, i)) + mailboxes_of(
            list[i],
        ),
{
    assert(list.subrange(0, i + 1).drop_last() == list.subrange(0, i));
}

/// All mailboxes of `addrs` in order, the members of each group in place of
/// the group.
pub fn iter_addrs(addrs: &MailAddrList) -> (all: Vec<&SingleInfo>)
    ensures
        views_of(all@) == mailboxes(addrs@),
{
    let mut all: Vec<&SingleInfo> = Vec::new();
    let mut i: usize = 0;
    while i < addrs.0.len()
        invariant
            i <= addrs.0@.len(),
            views_of(all@) == mailboxes(addrs@.subrange(0, i as int)),
        decreases addrs.0@.len() - i,
    {
        proof {
            lemma_mailboxes_step(addrs@, i as int);
        }
        let ghost before = all@;
        match &addrs.0[i] {
            MailAddr::Single(s) => {
                all.push(s);
            },
            MailAddr::Group(g) => {
                let mut j: usize = 0;
                while j < g.addrs.len()
                    invariant
                        j <= g.addrs@.len(),
                        views_of(all@) == views_of(before) + g@.addrs.subrange(0, j as int),
                    decreases g.addrs@.len() - j,
                {
                    let ghost inner = all@;
                    all.push(&g.addrs[j]);
                    assert(views_of(all@) =~= views_of(inner).push(g.addrs@[j as int]@));
                    assert(g@.addrs.subrange(0, j + 1) =~= g@.addrs.subrange(0, j as int).push(
                        g.addrs@[j as int]@,
                    ));
                    j += 1;
                }
            },
        }
        i += 1;
    }
    assert(addrs@.subrange(0, i as int) =~= addrs@);
    all
}

/// The first mailbox of `addrs`, if it has any.
pub fn first_addr(addrs: &MailAddrList) -> (first: Option<&SingleInfo>)
    ensures
        first matches Some(s) ==> mailboxes(addrs@).len() > 0 && s@ == mailboxes(addrs@)[0],
        first is None ==> mailboxes(addrs@).len() == 0,
{
    let all = iter_addrs(addrs);
    if all.len() > 0 {
        Some(all[0])
    } else {
        None
    }
}

/// The list that holds the given mailboxes, each as a single address.
pub fn addr_list_from_iter(iter: Vec<SingleInfo>) -> (list: MailAddrList)
    ensures
        list@ == singles(iter@),
{
    let mut entries: Vec<MailAddr> = Vec::new();
    let ghost given = iter@;
    for s in it: iter
        invariant
            it.seq() == given,
            entries@.map_values(|a: MailAddr| a@) == singles(given.subrange(0, it.index() as int)),
    {
        let ghost done = entries@;
        entries.push(MailAddr::Single(s));
        assert(entries@.map_values(|a: MailAddr| a@) =~= done.map_values(|a: MailAddr| a@).push(
            Address::Single(s@),
        ));
    }
    MailAddrList(entries)
}

/// The list that holds the one address `addr`, without a display name.
pub fn addr_single(addr: &str) -> (list: MailAddrList)
    ensures
        list@ == seq![Address::Single(Mailbox { display_name: None, addr: addr@ })],
{
    let mut one: Vec<SingleInfo> = Vec::new();
    one.push(SingleInfo { display_name: None, addr: addr.to_owned() });
    addr_list_from_iter(one)
}

} // verus!
