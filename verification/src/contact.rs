//! The contact record and the mathematical model of one owner's book.

use vstd::prelude::*;

verus! {

/// The mathematical image of one contact record.
pub ghost struct ContactView {
    pub alias: Seq<char>,
    pub address: u64,
    pub created_at: u64,
    pub updated_at: u64,
}

/// One entry of an owner's book: a human-readable alias bound to an address
/// handle, stamped with creation and last-update times.
pub struct Contact {
    pub alias: String,
    pub address: u64,
    pub created_at: u64,
    pub updated_at: u64,
}

impl View for Contact {
    type V = ContactView;

    open spec fn view(&self) -> ContactView {
        ContactView {
            alias: self.alias@,
            address: self.address,
            created_at: self.created_at,
            updated_at: self.updated_at,
        }
    }
}

impl Clone for Contact {
    fn clone(&self) -> (r: Self)
        ensures
            r@ == self@,
    {
        Contact {
            alias: self.alias.clone(),
            address: self.address,
            created_at: self.created_at,
            updated_at: self.updated_at,
        }
    }
}

/// No two contacts share an alias.
pub open spec fn aliases_unique(s: Seq<ContactView>) -> bool {
    forall|i: int, j: int| 0 <= i < j < s.len() ==> s[i].alias != s[j].alias
}

/// No two contacts share an address.
pub open spec fn addresses_unique(s: Seq<ContactView>) -> bool {
    forall|i: int, j: int| 0 <= i < j < s.len() ==> s[i].address != s[j].address
}

/// Every alias is a non-empty string.
pub open spec fn aliases_nonempty(s: Seq<ContactView>) -> bool {
    forall|i: int| 0 <= i < s.len() ==> s[i].alias.len() > 0
}

/// A well-formed book: unique aliases, unique addresses, no empty alias.
pub open spec fn book_wf(s: Seq<ContactView>) -> bool {
    aliases_unique(s) && addresses_unique(s) && aliases_nonempty(s)
}

/// Some contact carries alias `a`.
pub open spec fn has_alias(s: Seq<ContactView>, a: Seq<char>) -> bool {
    exists|i: int| 0 <= i < s.len() && s[i].alias == a
}

/// The position of the contact carrying alias `a`; meaningful when
/// `has_alias(s, a)` holds and aliases are unique.
pub open spec fn alias_index(s: Seq<ContactView>, a: Seq<char>) -> int {
    choose|i: int| 0 <= i < s.len() && s[i].alias == a
}

/// The contact carrying alias `a`.
pub open spec fn contact_of(s: Seq<ContactView>, a: Seq<char>) -> ContactView {
    s[alias_index(s, a)]
}

/// Some contact is bound to `addr`.
pub open spec fn addr_used(s: Seq<ContactView>, addr: u64) -> bool {
    exists|i: int| 0 <= i < s.len() && s[i].address == addr
}

/// Some contact with an alias other than `excl` is bound to `addr`.
pub open spec fn addr_used_by_other(s: Seq<ContactView>, addr: u64, excl: Seq<char>) -> bool {
    exists|i: int| 0 <= i < s.len() && s[i].address == addr && s[i].alias != excl
}

/// The position of the contact bound to `addr`; meaningful when
/// `addr_used(s, addr)` holds and addresses are unique.
pub open spec fn addr_index(s: Seq<ContactView>, addr: u64) -> int {
    choose|i: int| 0 <= i < s.len() && s[i].address == addr
}

/// The alias of the contact bound to `addr`.
pub open spec fn alias_of_address(s: Seq<ContactView>, addr: u64) -> Seq<char> {
    s[addr_index(s, addr)].alias
}

/// With unique aliases, the position where alias `a` occurs is unique, so
/// `alias_index` picks exactly it.
pub proof fn lemma_alias_index_is(s: Seq<ContactView>, a: Seq<char>, i: int)
    requires
        aliases_unique(s),
        0 <= i < s.len(),
        s[i].alias == a,
    ensures
        has_alias(s, a),
        alias_index(s, a) == i,
        contact_of(s, a) == s[i],
{
    assert(has_alias(s, a));
    let j = alias_index(s, a);
    assert(0 <= j < s.len() && s[j].alias == a);
    if i < j {
        assert(s[i].alias != s[j].alias);
    } else if j < i {
        assert(s[j].alias != s[i].alias);
    }
}

/// With unique addresses, the position where `addr` occurs is unique, so
/// `addr_index` picks exactly it.
pub proof fn lemma_addr_index_is(s: Seq<ContactView>, addr: u64, i: int)
    requires
        addresses_unique(s),
        0 <= i < s.len(),
        s[i].address == addr,
    ensures
        addr_used(s, addr),
        addr_index(s, addr) == i,
        alias_of_address(s, addr) == s[i].alias,
{
    assert(addr_used(s, addr));
    let j = addr_index(s, addr);
    assert(0 <= j < s.len() && s[j].address == addr);
    if i < j {
        assert(s[i].address != s[j].address);
    } else if j < i {
        assert(s[j].address != s[i].address);
    }
}

/// In a well-formed book, the address of the contact carrying alias `a` is
/// never counted as used by a different alias.
pub proof fn lemma_own_address_free(s: Seq<ContactView>, a: Seq<char>)
    requires
        book_wf(s),
        has_alias(s, a),
    ensures
        !addr_used_by_other(s, contact_of(s, a).address, a),
{
    let i = alias_index(s, a);
    assert(0 <= i < s.len() && s[i].alias == a);
    if addr_used_by_other(s, contact_of(s, a).address, a) {
        let j = choose|j: int|
            0 <= j < s.len() && s[j].address == contact_of(s, a).address && s[j].alias != a;
        assert(j != i);
        if i < j {
            assert(s[i].address != s[j].address);
        } else {
            assert(s[j].address != s[i].address);
        }
    }
}

} // verus!
