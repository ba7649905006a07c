//! One owner's contact store: the alias-keyed collection of contacts with
//! its uniqueness constraints enforced at every write.

use vstd::prelude::*;

use crate::contact::{
    addr_used, addr_used_by_other, alias_index, alias_of_address, aliases_nonempty, book_wf,
    contact_of, has_alias, lemma_addr_index_is, lemma_alias_index_is, Contact, ContactView,
};
use crate::ContactError;

verus! {

/// One owner's contact book. The alias is the unique key; no two contacts
/// share an address; no alias is empty.
pub struct ContactBook {
    pub contacts: Vec<Contact>,
}

impl View for ContactBook {
    type V = Seq<ContactView>;

    open spec fn view(&self) -> Seq<ContactView> {
        self.contacts@.map_values(|c: Contact| c@)
    }
}

impl ContactBook {
    /// The shape every operation preserves.
    pub open spec fn wf(&self) -> bool {
        book_wf(self@)
    }

    /// An empty book.
    pub fn new() -> (r: ContactBook)
        ensures
            r@ == Seq::<ContactView>::empty(),
            r.wf(),
    {
        let r = ContactBook { contacts: Vec::new() };
        proof {
            assert(r@ =~= Seq::<ContactView>::empty());
        }
        r
    }

    /// The position of the contact carrying `alias`, when one exists.
    fn find_index(&self, alias: &String) -> (r: Option<usize>)
        ensures
            match r {
                Some(i) => i < self@.len() && self@[i as int].alias == alias@,
                None => !has_alias(self@, alias@),
            },
    {
        let n = self.contacts.len();
        let mut i: usize = 0;
        while i < n
            invariant
                n == self.contacts@.len(),
                i <= n,
                forall|j: int| 0 <= j < i ==> self@[j].alias != alias@,
            decreases n - i,
        {
            if self.contacts[i].alias == *alias {
                return Some(i);
            }
            i += 1;
        }
        None
    }

    /// Whether `address` is already bound to some alias other than
    /// `current_alias`; the exclusion lets an edit keep its own address.
    pub fn is_address_already_used(&self, address: u64, current_alias: &String) -> (r: bool)
        ensures
            r == addr_used_by_other(self@, address, current_alias@),
    {
        let n = self.contacts.len();
        let mut i: usize = 0;
        while i < n
            invariant
                n == self.contacts@.len(),
                i <= n,
                forall|j: int|
                    0 <= j < i ==> !(self@[j].address == address && self@[j].alias
                        != current_alias@),
            decreases n - i,
        {
            let c = &self.contacts[i];
            if c.address == address && !(c.alias == *current_alias) {
                assert(self@[i as int].address == address && self@[i as int].alias
                    != current_alias@);
                return true;
            }
            i += 1;
        }
        false
    }

    /// Whether `address` is bound to any alias at all.
    pub fn is_address_used(&self, address: u64) -> (r: bool)
        ensures
            r == addr_used(self@, address),
    {
        let n = self.contacts.len();
        let mut i: usize = 0;
        while i < n
            invariant
                n == self.contacts@.len(),
                i <= n,
                forall|j: int| 0 <= j < i ==> self@[j].address != address,
            decreases n - i,
        {
            if self.contacts[i].address == address {
                assert(self@[i as int].address == address);
                return true;
            }
            i += 1;
        }
        false
    }

    /// Look up a contact by alias.
    pub fn get(&self, alias: &String) -> (r: Option<&Contact>)
        requires
            self.wf(),
        ensures
            match r {
                Some(c) => has_alias(self@, alias@) && c@ == contact_of(self@, alias@),
                None => !has_alias(self@, alias@),
            },
    {
        match self.find_index(alias) {
            Some(i) => {
                proof {
                    lemma_alias_index_is(self@, alias@, i as int);
                }
                Some(&self.contacts[i])
            },
            None => None,
        }
    }

    /// Add a new contact. Fails when the alias is already present or the
    /// address is already bound; on success the record is appended with both
    /// timestamps set to `now`.
    pub fn add(&mut self, alias: String, address: u64, now: u64) -> (r: Result<
        bool,
        ContactError,
    >)
        requires
            old(self).wf(),
            alias@.len() > 0,
        ensures
            final(self).wf(),
            match r {
                Ok(b) => b && !has_alias(old(self)@, alias@) && !addr_used(old(self)@, address)
                    && final(self)@ == old(self)@.push(
                    (ContactView { alias: alias@, address, created_at: now, updated_at: now }),
                ),
                Err(ContactError::DuplicateAlias) => has_alias(old(self)@, alias@) && final(self)@
                    == old(self)@,
                Err(ContactError::DuplicateAddress) => !has_alias(old(self)@, alias@) && addr_used(
                    old(self)@,
                    address,
                ) && final(self)@ == old(self)@,
                Err(_) => false,
            },
    {
        if self.find_index(&alias).is_some() {
            return Err(ContactError::DuplicateAlias);
        }
        if self.is_address_already_used(address, &alias) {
            proof {
                let k = choose|k: int|
                    0 <= k < self@.len() && self@[k].address == address && self@[k].alias
                        != alias@;
                assert(self@[k].address == address);
            }
            return Err(ContactError::DuplicateAddress);
        }
        proof {
            // with the alias absent, a plain address match would also be a
            // match on a different alias
            if addr_used(self@, address) {
                let k = choose|k: int| 0 <= k < self@.len() && self@[k].address == address;
                assert(self@[k].alias != alias@);
                assert(addr_used_by_other(self@, address, alias@));
            }
        }
        let ghost s0 = self@;
        let contact = Contact { alias, address, created_at: now, updated_at: now };
        let ghost cv = contact@;
        self.contacts.push(contact);
        proof {
            assert(self@ =~= s0.push(cv));
            assert forall|i: int, j: int| 0 <= i < j < self@.len() implies self@[i].alias
                != self@[j].alias by {
                if j < s0.len() {
                    assert(s0[i].alias != s0[j].alias);
                } else {
                    assert(self@[j] == cv);
                    if s0[i].alias == cv.alias {
                        assert(has_alias(s0, cv.alias));
                    }
                }
            }
            assert forall|i: int, j: int| 0 <= i < j < self@.len() implies self@[i].address
                != self@[j].address by {
                if j < s0.len() {
                    assert(s0[i].address != s0[j].address);
                } else {
                    assert(self@[j] == cv);
                    if s0[i].address == cv.address {
                        assert(addr_used(s0, address));
                    }
                }
            }
        }
        Ok(true)
    }

    /// Change the address of an existing contact. An absent alias is the
    /// ordinary `Ok(false)` outcome; binding an address that a different
    /// alias already holds aborts even then.
    pub fn edit(&mut self, alias: &String, new_address: u64, now: u64) -> (r: Result<
        bool,
        ContactError,
    >)
        requires
            old(self).wf(),
        ensures
            final(self).wf(),
            match r {
                Ok(true) => has_alias(old(self)@, alias@) && !addr_used_by_other(
                    old(self)@,
                    new_address,
                    alias@,
                ) && final(self)@ == old(self)@.update(
                    alias_index(old(self)@, alias@),
                    (ContactView {
                        alias: alias@,
                        address: new_address,
                        created_at: contact_of(old(self)@, alias@).created_at,
                        updated_at: now,
                    }),
                ),
                Ok(false) => !has_alias(old(self)@, alias@) && !addr_used_by_other(
                    old(self)@,
                    new_address,
                    alias@,
                ) && final(self)@ == old(self)@,
                Err(ContactError::DuplicateAddress) => addr_used_by_other(
                    old(self)@,
                    new_address,
                    alias@,
                ) && final(self)@ == old(self)@,
                Err(_) => false,
            },
    {
        if self.is_address_already_used(new_address, alias) {
            return Err(ContactError::DuplicateAddress);
        }
        match self.find_index(alias) {
            None => Ok(false),
            Some(i) => {
                proof {
                    lemma_alias_index_is(self@, alias@, i as int);
                }
                let ghost s0 = self@;
                let old_c = self.contacts.remove(i);
                let new_c = Contact {
                    alias: old_c.alias,
                    address: new_address,
                    created_at: old_c.created_at,
                    updated_at: now,
                };
                let ghost cv = new_c@;
                self.contacts.insert(i, new_c);
                proof {
                    assert forall|j: int| 0 <= j < s0.len() && j != i implies self@[j] == s0[j] by {
                        if j < i {
                            assert(self.contacts@[j] == old(self).contacts@[j]);
                        } else {
                            assert(self.contacts@[j] == old(self).contacts@[j]);
                        }
                    }
                    assert(self@ =~= s0.update(i as int, cv));
                    assert forall|p: int, q: int| 0 <= p < q < self@.len() implies self@[p].alias
                        != self@[q].alias by {
                        assert(self@[p].alias == s0[p].alias);
                        assert(self@[q].alias == s0[q].alias);
                    }
                    assert forall|p: int, q: int| 0 <= p < q < self@.len() implies self@[p].address
                        != self@[q].address by {
                        if p != i && q != i {
                            assert(s0[p].address != s0[q].address);
                        } else {
                            let m = if p == i {
                                q
                            } else {
                                p
                            };
                            assert(s0[m].alias != s0[i as int].alias);
                            if s0[m].address == new_address {
                                assert(addr_used_by_other(s0, new_address, alias@));
                            }
                        }
                    }
                    assert(aliases_nonempty(self@)) by {
                        assert forall|j: int| 0 <= j < self@.len() implies self@[j].alias.len()
                            > 0 by {
                            assert(self@[j].alias == s0[j].alias);
                        }
                    }
                }
                Ok(true)
            },
        }
    }

    /// Remove a contact; the result says whether the alias was present.
    pub fn delete(&mut self, alias: &String) -> (r: bool)
        requires
            old(self).wf(),
        ensures
            final(self).wf(),
            r == has_alias(old(self)@, alias@),
            r ==> final(self)@ == old(self)@.remove(alias_index(old(self)@, alias@)),
            !r ==> final(self)@ == old(self)@,
    {
        match self.find_index(alias) {
            None => false,
            Some(i) => {
                proof {
                    lemma_alias_index_is(self@, alias@, i as int);
                }
                let ghost s0 = self@;
                let _removed = self.contacts.remove(i);
                proof {
                    assert(self@ =~= s0.remove(i as int));
                    assert forall|p: int, q: int| 0 <= p < q < self@.len() implies self@[p].alias
                        != self@[q].alias && self@[p].address != self@[q].address by {
                        let p0 = if p < i {
                            p
                        } else {
                            p + 1
                        };
                        let q0 = if q < i {
                            q
                        } else {
                            q + 1
                        };
                        assert(self@[p] == s0[p0]);
                        assert(self@[q] == s0[q0]);
                        assert(s0[p0].alias != s0[q0].alias);
                        assert(s0[p0].address != s0[q0].address);
                    }
                    assert forall|j: int| 0 <= j < self@.len() implies self@[j].alias.len() > 0 by {
                        let j0 = if j < i {
                            j
                        } else {
                            j + 1
                        };
                        assert(self@[j] == s0[j0]);
                    }
                }
                true
            },
        }
    }

    /// Number of contacts in the book.
    pub fn count(&self) -> (r: usize)
        ensures
            r == self@.len(),
    {
        self.contacts.len()
    }

    /// A copy of every contact, in the book's stable order.
    pub fn list(&self) -> (r: Vec<Contact>)
        ensures
            r@.len() == self@.len(),
            forall|i: int| 0 <= i < self@.len() ==> r@[i]@ == self@[i],
    {
        let mut result: Vec<Contact> = Vec::new();
        let n = self.contacts.len();
        let mut i: usize = 0;
        while i < n
            invariant
                n == self.contacts@.len(),
                i <= n,
                result@.len() == i,
                forall|j: int| 0 <= j < i ==> result@[j]@ == self@[j],
            decreases n - i,
        {
            result.push(self.contacts[i].clone());
            i += 1;
        }
        result
    }

    /// The alias bound to `address`, or the empty string when none is. A
    /// well-formed book never holds an empty alias, so the two outcomes do
    /// not collide.
    pub fn find_alias_by_address(&self, address: u64) -> (r: String)
        requires
            self.wf(),
        ensures
            addr_used(self@, address) ==> r@ == alias_of_address(self@, address) && r@.len() > 0,
            !addr_used(self@, address) ==> r@ == Seq::<char>::empty(),
    {
        let n = self.contacts.len();
        let mut i: usize = 0;
        while i < n
            invariant
                self.wf(),
                n == self.contacts@.len(),
                i <= n,
                forall|j: int| 0 <= j < i ==> self@[j].address != address,
            decreases n - i,
        {
            if self.contacts[i].address == address {
                proof {
                    lemma_addr_index_is(self@, address, i as int);
                }
                return self.contacts[i].alias.clone();
            }
            i += 1;
        }
        String::new()
    }
}

} // verus!
