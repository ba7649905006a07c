//! The externally callable surface: per-owner books and sponsorship records
//! behind authentication gating, plus the two-phase sponsorship orchestrator.

use vstd::prelude::*;

use crate::contact::{
    addr_used, addr_used_by_other, alias_index, alias_of_address, book_wf, contact_of, has_alias,
    Contact, ContactView,
};
use crate::sponsor::{is_marked, mark_result, marks_unique, SponsoredSet};
use crate::store::ContactBook;
use crate::{Auth, ContactError, TransferRequest, COFFEE_AMOUNT};

verus! {

/// Everything one owner account keeps: its book and its sponsorship record.
pub struct OwnerState {
    pub owner: u64,
    pub book: ContactBook,
    pub sponsored: SponsoredSet,
}

/// No owner account appears twice.
pub open spec fn owners_unique(s: Seq<OwnerState>) -> bool {
    forall|i: int, j: int| 0 <= i < j < s.len() ==> s[i].owner != s[j].owner
}

/// Some entry belongs to owner `o`.
pub open spec fn has_owner(s: Seq<OwnerState>, o: u64) -> bool {
    exists|i: int| 0 <= i < s.len() && s[i].owner == o
}

/// The position of owner `o`'s entry; meaningful when `has_owner(s, o)`
/// holds and owners are unique.
pub open spec fn owner_index(s: Seq<OwnerState>, o: u64) -> int {
    choose|i: int| 0 <= i < s.len() && s[i].owner == o
}

/// Owner `o`'s book; an owner without an entry has an empty one.
pub open spec fn book_of(s: Seq<OwnerState>, o: u64) -> Seq<ContactView> {
    if has_owner(s, o) {
        s[owner_index(s, o)].book@
    } else {
        Seq::<ContactView>::empty()
    }
}

/// Owner `o`'s sponsored aliases; an owner without an entry has none.
pub open spec fn sponsored_of(s: Seq<OwnerState>, o: u64) -> Seq<Seq<char>> {
    if has_owner(s, o) {
        s[owner_index(s, o)].sponsored@
    } else {
        Seq::<Seq<char>>::empty()
    }
}

/// With unique owners, the position of owner `o`'s entry is unique, so
/// `owner_index` picks exactly it.
pub proof fn lemma_owner_index_is(s: Seq<OwnerState>, o: u64, i: int)
    requires
        owners_unique(s),
        0 <= i < s.len(),
        s[i].owner == o,
    ensures
        has_owner(s, o),
        owner_index(s, o) == i,
        book_of(s, o) == s[i].book@,
        sponsored_of(s, o) == s[i].sponsored@,
{
    assert(has_owner(s, o));
    let j = owner_index(s, o);
    assert(0 <= j < s.len() && s[j].owner == o);
    if i < j {
        assert(s[i].owner != s[j].owner);
    } else if j < i {
        assert(s[j].owner != s[i].owner);
    }
}

/// Replacing one entry with another of the same owner leaves every other
/// owner's book and sponsorship record untouched.
pub proof fn lemma_frame_update(s1: Seq<OwnerState>, s2: Seq<OwnerState>, i: int)
    requires
        owners_unique(s1),
        0 <= i < s1.len(),
        s2.len() == s1.len(),
        forall|j: int| 0 <= j < s1.len() && j != i ==> s2[j] == s1[j],
        s2[i].owner == s1[i].owner,
    ensures
        owners_unique(s2),
        forall|o: u64|
            o != s1[i].owner ==> book_of(s2, o) == book_of(s1, o) && sponsored_of(s2, o)
                == sponsored_of(s1, o),
{
    assert forall|p: int, q: int| 0 <= p < q < s2.len() implies s2[p].owner != s2[q].owner by {
        assert(s2[p].owner == s1[p].owner);
        assert(s2[q].owner == s1[q].owner);
        assert(s1[p].owner != s1[q].owner);
    }
    assert(owners_unique(s2));
    let w = s1[i].owner;
    assert forall|o: u64| o != w implies book_of(s2, o) == book_of(s1, o) && sponsored_of(s2, o)
        == sponsored_of(s1, o) by {
        if has_owner(s1, o) {
            let j = owner_index(s1, o);
            assert(0 <= j < s1.len() && s1[j].owner == o);
            assert(j != i);
            assert(s2[j] == s1[j]);
            lemma_owner_index_is(s2, o, j);
            lemma_owner_index_is(s1, o, j);
        } else {
            if has_owner(s2, o) {
                let j = owner_index(s2, o);
                assert(0 <= j < s2.len() && s2[j].owner == o);
                assert(j != i);
                assert(s1[j] == s2[j]);
                assert(has_owner(s1, o));
            }
        }
    }
}

/// Appending an entry for a fresh owner leaves every other owner's book and
/// sponsorship record untouched.
pub proof fn lemma_frame_push(s: Seq<OwnerState>, e: OwnerState)
    requires
        owners_unique(s),
        !has_owner(s, e.owner),
    ensures
        owners_unique(s.push(e)),
        has_owner(s.push(e), e.owner),
        owner_index(s.push(e), e.owner) == s.len(),
        book_of(s.push(e), e.owner) == e.book@,
        sponsored_of(s.push(e), e.owner) == e.sponsored@,
        forall|o: u64|
            o != e.owner ==> book_of(s.push(e), o) == book_of(s, o) && sponsored_of(s.push(e), o)
                == sponsored_of(s, o),
{
    let t = s.push(e);
    assert forall|p: int, q: int| 0 <= p < q < t.len() implies t[p].owner != t[q].owner by {
        if q < s.len() {
            assert(s[p].owner != s[q].owner);
        } else {
            assert(t[q] == e);
            if s[p].owner == e.owner {
                assert(has_owner(s, e.owner));
            }
        }
    }
    assert(owners_unique(t));
    assert(t[s.len() as int] == e);
    lemma_owner_index_is(t, e.owner, s.len() as int);
    assert forall|o: u64| o != e.owner implies book_of(t, o) == book_of(s, o) && sponsored_of(t, o)
        == sponsored_of(s, o) by {
        if has_owner(s, o) {
            let j = owner_index(s, o);
            assert(0 <= j < s.len() && s[j].owner == o);
            assert(t[j] == s[j]);
            lemma_owner_index_is(t, o, j);
            lemma_owner_index_is(s, o, j);
        } else {
            if has_owner(t, o) {
                let j = owner_index(t, o);
                assert(0 <= j < t.len() && t[j].owner == o);
                assert(j != s.len());
                assert(t[j] == s[j]);
                assert(has_owner(s, o));
            }
        }
    }
}

/// In a well-formed system every owner's book and sponsorship record are
/// well formed, an owner without an entry trivially so.
pub proof fn lemma_owner_state_wf(c: ContactsContract, o: u64)
    requires
        c.wf(),
    ensures
        book_wf(c.contacts_of(o)),
        marks_unique(c.sponsored_aliases_of(o)),
{
    if has_owner(c.entries@, o) {
        let i = owner_index(c.entries@, o);
        assert(0 <= i < c.entries@.len() && c.entries@[i].owner == o);
        assert(c.entries@[i].book.wf());
    }
}

/// The whole contact system: the configured transfer medium and one entry
/// per owner account that has ever written anything.
pub struct ContactsContract {
    pub native_token: Option<u64>,
    pub entries: Vec<OwnerState>,
}

/// Books of owners other than `account` are unchanged between `pre` and
/// `post`.
pub open spec fn books_unchanged_except(
    pre: ContactsContract,
    post: ContactsContract,
    account: u64,
) -> bool {
    forall|o: u64| o != account ==> post.contacts_of(o) == pre.contacts_of(o)
}

/// Sponsorship records of owners other than `account` are unchanged.
pub open spec fn sponsorships_unchanged_except(
    pre: ContactsContract,
    post: ContactsContract,
    account: u64,
) -> bool {
    forall|o: u64| o != account ==> post.sponsored_aliases_of(o) == pre.sponsored_aliases_of(o)
}

/// No owner's sponsorship record changed at all.
pub open spec fn sponsorships_unchanged(pre: ContactsContract, post: ContactsContract) -> bool {
    forall|o: u64| post.sponsored_aliases_of(o) == pre.sponsored_aliases_of(o)
}

/// No owner's book changed at all.
pub open spec fn books_unchanged(pre: ContactsContract, post: ContactsContract) -> bool {
    forall|o: u64| post.contacts_of(o) == pre.contacts_of(o)
}

/// The full effect of `add_cont`.
pub open spec fn add_post(
    pre: ContactsContract,
    post: ContactsContract,
    auth: Auth,
    account: u64,
    alias: Seq<char>,
    address: u64,
    now: u64,
    r: Result<bool, ContactError>,
) -> bool {
    &&& post.wf()
    &&& post.native_token == pre.native_token
    &&& books_unchanged_except(pre, post, account)
    &&& sponsorships_unchanged(pre, post)
    &&& match r {
        Ok(b) => b && auth.account == account && !has_alias(pre.contacts_of(account), alias)
            && !addr_used(pre.contacts_of(account), address) && post.contacts_of(account)
            == pre.contacts_of(account).push(
            (ContactView { alias, address, created_at: now, updated_at: now }),
        ),
        Err(ContactError::Unauthenticated) => auth.account != account && post.contacts_of(account)
            == pre.contacts_of(account),
        Err(ContactError::DuplicateAlias) => auth.account == account && has_alias(
            pre.contacts_of(account),
            alias,
        ) && post.contacts_of(account) == pre.contacts_of(account),
        Err(ContactError::DuplicateAddress) => auth.account == account && !has_alias(
            pre.contacts_of(account),
            alias,
        ) && addr_used(pre.contacts_of(account), address) && post.contacts_of(account)
            == pre.contacts_of(account),
        Err(_) => false,
    }
}

/// The full effect of `edit_contact`.
pub open spec fn edit_post(
    pre: ContactsContract,
    post: ContactsContract,
    auth: Auth,
    account: u64,
    alias: Seq<char>,
    new_address: u64,
    now: u64,
    r: Result<bool, ContactError>,
) -> bool {
    &&& post.wf()
    &&& post.native_token == pre.native_token
    &&& books_unchanged_except(pre, post, account)
    &&& sponsorships_unchanged(pre, post)
    &&& match r {
        Ok(true) => auth.account == account && !is_marked(pre.sponsored_aliases_of(account), alias)
            && has_alias(pre.contacts_of(account), alias) && !addr_used_by_other(
            pre.contacts_of(account),
            new_address,
            alias,
        ) && post.contacts_of(account) == pre.contacts_of(account).update(
            alias_index(pre.contacts_of(account), alias),
            (ContactView {
                alias,
                address: new_address,
                created_at: contact_of(pre.contacts_of(account), alias).created_at,
                updated_at: now,
            }),
        ),
        Ok(false) => auth.account == account && !is_marked(
            pre.sponsored_aliases_of(account),
            alias,
        ) && !has_alias(pre.contacts_of(account), alias) && !addr_used_by_other(
            pre.contacts_of(account),
            new_address,
            alias,
        ) && post.contacts_of(account) == pre.contacts_of(account),
        Err(ContactError::Unauthenticated) => auth.account != account && post.contacts_of(account)
            == pre.contacts_of(account),
        Err(ContactError::SponsoredLocked) => auth.account == account && is_marked(
            pre.sponsored_aliases_of(account),
            alias,
        ) && post.contacts_of(account) == pre.contacts_of(account),
        Err(ContactError::DuplicateAddress) => auth.account == account && !is_marked(
            pre.sponsored_aliases_of(account),
            alias,
        ) && addr_used_by_other(pre.contacts_of(account), new_address, alias)
            && post.contacts_of(account) == pre.contacts_of(account),
        Err(_) => false,
    }
}

/// The full effect of `delete_contact`.
pub open spec fn delete_post(
    pre: ContactsContract,
    post: ContactsContract,
    auth: Auth,
    account: u64,
    alias: Seq<char>,
    r: Result<bool, ContactError>,
) -> bool {
    &&& post.wf()
    &&& post.native_token == pre.native_token
    &&& books_unchanged_except(pre, post, account)
    &&& sponsorships_unchanged(pre, post)
    &&& match r {
        Ok(true) => auth.account == account && !is_marked(pre.sponsored_aliases_of(account), alias)
            && has_alias(pre.contacts_of(account), alias) && post.contacts_of(account)
            == pre.contacts_of(account).remove(alias_index(pre.contacts_of(account), alias)),
        Ok(false) => auth.account == account && !is_marked(
            pre.sponsored_aliases_of(account),
            alias,
        ) && !has_alias(pre.contacts_of(account), alias) && post.contacts_of(account)
            == pre.contacts_of(account),
        Err(ContactError::Unauthenticated) => auth.account != account && post.contacts_of(account)
            == pre.contacts_of(account),
        Err(ContactError::SponsoredLocked) => auth.account == account && is_marked(
            pre.sponsored_aliases_of(account),
            alias,
        ) && post.contacts_of(account) == pre.contacts_of(account),
        Err(_) => false,
    }
}

/// The full effect of `spon_coff`, given the outcome the external transfer
/// collaborator reported.
pub open spec fn spon_coff_post(
    pre: ContactsContract,
    post: ContactsContract,
    auth: Auth,
    sponsor: u64,
    alias: Seq<char>,
    transfer_succeeded: bool,
    r: Result<bool, ContactError>,
) -> bool {
    &&& post.wf()
    &&& post.native_token == pre.native_token
    &&& books_unchanged(pre, post)
    &&& sponsorships_unchanged_except(pre, post, sponsor)
    &&& match r {
        Ok(true) => auth.account == sponsor && transfer_succeeded && has_alias(
            pre.contacts_of(sponsor),
            alias,
        ) && !is_marked(pre.sponsored_aliases_of(sponsor), alias) && post.sponsored_aliases_of(
            sponsor,
        ) == mark_result(pre.sponsored_aliases_of(sponsor), alias) && is_marked(
            post.sponsored_aliases_of(sponsor),
            alias,
        ),
        Ok(false) => auth.account == sponsor && !has_alias(pre.contacts_of(sponsor), alias)
            && post.sponsored_aliases_of(sponsor) == pre.sponsored_aliases_of(sponsor),
        Err(ContactError::Unauthenticated) => auth.account != sponsor
            && post.sponsored_aliases_of(sponsor) == pre.sponsored_aliases_of(sponsor),
        Err(ContactError::AlreadySponsored) => auth.account == sponsor && has_alias(
            pre.contacts_of(sponsor),
            alias,
        ) && is_marked(pre.sponsored_aliases_of(sponsor), alias) && post.sponsored_aliases_of(
            sponsor,
        ) == pre.sponsored_aliases_of(sponsor),
        Err(ContactError::TransferFailed) => auth.account == sponsor && !transfer_succeeded
            && has_alias(pre.contacts_of(sponsor), alias) && !is_marked(
            pre.sponsored_aliases_of(sponsor),
            alias,
        ) && post.sponsored_aliases_of(sponsor) == pre.sponsored_aliases_of(sponsor),
        Err(_) => false,
    }
}

impl ContactsContract {
    /// Unique owners, and every owner's book and record well formed.
    pub open spec fn wf(&self) -> bool {
        &&& owners_unique(self.entries@)
        &&& forall|i: int|
            0 <= i < self.entries@.len() ==> (#[trigger] self.entries@[i]).book.wf()
                && self.entries@[i].sponsored.wf()
    }

    /// Owner `o`'s book.
    pub open spec fn contacts_of(&self, o: u64) -> Seq<ContactView> {
        book_of(self.entries@, o)
    }

    /// Owner `o`'s sponsored aliases.
    pub open spec fn sponsored_aliases_of(&self, o: u64) -> Seq<Seq<char>> {
        sponsored_of(self.entries@, o)
    }

    /// A fresh system: nothing configured, every book empty.
    pub fn new() -> (r: ContactsContract)
        ensures
            r.wf(),
            r.native_token is None,
            forall|o: u64|
                r.contacts_of(o) == Seq::<ContactView>::empty() && r.sponsored_aliases_of(o)
                    == Seq::<Seq<char>>::empty(),
    {
        let r = ContactsContract { native_token: None, entries: Vec::new() };
        proof {
            assert(forall|o: u64| !has_owner(r.entries@, o));
        }
        r
    }

    /// Configure the transfer medium used by sponsorship payments. Mirrors
    /// the one process-wide record the design keeps besides the per-owner
    /// state; books and sponsorship records are untouched.
    pub fn initialize(&mut self, native_token_addr: u64)
        requires
            old(self).wf(),
        ensures
            final(self).wf(),
            final(self).native_token == Some(native_token_addr),
            books_unchanged(*old(self), *final(self)),
            sponsorships_unchanged(*old(self), *final(self)),
    {
        self.native_token = Some(native_token_addr);
    }

    /// The configured transfer medium, when one has been set.
    pub fn get_native_token_address(&self) -> (r: Option<u64>)
        ensures
            r == self.native_token,
    {
        self.native_token
    }

    /// The fixed sponsorship amount.
    pub fn get_coffee_amount() -> (r: i128)
        ensures
            r == COFFEE_AMOUNT,
    {
        COFFEE_AMOUNT
    }

    /// The position of `owner`'s entry, when one exists.
    fn find_owner(&self, owner: u64) -> (r: Option<usize>)
        ensures
            match r {
                Some(i) => i < self.entries@.len() && self.entries@[i as int].owner == owner,
                None => !has_owner(self.entries@, owner),
            },
    {
        let n = self.entries.len();
        let mut i: usize = 0;
        while i < n
            invariant
                n == self.entries@.len(),
                i <= n,
                forall|j: int| 0 <= j < i ==> self.entries@[j].owner != owner,
            decreases n - i,
        {
            if self.entries[i].owner == owner {
                return Some(i);
            }
            i += 1;
        }
        None
    }

    /// Add a contact to `account`'s book. Demands authentication; fails on a
    /// duplicate alias or a duplicate address; on success the record is
    /// created with both timestamps set to `now`.
    pub fn add_cont(
        &mut self,
        auth: &Auth,
        account: u64,
        alias: String,
        address: u64,
        now: u64,
    ) -> (r: Result<bool, ContactError>)
        requires
            old(self).wf(),
            alias@.len() > 0,
        ensures
            add_post(*old(self), *final(self), *auth, account, alias@, address, now, r),
    {
        if auth.account != account {
            return Err(ContactError::Unauthenticated);
        }
        let ghost s1 = self.entries@;
        match self.find_owner(account) {
            None => {
                let mut book = ContactBook::new();
                let res = book.add(alias, address, now);
                match res {
                    Ok(_) => {
                        let entry = OwnerState {
                            owner: account,
                            book,
                            sponsored: SponsoredSet::new(),
                        };
                        let ghost ge = entry;
                        self.entries.push(entry);
                        proof {
                            lemma_frame_push(s1, ge);
                        }
                        Ok(true)
                    },
                    Err(e) => {
                        proof {
                            assert(false);
                        }
                        Err(e)
                    },
                }
            },
            Some(i) => {
                proof {
                    lemma_owner_index_is(s1, account, i as int);
                    assert(s1[i as int].book.wf());
                }
                let entry = &mut self.entries[i];
                let res = entry.book.add(alias, address, now);
                proof {
                    lemma_frame_update(s1, self.entries@, i as int);
                    lemma_owner_index_is(self.entries@, account, i as int);
                }
                res
            },
        }
    }

    /// Change the address of one of `account`'s contacts. Demands
    /// authentication; a sponsored contact is locked; a duplicate address
    /// aborts; an absent alias is the ordinary `Ok(false)` outcome.
    pub fn edit_contact(
        &mut self,
        auth: &Auth,
        account: u64,
        alias: &String,
        new_address: u64,
        now: u64,
    ) -> (r: Result<bool, ContactError>)
        requires
            old(self).wf(),
        ensures
            edit_post(*old(self), *final(self), *auth, account, alias@, new_address, now, r),
    {
        if auth.account != account {
            return Err(ContactError::Unauthenticated);
        }
        let ghost s1 = self.entries@;
        match self.find_owner(account) {
            None => Ok(false),
            Some(i) => {
                proof {
                    lemma_owner_index_is(s1, account, i as int);
                    assert(s1[i as int].book.wf());
                }
                if self.entries[i].sponsored.contains(alias) {
                    return Err(ContactError::SponsoredLocked);
                }
                let entry = &mut self.entries[i];
                let res = entry.book.edit(alias, new_address, now);
                proof {
                    lemma_frame_update(s1, self.entries@, i as int);
                    lemma_owner_index_is(self.entries@, account, i as int);
                }
                res
            },
        }
    }

    /// Remove one of `account`'s contacts. Demands authentication; a
    /// sponsored contact is locked; an absent alias is the ordinary
    /// `Ok(false)` outcome.
    pub fn delete_contact(&mut self, auth: &Auth, account: u64, alias: &String) -> (r: Result<
        bool,
        ContactError,
    >)
        requires
            old(self).wf(),
        ensures
            delete_post(*old(self), *final(self), *auth, account, alias@, r),
    {
        if auth.account != account {
            return Err(ContactError::Unauthenticated);
        }
        let ghost s1 = self.entries@;
        match self.find_owner(account) {
            None => Ok(false),
            Some(i) => {
                proof {
                    lemma_owner_index_is(s1, account, i as int);
                    assert(s1[i as int].book.wf());
                }
                if self.entries[i].sponsored.contains(alias) {
                    return Err(ContactError::SponsoredLocked);
                }
                let entry = &mut self.entries[i];
                let deleted = entry.book.delete(alias);
                proof {
                    lemma_frame_update(s1, self.entries@, i as int);
                    lemma_owner_index_is(self.entries@, account, i as int);
                }
                Ok(deleted)
            },
        }
    }

    /// Look up one of `account`'s contacts by alias. Reads need no
    /// authentication.
    pub fn get_contact(&self, account: u64, alias: &String) -> (r: Option<Contact>)
        requires
            self.wf(),
        ensures
            match r {
                Some(c) => has_alias(self.contacts_of(account), alias@) && c@ == contact_of(
                    self.contacts_of(account),
                    alias@,
                ),
                None => !has_alias(self.contacts_of(account), alias@),
            },
    {
        match self.find_owner(account) {
            None => None,
            Some(i) => {
                proof {
                    lemma_owner_index_is(self.entries@, account, i as int);
                    assert(self.entries@[i as int].book.wf());
                }
                match self.entries[i].book.get(alias) {
                    Some(c) => Some(c.clone()),
                    None => None,
                }
            },
        }
    }

    /// Every contact of `account`, in the book's stable order.
    pub fn get_all_contacts(&self, account: u64) -> (r: Vec<Contact>)
        requires
            self.wf(),
        ensures
            r@.len() == self.contacts_of(account).len(),
            forall|i: int| 0 <= i < r@.len() ==> r@[i]@ == self.contacts_of(account)[i],
    {
        match self.find_owner(account) {
            None => Vec::new(),
            Some(i) => {
                proof {
                    lemma_owner_index_is(self.entries@, account, i as int);
                }
                self.entries[i].book.list()
            },
        }
    }

    /// How many contacts `account` keeps.
    pub fn get_contacts_count(&self, account: u64) -> (r: usize)
        requires
            self.wf(),
        ensures
            r == self.contacts_of(account).len(),
    {
        match self.find_owner(account) {
            None => 0,
            Some(i) => {
                proof {
                    lemma_owner_index_is(self.entries@, account, i as int);
                }
                self.entries[i].book.count()
            },
        }
    }

    /// Whether `user` has sponsored `alias`.
    pub fn is_contact_sponsored_by_user(&self, user: u64, alias: &String) -> (r: bool)
        requires
            self.wf(),
        ensures
            r == is_marked(self.sponsored_aliases_of(user), alias@),
    {
        match self.find_owner(user) {
            None => false,
            Some(i) => {
                proof {
                    lemma_owner_index_is(self.entries@, user, i as int);
                }
                self.entries[i].sponsored.contains(alias)
            },
        }
    }

    /// Every alias `user` has sponsored, in the record's stable order.
    pub fn get_sponsored_aliases(&self, user: u64) -> (r: Vec<String>)
        requires
            self.wf(),
        ensures
            r@.len() == self.sponsored_aliases_of(user).len(),
            forall|i: int| 0 <= i < r@.len() ==> r@[i]@ == self.sponsored_aliases_of(user)[i],
    {
        match self.find_owner(user) {
            None => Vec::new(),
            Some(i) => {
                proof {
                    lemma_owner_index_is(self.entries@, user, i as int);
                }
                self.entries[i].sponsored.list()
            },
        }
    }

    /// Whether some contact of `user` is bound to `address`.
    pub fn is_address_used(&self, user: u64, address: u64) -> (r: bool)
        requires
            self.wf(),
        ensures
            r == addr_used(self.contacts_of(user), address),
    {
        match self.find_owner(user) {
            None => false,
            Some(i) => {
                proof {
                    lemma_owner_index_is(self.entries@, user, i as int);
                }
                self.entries[i].book.is_address_used(address)
            },
        }
    }

    /// The alias of `user`'s contact bound to `address`, or the empty string
    /// when there is none.
    pub fn find_alias_by_address(&self, user: u64, address: u64) -> (r: String)
        requires
            self.wf(),
        ensures
            addr_used(self.contacts_of(user), address) ==> r@ == alias_of_address(
                self.contacts_of(user),
                address,
            ) && r@.len() > 0,
            !addr_used(self.contacts_of(user), address) ==> r@ == Seq::<char>::empty(),
    {
        match self.find_owner(user) {
            None => String::new(),
            Some(i) => {
                proof {
                    lemma_owner_index_is(self.entries@, user, i as int);
                    assert(self.entries@[i as int].book.wf());
                }
                self.entries[i].book.find_alias_by_address(address)
            },
        }
    }

    /// First phase of sponsorship: what the external transfer collaborator
    /// is to be asked, or nothing when no transfer is owed (the alias is
    /// absent, or its sponsorship is already recorded and a second transfer
    /// is never made).
    pub fn spon_coff_request(&self, sponsor: u64, contact_alias: &String) -> (r: Option<
        TransferRequest,
    >)
        requires
            self.wf(),
            self.native_token is Some,
        ensures
            match r {
                Some(req) => has_alias(self.contacts_of(sponsor), contact_alias@) && !is_marked(
                    self.sponsored_aliases_of(sponsor),
                    contact_alias@,
                ) && req.from == sponsor && req.to == contact_of(
                    self.contacts_of(sponsor),
                    contact_alias@,
                ).address && Some(req.token) == self.native_token && req.amount == COFFEE_AMOUNT,
                None => !has_alias(self.contacts_of(sponsor), contact_alias@) || is_marked(
                    self.sponsored_aliases_of(sponsor),
                    contact_alias@,
                ),
            },
    {
        let token = self.native_token.unwrap();
        match self.find_owner(sponsor) {
            None => None,
            Some(i) => {
                proof {
                    lemma_owner_index_is(self.entries@, sponsor, i as int);
                    assert(self.entries@[i as int].book.wf());
                }
                match self.entries[i].book.get(contact_alias) {
                    None => None,
                    Some(c) => {
                        let to = c.address;
                        if self.entries[i].sponsored.contains(contact_alias) {
                            None
                        } else {
                            Some(
                                TransferRequest {
                                    from: sponsor,
                                    to,
                                    token,
                                    amount: COFFEE_AMOUNT,
                                },
                            )
                        }
                    },
                }
            },
        }
    }

    /// Second phase of sponsorship: commit the outcome the external transfer
    /// collaborator reported. Demands authentication; an absent alias is the
    /// ordinary `Ok(false)` outcome and means no transfer was owed; a failed
    /// transfer aborts with nothing recorded; only a successful transfer
    /// marks the alias, permanently freezing it.
    pub fn spon_coff(
        &mut self,
        auth: &Auth,
        sponsor: u64,
        contact_alias: &String,
        transfer_succeeded: bool,
    ) -> (r: Result<bool, ContactError>)
        requires
            old(self).wf(),
        ensures
            spon_coff_post(
                *old(self),
                *final(self),
                *auth,
                sponsor,
                contact_alias@,
                transfer_succeeded,
                r,
            ),
    {
        if auth.account != sponsor {
            return Err(ContactError::Unauthenticated);
        }
        let ghost s1 = self.entries@;
        match self.find_owner(sponsor) {
            None => Ok(false),
            Some(i) => {
                proof {
                    lemma_owner_index_is(s1, sponsor, i as int);
                    assert(s1[i as int].book.wf());
                }
                if self.entries[i].book.get(contact_alias).is_none() {
                    return Ok(false);
                }
                if self.entries[i].sponsored.contains(contact_alias) {
                    return Err(ContactError::AlreadySponsored);
                }
                if !transfer_succeeded {
                    return Err(ContactError::TransferFailed);
                }
                let entry = &mut self.entries[i];
                entry.sponsored.mark(contact_alias);
                proof {
                    lemma_frame_update(s1, self.entries@, i as int);
                    lemma_owner_index_is(self.entries@, sponsor, i as int);
                }
                Ok(true)
            },
        }
    }
}

} // verus!
