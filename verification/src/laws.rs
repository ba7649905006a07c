//! The laws the system obeys across operations, proved once over the
//! operations' published effects (`add_post`, `edit_post`, `delete_post`,
//! `spon_coff_post`).

use vstd::prelude::*;

use crate::contact::{addr_used, addr_used_by_other, contact_of, has_alias, lemma_own_address_free};
use crate::registry::{
    add_post, books_unchanged, delete_post, edit_post, lemma_owner_state_wf, spon_coff_post,
    sponsorships_unchanged, ContactsContract,
};
use crate::sponsor::{is_marked, mark_result};
use crate::{Auth, ContactError};

verus! {

/// Isolation: an `add_cont` call for one account changes no other owner's
/// book or sponsorship record.
pub proof fn lemma_add_isolated(
    pre: ContactsContract,
    post: ContactsContract,
    auth: Auth,
    account: u64,
    alias: Seq<char>,
    address: u64,
    now: u64,
    r: Result<bool, ContactError>,
    other: u64,
)
    requires
        add_post(pre, post, auth, account, alias, address, now, r),
        other != account,
    ensures
        post.contacts_of(other) == pre.contacts_of(other),
        post.sponsored_aliases_of(other) == pre.sponsored_aliases_of(other),
{
}

/// Isolation: an `edit_contact` call for one account changes no other
/// owner's book or sponsorship record.
pub proof fn lemma_edit_isolated(
    pre: ContactsContract,
    post: ContactsContract,
    auth: Auth,
    account: u64,
    alias: Seq<char>,
    new_address: u64,
    now: u64,
    r: Result<bool, ContactError>,
    other: u64,
)
    requires
        edit_post(pre, post, auth, account, alias, new_address, now, r),
        other != account,
    ensures
        post.contacts_of(other) == pre.contacts_of(other),
        post.sponsored_aliases_of(other) == pre.sponsored_aliases_of(other),
{
}

/// Isolation: a `delete_contact` call for one account changes no other
/// owner's book or sponsorship record.
pub proof fn lemma_delete_isolated(
    pre: ContactsContract,
    post: ContactsContract,
    auth: Auth,
    account: u64,
    alias: Seq<char>,
    r: Result<bool, ContactError>,
    other: u64,
)
    requires
        delete_post(pre, post, auth, account, alias, r),
        other != account,
    ensures
        post.contacts_of(other) == pre.contacts_of(other),
        post.sponsored_aliases_of(other) == pre.sponsored_aliases_of(other),
{
}

/// Isolation: a `spon_coff` call for one account changes no book at all and
/// no other owner's sponsorship record.
pub proof fn lemma_spon_coff_isolated(
    pre: ContactsContract,
    post: ContactsContract,
    auth: Auth,
    sponsor: u64,
    alias: Seq<char>,
    transfer_succeeded: bool,
    r: Result<bool, ContactError>,
    other: u64,
)
    requires
        spon_coff_post(pre, post, auth, sponsor, alias, transfer_succeeded, r),
        other != sponsor,
    ensures
        post.contacts_of(other) == pre.contacts_of(other),
        post.sponsored_aliases_of(other) == pre.sponsored_aliases_of(other),
{
}

/// Alias uniqueness: adding an alias the account already has always fails
/// with the duplicate-alias error and mutates nothing.
pub proof fn lemma_duplicate_alias_add_fails(
    pre: ContactsContract,
    post: ContactsContract,
    auth: Auth,
    account: u64,
    alias: Seq<char>,
    address: u64,
    now: u64,
    r: Result<bool, ContactError>,
)
    requires
        add_post(pre, post, auth, account, alias, address, now, r),
        auth.account == account,
        has_alias(pre.contacts_of(account), alias),
    ensures
        r == Err::<bool, ContactError>(ContactError::DuplicateAlias),
        books_unchanged(pre, post),
        sponsorships_unchanged(pre, post),
{
    assert forall|o: u64| post.contacts_of(o) == pre.contacts_of(o) by {
        if o != account {
            assert(post.contacts_of(o) == pre.contacts_of(o));
        }
    }
}

/// Address uniqueness at add: an address already bound in the account's book
/// always makes a fresh add fail with the duplicate-address error and
/// mutates nothing.
pub proof fn lemma_duplicate_address_add_fails(
    pre: ContactsContract,
    post: ContactsContract,
    auth: Auth,
    account: u64,
    alias: Seq<char>,
    address: u64,
    now: u64,
    r: Result<bool, ContactError>,
)
    requires
        add_post(pre, post, auth, account, alias, address, now, r),
        auth.account == account,
        !has_alias(pre.contacts_of(account), alias),
        addr_used(pre.contacts_of(account), address),
    ensures
        r == Err::<bool, ContactError>(ContactError::DuplicateAddress),
        books_unchanged(pre, post),
        sponsorships_unchanged(pre, post),
{
    assert forall|o: u64| post.contacts_of(o) == pre.contacts_of(o) by {
        if o != account {
            assert(post.contacts_of(o) == pre.contacts_of(o));
        }
    }
}

/// Address uniqueness at edit: an address bound to a different alias of the
/// same account always makes the edit fail with the duplicate-address error
/// and mutates nothing.
pub proof fn lemma_duplicate_address_edit_fails(
    pre: ContactsContract,
    post: ContactsContract,
    auth: Auth,
    account: u64,
    alias: Seq<char>,
    new_address: u64,
    now: u64,
    r: Result<bool, ContactError>,
)
    requires
        edit_post(pre, post, auth, account, alias, new_address, now, r),
        auth.account == account,
        !is_marked(pre.sponsored_aliases_of(account), alias),
        addr_used_by_other(pre.contacts_of(account), new_address, alias),
    ensures
        r == Err::<bool, ContactError>(ContactError::DuplicateAddress),
        books_unchanged(pre, post),
        sponsorships_unchanged(pre, post),
{
    assert forall|o: u64| post.contacts_of(o) == pre.contacts_of(o) by {
        if o != account {
            assert(post.contacts_of(o) == pre.contacts_of(o));
        }
    }
}

/// Address uniqueness, the permitted side: editing an unsponsored contact to
/// the address it already holds always succeeds, because in a well-formed
/// book an alias's own address is never counted as used by another.
pub proof fn lemma_edit_to_own_address_succeeds(
    pre: ContactsContract,
    post: ContactsContract,
    auth: Auth,
    account: u64,
    alias: Seq<char>,
    now: u64,
    r: Result<bool, ContactError>,
)
    requires
        pre.wf(),
        edit_post(
            pre,
            post,
            auth,
            account,
            alias,
            contact_of(pre.contacts_of(account), alias).address,
            now,
            r,
        ),
        auth.account == account,
        has_alias(pre.contacts_of(account), alias),
        !is_marked(pre.sponsored_aliases_of(account), alias),
    ensures
        r == Ok::<bool, ContactError>(true),
{
    lemma_owner_state_wf(pre, account);
    lemma_own_address_free(pre.contacts_of(account), alias);
}

/// Sponsorship freeze, first half: a successful sponsorship leaves the alias
/// marked.
pub proof fn lemma_sponsor_marks(
    pre: ContactsContract,
    post: ContactsContract,
    auth: Auth,
    sponsor: u64,
    alias: Seq<char>,
    transfer_succeeded: bool,
    r: Result<bool, ContactError>,
)
    requires
        spon_coff_post(pre, post, auth, sponsor, alias, transfer_succeeded, r),
        r == Ok::<bool, ContactError>(true),
    ensures
        is_marked(post.sponsored_aliases_of(sponsor), alias),
{
}

/// Sponsorship freeze, second half: while an alias is marked, every edit of
/// it fails with the lock error and mutates nothing.
pub proof fn lemma_sponsored_edit_fails(
    pre: ContactsContract,
    post: ContactsContract,
    auth: Auth,
    account: u64,
    alias: Seq<char>,
    new_address: u64,
    now: u64,
    r: Result<bool, ContactError>,
)
    requires
        edit_post(pre, post, auth, account, alias, new_address, now, r),
        auth.account == account,
        is_marked(pre.sponsored_aliases_of(account), alias),
    ensures
        r == Err::<bool, ContactError>(ContactError::SponsoredLocked),
        books_unchanged(pre, post),
        sponsorships_unchanged(pre, post),
{
    assert forall|o: u64| post.contacts_of(o) == pre.contacts_of(o) by {
        if o != account {
            assert(post.contacts_of(o) == pre.contacts_of(o));
        }
    }
}

/// Sponsorship freeze, second half: while an alias is marked, every delete
/// of it fails with the lock error and mutates nothing.
pub proof fn lemma_sponsored_delete_fails(
    pre: ContactsContract,
    post: ContactsContract,
    auth: Auth,
    account: u64,
    alias: Seq<char>,
    r: Result<bool, ContactError>,
)
    requires
        delete_post(pre, post, auth, account, alias, r),
        auth.account == account,
        is_marked(pre.sponsored_aliases_of(account), alias),
    ensures
        r == Err::<bool, ContactError>(ContactError::SponsoredLocked),
        books_unchanged(pre, post),
        sponsorships_unchanged(pre, post),
{
    assert forall|o: u64| post.contacts_of(o) == pre.contacts_of(o) by {
        if o != account {
            assert(post.contacts_of(o) == pre.contacts_of(o));
        }
    }
}

/// Sponsorship freeze, indefinitely: `add_cont`, `edit_contact` and
/// `delete_contact` leave every sponsorship record unchanged outright, and
/// `spon_coff` — the one operation that writes marks — never removes one. So
/// no sequence of operations ever unmarks an alias.
pub proof fn lemma_marks_persist_spon_coff(
    pre: ContactsContract,
    post: ContactsContract,
    auth: Auth,
    sponsor: u64,
    alias: Seq<char>,
    transfer_succeeded: bool,
    r: Result<bool, ContactError>,
    owner: u64,
    marked: Seq<char>,
)
    requires
        spon_coff_post(pre, post, auth, sponsor, alias, transfer_succeeded, r),
        is_marked(pre.sponsored_aliases_of(owner), marked),
    ensures
        is_marked(post.sponsored_aliases_of(owner), marked),
{
    if owner == sponsor && post.sponsored_aliases_of(sponsor) != pre.sponsored_aliases_of(
        sponsor,
    ) {
        let s = pre.sponsored_aliases_of(sponsor);
        assert(post.sponsored_aliases_of(sponsor) == mark_result(s, alias));
        if !is_marked(s, alias) {
            let i = choose|i: int| 0 <= i < s.len() && s[i] == marked;
            assert(s.push(alias)[i] == marked);
        }
    }
}

/// Atomicity of sponsorship: when the external transfer fails, the call
/// never reports success, no book changes, and every sponsorship record is
/// exactly what it was.
pub proof fn lemma_failed_transfer_changes_nothing(
    pre: ContactsContract,
    post: ContactsContract,
    auth: Auth,
    sponsor: u64,
    alias: Seq<char>,
    r: Result<bool, ContactError>,
)
    requires
        spon_coff_post(pre, post, auth, sponsor, alias, false, r),
    ensures
        r != Ok::<bool, ContactError>(true),
        books_unchanged(pre, post),
        sponsorships_unchanged(pre, post),
{
    assert forall|o: u64| post.sponsored_aliases_of(o) == pre.sponsored_aliases_of(o) by {
        if o != sponsor {
            assert(post.sponsored_aliases_of(o) == pre.sponsored_aliases_of(o));
        }
    }
}

/// A sponsorship attempt for an alias already marked is rejected outright
/// and records nothing, so a second transfer is never committed.
pub proof fn lemma_second_sponsorship_rejected(
    pre: ContactsContract,
    post: ContactsContract,
    auth: Auth,
    sponsor: u64,
    alias: Seq<char>,
    transfer_succeeded: bool,
    r: Result<bool, ContactError>,
)
    requires
        spon_coff_post(pre, post, auth, sponsor, alias, transfer_succeeded, r),
        auth.account == sponsor,
        has_alias(pre.contacts_of(sponsor), alias),
        is_marked(pre.sponsored_aliases_of(sponsor), alias),
    ensures
        r == Err::<bool, ContactError>(ContactError::AlreadySponsored),
        books_unchanged(pre, post),
        sponsorships_unchanged(pre, post),
{
    assert forall|o: u64| post.sponsored_aliases_of(o) == pre.sponsored_aliases_of(o) by {
        if o != sponsor {
            assert(post.sponsored_aliases_of(o) == pre.sponsored_aliases_of(o));
        }
    }
}

/// Idempotent marking: marking an alias a second time leaves the record
/// exactly as the first marking left it.
pub proof fn lemma_mark_idempotent(s: Seq<Seq<char>>, a: Seq<char>)
    ensures
        mark_result(mark_result(s, a), a) == mark_result(s, a),
{
    if !is_marked(s, a) {
        assert(s.push(a)[s.len() as int] == a);
        assert(is_marked(s.push(a), a));
    }
}

} // verus!
