use contacts::{Auth, ContactBook, ContactError, ContactsContract, SponsoredSet};

#[test]
fn scenario_get_returns_added_contact() {
    let mut c = ContactsContract::new();
    let owner: u64 = 1;
    let alias = "Mom".to_string();

    let r = c.add_cont(&Auth { account: owner }, owner, alias.clone(), 100, 42);
    assert!(matches!(r, Ok(true)));

    let contact = c.get_contact(owner, &alias).unwrap();
    assert_eq!(contact.alias, "Mom".to_string());
    assert_eq!(contact.address, 100);
    assert_eq!(contact.created_at, 42);
    assert_eq!(contact.updated_at, 42);
    assert_eq!(c.get_contacts_count(owner), 1);
}

#[test]
fn scenario_address_reuse_rejected() {
    let mut c = ContactsContract::new();
    let owner: u64 = 1;

    let r1 = c.add_cont(&Auth { account: owner }, owner, "Mom".to_string(), 100, 10);
    assert!(matches!(r1, Ok(true)));

    // Second alias bound to the same address must be rejected
    let r2 = c.add_cont(&Auth { account: owner }, owner, "Dad".to_string(), 100, 11);
    assert!(matches!(r2, Err(ContactError::DuplicateAddress)));

    assert_eq!(c.get_contacts_count(owner), 1);
    assert!(c.get_contact(owner, &"Dad".to_string()).is_none());
}

#[test]
fn scenario_sponsored_contact_is_frozen() {
    let mut c = ContactsContract::new();
    let owner: u64 = 1;
    let alias = "Mom".to_string();

    c.initialize(7);
    let added = c.add_cont(&Auth { account: owner }, owner, alias.clone(), 100, 10);
    assert!(matches!(added, Ok(true)));

    let sponsored = c.spon_coff(&Auth { account: owner }, owner, &alias, true);
    assert!(matches!(sponsored, Ok(true)));
    assert!(c.is_contact_sponsored_by_user(owner, &alias));

    // Edit and delete of the sponsored alias must fail with the lock error
    let edited = c.edit_contact(&Auth { account: owner }, owner, &alias, 200, 11);
    assert!(matches!(edited, Err(ContactError::SponsoredLocked)));
    let deleted = c.delete_contact(&Auth { account: owner }, owner, &alias);
    assert!(matches!(deleted, Err(ContactError::SponsoredLocked)));

    // The record itself is untouched
    let contact = c.get_contact(owner, &alias).unwrap();
    assert_eq!(contact.address, 100);

    let sponsored_aliases = c.get_sponsored_aliases(owner);
    assert_eq!(sponsored_aliases.len(), 1);
    assert_eq!(sponsored_aliases[0], "Mom".to_string());
}

#[test]
fn scenario_edit_of_missing_alias_creates_nothing() {
    let mut c = ContactsContract::new();
    let owner: u64 = 1;
    let alias = "Ghost".to_string();

    let r = c.edit_contact(&Auth { account: owner }, owner, &alias, 200, 10);
    assert!(matches!(r, Ok(false)));
    assert_eq!(c.get_contacts_count(owner), 0);
    assert!(c.get_contact(owner, &alias).is_none());
}

#[test]
fn scenario_unauthenticated_add_aborts() {
    let mut c = ContactsContract::new();
    let owner: u64 = 1;
    let intruder = Auth { account: 2 };

    let r = c.add_cont(&intruder, owner, "Mom".to_string(), 100, 10);
    assert!(matches!(r, Err(ContactError::Unauthenticated)));
    assert_eq!(c.get_contacts_count(owner), 0);
}

#[test]
fn isolation_reads_of_other_owner_stay_empty() {
    let mut c = ContactsContract::new();
    let a: u64 = 1;
    let b: u64 = 2;
    let alias = "Mom".to_string();

    let r = c.add_cont(&Auth { account: a }, a, alias.clone(), 100, 10);
    assert!(matches!(r, Ok(true)));

    assert!(c.get_contact(b, &alias).is_none());
    assert_eq!(c.get_all_contacts(b).len(), 0);
    assert_eq!(c.get_contacts_count(b), 0);
    assert!(!c.is_address_used(b, 100));
    assert_eq!(c.find_alias_by_address(b, 100), "".to_string());
}

#[test]
fn duplicate_alias_keeps_existing_record() {
    let mut c = ContactsContract::new();
    let owner: u64 = 1;
    let alias = "Mom".to_string();

    let r1 = c.add_cont(&Auth { account: owner }, owner, alias.clone(), 100, 1);
    assert!(matches!(r1, Ok(true)));
    let r2 = c.add_cont(&Auth { account: owner }, owner, alias.clone(), 200, 2);
    assert!(matches!(r2, Err(ContactError::DuplicateAlias)));

    let contact = c.get_contact(owner, &alias).unwrap();
    assert_eq!(contact.address, 100);
    assert_eq!(contact.created_at, 1);
    assert_eq!(contact.updated_at, 1);
}

#[test]
fn edit_to_own_address_succeeds() {
    let mut c = ContactsContract::new();
    let owner: u64 = 1;
    let alias = "Mom".to_string();

    let r = c.add_cont(&Auth { account: owner }, owner, alias.clone(), 100, 1);
    assert!(matches!(r, Ok(true)));

    // Keeping the same address is no collision
    let edited = c.edit_contact(&Auth { account: owner }, owner, &alias, 100, 5);
    assert!(matches!(edited, Ok(true)));

    let contact = c.get_contact(owner, &alias).unwrap();
    assert_eq!(contact.address, 100);
    assert_eq!(contact.created_at, 1);
    assert_eq!(contact.updated_at, 5);
}

#[test]
fn edit_to_other_alias_address_rejected() {
    let mut c = ContactsContract::new();
    let owner: u64 = 1;

    let r1 = c.add_cont(&Auth { account: owner }, owner, "Mom".to_string(), 100, 1);
    assert!(matches!(r1, Ok(true)));
    let r2 = c.add_cont(&Auth { account: owner }, owner, "Dad".to_string(), 200, 2);
    assert!(matches!(r2, Ok(true)));

    let edited = c.edit_contact(&Auth { account: owner }, owner, &"Dad".to_string(), 100, 3);
    assert!(matches!(edited, Err(ContactError::DuplicateAddress)));
    let dad = c.get_contact(owner, &"Dad".to_string()).unwrap();
    assert_eq!(dad.address, 200);
}

#[test]
fn failed_transfer_records_nothing() {
    let mut c = ContactsContract::new();
    let owner: u64 = 1;
    let alias = "Mom".to_string();

    c.initialize(7);
    let added = c.add_cont(&Auth { account: owner }, owner, alias.clone(), 100, 10);
    assert!(matches!(added, Ok(true)));

    let r = c.spon_coff(&Auth { account: owner }, owner, &alias, false);
    assert!(matches!(r, Err(ContactError::TransferFailed)));

    // Sponsorship stays unrecorded and the contact stays editable
    assert!(!c.is_contact_sponsored_by_user(owner, &alias));
    assert_eq!(c.get_sponsored_aliases(owner).len(), 0);
    let contact = c.get_contact(owner, &alias).unwrap();
    assert_eq!(contact.address, 100);
    let edited = c.edit_contact(&Auth { account: owner }, owner, &alias, 200, 11);
    assert!(matches!(edited, Ok(true)));
}

#[test]
fn marking_twice_changes_nothing() {
    let mut s = SponsoredSet::new();
    let alias = "Mom".to_string();

    s.mark(&alias);
    assert!(s.contains(&alias));
    assert_eq!(s.list().len(), 1);

    s.mark(&alias);
    assert!(s.contains(&alias));
    assert_eq!(s.list().len(), 1);
    assert_eq!(s.list()[0], "Mom".to_string());
}

#[test]
fn second_sponsorship_rejected() {
    let mut c = ContactsContract::new();
    let owner: u64 = 1;
    let alias = "Mom".to_string();

    c.initialize(7);
    let added = c.add_cont(&Auth { account: owner }, owner, alias.clone(), 100, 10);
    assert!(matches!(added, Ok(true)));
    let first = c.spon_coff(&Auth { account: owner }, owner, &alias, true);
    assert!(matches!(first, Ok(true)));

    // No second transfer is owed, and a second commit is rejected
    assert!(c.spon_coff_request(owner, &alias).is_none());
    let second = c.spon_coff(&Auth { account: owner }, owner, &alias, true);
    assert!(matches!(second, Err(ContactError::AlreadySponsored)));
    assert_eq!(c.get_sponsored_aliases(owner).len(), 1);
}

#[test]
fn unauthenticated_sponsorship_aborts() {
    let mut c = ContactsContract::new();
    let owner: u64 = 1;
    let alias = "Mom".to_string();

    c.initialize(7);
    let added = c.add_cont(&Auth { account: owner }, owner, alias.clone(), 100, 10);
    assert!(matches!(added, Ok(true)));

    let r = c.spon_coff(&Auth { account: 2 }, owner, &alias, true);
    assert!(matches!(r, Err(ContactError::Unauthenticated)));
    assert!(!c.is_contact_sponsored_by_user(owner, &alias));
}

#[test]
fn coffee_amount_is_fixed() {
    assert_eq!(ContactsContract::get_coffee_amount(), 150_000_000i128);
}

#[test]
fn transfer_request_names_payer_payee_token_and_amount() {
    let mut c = ContactsContract::new();
    let owner: u64 = 1;
    let alias = "Mom".to_string();

    c.initialize(7);
    let added = c.add_cont(&Auth { account: owner }, owner, alias.clone(), 100, 10);
    assert!(matches!(added, Ok(true)));

    let req = c.spon_coff_request(owner, &alias).unwrap();
    assert_eq!(req.from, owner);
    assert_eq!(req.to, 100);
    assert_eq!(req.token, 7);
    assert_eq!(req.amount, 150_000_000i128);
}

#[test]
fn native_token_is_configured_once() {
    let mut c = ContactsContract::new();
    assert!(c.get_native_token_address().is_none());
    c.initialize(9);
    assert_eq!(c.get_native_token_address(), Some(9));
}

#[test]
fn address_queries_find_the_binding_alias() {
    let mut c = ContactsContract::new();
    let owner: u64 = 1;

    let r1 = c.add_cont(&Auth { account: owner }, owner, "Mom".to_string(), 100, 1);
    assert!(matches!(r1, Ok(true)));
    let r2 = c.add_cont(&Auth { account: owner }, owner, "Dad".to_string(), 200, 2);
    assert!(matches!(r2, Ok(true)));

    assert!(c.is_address_used(owner, 100));
    assert!(c.is_address_used(owner, 200));
    assert!(!c.is_address_used(owner, 300));
    assert_eq!(c.find_alias_by_address(owner, 100), "Mom".to_string());
    assert_eq!(c.find_alias_by_address(owner, 200), "Dad".to_string());
    assert_eq!(c.find_alias_by_address(owner, 300), "".to_string());
}

#[test]
fn book_operations_stand_alone() {
    let mut book = ContactBook::new();
    assert_eq!(book.count(), 0);

    let added = book.add("Mom".to_string(), 100, 1);
    assert!(matches!(added, Ok(true)));
    assert_eq!(book.count(), 1);
    assert!(book.is_address_used(100));
    assert!(book.is_address_already_used(100, &"Dad".to_string()));
    assert!(!book.is_address_already_used(100, &"Mom".to_string()));

    let listed = book.list();
    assert_eq!(listed.len(), 1);
    assert_eq!(listed[0].alias, "Mom".to_string());

    let edited = book.edit(&"Mom".to_string(), 150, 2);
    assert!(matches!(edited, Ok(true)));
    assert_eq!(book.get(&"Mom".to_string()).unwrap().address, 150);
    assert_eq!(book.find_alias_by_address(150), "Mom".to_string());

    assert!(book.delete(&"Mom".to_string()));
    assert_eq!(book.count(), 0);
    assert!(!book.delete(&"Mom".to_string()));
}
