use contacts::{Auth, ContactError, ContactsContract};

#[test]
fn test_multi_user_isolation() {
    let mut c = ContactsContract::new();
    let user1: u64 = 1;
    let user2: u64 = 2;
    let contact_address: u64 = 100;

    let alias = "Mom".to_string();

    // User1 adds a contact
    let result1 = c.add_cont(&Auth { account: user1 }, user1, alias, contact_address, 10);
    assert!(matches!(result1, Ok(true)));

    // User2 should not see User1's contacts
    let user2_contacts = c.get_all_contacts(user2);
    assert_eq!(user2_contacts.len(), 0);

    // User1 should see their own contact
    let user1_contacts = c.get_all_contacts(user1);
    assert_eq!(user1_contacts.len(), 1);
}

#[test]
fn test_add_contact() {
    let mut c = ContactsContract::new();
    let user: u64 = 1;
    let contact_address: u64 = 100;

    let alias = "Mom".to_string();
    let result = c.add_cont(&Auth { account: user }, user, alias.clone(), contact_address, 10);

    assert!(matches!(result, Ok(true)));

    let contact = c.get_contact(user, &alias).unwrap();
    assert_eq!(contact.alias, alias);
    assert_eq!(contact.address, contact_address);
}

#[test]
fn test_add_duplicate_contact() {
    let mut c = ContactsContract::new();
    let owner: u64 = 1;
    let contact_address: u64 = 100;

    c.initialize(7);

    let alias = "Mom".to_string();

    // Add first contact
    let result1 = c.add_cont(&Auth { account: owner }, owner, alias.clone(), contact_address, 10);
    assert!(matches!(result1, Ok(true)));

    // Try to add duplicate contact
    let result2 = c.add_cont(&Auth { account: owner }, owner, alias, contact_address, 11);
    assert!(matches!(result2, Err(ContactError::DuplicateAlias)));
}

#[test]
fn test_edit_contact() {
    let mut c = ContactsContract::new();
    let owner: u64 = 1;
    let old_address: u64 = 100;
    let new_address: u64 = 200;

    c.initialize(7);

    let alias = "Mom".to_string();

    // Add contact
    let added = c.add_cont(&Auth { account: owner }, owner, alias.clone(), old_address, 10);
    assert!(matches!(added, Ok(true)));

    // Edit contact
    let result = c.edit_contact(&Auth { account: owner }, owner, &alias, new_address, 11);
    assert!(matches!(result, Ok(true)));

    let contact = c.get_contact(owner, &alias).unwrap();
    assert_eq!(contact.address, new_address);
}

#[test]
fn test_edit_nonexistent_contact() {
    let mut c = ContactsContract::new();
    let owner: u64 = 1;
    let new_address: u64 = 200;

    c.initialize(7);

    let alias = "Nonexistent".to_string();

    // Try to edit nonexistent contact
    let result = c.edit_contact(&Auth { account: owner }, owner, &alias, new_address, 10);
    assert!(matches!(result, Ok(false)));
}

#[test]
fn test_delete_contact() {
    let mut c = ContactsContract::new();
    let owner: u64 = 1;
    let contact_address: u64 = 100;

    c.initialize(7);

    let alias = "Mom".to_string();

    // Add contact
    let added = c.add_cont(&Auth { account: owner }, owner, alias.clone(), contact_address, 10);
    assert!(matches!(added, Ok(true)));

    // Delete contact
    let result = c.delete_contact(&Auth { account: owner }, owner, &alias);
    assert!(matches!(result, Ok(true)));

    // Verify contact is deleted
    let contact = c.get_contact(owner, &alias);
    assert!(contact.is_none());
}

#[test]
fn test_delete_nonexistent_contact() {
    let mut c = ContactsContract::new();
    let owner: u64 = 1;

    c.initialize(7);

    let alias = "Nonexistent".to_string();

    // Try to delete nonexistent contact
    let result = c.delete_contact(&Auth { account: owner }, owner, &alias);
    assert!(matches!(result, Ok(false)));
}

#[test]
fn test_get_all_contacts() {
    let mut c = ContactsContract::new();
    let owner: u64 = 1;
    let address1: u64 = 100;
    let address2: u64 = 200;

    c.initialize(7);

    let alias1 = "Mom".to_string();
    let alias2 = "Dad".to_string();

    // Add contacts
    let r1 = c.add_cont(&Auth { account: owner }, owner, alias1, address1, 10);
    assert!(matches!(r1, Ok(true)));
    let r2 = c.add_cont(&Auth { account: owner }, owner, alias2, address2, 11);
    assert!(matches!(r2, Ok(true)));

    // Get all contacts
    let all = c.get_all_contacts(owner);
    assert_eq!(all.len(), 2);

    // Verify contacts count
    let count = c.get_contacts_count(owner);
    assert_eq!(count, 2);
}

#[test]
fn test_transfer_to_contact() {
    let mut c = ContactsContract::new();
    let owner: u64 = 1;
    let contact_address: u64 = 100;

    c.initialize(7);

    let alias = "Mom".to_string();

    // Add contact
    let added = c.add_cont(&Auth { account: owner }, owner, alias.clone(), contact_address, 10);
    assert!(matches!(added, Ok(true)));

    // A transfer is owed for an existing, unsponsored contact; committing a
    // successful transfer reports success.
    let request = c.spon_coff_request(owner, &alias);
    assert!(request.is_some());
    let result = c.spon_coff(&Auth { account: owner }, owner, &alias, true);
    assert!(matches!(result, Ok(true)));
}

#[test]
fn test_transfer_to_nonexistent_contact() {
    let mut c = ContactsContract::new();
    let owner: u64 = 1;

    c.initialize(7);

    let alias = "Nonexistent".to_string();

    // No transfer is owed for a nonexistent contact, and the call reports
    // the ordinary "not found" outcome
    let request = c.spon_coff_request(owner, &alias);
    assert!(request.is_none());
    let result = c.spon_coff(&Auth { account: owner }, owner, &alias, true);
    assert!(matches!(result, Ok(false)));
}
