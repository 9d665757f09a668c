use provenance::program::{batch_register, register, verify};
use provenance::registry::{
    batch_register_content, batch_register_item, register_content, verify_prompt, BatchRegisterContent,
    BatchRegisterItem, RegisterContent, Registry, VerifyPrompt, MAX_BATCH,
};
use provenance::state::{ContentRegistered, CustomError, Key, Registration, RegistrationData};

fn pid() -> Key {
    let mut k = [0u8; 32];
    k[0] = 0x5e;
    k[9] = 3;
    k
}

fn key(tag: u8, n: u8) -> Key {
    let mut k = [0u8; 32];
    k[0] = tag;
    k[1] = n;
    k
}

fn creator(n: u8) -> Key {
    key(3, n)
}

fn prompt(n: u8) -> Key {
    key(4, n)
}

fn output(n: u8) -> Key {
    key(5, n)
}

fn ctx(c: u8, p: u8) -> RegisterContent {
    RegisterContent::derive(&pid(), &creator(c), &prompt(p)).unwrap()
}

fn data(p: u8, o: u8) -> RegistrationData {
    RegistrationData { prompt_hash: prompt(p), output_hash: output(o), creator: [0u8; 32], timestamp: 0 }
}

#[test]
fn first_registration_creates_record_and_index() {
    let mut reg = Registry::new(pid());
    let c = ctx(1, 1);
    let ev = register_content(&mut reg, &c, prompt(1), output(1), 100).unwrap();
    assert_eq!(ev, ContentRegistered { prompt_hash: prompt(1), output_hash: output(1), creator: creator(1), timestamp: 100 });
    assert_eq!(
        reg.registration(&c.registration),
        Some(Registration { prompt_hash: prompt(1), output_hash: output(1), creator: creator(1), timestamp: 100 })
    );
    let ix = reg.prompt_index(&c.prompt_index).unwrap();
    assert_eq!(ix.prompt_hash, prompt(1));
    assert_eq!(ix.registrations, vec![c.registration]);
}

#[test]
fn reregistration_refreshes_timestamp_and_keeps_one_entry() {
    let mut reg = Registry::new(pid());
    let c = ctx(1, 1);
    register_content(&mut reg, &c, prompt(1), output(1), 100).unwrap();
    let ev = register_content(&mut reg, &c, prompt(1), output(1), 200).unwrap();
    assert_eq!(ev.timestamp, 200);
    assert_eq!(
        reg.registration(&c.registration),
        Some(Registration { prompt_hash: prompt(1), output_hash: output(1), creator: creator(1), timestamp: 200 })
    );
    assert_eq!(reg.prompt_index(&c.prompt_index).unwrap().registrations, vec![c.registration]);
}

#[test]
fn update_changes_output_only() {
    let mut reg = Registry::new(pid());
    let c = ctx(1, 1);
    register_content(&mut reg, &c, prompt(1), output(1), 100).unwrap();
    register_content(&mut reg, &c, prompt(1), output(2), 150).unwrap();
    let r = reg.registration(&c.registration).unwrap();
    assert_eq!(r.prompt_hash, prompt(1));
    assert_eq!(r.output_hash, output(2));
    assert_eq!(r.creator, creator(1));
    assert_eq!(r.timestamp, 150);
}

#[test]
fn other_creator_on_owned_address_is_unauthorized() {
    let mut reg = Registry::new(pid());
    let a = ctx(1, 1);
    register_content(&mut reg, &a, prompt(1), output(1), 100).unwrap();
    let intruder = RegisterContent { creator: creator(2), ..a };
    assert_eq!(register_content(&mut reg, &intruder, prompt(1), output(7), 300), Err(CustomError::Unauthorized));
    let r = reg.registration(&a.registration).unwrap();
    assert_eq!(r.output_hash, output(1));
    assert_eq!(r.timestamp, 100);
}

#[test]
fn accounts_not_derived_for_the_caller_conflict() {
    let mut reg = Registry::new(pid());
    let a = ctx(1, 1);
    let wrong_index = RegisterContent { prompt_index: ctx(1, 2).prompt_index, ..a };
    assert_eq!(register_content(&mut reg, &wrong_index, prompt(1), output(1), 1), Err(CustomError::AddressConflict));
    let wrong_record = RegisterContent { registration: key(9, 9), ..a };
    assert_eq!(register_content(&mut reg, &wrong_record, prompt(1), output(1), 1), Err(CustomError::AddressConflict));
    let other_prompt = ctx(1, 2);
    assert_eq!(register_content(&mut reg, &other_prompt, prompt(1), output(1), 1), Err(CustomError::AddressConflict));
    assert_eq!(reg.registration(&a.registration), None);
    assert!(reg.prompt_index(&a.prompt_index).is_none());
}

#[test]
fn other_creator_under_own_address_gets_second_record() {
    let mut reg = Registry::new(pid());
    let a = ctx(1, 1);
    let b = ctx(2, 1);
    assert_ne!(a.registration, b.registration);
    assert_eq!(a.prompt_index, b.prompt_index);
    register_content(&mut reg, &a, prompt(1), output(1), 100).unwrap();
    register_content(&mut reg, &b, prompt(1), output(2), 110).unwrap();
    assert_eq!(reg.registration(&a.registration).unwrap().creator, creator(1));
    assert_eq!(reg.registration(&b.registration).unwrap().creator, creator(2));
    assert_eq!(reg.prompt_index(&a.prompt_index).unwrap().registrations, vec![a.registration, b.registration]);
}

#[test]
fn verify_returns_addresses_in_registration_order() {
    let mut reg = Registry::new(pid());
    let (a, b, c) = (ctx(1, 1), ctx(2, 1), ctx(3, 1));
    register_content(&mut reg, &a, prompt(1), output(1), 1).unwrap();
    register_content(&mut reg, &b, prompt(1), output(2), 2).unwrap();
    register_content(&mut reg, &c, prompt(1), output(3), 3).unwrap();
    register_content(&mut reg, &b, prompt(1), output(4), 4).unwrap();
    let v = VerifyPrompt { prompt_index: a.prompt_index };
    assert_eq!(verify_prompt(&reg, &v, prompt(1)), Ok(vec![a.registration, b.registration, c.registration]));
    assert_eq!(verify(&reg, prompt(1)), Ok(vec![a.registration, b.registration, c.registration]));
}

#[test]
fn verify_unknown_or_mismatched_prompt_fails() {
    let mut reg = Registry::new(pid());
    let a = ctx(1, 1);
    let v = VerifyPrompt { prompt_index: a.prompt_index };
    assert_eq!(verify_prompt(&reg, &v, prompt(1)), Err(CustomError::PromptNotFound));
    assert_eq!(verify(&reg, prompt(1)), Err(CustomError::PromptNotFound));
    register_content(&mut reg, &a, prompt(1), output(1), 1).unwrap();
    assert_eq!(verify_prompt(&reg, &v, prompt(2)), Err(CustomError::PromptNotFound));
}

#[test]
fn full_index_refuses_new_record_and_changes_nothing() {
    let mut reg = Registry::with_capacity(pid(), 2);
    register_content(&mut reg, &ctx(1, 1), prompt(1), output(1), 1).unwrap();
    register_content(&mut reg, &ctx(2, 1), prompt(1), output(1), 1).unwrap();
    let third = ctx(3, 1);
    assert_eq!(register_content(&mut reg, &third, prompt(1), output(1), 1), Err(CustomError::IndexFull));
    assert_eq!(reg.registration(&third.registration), None);
    assert_eq!(reg.prompt_index(&third.prompt_index).unwrap().registrations.len(), 2);
}

#[test]
fn batch_item_uses_the_given_creator() {
    let mut reg = Registry::new(pid());
    let c = ctx(5, 9);
    let item = BatchRegisterItem { registration: c.registration, prompt_index: c.prompt_index };
    let ev = batch_register_item(&mut reg, &creator(5), &item, prompt(9), output(9), 77).unwrap();
    assert_eq!(ev.creator, creator(5));
    assert_eq!(reg.registration(&c.registration).unwrap().creator, creator(5));
    assert_eq!(
        batch_register_item(&mut reg, &creator(6), &item, prompt(9), output(9), 78),
        Err(CustomError::Unauthorized)
    );
    let ev = batch_register_item(&mut reg, &creator(5), &item, prompt(9), output(8), 79).unwrap();
    assert_eq!(ev.timestamp, 79);
    assert_eq!(reg.prompt_index(&c.prompt_index).unwrap().registrations, vec![c.registration]);
}

fn batch_of(n: u8) -> Vec<RegistrationData> {
    (0..n).map(|i| data(i, i)).collect()
}

fn accounts(items: &Vec<RegistrationData>) -> BatchRegisterContent {
    BatchRegisterContent::derive(&pid(), &creator(1), items).unwrap()
}

#[test]
fn empty_batch_fails() {
    let mut reg = Registry::new(pid());
    let items = batch_of(0);
    assert_eq!(batch_register_content(&mut reg, &accounts(&items), &items, 5), Err(CustomError::EmptyBatch));
    assert_eq!(batch_register(&mut reg, creator(1), &items, 5), Err(CustomError::EmptyBatch));
}

#[test]
fn batch_of_eleven_is_too_large() {
    let mut reg = Registry::new(pid());
    let items = batch_of(11);
    let ctx = accounts(&items);
    assert_eq!(batch_register_content(&mut reg, &ctx, &items, 5), Err(CustomError::BatchTooLarge));
    assert_eq!(batch_register(&mut reg, creator(1), &items, 5), Err(CustomError::BatchTooLarge));
    assert_eq!(reg.registration(&ctx.items[0].registration), None);
}

#[test]
fn batch_of_ten_succeeds_and_persists() {
    let mut reg = Registry::new(pid());
    let items = batch_of(10);
    let ctx = accounts(&items);
    assert_eq!(MAX_BATCH, 10);
    let events = batch_register_content(&mut reg, &ctx, &items, 5).unwrap();
    assert_eq!(events.len(), 10);
    for i in 0..10u8 {
        assert_eq!(events[i as usize], ContentRegistered { prompt_hash: prompt(i), output_hash: output(i), creator: creator(1), timestamp: 5 });
        let acc = ctx.items[i as usize];
        let r = reg.registration(&acc.registration).unwrap();
        assert_eq!(r.prompt_hash, prompt(i));
        assert_eq!(verify_prompt(&reg, &VerifyPrompt { prompt_index: acc.prompt_index }, prompt(i)), Ok(vec![acc.registration]));
    }
}

#[test]
fn batch_with_missing_accounts_fails() {
    let mut reg = Registry::new(pid());
    let items = batch_of(3);
    let mut ctx = accounts(&items);
    ctx.items.pop();
    assert_eq!(batch_register_content(&mut reg, &ctx, &items, 5), Err(CustomError::MissingAccounts));
}

#[test]
fn batch_of_two_identical_items_adds_one_entry() {
    let mut reg = Registry::new(pid());
    let items = vec![data(1, 1), data(1, 1)];
    let events = batch_register(&mut reg, creator(1), &items, 9).unwrap();
    assert_eq!(events.len(), 2);
    let c = ctx(1, 1);
    assert_eq!(reg.prompt_index(&c.prompt_index).unwrap().registrations, vec![c.registration]);
}

#[test]
fn batch_with_unauthorized_item_changes_nothing() {
    let mut reg = Registry::new(pid());
    let owned = ctx(2, 7);
    register_content(&mut reg, &owned, prompt(7), output(7), 1).unwrap();
    let mut items = batch_of(3);
    let mut ctx = accounts(&items);
    ctx.items.push(BatchRegisterItem { registration: owned.registration, prompt_index: owned.prompt_index });
    items.push(data(7, 8));
    assert_eq!(batch_register_content(&mut reg, &ctx, &items, 5), Err(CustomError::Unauthorized));
    for i in 0..3usize {
        assert_eq!(reg.registration(&ctx.items[i].registration), None);
        assert!(reg.prompt_index(&ctx.items[i].prompt_index).is_none());
    }
    assert_eq!(reg.registration(&owned.registration).unwrap().output_hash, output(7));
}

#[test]
fn batch_failing_on_full_index_changes_nothing() {
    let mut reg = Registry::with_capacity(pid(), 1);
    register_content(&mut reg, &ctx(2, 7), prompt(7), output(7), 1).unwrap();
    let mut items = batch_of(3);
    items.push(data(7, 8));
    assert_eq!(batch_register(&mut reg, creator(1), &items, 5), Err(CustomError::IndexFull));
    for i in 0..3u8 {
        assert_eq!(reg.registration(&ctx(1, i).registration), None);
    }
}

#[test]
fn register_derives_its_accounts() {
    let mut reg = Registry::new(pid());
    let ev = register(&mut reg, creator(1), prompt(1), output(1), 3).unwrap();
    assert_eq!(ev.timestamp, 3);
    let c = ctx(1, 1);
    assert_eq!(reg.registration(&c.registration).unwrap().output_hash, output(1));
    assert_eq!(reg.program_id(), pid());
}
