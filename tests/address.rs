use anchor_lang::solana_program::pubkey::Pubkey;
use provenance::address::{derive_prompt_index_address, derive_registration_address};
use provenance::registry::{
    batch_register_content, register_content, verify_prompt, BatchRegisterContent, RegisterContent, Registry,
    VerifyPrompt,
};
use provenance::state::{CustomError, Key, RegistrationData};

fn program() -> Key {
    let mut k = [0u8; 32];
    k[0] = 0xA2;
    k[5] = 7;
    k
}

fn filled(b: u8) -> Key {
    [b; 32]
}

#[test]
fn registration_address_matches_the_program_derived_address() {
    let (expected, _) = Pubkey::find_program_address(
        &[b"registration", &filled(1), &filled(9)],
        &Pubkey::new_from_array(program()),
    );
    let got = derive_registration_address(&program(), &filled(1), &filled(9)).unwrap();
    assert_eq!(got, expected.to_bytes());
    assert_ne!(got, filled(1));
    assert_ne!(got, filled(9));
}

#[test]
fn prompt_index_address_matches_the_program_derived_address() {
    let (expected, _) =
        Pubkey::find_program_address(&[b"prompt_index", &filled(9)], &Pubkey::new_from_array(program()));
    let got = derive_prompt_index_address(&program(), &filled(9)).unwrap();
    assert_eq!(got, expected.to_bytes());
    assert_ne!(got, filled(9));
}

#[test]
fn derived_addresses_are_stable_and_distinct() {
    let a1 = derive_registration_address(&program(), &filled(1), &filled(9)).unwrap();
    let a2 = derive_registration_address(&program(), &filled(1), &filled(9)).unwrap();
    let b = derive_registration_address(&program(), &filled(2), &filled(9)).unwrap();
    let ix = derive_prompt_index_address(&program(), &filled(9)).unwrap();
    assert_eq!(a1, a2);
    assert_ne!(a1, b);
    assert_ne!(a1, ix);
}

#[test]
fn derived_contexts_register_and_verify() {
    let mut reg = Registry::new(program());
    let p = filled(9);
    let mut expected = Vec::new();
    for creator in [filled(1), filled(2), filled(3)] {
        let ctx = RegisterContent::derive(&program(), &creator, &p).unwrap();
        assert_eq!(ctx.creator, creator);
        register_content(&mut reg, &ctx, p, filled(4), 10).unwrap();
        expected.push(ctx.registration);
    }
    let v = VerifyPrompt::derive(&program(), &p).unwrap();
    assert_eq!(verify_prompt(&reg, &v, p), Ok(expected));
}

#[test]
fn derived_batch_registers_each_item() {
    let mut reg = Registry::new(program());
    let items: Vec<RegistrationData> = (10..13u8)
        .map(|b| RegistrationData { prompt_hash: filled(b), output_hash: filled(b + 10), creator: filled(0), timestamp: 0 })
        .collect();
    let ctx = BatchRegisterContent::derive(&program(), &filled(1), &items).unwrap();
    assert_eq!(ctx.items.len(), 3);
    let events = batch_register_content(&mut reg, &ctx, &items, 42).unwrap();
    assert_eq!(events.len(), 3);
    for (i, d) in items.iter().enumerate() {
        let expected = derive_registration_address(&program(), &filled(1), &d.prompt_hash).unwrap();
        assert_eq!(ctx.items[i].registration, expected);
        let r = reg.registration(&expected).unwrap();
        assert_eq!(r.output_hash, d.output_hash);
        assert_eq!(r.timestamp, 42);
    }
    let again = batch_register_content(&mut reg, &ctx, &items, 43).unwrap();
    assert_eq!(again.len(), 3);
    let v = VerifyPrompt::derive(&program(), &filled(10)).unwrap();
    assert_eq!(verify_prompt(&reg, &v, filled(10)).unwrap().len(), 1);
    assert_eq!(verify_prompt(&reg, &v, filled(11)), Err(CustomError::PromptNotFound));
}
