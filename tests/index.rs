use provenance::index::{PromptIndex, DEFAULT_CAPACITY};
use provenance::state::{is_zero_key, keys_equal, CustomError, Key};

fn key(n: u32) -> Key {
    let mut k = [0u8; 32];
    k[0..4].copy_from_slice(&n.to_le_bytes());
    k[31] = 1;
    k
}

#[test]
fn keys_compare_by_bytes() {
    assert!(keys_equal(&key(3), &key(3)));
    assert!(!keys_equal(&key(3), &key(4)));
    assert!(is_zero_key(&[0u8; 32]));
    assert!(!is_zero_key(&key(0)));
}

#[test]
fn new_index_is_empty_with_default_capacity() {
    let ix = PromptIndex::new();
    assert_eq!(ix.capacity, DEFAULT_CAPACITY);
    assert_eq!(ix.capacity, 100);
    assert!(ix.registrations.is_empty());
    assert_eq!(ix.prompt_hash, [0u8; 32]);
}

#[test]
fn record_keeps_each_address_once() {
    let mut ix = PromptIndex::with_capacity(5);
    assert_eq!(ix.record(&key(1)), Ok(()));
    assert_eq!(ix.record(&key(2)), Ok(()));
    assert_eq!(ix.record(&key(1)), Ok(()));
    assert_eq!(ix.registrations, vec![key(1), key(2)]);
    assert!(ix.contains(&key(2)));
    assert!(!ix.contains(&key(3)));
}

#[test]
fn index_fills_to_capacity_without_duplicates() {
    let mut ix = PromptIndex::new();
    for n in 0..100u32 {
        assert_eq!(ix.record(&key(n)), Ok(()));
    }
    assert_eq!(ix.registrations.len(), 100);
    for n in 0..100u32 {
        assert_eq!(ix.registrations[n as usize], key(n));
    }
}

#[test]
fn index_rejects_one_past_capacity() {
    let mut ix = PromptIndex::new();
    for n in 0..100u32 {
        assert_eq!(ix.record(&key(n)), Ok(()));
    }
    assert_eq!(ix.record(&key(100)), Err(CustomError::IndexFull));
    assert_eq!(ix.registrations.len(), 100);
    // An address already present is still accepted when full.
    assert_eq!(ix.record(&key(42)), Ok(()));
    assert_eq!(ix.registrations.len(), 100);
}

#[test]
fn zero_capacity_index_rejects_everything() {
    let mut ix = PromptIndex::with_capacity(0);
    assert_eq!(ix.record(&key(1)), Err(CustomError::IndexFull));
    assert!(ix.registrations.is_empty());
}

#[test]
fn ensure_initialized_binds_once_entries_exist() {
    let mut ix = PromptIndex::new();
    ix.ensure_initialized(&key(7));
    assert_eq!(ix.prompt_hash, key(7));
    assert_eq!(ix.record(&key(1)), Ok(()));
    ix.ensure_initialized(&key(8));
    assert_eq!(ix.prompt_hash, key(7));
}

#[test]
fn verify_checks_the_prompt_hash() {
    let mut ix = PromptIndex::new();
    ix.ensure_initialized(&key(7));
    assert_eq!(ix.record(&key(1)), Ok(()));
    assert_eq!(ix.verify(&key(7)), Ok(vec![key(1)]));
    assert_eq!(ix.verify(&key(8)), Err(CustomError::PromptNotFound));
    let copy = ix.duplicate();
    assert_eq!(copy.registrations, ix.registrations);
    assert_eq!(copy.prompt_hash, ix.prompt_hash);
}
