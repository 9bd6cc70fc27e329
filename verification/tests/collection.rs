use health_nft::{
    deposit_nft, initialize_user_record, withdraw_nft, DepositNFT, HealthNFTError,
    InitializeUserRecord, Pubkey, Signer, UserRecord, WithdrawNFT,
};

fn key(tag: u8) -> Pubkey {
    Pubkey::new([tag; 32])
}

fn signer(tag: u8) -> Signer {
    Signer { key: key(tag), is_signer: true }
}

fn initialized(owner: Signer, now: i64) -> Option<UserRecord> {
    let mut ctx = InitializeUserRecord { owner, user_record: None };
    assert_eq!(initialize_user_record(&mut ctx, now), Ok(()));
    ctx.user_record
}

fn filled(owner: Signer, tags: &[u8]) -> Option<UserRecord> {
    let mut slot = initialized(owner, 7);
    for tag in tags {
        let mut ctx = DepositNFT { owner, nft_mint: key(*tag), user_record: slot };
        assert_eq!(deposit_nft(&mut ctx), Ok(()));
        slot = ctx.user_record;
    }
    slot
}

#[test]
fn initialize_creates_empty_collection() {
    let owner = signer(1);
    let mut ctx = InitializeUserRecord { owner, user_record: None };
    assert_eq!(initialize_user_record(&mut ctx, 1_700_000_000), Ok(()));
    assert_eq!(
        ctx.user_record,
        Some(UserRecord { owner: key(1), on_chain_nfts: vec![], created_at: 1_700_000_000 })
    );
}

#[test]
fn initialize_twice_is_already_initialized() {
    let owner = signer(1);
    let mut ctx = InitializeUserRecord { owner, user_record: None };
    assert_eq!(initialize_user_record(&mut ctx, 10), Ok(()));
    let after_first = ctx.clone();
    assert_eq!(initialize_user_record(&mut ctx, 20), Err(HealthNFTError::AlreadyInitialized));
    assert_eq!(ctx, after_first);
}

#[test]
fn initialize_without_signature_is_unauthorized() {
    let owner = Signer { key: key(1), is_signer: false };
    let mut ctx = InitializeUserRecord { owner, user_record: None };
    assert_eq!(initialize_user_record(&mut ctx, 10), Err(HealthNFTError::Unauthorized));
    assert_eq!(ctx.user_record, None);
}

#[test]
fn unsigned_initialize_of_existing_collection_is_unauthorized() {
    let slot = initialized(signer(1), 3);
    let owner = Signer { key: key(1), is_signer: false };
    let mut ctx = InitializeUserRecord { owner, user_record: slot.clone() };
    assert_eq!(initialize_user_record(&mut ctx, 10), Err(HealthNFTError::Unauthorized));
    assert_eq!(ctx.user_record, slot);
}

#[test]
fn deposit_after_initialize_holds_exactly_one() {
    for tag in [0u8, 1, 77, 255] {
        let owner = signer(tag);
        let slot = initialized(owner, 5);
        let mut ctx = DepositNFT { owner, nft_mint: key(9), user_record: slot };
        assert_eq!(deposit_nft(&mut ctx), Ok(()));
        let record = ctx.user_record.unwrap();
        assert_eq!(record.on_chain_nfts, vec![key(9)]);
        assert_eq!(record.on_chain_nfts.iter().filter(|k| **k == key(9)).count(), 1);
        assert_eq!(record.owner, key(tag));
        assert_eq!(record.created_at, 5);
    }
}

#[test]
fn deposit_appends_in_order() {
    let owner = signer(1);
    let slot = filled(owner, &[30, 10, 20]);
    assert_eq!(slot.unwrap().on_chain_nfts, vec![key(30), key(10), key(20)]);
}

#[test]
fn second_deposit_is_duplicate_and_changes_nothing() {
    let owner = signer(1);
    let slot = filled(owner, &[4, 5]);
    let mut ctx = DepositNFT { owner, nft_mint: key(6), user_record: slot };
    assert_eq!(deposit_nft(&mut ctx), Ok(()));
    let after_first = ctx.clone();
    assert_eq!(deposit_nft(&mut ctx), Err(HealthNFTError::DuplicateEntry));
    assert_eq!(ctx, after_first);
    assert_eq!(ctx.user_record.unwrap().on_chain_nfts, vec![key(4), key(5), key(6)]);
}

#[test]
fn tenth_deposit_fits_and_eleventh_exceeds_capacity() {
    let owner = signer(1);
    let slot = filled(owner, &[10, 11, 12, 13, 14, 15, 16, 17, 18]);
    let mut ctx = DepositNFT { owner, nft_mint: key(19), user_record: slot };
    assert_eq!(deposit_nft(&mut ctx), Ok(()));
    assert_eq!(ctx.user_record.as_ref().unwrap().on_chain_nfts.len(), 10);
    let full = ctx.user_record.clone();
    let mut ctx = DepositNFT { owner, nft_mint: key(20), user_record: full.clone() };
    assert_eq!(deposit_nft(&mut ctx), Err(HealthNFTError::CapacityExceeded));
    assert_eq!(ctx.user_record, full);
    assert_eq!(ctx.user_record.unwrap().on_chain_nfts.len(), 10);
}

#[test]
fn duplicate_in_full_collection_is_reported_as_duplicate() {
    let owner = signer(1);
    let slot = filled(owner, &[10, 11, 12, 13, 14, 15, 16, 17, 18, 19]);
    let mut ctx = DepositNFT { owner, nft_mint: key(13), user_record: slot.clone() };
    assert_eq!(deposit_nft(&mut ctx), Err(HealthNFTError::DuplicateEntry));
    assert_eq!(ctx.user_record, slot);
}

#[test]
fn deposit_without_collection_is_not_initialized() {
    let mut ctx = DepositNFT { owner: signer(1), nft_mint: key(2), user_record: None };
    assert_eq!(deposit_nft(&mut ctx), Err(HealthNFTError::NotInitialized));
    assert_eq!(ctx.user_record, None);
}

#[test]
fn deposit_without_signature_is_unauthorized() {
    let slot = initialized(signer(1), 3);
    let owner = Signer { key: key(1), is_signer: false };
    let mut ctx = DepositNFT { owner, nft_mint: key(2), user_record: slot.clone() };
    assert_eq!(deposit_nft(&mut ctx), Err(HealthNFTError::Unauthorized));
    assert_eq!(ctx.user_record, slot);
}

#[test]
fn deposit_into_another_owners_collection_is_unauthorized() {
    let slot = initialized(signer(1), 3);
    let mut ctx = DepositNFT { owner: signer(2), nft_mint: key(9), user_record: slot.clone() };
    assert_eq!(deposit_nft(&mut ctx), Err(HealthNFTError::Unauthorized));
    assert_eq!(ctx.user_record, slot);
}

#[test]
fn unsigned_deposit_without_collection_is_unauthorized() {
    let owner = Signer { key: key(1), is_signer: false };
    let mut ctx = DepositNFT { owner, nft_mint: key(2), user_record: None };
    assert_eq!(deposit_nft(&mut ctx), Err(HealthNFTError::Unauthorized));
}

#[test]
fn withdraw_removes_and_keeps_order() {
    let owner = signer(1);
    let slot = filled(owner, &[5, 6, 7, 8]);
    let mut ctx = WithdrawNFT { owner, nft_mint: key(6), user_record: slot };
    assert_eq!(withdraw_nft(&mut ctx), Ok(()));
    assert_eq!(ctx.user_record.unwrap().on_chain_nfts, vec![key(5), key(7), key(8)]);
}

#[test]
fn withdraw_twice_succeeds_and_second_is_noop() {
    let owner = signer(1);
    let slot = filled(owner, &[5, 6, 7]);
    let mut ctx = WithdrawNFT { owner, nft_mint: key(5), user_record: slot };
    assert_eq!(withdraw_nft(&mut ctx), Ok(()));
    let after_first = ctx.clone();
    assert_eq!(after_first.user_record.as_ref().unwrap().on_chain_nfts, vec![key(6), key(7)]);
    assert_eq!(withdraw_nft(&mut ctx), Ok(()));
    assert_eq!(ctx, after_first);
}

#[test]
fn withdraw_of_absent_certificate_succeeds() {
    let owner = signer(1);
    let slot = filled(owner, &[5, 6]);
    let mut ctx = WithdrawNFT { owner, nft_mint: key(9), user_record: slot.clone() };
    assert_eq!(withdraw_nft(&mut ctx), Ok(()));
    assert_eq!(ctx.user_record, slot);
}

#[test]
fn withdraw_removes_every_occurrence() {
    let record = UserRecord {
        owner: key(1),
        on_chain_nfts: vec![key(3), key(4), key(3), key(5), key(3)],
        created_at: 0,
    };
    let mut ctx = WithdrawNFT { owner: signer(1), nft_mint: key(3), user_record: Some(record) };
    assert_eq!(withdraw_nft(&mut ctx), Ok(()));
    assert_eq!(ctx.user_record.unwrap().on_chain_nfts, vec![key(4), key(5)]);
}

#[test]
fn withdraw_without_collection_is_not_initialized() {
    let mut ctx = WithdrawNFT { owner: signer(1), nft_mint: key(2), user_record: None };
    assert_eq!(withdraw_nft(&mut ctx), Err(HealthNFTError::NotInitialized));
}

#[test]
fn withdraw_without_signature_is_unauthorized() {
    let slot = filled(signer(1), &[2]);
    let owner = Signer { key: key(1), is_signer: false };
    let mut ctx = WithdrawNFT { owner, nft_mint: key(2), user_record: slot.clone() };
    assert_eq!(withdraw_nft(&mut ctx), Err(HealthNFTError::Unauthorized));
    assert_eq!(ctx.user_record, slot);
}

#[test]
fn withdraw_from_another_owners_collection_is_unauthorized() {
    let slot = filled(signer(1), &[2]);
    let mut ctx = WithdrawNFT { owner: signer(3), nft_mint: key(2), user_record: slot.clone() };
    assert_eq!(withdraw_nft(&mut ctx), Err(HealthNFTError::Unauthorized));
    assert_eq!(ctx.user_record, slot);
}

#[test]
fn withdraw_makes_room_for_another_deposit() {
    let owner = signer(1);
    let slot = filled(owner, &[10, 11, 12, 13, 14, 15, 16, 17, 18, 19]);
    let mut out = WithdrawNFT { owner, nft_mint: key(10), user_record: slot };
    assert_eq!(withdraw_nft(&mut out), Ok(()));
    let mut back = DepositNFT { owner, nft_mint: key(42), user_record: out.user_record };
    assert_eq!(deposit_nft(&mut back), Ok(()));
    let held = back.user_record.unwrap().on_chain_nfts;
    assert_eq!(held.len(), 10);
    assert_eq!(held[0], key(11));
    assert_eq!(held[9], key(42));
}

#[test]
fn record_methods_agree_with_operations() {
    let mut record = UserRecord::new(key(1), 99);
    assert!(!record.holds(&key(2)));
    assert_eq!(record.deposit(key(2)), Ok(()));
    assert!(record.holds(&key(2)));
    assert_eq!(record.deposit(key(2)), Err(HealthNFTError::DuplicateEntry));
    record.withdraw(&key(2));
    assert!(!record.holds(&key(2)));
    assert_eq!(record, UserRecord { owner: key(1), on_chain_nfts: vec![], created_at: 99 });
}

#[test]
fn identities_compare_by_bytes() {
    let mut bytes = [7u8; 32];
    assert_eq!(Pubkey::new(bytes), key(7));
    bytes[31] = 8;
    assert_ne!(Pubkey::new(bytes), key(7));
    assert_eq!(Pubkey::new(bytes).to_bytes(), bytes);
}
