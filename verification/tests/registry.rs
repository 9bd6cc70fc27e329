use health_nft::{
    check_category, mint_health_nft, HealthData, HealthNFTError, HealthRecord, LedgerReply,
    LedgerRequest, MintHealthNFT, NftMetadata, Pubkey, Signer,
};

fn key(tag: u8) -> Pubkey {
    Pubkey::new([tag; 32])
}

fn parties(payer: u8, authority: u8) -> MintHealthNFT {
    MintHealthNFT {
        payer: Signer { key: key(payer), is_signer: true },
        authority: Signer { key: key(authority), is_signer: true },
    }
}

fn metadata(category: &str) -> NftMetadata {
    NftMetadata {
        name: String::from("Health Certificate"),
        symbol: String::from("HLTH"),
        uri: String::from("https://example.org/certificate.json"),
        nft_type: String::from(category),
    }
}

fn metrics(exercise: u32, dietary: u32, total: u32) -> HealthData {
    HealthData { exercise_records: exercise, dietary_records: dietary, total_records: total }
}

#[test]
fn mint_yields_request_for_one_unit() {
    let pending = mint_health_nft(&parties(1, 2), metadata("exercise"), metrics(5, 0, 5));
    let pending = pending.ok().unwrap();
    assert_eq!(
        pending.request(),
        LedgerRequest::CreateIdentity { supply: 1, authority: key(2) }
    );
}

#[test]
fn mint_completes_with_record() {
    let pending = mint_health_nft(&parties(1, 2), metadata("exercise"), metrics(5, 0, 5));
    let record = pending.ok().unwrap().complete(LedgerReply::Created { identity: key(9) }, 1234);
    assert_eq!(
        record,
        Ok(HealthRecord {
            owner: key(1),
            nft_mint: key(9),
            nft_type: String::from("exercise"),
            health_data: metrics(5, 0, 5),
            created_at: 1234,
        })
    );
}

#[test]
fn mint_stores_counters_as_given() {
    let pending = mint_health_nft(&parties(1, 1), metadata("diet"), metrics(3, 4, 100));
    let record = pending.ok().unwrap().complete(LedgerReply::Created { identity: key(9) }, -5);
    let record = record.unwrap();
    assert_eq!(record.health_data, metrics(3, 4, 100));
    assert_eq!(record.created_at, -5);
}

#[test]
fn mint_with_empty_category_is_invalid() {
    let outcome = mint_health_nft(&parties(1, 2), metadata(""), metrics(0, 0, 0));
    assert_eq!(outcome.err(), Some(HealthNFTError::InvalidMetadata));
}

#[test]
fn mint_category_length_limit_is_fifty_bytes() {
    let fifty = "a".repeat(50);
    let fifty_one = "a".repeat(51);
    assert!(mint_health_nft(&parties(1, 2), metadata(&fifty), metrics(0, 0, 0)).is_ok());
    let outcome = mint_health_nft(&parties(1, 2), metadata(&fifty_one), metrics(0, 0, 0));
    assert_eq!(outcome.err(), Some(HealthNFTError::InvalidMetadata));
}

#[test]
fn mint_category_length_counts_bytes_not_characters() {
    let sixteen = "\u{20ac}".repeat(16);
    let seventeen = "\u{20ac}".repeat(17);
    assert_eq!(sixteen.len(), 48);
    assert_eq!(seventeen.len(), 51);
    assert!(check_category(&sixteen));
    assert!(!check_category(&seventeen));
    assert!(mint_health_nft(&parties(1, 2), metadata(&sixteen), metrics(0, 0, 0)).is_ok());
    let outcome = mint_health_nft(&parties(1, 2), metadata(&seventeen), metrics(0, 0, 0));
    assert_eq!(outcome.err(), Some(HealthNFTError::InvalidMetadata));
}

#[test]
fn check_category_edges() {
    assert!(!check_category(&String::new()));
    assert!(check_category(&String::from("x")));
    assert!(check_category(&"b".repeat(50)));
    assert!(!check_category(&"b".repeat(51)));
}

#[test]
fn mint_without_payer_signature_is_unauthorized() {
    let mut ctx = parties(1, 2);
    ctx.payer.is_signer = false;
    let outcome = mint_health_nft(&ctx, metadata("exercise"), metrics(5, 0, 5));
    assert_eq!(outcome.err(), Some(HealthNFTError::Unauthorized));
}

#[test]
fn mint_without_authority_signature_is_unauthorized() {
    let mut ctx = parties(1, 2);
    ctx.authority.is_signer = false;
    let outcome = mint_health_nft(&ctx, metadata("exercise"), metrics(5, 0, 5));
    assert_eq!(outcome.err(), Some(HealthNFTError::Unauthorized));
}

#[test]
fn unauthorized_comes_before_invalid_metadata() {
    let mut ctx = parties(1, 2);
    ctx.authority.is_signer = false;
    let outcome = mint_health_nft(&ctx, metadata(""), metrics(5, 0, 5));
    assert_eq!(outcome.err(), Some(HealthNFTError::Unauthorized));
}

#[test]
fn mint_fails_with_ledger_error_when_ledger_fails() {
    let pending = mint_health_nft(&parties(1, 2), metadata("exercise"), metrics(5, 0, 5));
    let outcome = pending.ok().unwrap().complete(LedgerReply::Failed, 1234);
    assert_eq!(outcome, Err(HealthNFTError::LedgerError));
}

#[test]
fn mint_fails_with_ledger_error_on_a_reply_to_another_request() {
    let pending = mint_health_nft(&parties(1, 2), metadata("exercise"), metrics(5, 0, 5));
    let outcome = pending.ok().unwrap().complete(LedgerReply::Transferred, 1234);
    assert_eq!(outcome, Err(HealthNFTError::LedgerError));
}

#[test]
fn two_mints_give_two_distinct_certificates() {
    let ctx = parties(1, 1);
    let first = mint_health_nft(&ctx, metadata("exercise"), metrics(5, 0, 5)).ok().unwrap();
    let second = mint_health_nft(&ctx, metadata("exercise"), metrics(5, 0, 5)).ok().unwrap();
    assert_eq!(first.request(), LedgerRequest::CreateIdentity { supply: 1, authority: key(1) });
    assert_eq!(second.request(), LedgerRequest::CreateIdentity { supply: 1, authority: key(1) });
    let a = first.complete(LedgerReply::Created { identity: key(10) }, 50).unwrap();
    let b = second.complete(LedgerReply::Created { identity: key(11) }, 50).unwrap();
    assert_ne!(a.nft_mint, b.nft_mint);
    assert_ne!(a, b);
    assert_eq!(a.nft_mint, key(10));
    assert_eq!(b.nft_mint, key(11));
}
