use anchor_lang::{AnchorDeserialize, AnchorSerialize};
use health_nft::{HealthData, HealthRecord, Pubkey, UserRecord};

fn key(tag: u8) -> Pubkey {
    Pubkey::new([tag; 32])
}

#[test]
fn certificate_region_starts_with_the_borsh_form() {
    for category in ["", "x", "exercise", "r\u{e9}gime"] {
        let record = HealthRecord {
            owner: key(1),
            nft_mint: key(2),
            nft_type: String::from(category),
            health_data: HealthData {
                exercise_records: 5,
                dietary_records: 70_000,
                total_records: u32::MAX,
            },
            created_at: -1_700_000_000,
        };
        let fields = (
            [1u8; 32],
            [2u8; 32],
            String::from(category),
            5u32,
            70_000u32,
            u32::MAX,
            -1_700_000_000i64,
        );
        let expected = fields.try_to_vec().unwrap();
        let region = record.encode().unwrap();
        assert_eq!(region.len(), 138);
        assert_eq!(&region[..expected.len()], &expected[..]);
        assert!(region[expected.len()..].iter().all(|b| *b == 0));
    }
}

#[test]
fn collection_region_starts_with_the_borsh_form() {
    for count in [0u8, 1, 3, 10] {
        let held: Vec<Pubkey> = (0..count).map(|i| key(50 + i)).collect();
        let raw: Vec<[u8; 32]> = (0..count).map(|i| [50 + i; 32]).collect();
        let record = UserRecord { owner: key(9), on_chain_nfts: held, created_at: 1234567 };
        let expected = ([9u8; 32], raw, 1234567i64).try_to_vec().unwrap();
        let region = record.encode().unwrap();
        assert_eq!(region.len(), 364);
        assert_eq!(&region[..expected.len()], &expected[..]);
        assert!(region[expected.len()..].iter().all(|b| *b == 0));
    }
}

#[test]
fn borsh_reads_back_what_the_library_wrote() {
    let record = HealthRecord {
        owner: key(1),
        nft_mint: key(2),
        nft_type: String::from("exercise"),
        health_data: HealthData { exercise_records: 5, dietary_records: 0, total_records: 5 },
        created_at: 1_700_000_000,
    };
    let region = record.encode().unwrap();
    let mut cursor: &[u8] = &region;
    let fields: ([u8; 32], [u8; 32], String, u32, u32, u32, i64) =
        AnchorDeserialize::deserialize(&mut cursor).unwrap();
    assert_eq!(fields.0, [1u8; 32]);
    assert_eq!(fields.1, [2u8; 32]);
    assert_eq!(fields.2, "exercise");
    assert_eq!((fields.3, fields.4, fields.5), (5, 0, 5));
    assert_eq!(fields.6, 1_700_000_000);
}

#[test]
fn library_reads_back_what_borsh_wrote() {
    let raw: Vec<[u8; 32]> = vec![[3u8; 32], [4u8; 32]];
    let mut region = ([9u8; 32], raw, -5i64).try_to_vec().unwrap();
    region.resize(364, 0);
    assert_eq!(
        UserRecord::decode(&region),
        Some(UserRecord { owner: key(9), on_chain_nfts: vec![key(3), key(4)], created_at: -5 })
    );
}
