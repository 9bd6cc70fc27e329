//! The stored form of the two records.
//!
//! A record is stored in a region of fixed size. Its fields are written one
//! after the other from the start of the region: identities as their 32
//! bytes, integers in little-endian order, a text as the length of its UTF-8
//! form in four bytes followed by that form, a list as the number of its
//! entries in four bytes followed by the entries. What is left of the region
//! is filled with zeros when writing and not looked at when reading.

use vstd::prelude::*;
use vstd::bytes::{
    lemma_auto_spec_u32_to_from_le_bytes, lemma_auto_spec_u64_to_from_le_bytes,
    spec_u32_from_le_bytes, spec_u32_to_le_bytes, spec_u64_to_le_bytes, u32_from_le_bytes,
    u32_to_le_bytes, u64_from_le_bytes, u64_to_le_bytes,
};
use vstd::slice::{slice_subrange, slice_to_vec};
use vstd::utf8::{encode_utf8, encode_utf8_valid_utf8, valid_utf8};
use crate::collection::{UserRecord, UserRecordView, MAX_HELD};
use crate::error::HealthNFTError;
use crate::identity::Pubkey;
use crate::registry::{HealthData, HealthRecord, HealthRecordView, MAX_CATEGORY_BYTES};

verus! {

/// `n` zero bytes.
pub open spec fn zeros(n: nat) -> Seq<u8> {
    Seq::new(n, |i: int| 0u8)
}

/// `image` followed by zeros up to a length of `len`.
pub open spec fn padded(image: Seq<u8>, len: nat) -> Seq<u8> {
    image + zeros((len - image.len()) as nat)
}

/// The eight bytes of a time stamp.
pub open spec fn time_image(at: i64) -> Seq<u8> {
    spec_u64_to_le_bytes(at as u64)
}

impl HealthData {
    /// The twelve bytes of the three counters.
    pub open spec fn image(self) -> Seq<u8> {
        spec_u32_to_le_bytes(self.exercise_records) + spec_u32_to_le_bytes(self.dietary_records)
            + spec_u32_to_le_bytes(self.total_records)
    }
}

impl HealthRecordView {
    /// The category is short enough for the record to be stored.
    pub open spec fn fits(self) -> bool {
        encode_utf8(self.nft_type).len() <= MAX_CATEGORY_BYTES
    }

    /// The fields of the record as bytes, one after the other.
    pub open spec fn image(self) -> Seq<u8> {
        let text = encode_utf8(self.nft_type);
        self.owner@ + self.nft_mint@ + spec_u32_to_le_bytes(text.len() as u32) + text
            + self.health_data.image() + time_image(self.created_at)
    }

    /// The region that stores the record.
    pub open spec fn stored(self) -> Seq<u8> {
        padded(self.image(), HealthRecord::LEN as nat)
    }

    /// `region` has the size of a stored certificate record and starts with
    /// the fields of this one.
    pub open spec fn is_stored_in(self, region: Seq<u8>) -> bool {
        &&& self.fits()
        &&& region.len() == HealthRecord::LEN
        &&& region.subrange(0, self.image().len() as int) == self.image()
    }
}

/// Where the fields of a certificate record lie in its image.
pub proof fn lemma_health_record_image(record: HealthRecordView)
    requires
        record.fits(),
    ensures
        ({
            let image = record.image();
            let text = encode_utf8(record.nft_type);
            let n = text.len() as int;
            &&& image.len() == 88 + n
            &&& image.subrange(0, 32) == record.owner@
            &&& image.subrange(32, 64) == record.nft_mint@
            &&& image.subrange(64, 68) == spec_u32_to_le_bytes(n as u32)
            &&& image.subrange(68, 68 + n) == text
            &&& image.subrange(68 + n, 72 + n) == spec_u32_to_le_bytes(
                record.health_data.exercise_records,
            )
            &&& image.subrange(72 + n, 76 + n) == spec_u32_to_le_bytes(
                record.health_data.dietary_records,
            )
            &&& image.subrange(76 + n, 80 + n) == spec_u32_to_le_bytes(
                record.health_data.total_records,
            )
            &&& image.subrange(80 + n, 88 + n) == time_image(record.created_at)
        }),
{
    lemma_auto_spec_u32_to_from_le_bytes();
    lemma_auto_spec_u64_to_from_le_bytes();
    let image = record.image();
    let text = encode_utf8(record.nft_type);
    let n = text.len() as int;
    assert(record.owner@.len() == 32);
    assert(record.nft_mint@.len() == 32);
    assert(image.subrange(0, 32) =~= record.owner@);
    assert(image.subrange(32, 64) =~= record.nft_mint@);
    assert(image.subrange(64, 68) =~= spec_u32_to_le_bytes(n as u32));
    assert(image.subrange(68, 68 + n) =~= text);
    assert(image.subrange(68 + n, 72 + n) =~= spec_u32_to_le_bytes(
        record.health_data.exercise_records,
    ));
    assert(image.subrange(72 + n, 76 + n) =~= spec_u32_to_le_bytes(
        record.health_data.dietary_records,
    ));
    assert(image.subrange(76 + n, 80 + n) =~= spec_u32_to_le_bytes(
        record.health_data.total_records,
    ));
    assert(image.subrange(80 + n, 88 + n) =~= time_image(record.created_at));
}

/// `String::from_utf8` of the standard library, with the error dropped.
///
/// Trusted: the call succeeds exactly on well-formed UTF-8, and the text it
/// yields has the given bytes as its UTF-8 form.
#[verifier::external_body]
fn string_from_utf8(bytes: Vec<u8>) -> (text: Option<String>)
    ensures
        text is Some <==> valid_utf8(bytes@),
        text matches Some(s) ==> encode_utf8(s@) == bytes@,
{
    String::from_utf8(bytes).ok()
}

/// Appends `bytes` to `out`.
fn put(out: &mut Vec<u8>, bytes: &[u8])
    ensures
        final(out)@ == old(out)@ + bytes@,
{
    let mut i: usize = 0;
    while i < bytes.len()
        invariant
            0 <= i <= bytes@.len(),
            out@ == old(out)@ + bytes@.take(i as int),
        decreases bytes@.len() - i,
    {
        out.push(bytes[i]);
        assert(bytes@.take(i + 1) =~= bytes@.take(i as int).push(bytes@[i as int]));
        i = i + 1;
    }
    assert(bytes@.take(i as int) =~= bytes@);
}

/// Appends zeros to `out` until it is `len` long.
fn pad(out: &mut Vec<u8>, len: usize)
    requires
        old(out)@.len() <= len,
    ensures
        final(out)@ == padded(old(out)@, len as nat),
{
    while out.len() < len
        invariant
            old(out)@.len() <= out@.len() <= len,
            out@ == old(out)@ + zeros((out@.len() - old(out)@.len()) as nat),
        decreases len - out@.len(),
    {
        out.push(0u8);
    }
}

/// Reads the identity that lies at `at` in `bytes`.
fn read_key(bytes: &[u8], at: usize) -> (key: Pubkey)
    requires
        at + 32 <= bytes@.len(),
    ensures
        key@ == bytes@.subrange(at as int, at + 32),
{
    let total = bytes.len();
    let mut raw = [0u8;32];
    let mut i: usize = 0;
    while i < 32
        invariant
            0 <= i <= 32,
            at + 32 <= bytes@.len() == total,
            forall|j: int| 0 <= j < i ==> raw@[j] == bytes@[at + j],
        decreases 32 - i,
    {
        raw[i] = bytes[at + i];
        i = i + 1;
    }
    assert(raw@ =~= bytes@.subrange(at as int, at + 32));
    Pubkey { bytes: raw }
}

/// Reads the four-byte integer that lies at `at` in `bytes`.
fn read_u32(bytes: &[u8], at: usize) -> (x: u32)
    requires
        at + 4 <= bytes@.len(),
    ensures
        x == spec_u32_from_le_bytes(bytes@.subrange(at as int, at + 4)),
{
    let total = bytes.len();
    u32_from_le_bytes(slice_subrange(bytes, at, at + 4))
}

/// Reads the time stamp that lies at `at` in `bytes`.
fn read_time(bytes: &[u8], at: usize) -> (t: i64)
    requires
        at + 8 <= bytes@.len(),
    ensures
        time_image(t) == bytes@.subrange(at as int, at + 8),
{
    let total = bytes.len();
    let raw = u64_from_le_bytes(slice_subrange(bytes, at, at + 8));
    let t = #[verifier::truncate]
    (raw as i64);
    proof {
        lemma_auto_spec_u64_to_from_le_bytes();
        assert((raw as i64) as u64 == raw) by (bit_vector);
    }
    t
}

/// Appends the eight bytes of a time stamp to `out`.
fn put_time(out: &mut Vec<u8>, at: i64)
    ensures
        final(out)@ == old(out)@ + time_image(at),
{
    let raw = u64_to_le_bytes(#[verifier::truncate] (at as u64));
    put(out, raw.as_slice());
}

/// Appends the four bytes of an integer to `out`.
fn put_u32(out: &mut Vec<u8>, x: u32)
    ensures
        final(out)@ == old(out)@ + spec_u32_to_le_bytes(x),
{
    let raw = u32_to_le_bytes(x);
    put(out, raw.as_slice());
}

impl HealthRecord {
    /// Size in bytes of the region that stores a certificate record.
    pub const LEN: usize = 32 + 32 + 4 + 50 + 4 + 4 + 4 + 8;

    /// The region that stores the record.
    ///
    /// Refused as `InvalidMetadata` exactly when the category is too long for
    /// the region.
    pub fn encode(&self) -> (outcome: Result<Vec<u8>, HealthNFTError>)
        ensures
            match outcome {
                Ok(region) => self@.fits() && region@ == self@.stored(),
                Err(e) => !self@.fits() && e == HealthNFTError::InvalidMetadata,
            },
    {
        let text = self.nft_type.as_str().as_bytes();
        if text.len() > MAX_CATEGORY_BYTES {
            return Err(HealthNFTError::InvalidMetadata);
        }
        let mut out: Vec<u8> = Vec::new();
        put(&mut out, self.owner.bytes.as_slice());
        put(&mut out, self.nft_mint.bytes.as_slice());
        put_u32(&mut out, text.len() as u32);
        put(&mut out, text);
        put_u32(&mut out, self.health_data.exercise_records);
        put_u32(&mut out, self.health_data.dietary_records);
        put_u32(&mut out, self.health_data.total_records);
        put_time(&mut out, self.created_at);
        proof {
            lemma_health_record_image(self@);
            assert(out@ =~= self@.image());
        }
        pad(&mut out, Self::LEN);
        Ok(out)
    }

    /// Reads the record that a region stores.
    ///
    /// The result is a record whose fields the region starts with, if there
    /// is one; else nothing. A region of the wrong size, with a category
    /// longer than the limit or with a category that is not UTF-8 stores no
    /// record.
    pub fn decode(region: &[u8]) -> (out: Option<HealthRecord>)
        ensures
            match out {
                Some(record) => record@.is_stored_in(region@),
                None => forall|r: HealthRecordView| !r.is_stored_in(region@),
            },
    {
        if region.len() != Self::LEN {
            return None;
        }
        let owner = read_key(region, 0);
        let nft_mint = read_key(region, 32);
        let len = read_u32(region, 64);
        proof {
            lemma_auto_spec_u32_to_from_le_bytes();
            assert forall|r: HealthRecordView| r.is_stored_in(region@) implies encode_utf8(
                r.nft_type,
            ).len() == len && region@.subrange(68, 68 + len) == encode_utf8(r.nft_type) by {
                lemma_health_record_image(r);
                let image = r.image();
                let n = encode_utf8(r.nft_type).len() as int;
                let head = region@.subrange(0, image.len() as int);
                assert(head.subrange(64, 68) =~= region@.subrange(64, 68));
                assert(head.subrange(68, 68 + n) =~= region@.subrange(68, 68 + n));
            }
        }
        if len > MAX_CATEGORY_BYTES as u32 {
            return None;
        }
        let n = len as usize;
        let text = slice_to_vec(slice_subrange(region, 68, 68 + n));
        let nft_type = match string_from_utf8(text) {
            Some(s) => s,
            None => {
                proof {
                    assert forall|r: HealthRecordView| !r.is_stored_in(region@) by {
                        if r.is_stored_in(region@) {
                            encode_utf8_valid_utf8(r.nft_type);
                        }
                    }
                }
                return None;
            },
        };
        let exercise_records = read_u32(region, 68 + n);
        let dietary_records = read_u32(region, 72 + n);
        let total_records = read_u32(region, 76 + n);
        let created_at = read_time(region, 80 + n);
        let record = HealthRecord {
            owner,
            nft_mint,
            nft_type,
            health_data: HealthData { exercise_records, dietary_records, total_records },
            created_at,
        };
        proof {
            lemma_health_record_image(record@);
            assert(region@.subrange(0, 88 + n) =~= record@.image());
        }
        Some(record)
    }
}

/// The bytes of a list of identities, one identity after the other.
pub open spec fn keys_image(keys: Seq<Pubkey>) -> Seq<u8>
    decreases keys.len(),
{
    if keys.len() == 0 {
        Seq::empty()
    } else {
        keys_image(keys.drop_last()) + keys.last()@
    }
}

/// A list of identities takes 32 bytes for each.
pub proof fn lemma_keys_image_len(keys: Seq<Pubkey>)
    ensures
        keys_image(keys).len() == 32 * keys.len(),
    decreases keys.len(),
{
    if keys.len() > 0 {
        lemma_keys_image_len(keys.drop_last());
        assert(keys.last()@.len() == 32);
    }
}

/// The bytes of a list of identities determine the list.
pub proof fn lemma_keys_image_injective(a: Seq<Pubkey>, b: Seq<Pubkey>)
    requires
        keys_image(a) == keys_image(b),
    ensures
        a == b,
    decreases a.len(),
{
    lemma_keys_image_len(a);
    lemma_keys_image_len(b);
    if a.len() > 0 {
        let front_a = a.drop_last();
        let front_b = b.drop_last();
        lemma_keys_image_len(front_a);
        lemma_keys_image_len(front_b);
        let cut = 32 * (front_a.len() as int);
        assert(keys_image(a).subrange(0, cut) =~= keys_image(front_a));
        assert(keys_image(b).subrange(0, cut) =~= keys_image(front_b));
        assert(keys_image(a).subrange(cut, cut + 32) =~= a.last()@);
        assert(keys_image(b).subrange(cut, cut + 32) =~= b.last()@);
        Pubkey::lemma_view_injective(a.last(), b.last());
        lemma_keys_image_injective(front_a, front_b);
        assert(a =~= front_a.push(a.last()));
        assert(b =~= front_b.push(b.last()));
    } else {
        assert(a =~= b);
    }
}

impl UserRecordView {
    /// The collection is small enough to be stored.
    pub open spec fn fits(self) -> bool {
        self.on_chain_nfts.len() <= MAX_HELD
    }

    /// The fields of the collection as bytes, one after the other.
    pub open spec fn image(self) -> Seq<u8> {
        self.owner@ + spec_u32_to_le_bytes(self.on_chain_nfts.len() as u32) + keys_image(
            self.on_chain_nfts,
        ) + time_image(self.created_at)
    }

    /// The region that stores the collection.
    pub open spec fn stored(self) -> Seq<u8> {
        padded(self.image(), UserRecord::LEN as nat)
    }

    /// `region` has the size of a stored collection and starts with the
    /// fields of this one.
    pub open spec fn is_stored_in(self, region: Seq<u8>) -> bool {
        &&& self.fits()
        &&& region.len() == UserRecord::LEN
        &&& region.subrange(0, self.image().len() as int) == self.image()
    }
}

/// Where the fields of a collection lie in its image.
pub proof fn lemma_user_record_image(record: UserRecordView)
    requires
        record.fits(),
    ensures
        ({
            let image = record.image();
            let n = record.on_chain_nfts.len() as int;
            &&& image.len() == 44 + 32 * n
            &&& image.subrange(0, 32) == record.owner@
            &&& image.subrange(32, 36) == spec_u32_to_le_bytes(n as u32)
            &&& image.subrange(36, 36 + 32 * n) == keys_image(record.on_chain_nfts)
            &&& image.subrange(36 + 32 * n, 44 + 32 * n) == time_image(record.created_at)
        }),
{
    lemma_auto_spec_u32_to_from_le_bytes();
    lemma_auto_spec_u64_to_from_le_bytes();
    lemma_keys_image_len(record.on_chain_nfts);
    let image = record.image();
    let n = record.on_chain_nfts.len() as int;
    assert(record.owner@.len() == 32);
    assert(image.subrange(0, 32) =~= record.owner@);
    assert(image.subrange(32, 36) =~= spec_u32_to_le_bytes(n as u32));
    assert(image.subrange(36, 36 + 32 * n) =~= keys_image(record.on_chain_nfts));
    assert(image.subrange(36 + 32 * n, 44 + 32 * n) =~= time_image(record.created_at));
}

impl UserRecord {
    /// Size in bytes of the region that stores a collection.
    pub const LEN: usize = 32 + 4 + 32 * 10 + 8;

    /// The region that stores the collection.
    ///
    /// Refused as `CapacityExceeded` exactly when the collection has more
    /// entries than the region has room for.
    pub fn encode(&self) -> (outcome: Result<Vec<u8>, HealthNFTError>)
        ensures
            match outcome {
                Ok(region) => self@.fits() && region@ == self@.stored(),
                Err(e) => !self@.fits() && e == HealthNFTError::CapacityExceeded,
            },
    {
        let count = self.on_chain_nfts.len();
        if count > MAX_HELD {
            return Err(HealthNFTError::CapacityExceeded);
        }
        let mut out: Vec<u8> = Vec::new();
        put(&mut out, self.owner.bytes.as_slice());
        put_u32(&mut out, count as u32);
        let ghost head = out@;
        let mut i: usize = 0;
        assert(self.on_chain_nfts@.take(0) =~= Seq::<Pubkey>::empty());
        while i < count
            invariant
                0 <= i <= count == self.on_chain_nfts@.len(),
                out@ == head + keys_image(self.on_chain_nfts@.take(i as int)),
            decreases count - i,
        {
            put(&mut out, self.on_chain_nfts[i].bytes.as_slice());
            proof {
                let seen = self.on_chain_nfts@.take(i + 1);
                assert(seen.drop_last() =~= self.on_chain_nfts@.take(i as int));
                assert(seen.last() == self.on_chain_nfts@[i as int]);
            }
            i = i + 1;
        }
        put_time(&mut out, self.created_at);
        proof {
            assert(self.on_chain_nfts@.take(i as int) =~= self.on_chain_nfts@);
            lemma_user_record_image(self@);
            assert(out@ =~= self@.image());
        }
        pad(&mut out, Self::LEN);
        Ok(out)
    }

    /// Reads the collection that a region stores.
    ///
    /// The result is a collection whose fields the region starts with, if
    /// there is one; else nothing. A region of the wrong size or with a count
    /// of entries above the limit stores no collection.
    pub fn decode(region: &[u8]) -> (out: Option<UserRecord>)
        ensures
            match out {
                Some(record) => record@.is_stored_in(region@),
                None => forall|r: UserRecordView| !r.is_stored_in(region@),
            },
    {
        if region.len() != Self::LEN {
            return None;
        }
        let owner = read_key(region, 0);
        let len = read_u32(region, 32);
        if len > MAX_HELD as u32 {
            proof {
                lemma_auto_spec_u32_to_from_le_bytes();
                assert forall|r: UserRecordView| !r.is_stored_in(region@) by {
                    if r.is_stored_in(region@) {
                        lemma_user_record_image(r);
                        let head = region@.subrange(0, r.image().len() as int);
                        assert(head.subrange(32, 36) =~= region@.subrange(32, 36));
                    }
                }
            }
            return None;
        }
        let count = len as usize;
        let mut on_chain_nfts: Vec<Pubkey> = Vec::new();
        let mut i: usize = 0;
        assert(region@.subrange(36, 36) =~= keys_image(on_chain_nfts@));
        while i < count
            invariant
                0 <= i <= count <= MAX_HELD,
                region@.len() == Self::LEN,
                on_chain_nfts@.len() == i,
                keys_image(on_chain_nfts@) == region@.subrange(36, 36 + 32 * i),
            decreases count - i,
        {
            let key = read_key(region, 36 + 32 * i);
            let ghost before = on_chain_nfts@;
            on_chain_nfts.push(key);
            proof {
                assert(on_chain_nfts@.drop_last() =~= before);
                assert(region@.subrange(36, 36 + 32 * (i + 1)) =~= region@.subrange(
                    36,
                    36 + 32 * i,
                ) + region@.subrange(36 + 32 * i, 36 + 32 * i + 32));
            }
            i = i + 1;
        }
        let created_at = read_time(region, 36 + 32 * count);
        let record = UserRecord { owner, on_chain_nfts, created_at };
        proof {
            lemma_auto_spec_u32_to_from_le_bytes();
            lemma_user_record_image(record@);
            assert(region@.subrange(0, 44 + 32 * count) =~= record@.image());
        }
        Some(record)
    }
}

} // verus!
