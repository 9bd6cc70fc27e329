//! Holder collections: for each owner, the ordered list of certificates the
//! owner has put on record.
//!
//! A collection is a bookkeeping index. Depositing and withdrawing do not ask
//! the token ledger who holds the certificate's unit.

use vstd::prelude::*;
use crate::error::HealthNFTError;
use crate::identity::Pubkey;

verus! {

/// Most certificates a collection holds.
pub const MAX_HELD: usize = 10;

/// The collection of one owner.
#[derive(Clone, Debug, PartialEq, Eq)]
pub struct UserRecord {
    /// Whose collection this is.
    pub owner: Pubkey,
    /// The certificates on record, oldest deposit first.
    pub on_chain_nfts: Vec<Pubkey>,
    /// When the collection was initialized.
    pub created_at: i64,
}

/// A collection as a mathematical value.
pub struct UserRecordView {
    pub owner: Pubkey,
    pub on_chain_nfts: Seq<Pubkey>,
    pub created_at: i64,
}

impl View for UserRecord {
    type V = UserRecordView;

    open spec fn view(&self) -> UserRecordView {
        UserRecordView {
            owner: self.owner,
            on_chain_nfts: self.on_chain_nfts@,
            created_at: self.created_at,
        }
    }
}

/// `held` with every occurrence of `token` taken out, the rest in order.
pub open spec fn without(held: Seq<Pubkey>, token: Pubkey) -> Seq<Pubkey> {
    held.filter(|k: Pubkey| k != token)
}

impl UserRecordView {
    /// No certificate is on record twice, and there are at most [`MAX_HELD`].
    pub open spec fn wf(self) -> bool {
        self.on_chain_nfts.no_duplicates() && self.on_chain_nfts.len() <= MAX_HELD
    }

    /// The empty collection of `owner`, initialized at `now`.
    pub open spec fn empty(owner: Pubkey, now: i64) -> UserRecordView {
        UserRecordView { owner, on_chain_nfts: Seq::empty(), created_at: now }
    }

    /// Whether `token` is on record.
    pub open spec fn holds(self, token: Pubkey) -> bool {
        self.on_chain_nfts.contains(token)
    }

    /// The collection after depositing `token`: refused as a duplicate if the
    /// token is on record, refused for capacity if the collection is full,
    /// else the token is appended.
    pub open spec fn deposit(self, token: Pubkey) -> Result<UserRecordView, HealthNFTError> {
        if self.holds(token) {
            Err(HealthNFTError::DuplicateEntry)
        } else if self.on_chain_nfts.len() >= MAX_HELD {
            Err(HealthNFTError::CapacityExceeded)
        } else {
            Ok(UserRecordView { on_chain_nfts: self.on_chain_nfts.push(token), ..self })
        }
    }

    /// The collection after withdrawing `token`.
    pub open spec fn withdraw(self, token: Pubkey) -> UserRecordView {
        UserRecordView { on_chain_nfts: without(self.on_chain_nfts, token), ..self }
    }
}

impl UserRecord {
    /// A new, empty collection for `owner`.
    pub fn new(owner: Pubkey, now: i64) -> (record: UserRecord)
        ensures
            record@ == UserRecordView::empty(owner, now),
            record@.wf(),
    {
        UserRecord { owner, on_chain_nfts: Vec::new(), created_at: now }
    }

    /// Whether `token` is on record.
    pub fn holds(&self, token: &Pubkey) -> (found: bool)
        ensures
            found == self@.holds(*token),
    {
        let mut i: usize = 0;
        while i < self.on_chain_nfts.len()
            invariant
                0 <= i <= self.on_chain_nfts.len(),
                forall|j: int| 0 <= j < i ==> self.on_chain_nfts@[j] != *token,
            decreases self.on_chain_nfts.len() - i,
        {
            if self.on_chain_nfts[i] == *token {
                return true;
            }
            i = i + 1;
        }
        false
    }

    /// Puts `token` on record, at the end.
    ///
    /// Refused with `DuplicateEntry` if the token is already on record, and
    /// with `CapacityExceeded` if the collection is full. A refused deposit
    /// leaves the collection as it was.
    pub fn deposit(&mut self, token: Pubkey) -> (outcome: Result<(), HealthNFTError>)
        ensures
            match outcome {
                Ok(()) => old(self)@.deposit(token) == Ok::<UserRecordView, HealthNFTError>(
                    final(self)@,
                ),
                Err(e) => old(self)@.deposit(token) == Err::<UserRecordView, HealthNFTError>(e)
                    && *final(self) == *old(self),
            },
            old(self)@.wf() ==> final(self)@.wf(),
    {
        if self.holds(&token) {
            return Err(HealthNFTError::DuplicateEntry);
        }
        if self.on_chain_nfts.len() >= MAX_HELD {
            return Err(HealthNFTError::CapacityExceeded);
        }
        self.on_chain_nfts.push(token);
        Ok(())
    }

    /// Takes every occurrence of `token` off the record. Taking off a token
    /// that is not on record changes nothing.
    pub fn withdraw(&mut self, token: &Pubkey)
        ensures
            final(self)@ == old(self)@.withdraw(*token),
            old(self)@.wf() ==> final(self)@.wf(),
    {
        let mut kept: Vec<Pubkey> = Vec::new();
        let mut i: usize = 0;
        assert(self.on_chain_nfts@.take(0) =~= Seq::<Pubkey>::empty());
        assert(without(Seq::<Pubkey>::empty(), *token) =~= Seq::<Pubkey>::empty()) by {
            reveal(Seq::filter);
        }
        while i < self.on_chain_nfts.len()
            invariant
                0 <= i <= self.on_chain_nfts.len(),
                kept@ == without(self.on_chain_nfts@.take(i as int), *token),
            decreases self.on_chain_nfts.len() - i,
        {
            let entry = self.on_chain_nfts[i];
            proof {
                let seen = self.on_chain_nfts@.take(i as int);
                assert(self.on_chain_nfts@.take(i + 1) =~= seen.push(entry));
                lemma_without_push(seen, entry, *token);
            }
            if entry != *token {
                kept.push(entry);
            }
            i = i + 1;
        }
        proof {
            assert(self.on_chain_nfts@.take(i as int) =~= self.on_chain_nfts@);
            if self@.wf() {
                lemma_without_unique(self.on_chain_nfts@, *token);
            }
        }
        self.on_chain_nfts = kept;
    }
}

/// Taking a token out of a list that ends in `last` takes it out of the front
/// part and keeps `last` unless `last` is the token.
pub proof fn lemma_without_push(held: Seq<Pubkey>, last: Pubkey, token: Pubkey)
    ensures
        without(held.push(last), token) == if last == token {
            without(held, token)
        } else {
            without(held, token).push(last)
        },
{
    reveal(Seq::filter);
    assert(held.push(last).drop_last() =~= held);
}

/// After a token is taken out it is no longer there, every other entry still
/// is, and nothing new has appeared.
pub proof fn lemma_without_contains(held: Seq<Pubkey>, token: Pubkey, other: Pubkey)
    ensures
        without(held, token).contains(other) <==> (held.contains(other) && other != token),
    decreases held.len(),
{
    if held.len() == 0 {
        reveal(Seq::filter);
    } else {
        let front = held.drop_last();
        let last = held.last();
        let kept = without(front, token);
        assert(held =~= front.push(last));
        lemma_without_contains(front, token, other);
        lemma_without_push(front, last, token);
        lemma_push_contains(front, last, other);
        lemma_push_contains(kept, last, other);
    }
}

/// A list with one more entry at the end holds what the list held, and the
/// new entry.
proof fn lemma_push_contains(held: Seq<Pubkey>, last: Pubkey, other: Pubkey)
    ensures
        held.push(last).contains(other) <==> (held.contains(other) || other == last),
{
    let longer = held.push(last);
    if held.contains(other) {
        let i = choose|i: int| 0 <= i < held.len() && held[i] == other;
        assert(longer[i] == other);
    }
    if other == last {
        assert(longer[held.len() as int] == other);
    }
    if longer.contains(other) {
        let i = choose|i: int| 0 <= i < longer.len() && longer[i] == other;
        if i < held.len() {
            assert(held[i] == other);
        }
    }
}

/// Taking out a token that is not on record changes nothing.
pub proof fn lemma_without_absent(held: Seq<Pubkey>, token: Pubkey)
    requires
        !held.contains(token),
    ensures
        without(held, token) == held,
    decreases held.len(),
{
    if held.len() == 0 {
        reveal(Seq::filter);
    } else {
        let front = held.drop_last();
        let last = held.last();
        assert(held =~= front.push(last));
        lemma_push_contains(front, last, token);
        lemma_without_absent(front, token);
        lemma_without_push(front, last, token);
    }
}

/// Taking a token out of a list without repeats leaves a list without
/// repeats that is shorter by one if the token was there.
pub proof fn lemma_without_unique(held: Seq<Pubkey>, token: Pubkey)
    requires
        held.no_duplicates(),
    ensures
        without(held, token).no_duplicates(),
        without(held, token).len() == if held.contains(token) {
            held.len() - 1
        } else {
            held.len() as int
        },
    decreases held.len(),
{
    if held.len() == 0 {
        reveal(Seq::filter);
    } else {
        let front = held.drop_last();
        let last = held.last();
        assert(held =~= front.push(last));
        assert(!front.contains(last)) by {
            if front.contains(last) {
                let i = choose|i: int| 0 <= i < front.len() && front[i] == last;
                assert(held[i] == held[held.len() - 1]);
            }
        }
        lemma_without_unique(front, token);
        lemma_without_push(front, last, token);
        lemma_without_contains(front, token, last);
        lemma_push_contains(front, last, token);
    }
}

} // verus!
