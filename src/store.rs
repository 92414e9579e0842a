//! The vote store: one current record per voter, where a later vote from the
//! same voter replaces the earlier one.

use vstd::prelude::*;
use crate::vote::{trimmed, validate, Field, StoreError, Vote, VoteError, VoteRequest};

verus! {

/// A stored record: (voter name, restaurant name).
pub type Row = (Seq<char>, Seq<char>);

/// The records that a sequence of votes stands for.
pub open spec fn rows_of(votes: Seq<Vote>) -> Seq<Row> {
    votes.map_values(|v: Vote| v@)
}

/// No voter has two records.
pub open spec fn voters_unique(rows: Seq<Row>) -> bool {
    forall|i: int, j: int|
        0 <= i < rows.len() && 0 <= j < rows.len() && i != j ==> rows[i].0 != rows[j].0
}

/// Whether `v` has a record in `rows`.
pub open spec fn has_voter(rows: Seq<Row>, v: Seq<char>) -> bool {
    exists|i: int| 0 <= i < rows.len() && rows[i].0 == v
}

/// Create-or-replace: the record of voter `v` now names `r`; a voter without
/// a record gets a new one at the end.
pub open spec fn upserted(rows: Seq<Row>, v: Seq<char>, r: Seq<char>) -> Seq<Row> {
    if has_voter(rows, v) {
        let i = choose|i: int| 0 <= i < rows.len() && rows[i].0 == v;
        rows.update(i, (v, r))
    } else {
        rows.push((v, r))
    }
}

/// The records left by applying each admitted vote of `subs` in order to an
/// empty store.
pub open spec fn stored_after(subs: Seq<Row>) -> Seq<Row>
    decreases subs.len(),
{
    if subs.len() == 0 {
        Seq::empty()
    } else {
        let prev = stored_after(subs.drop_last());
        upserted(prev, subs.last().0, subs.last().1)
    }
}

/// Replacing or adding one record keeps voters unique.
pub proof fn lemma_upserted_unique(rows: Seq<Row>, v: Seq<char>, r: Seq<char>)
    requires
        voters_unique(rows),
    ensures
        voters_unique(upserted(rows, v, r)),
{
}

/// Stores built from admitted votes keep voters unique.
pub proof fn lemma_stored_after_unique(subs: Seq<Row>)
    ensures
        voters_unique(stored_after(subs)),
    decreases subs.len(),
{
    if subs.len() > 0 {
        lemma_stored_after_unique(subs.drop_last());
        lemma_upserted_unique(stored_after(subs.drop_last()), subs.last().0, subs.last().1);
    }
}

/// Copies a vote, string by string.
fn copy_vote(v: &Vote) -> (r: Vote)
    ensures
        r@ == v@,
{
    Vote { voter_name: v.voter_name.clone(), restaurant_name: v.restaurant_name.clone() }
}

/// The current votes, at most one per voter.
pub struct VoteStore {
    votes: Vec<Vote>,
}

impl View for VoteStore {
    type V = Seq<Row>;

    closed spec fn view(&self) -> Seq<Row> {
        rows_of(self.votes@)
    }
}

impl VoteStore {
    /// Well-formed: no voter has two records.
    pub open spec fn wf(&self) -> bool {
        voters_unique(self@)
    }

    /// An empty store.
    pub fn new() -> (r: VoteStore)
        ensures
            r.wf(),
            r@ == Seq::<Row>::empty(),
    {
        let r = VoteStore { votes: Vec::new() };
        assert(r@ =~= Seq::<Row>::empty());
        r
    }

    /// Number of voters with a record.
    pub fn len(&self) -> (r: usize)
        ensures
            r == self@.len(),
    {
        self.votes.len()
    }

    /// Writes an admitted vote: replaces the record of its voter, or adds one.
    pub fn put(&mut self, vote: Vote)
        requires
            old(self).wf(),
        ensures
            final(self).wf(),
            final(self)@ == upserted(old(self)@, vote@.0, vote@.1),
    {
        let ghost rows = self@;
        let ghost vv = vote@;
        let mut i: usize = 0;
        while i < self.votes.len()
            invariant
                i <= self.votes@.len(),
                self@ == rows,
                rows == old(self)@,
                voters_unique(rows),
                vv == vote@,
                forall|k: int| 0 <= k < i ==> rows[k].0 != vote@.0,
            decreases self.votes@.len() - i,
        {
            if self.votes[i].voter_name == vote.voter_name {
                proof {
                    assert(rows[i as int].0 == vv.0);
                    assert(has_voter(rows, vv.0));
                }
                self.votes.set(i, vote);
                proof {
                    let j = choose|j: int| 0 <= j < rows.len() && rows[j].0 == vv.0;
                    assert(j == i);
                    assert(self@ =~= rows.update(i as int, vv));
                    assert(upserted(rows, vv.0, vv.1) == rows.update(i as int, vv));
                    lemma_upserted_unique(rows, vv.0, vv.1);
                }
                return;
            }
            i = i + 1;
        }
        self.votes.push(vote);
        proof {
            assert(!has_voter(rows, vote@.0));
            assert(self@ =~= rows.push(vote@));
            lemma_upserted_unique(rows, vote@.0, vote@.1);
        }
    }

    /// Upsert: trims both names, refuses an empty one, and otherwise replaces
    /// the voter's record or creates it. A refused vote changes nothing.
    pub fn upsert(&mut self, voter_name: &str, restaurant_name: &str) -> (r: Result<(), StoreError>)
        requires
            old(self).wf(),
        ensures
            final(self).wf(),
            trimmed(voter_name@).len() == 0 ==> r == Err::<(), StoreError>(
                StoreError::InvalidInput(Field::VoterName),
            ),
            trimmed(voter_name@).len() > 0 && trimmed(restaurant_name@).len() == 0
                ==> r == Err::<(), StoreError>(StoreError::InvalidInput(Field::RestaurantName)),
            r is Ok <==> trimmed(voter_name@).len() > 0 && trimmed(restaurant_name@).len() > 0,
            r is Ok ==> final(self)@ == upserted(
                old(self)@,
                trimmed(voter_name@),
                trimmed(restaurant_name@),
            ),
            r is Err ==> final(self)@ == old(self)@,
    {
        match validate(voter_name, restaurant_name) {
            Ok(vote) => {
                self.put(vote);
                Ok(())
            },
            Err(f) => Err(StoreError::InvalidInput(f)),
        }
    }

    /// Every current record, in the store's order.
    pub fn fetch_all(&self) -> (r: Vec<Vote>)
        ensures
            rows_of(r@) == self@,
    {
        let mut out: Vec<Vote> = Vec::new();
        let mut i: usize = 0;
        while i < self.votes.len()
            invariant
                i <= self.votes@.len(),
                rows_of(out@) == self@.take(i as int),
            decreases self.votes@.len() - i,
        {
            let v = copy_vote(&self.votes[i]);
            assert(v@ == self@[i as int]);
            let ghost before = out@;
            out.push(v);
            assert(rows_of(out@) =~= rows_of(before).push(v@));
            assert(self@.take(i + 1) =~= self@.take(i as int).push(self@[i as int]));
            i = i + 1;
            assert(rows_of(out@) =~= self@.take(i as int));
        }
        assert(self@.take(i as int) =~= self@);
        out
    }

    /// Loads fetched records, applying them in order as votes; a voter listed
    /// twice keeps the later record.
    pub fn from_rows(rows: Vec<Vote>) -> (r: VoteStore)
        ensures
            r.wf(),
            r@ == stored_after(rows_of(rows@)),
    {
        let mut store = VoteStore::new();
        let ghost subs = rows_of(rows@);
        let mut i: usize = 0;
        while i < rows.len()
            invariant
                i <= rows@.len(),
                subs == rows_of(rows@),
                store.wf(),
                store@ == stored_after(subs.take(i as int)),
            decreases rows@.len() - i,
        {
            store.put(copy_vote(&rows[i]));
            proof {
                assert(subs.take(i + 1).drop_last() =~= subs.take(i as int));
            }
            i = i + 1;
        }
        assert(subs.take(i as int) =~= subs);
        store
    }
}

/// SubmitVote: validates the request, naming the offending field, and writes
/// it through the store's upsert. A refused vote changes nothing.
pub fn submit_vote(store: &mut VoteStore, req: &VoteRequest) -> (r: Result<(), VoteError>)
    requires
        old(store).wf(),
    ensures
        final(store).wf(),
        trimmed(req.voter_name@).len() == 0 ==> r == Err::<(), VoteError>(
            VoteError::InvalidInput(Field::VoterName),
        ),
        trimmed(req.voter_name@).len() > 0 && trimmed(req.restaurant_name@).len() == 0
            ==> r == Err::<(), VoteError>(VoteError::InvalidInput(Field::RestaurantName)),
        r is Ok <==> trimmed(req.voter_name@).len() > 0 && trimmed(req.restaurant_name@).len() > 0,
        r is Ok ==> final(store)@ == upserted(
            old(store)@,
            trimmed(req.voter_name@),
            trimmed(req.restaurant_name@),
        ),
        r is Err ==> final(store)@ == old(store)@,
{
    match store.upsert(req.voter_name.as_str(), req.restaurant_name.as_str()) {
        Ok(()) => Ok(()),
        Err(e) => Err(VoteError::from_store(e)),
    }
}

} // verus!
