//! What holds of the tally for any history of admitted votes.

use vstd::prelude::*;
use crate::store::{has_voter, lemma_stored_after_unique, lemma_upserted_unique, stored_after, upserted, voters_unique, Row};
use crate::tally::{restaurants_of, tally_of, voters_for, Entry};

verus! {

/// The voters listed anywhere in a tally.
pub open spec fn tally_voters(t: Seq<Entry>) -> Set<Seq<char>> {
    Set::new(|v: Seq<char>| exists|i: int| 0 <= i < t.len() && t[i].1.contains(v))
}

/// The distinct voters of a sequence of votes.
pub open spec fn submitted_voters(subs: Seq<Row>) -> Set<Seq<char>> {
    Set::new(|v: Seq<char>| exists|i: int| 0 <= i < subs.len() && subs[i].0 == v)
}

/// A restaurant is listed exactly when some record names it, and only once.
pub proof fn lemma_restaurants_of(rows: Seq<Row>)
    ensures
        restaurants_of(rows).no_duplicates(),
        forall|r: Seq<char>|
            restaurants_of(rows).contains(r) <==> exists|i: int|
                0 <= i < rows.len() && rows[i].1 == r,
    decreases rows.len(),
{
    if rows.len() > 0 {
        let prev = rows.drop_last();
        lemma_restaurants_of(prev);
        let pr = restaurants_of(prev);
        let cur = restaurants_of(rows);
        let last = rows.last().1;
        assert(rows[rows.len() - 1].1 == last);
        assert forall|r: Seq<char>|
            cur.contains(r) <==> exists|i: int| 0 <= i < rows.len() && rows[i].1 == r by {
            if exists|i: int| 0 <= i < rows.len() && rows[i].1 == r {
                let i = choose|i: int| 0 <= i < rows.len() && rows[i].1 == r;
                if i < prev.len() {
                    assert(prev[i].1 == r);
                    assert(pr.contains(r));
                    let k = choose|k: int| 0 <= k < pr.len() && pr[k] == r;
                    assert(cur[k] == r);
                } else if !pr.contains(last) {
                    assert(cur[cur.len() - 1] == r);
                }
            }
            if cur.contains(r) {
                let k = choose|k: int| 0 <= k < cur.len() && cur[k] == r;
                if k < pr.len() {
                    assert(pr[k] == r);
                    assert(pr.contains(r));
                    let i = choose|i: int| 0 <= i < prev.len() && prev[i].1 == r;
                    assert(rows[i].1 == r);
                } else {
                    assert(r == last);
                }
            }
        }
    }
}

/// A voter is listed for `r` exactly when its record names `r`; with one
/// record per voter, nobody is listed twice.
pub proof fn lemma_voters_for(rows: Seq<Row>, r: Seq<char>)
    ensures
        forall|v: Seq<char>|
            voters_for(rows, r).contains(v) <==> exists|i: int|
                0 <= i < rows.len() && rows[i].0 == v && rows[i].1 == r,
        voters_unique(rows) ==> voters_for(rows, r).no_duplicates(),
    decreases rows.len(),
{
    if rows.len() > 0 {
        let prev = rows.drop_last();
        lemma_voters_for(prev, r);
        let pv = voters_for(prev, r);
        let cur = voters_for(rows, r);
        let last = rows.last();
        assert(rows[rows.len() - 1] == last);
        assert forall|v: Seq<char>|
            cur.contains(v) <==> exists|i: int|
                0 <= i < rows.len() && rows[i].0 == v && rows[i].1 == r by {
            if exists|i: int| 0 <= i < rows.len() && rows[i].0 == v && rows[i].1 == r {
                let i = choose|i: int| 0 <= i < rows.len() && rows[i].0 == v && rows[i].1 == r;
                if i < prev.len() {
                    assert(prev[i].0 == v && prev[i].1 == r);
                    assert(pv.contains(v));
                    let k = choose|k: int| 0 <= k < pv.len() && pv[k] == v;
                    assert(cur[k] == v);
                } else {
                    assert(cur[cur.len() - 1] == v);
                }
            }
            if cur.contains(v) {
                let k = choose|k: int| 0 <= k < cur.len() && cur[k] == v;
                if k < pv.len() {
                    assert(pv[k] == v);
                    assert(pv.contains(v));
                    let i = choose|i: int| 0 <= i < prev.len() && prev[i].0 == v && prev[i].1 == r;
                    assert(rows[i] == prev[i]);
                } else {
                    assert(last.0 == v && last.1 == r);
                }
            }
        }
        if voters_unique(rows) {
            assert(voters_unique(prev));
            if rows.last().1 == r {
                let last = rows.last().0;
                if voters_for(prev, r).contains(last) {
                    let i = choose|i: int| 0 <= i < prev.len() && prev[i].0 == last && prev[i].1 == r;
                    assert(rows[i].0 == rows[rows.len() - 1].0);
                }
            }
        }
    }
}

/// After an upsert the voter has exactly the new record, and everyone else
/// keeps theirs.
pub proof fn lemma_upserted_record(rows: Seq<Row>, v: Seq<char>, r: Seq<char>)
    requires
        voters_unique(rows),
    ensures
        exists|k: int| 0 <= k < upserted(rows, v, r).len() && upserted(rows, v, r)[k] == (v, r),
        forall|k: int|
            0 <= k < upserted(rows, v, r).len() && upserted(rows, v, r)[k].0 == v
                ==> upserted(rows, v, r)[k].1 == r,
        forall|w: Seq<char>| has_voter(upserted(rows, v, r), w) <==> (has_voter(rows, w) || w == v),
{
    let u = upserted(rows, v, r);
    if has_voter(rows, v) {
        let i = choose|i: int| 0 <= i < rows.len() && rows[i].0 == v;
        assert(u[i] == (v, r));
        assert forall|w: Seq<char>| has_voter(u, w) <==> (has_voter(rows, w) || w == v) by {
            if has_voter(rows, w) {
                let j = choose|j: int| 0 <= j < rows.len() && rows[j].0 == w;
                assert(u[j].0 == w);
            }
            if has_voter(u, w) {
                let j = choose|j: int| 0 <= j < u.len() && u[j].0 == w;
                if j != i {
                    assert(rows[j].0 == w);
                }
            }
        }
    } else {
        assert(u[rows.len() as int] == (v, r));
        assert forall|w: Seq<char>| has_voter(u, w) <==> (has_voter(rows, w) || w == v) by {
            if has_voter(rows, w) {
                let j = choose|j: int| 0 <= j < rows.len() && rows[j].0 == w;
                assert(u[j].0 == w);
            }
            if has_voter(u, w) {
                let j = choose|j: int| 0 <= j < u.len() && u[j].0 == w;
                if j < rows.len() {
                    assert(rows[j].0 == w);
                }
            }
        }
    }
}

/// The voters with a record are exactly those who voted.
pub proof fn lemma_stored_after_voters(subs: Seq<Row>)
    ensures
        forall|w: Seq<char>| has_voter(stored_after(subs), w) <==> submitted_voters(subs).contains(w),
    decreases subs.len(),
{
    if subs.len() > 0 {
        let prev = subs.drop_last();
        lemma_stored_after_voters(prev);
        lemma_stored_after_unique(prev);
        lemma_upserted_record(stored_after(prev), subs.last().0, subs.last().1);
        assert forall|w: Seq<char>|
            has_voter(stored_after(subs), w) <==> submitted_voters(subs).contains(w) by {
            if submitted_voters(prev).contains(w) {
                let i = choose|i: int| 0 <= i < prev.len() && prev[i].0 == w;
                assert(subs[i].0 == w);
            }
            if submitted_voters(subs).contains(w) {
                let i = choose|i: int| 0 <= i < subs.len() && subs[i].0 == w;
                if i < prev.len() {
                    assert(prev[i].0 == w);
                } else {
                    assert(w == subs.last().0);
                }
            }
        }
    }
}

/// With one record per voter, each tally entry lists exactly the voters whose
/// record names its restaurant, once each; restaurants are listed once; and a
/// voter listed in two entries is listed in one.
pub proof fn lemma_tally_shape(rows: Seq<Row>)
    requires
        voters_unique(rows),
    ensures
        forall|i: int, v: Seq<char>|
            0 <= i < tally_of(rows).len() ==> (tally_of(rows)[i].1.contains(v) <==> exists|k: int|
                0 <= k < rows.len() && rows[k].0 == v && rows[k].1 == tally_of(rows)[i].0),
        forall|i: int| 0 <= i < tally_of(rows).len() ==> tally_of(rows)[i].1.no_duplicates(),
        forall|i: int, j: int|
            0 <= i < tally_of(rows).len() && 0 <= j < tally_of(rows).len() && i != j
                ==> tally_of(rows)[i].0 != tally_of(rows)[j].0,
        forall|i: int, j: int, v: Seq<char>|
            0 <= i < tally_of(rows).len() && 0 <= j < tally_of(rows).len()
                && tally_of(rows)[i].1.contains(v) && tally_of(rows)[j].1.contains(v) ==> i == j,
        forall|k: int|
            0 <= k < rows.len() ==> exists|i: int|
                0 <= i < tally_of(rows).len() && tally_of(rows)[i].0 == #[trigger] rows[k].1
                    && tally_of(rows)[i].1.contains(rows[k].0),
{
    let t = tally_of(rows);
    let names = restaurants_of(rows);
    lemma_restaurants_of(rows);
    assert forall|i: int| 0 <= i < t.len() implies t[i] == (names[i], voters_for(rows, names[i])) by {}
    assert forall|i: int, v: Seq<char>|
        0 <= i < t.len() implies (t[i].1.contains(v) <==> exists|k: int|
            0 <= k < rows.len() && rows[k].0 == v && rows[k].1 == t[i].0) by {
        lemma_voters_for(rows, names[i]);
    }
    assert forall|i: int| 0 <= i < t.len() implies t[i].1.no_duplicates() by {
        lemma_voters_for(rows, names[i]);
    }
    assert forall|i: int, j: int, v: Seq<char>|
        0 <= i < t.len() && 0 <= j < t.len() && t[i].1.contains(v) && t[j].1.contains(v)
            implies i == j by {
        let ki = choose|k: int| 0 <= k < rows.len() && rows[k].0 == v && rows[k].1 == t[i].0;
        let kj = choose|k: int| 0 <= k < rows.len() && rows[k].0 == v && rows[k].1 == t[j].0;
        assert(ki == kj);
    }
    assert forall|k: int| 0 <= k < rows.len() implies exists|i: int|
        0 <= i < t.len() && t[i].0 == #[trigger] rows[k].1 && t[i].1.contains(rows[k].0) by {
        assert(names.contains(rows[k].1));
        let i = choose|i: int| 0 <= i < names.len() && names[i] == rows[k].1;
        assert(t[i].1.contains(rows[k].0));
    }
}

/// No voter is duplicated or invented: for any sequence of admitted votes,
/// the voters listed in the tally of the resulting store are exactly the
/// distinct voters who voted, each under one restaurant and once there. So
/// the tally never holds more distinct voters than were submitted.
pub proof fn law_tally_voters_are_submitted_voters(subs: Seq<Row>)
    ensures
        tally_voters(tally_of(stored_after(subs))) == submitted_voters(subs),
        tally_voters(tally_of(stored_after(subs))).len() <= submitted_voters(subs).len(),
        forall|i: int, j: int, v: Seq<char>|
            0 <= i < tally_of(stored_after(subs)).len() && 0 <= j < tally_of(stored_after(subs)).len()
                && tally_of(stored_after(subs))[i].1.contains(v) && tally_of(
                stored_after(subs),
            )[j].1.contains(v) ==> i == j,
        forall|i: int|
            0 <= i < tally_of(stored_after(subs)).len() ==> tally_of(
                stored_after(subs),
            )[i].1.no_duplicates(),
{
    let rows = stored_after(subs);
    let t = tally_of(rows);
    lemma_stored_after_unique(subs);
    lemma_stored_after_voters(subs);
    lemma_tally_shape(rows);
    assert forall|v: Seq<char>| tally_voters(t).contains(v) <==> submitted_voters(subs).contains(v) by {
        if tally_voters(t).contains(v) {
            let i = choose|i: int| 0 <= i < t.len() && t[i].1.contains(v);
            let k = choose|k: int| 0 <= k < rows.len() && rows[k].0 == v && rows[k].1 == t[i].0;
            assert(has_voter(rows, v));
        }
        if submitted_voters(subs).contains(v) {
            assert(has_voter(rows, v));
            let k = choose|k: int| 0 <= k < rows.len() && rows[k].0 == v;
            let i = choose|i: int|
                0 <= i < t.len() && t[i].0 == rows[k].1 && t[i].1.contains(rows[k].0);
            assert(tally_voters(t).contains(v));
        }
    }
    assert(tally_voters(t) =~= submitted_voters(subs));
}

/// Last write wins: when a voter votes twice, the tally lists that voter under
/// the second restaurant and nowhere else, once, and each restaurant has one
/// entry.
pub proof fn law_last_vote_wins(rows: Seq<Row>, a: Seq<char>, r1: Seq<char>, r2: Seq<char>)
    requires
        voters_unique(rows),
    ensures
        exists|i: int|
            0 <= i < tally_of(upserted(upserted(rows, a, r1), a, r2)).len() && tally_of(
                upserted(upserted(rows, a, r1), a, r2),
            )[i].0 == r2 && tally_of(upserted(upserted(rows, a, r1), a, r2))[i].1.contains(a),
        forall|i: int|
            0 <= i < tally_of(upserted(upserted(rows, a, r1), a, r2)).len() && tally_of(
                upserted(upserted(rows, a, r1), a, r2),
            )[i].1.contains(a) ==> tally_of(upserted(upserted(rows, a, r1), a, r2))[i].0 == r2,
        forall|i: int, j: int|
            0 <= i < tally_of(upserted(upserted(rows, a, r1), a, r2)).len() && 0 <= j < tally_of(
                upserted(upserted(rows, a, r1), a, r2),
            ).len() && i != j ==> tally_of(upserted(upserted(rows, a, r1), a, r2))[i].0
                != tally_of(upserted(upserted(rows, a, r1), a, r2))[j].0,
        forall|i: int|
            0 <= i < tally_of(upserted(upserted(rows, a, r1), a, r2)).len() ==> tally_of(
                upserted(upserted(rows, a, r1), a, r2),
            )[i].1.no_duplicates(),
{
    let once = upserted(rows, a, r1);
    lemma_upserted_unique(rows, a, r1);
    let twice = upserted(once, a, r2);
    lemma_upserted_unique(once, a, r2);
    lemma_upserted_record(once, a, r2);
    lemma_tally_shape(twice);
    let t = tally_of(twice);
    let k = choose|k: int| 0 <= k < twice.len() && twice[k] == (a, r2);
    assert(twice[k].1 == r2 && twice[k].0 == a);
    assert forall|i: int| 0 <= i < t.len() && t[i].1.contains(a) implies t[i].0 == r2 by {
        let m = choose|m: int| 0 <= m < twice.len() && twice[m].0 == a && twice[m].1 == t[i].0;
    }
}

/// Any number of distinct voters choosing one restaurant, in any order, give
/// a tally of exactly one entry: that restaurant, with exactly those voters.
pub proof fn law_one_restaurant_many_voters(voters: Seq<Seq<char>>, r: Seq<char>)
    requires
        voters.no_duplicates(),
        voters.len() > 0,
    ensures
        tally_of(stored_after(voters.map_values(|v: Seq<char>| (v, r)))) == seq![(r, voters)],
        tally_of(stored_after(voters.map_values(|v: Seq<char>| (v, r))))[0].1.len() == voters.len(),
{
    let subs = voters.map_values(|v: Seq<char>| (v, r));
    assert(voters_unique(subs));
    lemma_stored_after_fresh(subs);
    lemma_one_restaurant(subs, r);
    assert(subs.map_values(|x: Row| x.0) =~= voters);
    assert(tally_of(subs) =~= seq![(r, voters)]);
}

/// With one record per voter, applying the records in order as votes gives
/// them back unchanged.
pub proof fn lemma_stored_after_fresh(subs: Seq<Row>)
    requires
        voters_unique(subs),
    ensures
        stored_after(subs) == subs,
    decreases subs.len(),
{
    if subs.len() > 0 {
        let prev = subs.drop_last();
        assert(voters_unique(prev));
        lemma_stored_after_fresh(prev);
        assert(!has_voter(prev, subs.last().0)) by {
            if has_voter(prev, subs.last().0) {
                let i = choose|i: int| 0 <= i < prev.len() && prev[i].0 == subs.last().0;
                assert(subs[i].0 == subs[subs.len() - 1].0);
            }
        }
        assert(prev.push((subs.last().0, subs.last().1)) =~= subs);
    }
}

/// Records that all name `r` list `r` alone, with every voter in order.
pub proof fn lemma_one_restaurant(rows: Seq<Row>, r: Seq<char>)
    requires
        rows.len() > 0,
        forall|i: int| 0 <= i < rows.len() ==> rows[i].1 == r,
    ensures
        restaurants_of(rows) == seq![r],
        voters_for(rows, r) == rows.map_values(|x: Row| x.0),
    decreases rows.len(),
{
    let prev = rows.drop_last();
    assert(rows[rows.len() - 1].1 == r);
    if prev.len() > 0 {
        lemma_one_restaurant(prev, r);
        assert(seq![r].contains(r)) by {
            assert(seq![r][0] == r);
        }
    } else {
        assert(restaurants_of(prev) =~= Seq::<Seq<char>>::empty());
        assert(voters_for(prev, r) =~= Seq::<Seq<char>>::empty());
        assert(seq![r] =~= Seq::<Seq<char>>::empty().push(r));
    }
    assert(rows.map_values(|x: Row| x.0) =~= prev.map_values(|x: Row| x.0).push(rows.last().0));
}

} // verus!
