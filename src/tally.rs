//! The tally: current votes grouped by restaurant, and the winners.

use vstd::prelude::*;
use crate::store::{rows_of, Row, VoteStore};
use crate::vote::Vote;

verus! {

/// The character sequences held by a sequence of strings.
pub open spec fn texts(v: Seq<String>) -> Seq<Seq<char>> {
    v.map_values(|s: String| s@)
}

/// The restaurants named in `rows`, each once, in order of first appearance.
pub open spec fn restaurants_of(rows: Seq<Row>) -> Seq<Seq<char>>
    decreases rows.len(),
{
    if rows.len() == 0 {
        Seq::empty()
    } else {
        let prev = restaurants_of(rows.drop_last());
        if prev.contains(rows.last().1) {
            prev
        } else {
            prev.push(rows.last().1)
        }
    }
}

/// The voters whose record names restaurant `r`, in record order.
pub open spec fn voters_for(rows: Seq<Row>, r: Seq<char>) -> Seq<Seq<char>>
    decreases rows.len(),
{
    if rows.len() == 0 {
        Seq::empty()
    } else {
        let prev = voters_for(rows.drop_last(), r);
        if rows.last().1 == r {
            prev.push(rows.last().0)
        } else {
            prev
        }
    }
}

/// A tally entry in the abstract: (restaurant, its voters).
pub type Entry = (Seq<char>, Seq<Seq<char>>);

/// The tally of `rows`: one entry per restaurant named, in order of first
/// appearance, with the voters for it. A restaurant nobody votes for has no
/// entry.
pub open spec fn tally_of(rows: Seq<Row>) -> Seq<Entry> {
    restaurants_of(rows).map_values(|r: Seq<char>| (r, voters_for(rows, r)))
}

/// The largest number of voters of any entry (zero for no entries).
pub open spec fn max_votes(t: Seq<Entry>) -> nat
    decreases t.len(),
{
    if t.len() == 0 {
        0
    } else {
        let prev = max_votes(t.drop_last());
        if t.last().1.len() > prev {
            t.last().1.len()
        } else {
            prev
        }
    }
}

/// The restaurants of the entries with exactly `n` voters, in tally order.
pub open spec fn with_votes(t: Seq<Entry>, n: nat) -> Seq<Seq<char>>
    decreases t.len(),
{
    if t.len() == 0 {
        Seq::empty()
    } else {
        let prev = with_votes(t.drop_last(), n);
        if t.last().1.len() == n {
            prev.push(t.last().0)
        } else {
            prev
        }
    }
}

/// The winners of a tally: every restaurant with the most voters, ties all
/// included, in tally order; none for an empty tally.
pub open spec fn winners_of(t: Seq<Entry>) -> Seq<Seq<char>> {
    if t.len() == 0 {
        Seq::empty()
    } else {
        with_votes(t, max_votes(t))
    }
}

/// One restaurant and the voters currently choosing it.
#[derive(Clone, Debug)]
pub struct TallyEntry {
    pub restaurant: String,
    pub voters: Vec<String>,
}

impl View for TallyEntry {
    type V = Entry;

    open spec fn view(&self) -> Entry {
        (self.restaurant@, texts(self.voters@))
    }
}

/// The current votes grouped by restaurant.
#[derive(Clone, Debug)]
pub struct Tally {
    pub entries: Vec<TallyEntry>,
}

impl View for Tally {
    type V = Seq<Entry>;

    open spec fn view(&self) -> Seq<Entry> {
        self.entries@.map_values(|e: TallyEntry| e@)
    }
}

/// Whether `names` holds a string equal to `s`.
fn contains_text(names: &Vec<String>, s: &String) -> (r: bool)
    ensures
        r == texts(names@).contains(s@),
{
    let mut j: usize = 0;
    while j < names.len()
        invariant
            j <= names@.len(),
            forall|k: int| 0 <= k < j ==> names@[k]@ != s@,
        decreases names@.len() - j,
    {
        if names[j] == *s {
            assert(texts(names@)[j as int] == s@);
            return true;
        }
        j = j + 1;
    }
    proof {
        if texts(names@).contains(s@) {
            let k = choose|k: int| 0 <= k < texts(names@).len() && texts(names@)[k] == s@;
            assert(names@[k]@ == s@);
        }
    }
    false
}

/// The restaurants named in `rows`, each once, in order of first appearance.
pub fn restaurants_in(rows: &Vec<Vote>) -> (r: Vec<String>)
    ensures
        texts(r@) == restaurants_of(rows_of(rows@)),
{
    let ghost all = rows_of(rows@);
    let mut names: Vec<String> = Vec::new();
    let mut i: usize = 0;
    while i < rows.len()
        invariant
            i <= rows@.len(),
            all == rows_of(rows@),
            texts(names@) == restaurants_of(all.take(i as int)),
        decreases rows@.len() - i,
    {
        proof {
            assert(all.take(i + 1).drop_last() =~= all.take(i as int));
        }
        let name = &rows[i].restaurant_name;
        if !contains_text(&names, name) {
            let ghost before = names@;
            names.push(name.clone());
            assert(texts(names@) =~= texts(before).push(name@));
        }
        i = i + 1;
    }
    assert(all.take(i as int) =~= all);
    names
}

/// The voters whose record names `restaurant`, in record order.
pub fn voters_in(rows: &Vec<Vote>, restaurant: &String) -> (r: Vec<String>)
    ensures
        texts(r@) == voters_for(rows_of(rows@), restaurant@),
{
    let ghost all = rows_of(rows@);
    let mut voters: Vec<String> = Vec::new();
    let mut i: usize = 0;
    while i < rows.len()
        invariant
            i <= rows@.len(),
            all == rows_of(rows@),
            texts(voters@) == voters_for(all.take(i as int), restaurant@),
        decreases rows@.len() - i,
    {
        proof {
            assert(all.take(i + 1).drop_last() =~= all.take(i as int));
        }
        if rows[i].restaurant_name == *restaurant {
            let ghost before = voters@;
            voters.push(rows[i].voter_name.clone());
            assert(texts(voters@) =~= texts(before).push(rows@[i as int].voter_name@));
        }
        i = i + 1;
    }
    assert(all.take(i as int) =~= all);
    voters
}

/// Groups records by restaurant: one entry per restaurant named, in order of
/// first appearance, each with its voters in record order.
pub fn tally_rows(rows: &Vec<Vote>) -> (r: Tally)
    ensures
        r@ == tally_of(rows_of(rows@)),
{
    let ghost all = rows_of(rows@);
    let names = restaurants_in(rows);
    let mut entries: Vec<TallyEntry> = Vec::new();
    let mut j: usize = 0;
    while j < names.len()
        invariant
            j <= names@.len(),
            all == rows_of(rows@),
            texts(names@) == restaurants_of(all),
            entries@.map_values(|e: TallyEntry| e@) == tally_of(all).take(j as int),
        decreases names@.len() - j,
    {
        let voters = voters_in(rows, &names[j]);
        let entry = TallyEntry { restaurant: names[j].clone(), voters };
        let ghost before = entries@;
        entries.push(entry);
        assert(entries@.map_values(|e: TallyEntry| e@) =~= before.map_values(
            |e: TallyEntry| e@,
        ).push(entry@));
        assert(texts(names@)[j as int] == names@[j as int]@);
        assert(tally_of(all).take(j + 1) =~= tally_of(all).take(j as int).push(entry@));
        j = j + 1;
    }
    let r = Tally { entries };
    assert(tally_of(all).take(j as int) =~= tally_of(all));
    r
}

/// ComputeTally: groups the store's current records by restaurant. An empty
/// store gives a tally with no entries.
pub fn compute_tally(store: &VoteStore) -> (r: Tally)
    ensures
        r@ == tally_of(store@),
        store@.len() == 0 ==> r@.len() == 0,
{
    let rows = store.fetch_all();
    tally_rows(&rows)
}

/// Winner: every restaurant with the most voters, ties all reported, in
/// tally order; none when the tally is empty.
pub fn winners(tally: &Tally) -> (r: Vec<String>)
    ensures
        texts(r@) == winners_of(tally@),
{
    let ghost t = tally@;
    let mut out: Vec<String> = Vec::new();
    if tally.entries.len() == 0 {
        assert(texts(out@) =~= Seq::<Seq<char>>::empty());
        return out;
    }
    let mut best: usize = 0;
    let mut i: usize = 0;
    while i < tally.entries.len()
        invariant
            i <= tally.entries@.len(),
            t == tally@,
            best == max_votes(t.take(i as int)),
        decreases tally.entries@.len() - i,
    {
        proof {
            assert(t.take(i + 1).drop_last() =~= t.take(i as int));
        }
        let n = tally.entries[i].voters.len();
        if n > best {
            best = n;
        }
        i = i + 1;
    }
    assert(t.take(i as int) =~= t);
    let mut k: usize = 0;
    while k < tally.entries.len()
        invariant
            k <= tally.entries@.len(),
            t == tally@,
            best == max_votes(t),
            texts(out@) == with_votes(t.take(k as int), best as nat),
        decreases tally.entries@.len() - k,
    {
        proof {
            assert(t.take(k + 1).drop_last() =~= t.take(k as int));
        }
        let e = &tally.entries[k];
        if e.voters.len() == best {
            let ghost before = out@;
            out.push(e.restaurant.clone());
            assert(texts(out@) =~= texts(before).push(e.restaurant@));
        }
        k = k + 1;
    }
    assert(t.take(k as int) =~= t);
    out
}

} // verus!
