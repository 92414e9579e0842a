use lunch_vote::store::{submit_vote, VoteStore};
use lunch_vote::tally::{compute_tally, tally_rows, winners, Tally};
use lunch_vote::vote::{validate, Field, StoreError, Vote, VoteError, VoteRequest};

fn req(voter: &str, restaurant: &str) -> VoteRequest {
    VoteRequest { voter_name: voter.to_string(), restaurant_name: restaurant.to_string() }
}

fn vote(voter: &str, restaurant: &str) -> Vote {
    Vote { voter_name: voter.to_string(), restaurant_name: restaurant.to_string() }
}

fn submit_all(store: &mut VoteStore, votes: &[(&str, &str)]) {
    for (v, r) in votes {
        assert_eq!(submit_vote(store, &req(v, r)), Ok(()));
    }
}

fn shape(t: &Tally) -> Vec<(String, Vec<String>)> {
    t.entries.iter().map(|e| (e.restaurant.clone(), e.voters.clone())).collect()
}

fn owned(entries: &[(&str, &[&str])]) -> Vec<(String, Vec<String>)> {
    entries
        .iter()
        .map(|(r, vs)| (r.to_string(), vs.iter().map(|v| v.to_string()).collect()))
        .collect()
}

#[test]
fn three_voters_two_restaurants() {
    let mut store = VoteStore::new();
    submit_all(&mut store, &[("alice", "Pizza Place"), ("bob", "Pizza Place"), ("carol", "Taco Spot")]);
    let t = compute_tally(&store);
    assert_eq!(
        shape(&t),
        owned(&[("Pizza Place", &["alice", "bob"]), ("Taco Spot", &["carol"])])
    );
    assert_eq!(winners(&t), vec!["Pizza Place".to_string()]);
}

#[test]
fn revote_moves_voter_and_drops_empty_restaurant() {
    let mut store = VoteStore::new();
    submit_all(&mut store, &[("alice", "Pizza Place"), ("alice", "Taco Spot")]);
    let t = compute_tally(&store);
    assert_eq!(shape(&t), owned(&[("Taco Spot", &["alice"])]));
    assert_eq!(store.len(), 1);
    assert_eq!(winners(&t), vec!["Taco Spot".to_string()]);
}

#[test]
fn revote_keeps_one_entry_for_the_voter() {
    let mut store = VoteStore::new();
    submit_all(
        &mut store,
        &[("bob", "Noodle Bar"), ("alice", "Pizza Place"), ("carol", "Pizza Place"), ("alice", "Noodle Bar")],
    );
    let t = compute_tally(&store);
    let listed: Vec<&String> = t
        .entries
        .iter()
        .flat_map(|e| e.voters.iter())
        .filter(|v| v.as_str() == "alice")
        .collect();
    assert_eq!(listed.len(), 1);
    assert_eq!(
        shape(&t),
        owned(&[("Noodle Bar", &["bob", "alice"]), ("Pizza Place", &["carol"])])
    );
}

#[test]
fn empty_store_tally_has_no_entries() {
    let store = VoteStore::new();
    let t = compute_tally(&store);
    assert!(t.entries.is_empty());
    assert!(winners(&t).is_empty());
    assert!(store.fetch_all().is_empty());
}

#[test]
fn distinct_voters_never_exceed_submitted() {
    let mut store = VoteStore::new();
    let votes = [
        ("a", "X"),
        ("b", "Y"),
        ("a", "Y"),
        ("c", "X"),
        ("b", "Z"),
        ("c", "X"),
        ("a", "X"),
    ];
    submit_all(&mut store, &votes);
    let t = compute_tally(&store);
    let total: usize = t.entries.iter().map(|e| e.voters.len()).sum();
    assert_eq!(total, 3);
    assert_eq!(shape(&t), owned(&[("X", &["a", "c"]), ("Z", &["b"])]));
}

#[test]
fn many_voters_one_restaurant_any_order() {
    let names = ["v3", "v1", "v4", "v0", "v2"];
    let mut store = VoteStore::new();
    for n in names.iter() {
        assert_eq!(submit_vote(&mut store, &req(n, "Curry House")), Ok(()));
    }
    let t = compute_tally(&store);
    assert_eq!(t.entries.len(), 1);
    assert_eq!(t.entries[0].restaurant, "Curry House");
    assert_eq!(t.entries[0].voters.len(), names.len());
    assert_eq!(t.entries[0].voters, names.iter().map(|n| n.to_string()).collect::<Vec<_>>());
}

#[test]
fn blank_voter_is_rejected_without_mutation() {
    let mut store = VoteStore::new();
    submit_all(&mut store, &[("alice", "Pizza Place")]);
    assert_eq!(
        submit_vote(&mut store, &req("   ", "Taco Spot")),
        Err(VoteError::InvalidInput(Field::VoterName))
    );
    assert_eq!(
        submit_vote(&mut store, &req("", "")),
        Err(VoteError::InvalidInput(Field::VoterName))
    );
    assert_eq!(shape(&compute_tally(&store)), owned(&[("Pizza Place", &["alice"])]));
}

#[test]
fn blank_restaurant_is_rejected_without_mutation() {
    let mut store = VoteStore::new();
    submit_all(&mut store, &[("alice", "Pizza Place")]);
    assert_eq!(
        submit_vote(&mut store, &req("alice", " \t\n")),
        Err(VoteError::InvalidInput(Field::RestaurantName))
    );
    assert_eq!(
        store.upsert("bob", ""),
        Err(StoreError::InvalidInput(Field::RestaurantName))
    );
    assert_eq!(store.len(), 1);
    assert_eq!(shape(&compute_tally(&store)), owned(&[("Pizza Place", &["alice"])]));
}

#[test]
fn names_are_trimmed_before_storing() {
    let mut store = VoteStore::new();
    submit_all(&mut store, &[("  alice ", " Pizza Place\t"), ("alice", "Taco Spot ")]);
    let rows = store.fetch_all();
    assert_eq!(rows.len(), 1);
    assert_eq!(rows[0].voter_name, "alice");
    assert_eq!(rows[0].restaurant_name, "Taco Spot");
}

#[test]
fn validate_trims_and_names_the_field() {
    let v = validate(" bob ", " Sushi ").unwrap();
    assert_eq!(v.voter_name, "bob");
    assert_eq!(v.restaurant_name, "Sushi");
    assert_eq!(validate(" ", "Sushi").unwrap_err(), Field::VoterName);
    assert_eq!(validate("bob", "  ").unwrap_err(), Field::RestaurantName);
}

#[test]
fn store_errors_map_to_caller_errors() {
    assert_eq!(VoteError::from_store(StoreError::Backend), VoteError::StorageFailure);
    assert_eq!(
        VoteError::from_store(StoreError::InvalidInput(Field::RestaurantName)),
        VoteError::InvalidInput(Field::RestaurantName)
    );
}

#[test]
fn ties_report_every_winner() {
    let mut store = VoteStore::new();
    submit_all(
        &mut store,
        &[("a", "Pizza Place"), ("b", "Taco Spot"), ("c", "Sushi"), ("d", "Taco Spot"), ("e", "Pizza Place")],
    );
    let t = compute_tally(&store);
    assert_eq!(winners(&t), vec!["Pizza Place".to_string(), "Taco Spot".to_string()]);
}

#[test]
fn fetch_all_keeps_first_write_position() {
    let mut store = VoteStore::new();
    submit_all(&mut store, &[("a", "X"), ("b", "Y"), ("a", "Z")]);
    let rows = store.fetch_all();
    let pairs: Vec<(String, String)> =
        rows.iter().map(|v| (v.voter_name.clone(), v.restaurant_name.clone())).collect();
    assert_eq!(
        pairs,
        vec![("a".to_string(), "Z".to_string()), ("b".to_string(), "Y".to_string())]
    );
}

#[test]
fn from_rows_keeps_the_later_record() {
    let store = VoteStore::from_rows(vec![vote("a", "X"), vote("b", "Y"), vote("a", "Y")]);
    assert_eq!(store.len(), 2);
    assert_eq!(shape(&compute_tally(&store)), owned(&[("Y", &["a", "b"])]));
}

#[test]
fn tally_rows_groups_in_first_seen_order() {
    let rows = vec![vote("p", "B"), vote("q", "A"), vote("r", "B")];
    let t = tally_rows(&rows);
    assert_eq!(shape(&t), owned(&[("B", &["p", "r"]), ("A", &["q"])]));
}
