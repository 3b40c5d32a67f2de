use tracksync::membership::MembershipSet;

#[test]
fn new_set_is_empty() {
    let set = MembershipSet::new();
    assert_eq!(set.len(), 0);
    assert!(!set.contains("abc"));
}

#[test]
fn first_claim_wins_and_later_claims_lose() {
    let mut set = MembershipSet::new();
    assert!(set.insert_if_absent("abc"));
    assert!(!set.insert_if_absent("abc"));
    assert!(!set.insert_if_absent("abc"));
    assert!(set.contains("abc"));
    assert_eq!(set.len(), 1);
}

#[test]
fn exactly_one_of_many_claims_wins() {
    let mut set = MembershipSet::new();
    let mut wins = 0;
    for _ in 0..100 {
        if set.insert_if_absent("abc") {
            wins += 1;
        }
    }
    assert_eq!(wins, 1);
    assert!(set.contains("abc"));
}

#[test]
fn claims_for_other_identifiers_do_not_interfere() {
    let mut set = MembershipSet::new();
    let order = ["a", "b", "a", "c", "b", "a"];
    let won: Vec<bool> = order.iter().map(|id| set.insert_if_absent(id)).collect();
    assert_eq!(won, vec![true, true, false, true, false, false]);
    assert_eq!(set.len(), 3);
}

#[test]
fn identifiers_are_compared_exactly() {
    let mut set = MembershipSet::new();
    assert!(set.insert_if_absent("abc"));
    assert!(set.insert_if_absent("ABC"));
    assert!(set.insert_if_absent("abc?si=1"));
    assert!(!set.contains("ab"));
}

#[test]
fn listing_seeds_the_set() {
    let listing = vec![Some("a".to_string()), None, Some("b".to_string()), Some("a".to_string())];
    let mut set = MembershipSet::from_listing(&listing);
    assert_eq!(set.len(), 2);
    assert!(set.contains("a"));
    assert!(set.contains("b"));
    assert!(!set.insert_if_absent("a"));
    assert!(set.insert_if_absent("c"));
}

#[test]
fn empty_listing_seeds_nothing() {
    let set = MembershipSet::from_listing(&Vec::new());
    assert_eq!(set.len(), 0);
}

#[test]
fn absorb_keeps_what_was_known() {
    let mut set = MembershipSet::new();
    assert!(set.insert_if_absent("x"));
    set.absorb(&vec![Some("y".to_string()), None]);
    assert!(set.contains("x"));
    assert!(set.contains("y"));
    assert_eq!(set.len(), 2);
}
