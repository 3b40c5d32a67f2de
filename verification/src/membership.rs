//! The membership set: which track identifiers the playlist holds already,
//! with a claim operation that succeeds once for each identifier.

use crate::extract::TrackIdentifier;
use vstd::hash_set::StringHashSet;
use vstd::prelude::*;

verus! {

/// Identifiers that are in the playlist already or have been claimed for it.
///
/// The set only grows. Claiming goes through [`MembershipSet::insert_if_absent`],
/// which looks up and inserts in one step on an exclusive borrow, so two callers
/// can never both see an identifier as absent.
pub struct MembershipSet {
    present: StringHashSet,
}

impl View for MembershipSet {
    type V = Set<Seq<char>>;

    closed spec fn view(&self) -> Set<Seq<char>> {
        self.present@
    }
}

/// The outcome of one claim on a set of identifiers: the set afterwards, and
/// whether the claim found the identifier absent.
pub open spec fn claim(members: Set<Seq<char>>, id: Seq<char>) -> (Set<Seq<char>>, bool) {
    (members.insert(id), !members.contains(id))
}

/// The set after a run of claims, made one after the other.
pub open spec fn claim_all(members: Set<Seq<char>>, ids: Seq<Seq<char>>) -> Set<Seq<char>>
    decreases ids.len(),
{
    if ids.len() == 0 {
        members
    } else {
        claim(claim_all(members, ids.drop_last()), ids.last()).0
    }
}

/// Whether the `i`-th of a run of claims finds its identifier absent.
pub open spec fn wins_at(members: Set<Seq<char>>, ids: Seq<Seq<char>>, i: int) -> bool {
    claim(claim_all(members, ids.take(i)), ids[i]).1
}

/// The identifiers of a listing whose entries may lack one.
pub open spec fn listed(listing: Seq<Option<Seq<char>>>) -> Set<Seq<char>> {
    Set::new(|id: Seq<char>| listing.contains(Some(id)))
}

impl MembershipSet {
    /// An empty set.
    pub fn new() -> (set: Self)
        ensures
            set@ == Set::<Seq<char>>::empty(),
    {
        MembershipSet { present: StringHashSet::new() }
    }

    /// The set that holds the identifiers of a listing. Entries without an
    /// identifier are passed over.
    pub fn from_listing(listing: &Vec<Option<TrackIdentifier>>) -> (set: Self)
        ensures
            set@ == listed(listing.deep_view()),
    {
        let mut set = MembershipSet::new();
        set.absorb(listing);
        assert(Set::<Seq<char>>::empty().union(listed(listing.deep_view())) == listed(
            listing.deep_view(),
        ));
        set
    }

    /// Adds the identifiers of a listing to the set. Entries without an
    /// identifier are passed over.
    pub fn absorb(&mut self, listing: &Vec<Option<TrackIdentifier>>)
        ensures
            final(self)@ == old(self)@.union(listed(listing.deep_view())),
    {
        let ghost start = self@;
        let mut i: usize = 0;
        while i < listing.len()
            invariant
                i <= listing.len(),
                self@ == start.union(listed(listing.deep_view().take(i as int))),
            decreases listing.len() - i,
        {
            proof {
                lemma_listed_step(listing.deep_view(), i as int);
            }
            match &listing[i] {
                Some(id) => {
                    self.insert_if_absent(id.as_str());
                },
                None => {},
            }
            i += 1;
        }
        proof {
            assert(listing.deep_view().take(listing.len() as int) == listing.deep_view());
        }
    }

    /// Whether `id` is in the set.
    pub fn contains(&self, id: &str) -> (present: bool)
        ensures
            present == self@.contains(id@),
    {
        self.present.contains(id)
    }

    /// Puts `id` into the set and says whether this call was the one that
    /// found it absent. The caller that gets `true` owns the append of `id`.
    pub fn insert_if_absent(&mut self, id: &str) -> (won: bool)
        ensures
            (final(self)@, won) == claim(old(self)@, id@),
    {
        self.present.insert(id.to_owned())
    }

    /// The number of identifiers in the set.
    pub fn len(&self) -> (n: usize)
        ensures
            n == self@.len(),
    {
        self.present.len()
    }
}

/// Taking one more entry of a listing adds that entry's identifier, if it
/// has one.
proof fn lemma_listed_step(listing: Seq<Option<Seq<char>>>, i: int)
    requires
        0 <= i < listing.len(),
    ensures
        listed(listing.take(i + 1)) == match listing[i] {
            Some(id) => listed(listing.take(i)).insert(id),
            None => listed(listing.take(i)),
        },
{
    let shorter = listing.take(i);
    let longer = listing.take(i + 1);
    let grown = match listing[i] {
        Some(id) => listed(shorter).insert(id),
        None => listed(shorter),
    };
    assert forall|id: Seq<char>| listed(longer).contains(id) <==> grown.contains(id) by {
        if longer.contains(Some(id)) {
            let k = choose|k: int| 0 <= k < longer.len() && longer[k] == Some(id);
            if k < i {
            }
        }
        if shorter.contains(Some(id)) {
            let k = choose|k: int| 0 <= k < shorter.len() && shorter[k] == Some(id);
        }
        if listing[i] == Some(id) {
            assert(longer[i] == Some(id));
        }
    }
}

/// A run of claims leaves the set holding what it held before and every
/// identifier claimed.
pub proof fn law_claims_accumulate(members: Set<Seq<char>>, ids: Seq<Seq<char>>)
    ensures
        claim_all(members, ids) == members.union(ids.to_set()),
    decreases ids.len(),
{
    if ids.len() == 0 {
    } else {
        let before = ids.drop_last();
        law_claims_accumulate(members, before);
        assert forall|id: Seq<char>| ids.to_set().contains(id) <==> (before.to_set().contains(id)
            || id == ids.last()) by {
            if ids.to_set().contains(id) {
                let k = choose|k: int| 0 <= k < ids.len() && ids[k] == id;
                if k < ids.len() - 1 {
                    assert(before[k] == id);
                }
            }
            if before.to_set().contains(id) {
                let k = choose|k: int| 0 <= k < before.len() && before[k] == id;
            }
            if id == ids.last() {
            }
        }
    }
}

/// One winner. Take any run of claims on one set, in which `id` is claimed
/// at least once and was absent at the start. Exactly one of the claims for
/// `id` wins, the earliest, and `id` is in the set once the run is over.
///
/// Claims take the set by exclusive borrow, so however many callers there
/// are, their claims on one set happen in some order: every execution is such
/// a run.
pub proof fn law_single_winner(members: Set<Seq<char>>, ids: Seq<Seq<char>>, id: Seq<char>) -> (winner:
    int)
    requires
        ids.contains(id),
        !members.contains(id),
    ensures
        0 <= winner < ids.len(),
        ids[winner] == id,
        wins_at(members, ids, winner),
        forall|i: int| 0 <= i < ids.len() && ids[i] == id && i != winner ==> !wins_at(members, ids, i),
        claim_all(members, ids).contains(id),
{
    let winner = ids.index_of_first(id).unwrap();
    ids.index_of_first_ensures(id);
    law_claims_accumulate(members, ids);
    law_claims_accumulate(members, ids.take(winner));
    assert(!ids.take(winner).to_set().contains(id)) by {
        if ids.take(winner).to_set().contains(id) {
            let k = choose|k: int| 0 <= k < ids.take(winner).len() && ids.take(winner)[k] == id;
        }
    }
    assert forall|i: int| 0 <= i < ids.len() && ids[i] == id && i != winner implies !wins_at(
        members,
        ids,
        i,
    ) by {
        law_claims_accumulate(members, ids.take(i));
        assert(ids.take(i)[winner] == id);
    }
    winner
}

/// No claim wins for an identifier that the set held at the start, and the
/// set holds it still at the end: a known member is never claimed again.
pub proof fn law_member_never_wins(members: Set<Seq<char>>, ids: Seq<Seq<char>>, id: Seq<char>)
    requires
        members.contains(id),
    ensures
        forall|i: int| 0 <= i < ids.len() && ids[i] == id ==> !wins_at(members, ids, i),
        claim_all(members, ids).contains(id),
{
    law_claims_accumulate(members, ids);
    assert forall|i: int| 0 <= i < ids.len() && ids[i] == id implies !wins_at(members, ids, i) by {
        law_claims_accumulate(members, ids.take(i));
    }
}

} // verus!
