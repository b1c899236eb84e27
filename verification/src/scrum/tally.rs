//! The tally of a poll.

use vstd::prelude::*;

use crate::model::views;
use crate::scrum::Availability;
use crate::scrum::AvailabilityView;
use crate::scrum::ParsedScrumReacts;
use crate::scrum::ParsedView;
use crate::scrum::ScrumReact;
use crate::user::User;
use crate::user::UserView;

verus! {

/// Whether the participant `id` stands in the list `signals`.
pub open spec fn has_signal(signals: Seq<i64>, id: int) -> bool {
    exists|j: int| 0 <= j < signals.len() && #[trigger] signals[j] == id
}

/// The class of the participant `id` under the two signal lists. Whoever
/// carries both markers counts as unavailable.
pub open spec fn classify(id: int, positive: Seq<i64>, negative: Seq<i64>) -> ScrumReact {
    if has_signal(negative, id) {
        ScrumReact::Unavailable
    } else if has_signal(positive, id) {
        ScrumReact::Available
    } else {
        ScrumReact::Unknown
    }
}

/// Whether some record of `users` carries the id `id`.
pub open spec fn has_id(users: Seq<UserView>, id: int) -> bool {
    exists|j: int| 0 <= j < users.len() && (#[trigger] users[j]).id == id
}

/// The roster with every participant once: of records that share an id, the
/// first one stands for the participant.
pub open spec fn members(roster: Seq<UserView>) -> Seq<UserView>
    decreases roster.len(),
{
    if roster.len() == 0 {
        Seq::empty()
    } else if has_id(roster.drop_last(), roster.last().id) {
        members(roster.drop_last())
    } else {
        members(roster.drop_last()).push(roster.last())
    }
}

/// The entries of a tally: each member of the roster with its class.
pub open spec fn tally_entries(
    roster: Seq<UserView>,
    positive: Seq<i64>,
    negative: Seq<i64>,
) -> Seq<AvailabilityView> {
    Seq::new(
        members(roster).len(),
        |i: int|
            AvailabilityView {
                user: members(roster)[i],
                react: classify(members(roster)[i].id, positive, negative),
            },
    )
}

/// How many of `entries` stand in the class `react`.
pub open spec fn count_react(entries: Seq<AvailabilityView>, react: ScrumReact) -> nat
    decreases entries.len(),
{
    if entries.len() == 0 {
        0
    } else {
        count_react(entries.drop_last(), react) + if entries.last().react == react {
            1nat
        } else {
            0nat
        }
    }
}

/// The tally of the roster under the two signal lists: every member once,
/// with its class, and the number of members in each class.
pub open spec fn tally_spec(roster: Seq<UserView>, positive: Seq<i64>, negative: Seq<i64>) -> ParsedView {
    let entries = tally_entries(roster, positive, negative);
    ParsedView {
        availability: entries,
        num_available: count_react(entries, ScrumReact::Available),
        num_unavailable: count_react(entries, ScrumReact::Unavailable),
        num_unknown: count_react(entries, ScrumReact::Unknown),
    }
}

impl ParsedView {
    /// No participant is listed twice, and the three counts are those of the
    /// listed answers.
    pub open spec fn wf(&self) -> bool {
        &&& forall|i: int, j: int|
            0 <= i < j < self.availability.len() ==> self.availability[i].user.id
                != self.availability[j].user.id
        &&& self.num_available == count_react(self.availability, ScrumReact::Available)
        &&& self.num_unavailable == count_react(self.availability, ScrumReact::Unavailable)
        &&& self.num_unknown == count_react(self.availability, ScrumReact::Unknown)
    }
}

/// Every id of the roster is the id of one of its members, and the other way round.
pub proof fn lemma_members_ids(roster: Seq<UserView>, id: int)
    ensures
        has_id(members(roster), id) <==> has_id(roster, id),
    decreases roster.len(),
{
    if roster.len() > 0 {
        let front = roster.drop_last();
        let last = roster.last();
        lemma_members_ids(front, id);
        lemma_members_ids(front, last.id);
        if has_id(roster, id) {
            let j = choose|j: int| 0 <= j < roster.len() && (#[trigger] roster[j]).id == id;
            if j < front.len() {
                assert(front[j].id == id);
                let k = choose|k: int|
                    0 <= k < members(front).len() && (#[trigger] members(front)[k]).id == id;
                assert(members(roster)[k].id == id);
            } else if has_id(front, last.id) {
                let k = choose|k: int|
                    0 <= k < members(front).len() && (#[trigger] members(front)[k]).id == id;
                assert(members(roster)[k].id == id);
            } else {
                assert(members(roster)[members(front).len() as int].id == id);
            }
        }
        if has_id(members(roster), id) {
            let k = choose|k: int|
                0 <= k < members(roster).len() && (#[trigger] members(roster)[k]).id == id;
            if k < members(front).len() {
                assert(members(front)[k].id == id);
                let j = choose|j: int| 0 <= j < front.len() && (#[trigger] front[j]).id == id;
                assert(roster[j].id == id);
            } else {
                assert(roster[roster.len() - 1].id == id);
            }
        }
    }
}

/// No two members of a roster share an id, and there are no more members than records.
pub proof fn lemma_members_distinct(roster: Seq<UserView>)
    ensures
        members(roster).len() <= roster.len(),
        forall|i: int, j: int|
            0 <= i < j < members(roster).len() ==> members(roster)[i].id != members(roster)[j].id,
    decreases roster.len(),
{
    if roster.len() > 0 {
        let front = roster.drop_last();
        lemma_members_distinct(front);
        if !has_id(front, roster.last().id) {
            lemma_members_ids(front, roster.last().id);
        }
    }
}

/// The three classes part a tally: every entry is counted in exactly one of them.
pub proof fn lemma_counts_sum(entries: Seq<AvailabilityView>)
    ensures
        count_react(entries, ScrumReact::Available) + count_react(
            entries,
            ScrumReact::Unavailable,
        ) + count_react(entries, ScrumReact::Unknown) == entries.len(),
    decreases entries.len(),
{
    if entries.len() > 0 {
        lemma_counts_sum(entries.drop_last());
    }
}

/// A tally lists every participant of the roster exactly once, in exactly
/// one class, and its three counts add up to the number of participants.
pub proof fn lemma_tally_partitions(roster: Seq<UserView>, positive: Seq<i64>, negative: Seq<i64>)
    ensures
        tally_spec(roster, positive, negative).wf(),
        tally_spec(roster, positive, negative).num_available + tally_spec(
            roster,
            positive,
            negative,
        ).num_unavailable + tally_spec(roster, positive, negative).num_unknown == members(
            roster,
        ).len(),
        forall|id: int|
            has_id(roster, id) <==> exists|j: int|
                0 <= j < tally_entries(roster, positive, negative).len() && (#[trigger] tally_entries(
                    roster,
                    positive,
                    negative,
                )[j]).user.id == id,
{
    let entries = tally_entries(roster, positive, negative);
    lemma_members_distinct(roster);
    lemma_counts_sum(entries);
    assert forall|id: int|
        has_id(roster, id) <==> exists|j: int|
            0 <= j < entries.len() && (#[trigger] entries[j]).user.id == id by {
        lemma_members_ids(roster, id);
        if has_id(members(roster), id) {
            let k = choose|k: int|
                0 <= k < members(roster).len() && (#[trigger] members(roster)[k]).id == id;
            assert(entries[k].user.id == id);
        }
        if exists|j: int| 0 <= j < entries.len() && (#[trigger] entries[j]).user.id == id {
            let j = choose|j: int| 0 <= j < entries.len() && (#[trigger] entries[j]).user.id == id;
            assert(members(roster)[j].id == id);
        }
    }
}

/// The class of a participant does not depend on the order of anything: two
/// tallies over signal lists with the same participants in them give a
/// participant the same class, wherever the participant stands in either roster.
pub proof fn lemma_tally_order_independent(
    roster: Seq<UserView>,
    positive: Seq<i64>,
    negative: Seq<i64>,
    other_roster: Seq<UserView>,
    other_positive: Seq<i64>,
    other_negative: Seq<i64>,
    i: int,
    j: int,
)
    requires
        forall|id: int| has_signal(positive, id) <==> has_signal(other_positive, id),
        forall|id: int| has_signal(negative, id) <==> has_signal(other_negative, id),
        0 <= i < tally_entries(roster, positive, negative).len(),
        0 <= j < tally_entries(other_roster, other_positive, other_negative).len(),
        tally_entries(roster, positive, negative)[i].user.id == tally_entries(
            other_roster,
            other_positive,
            other_negative,
        )[j].user.id,
    ensures
        tally_entries(roster, positive, negative)[i].react == tally_entries(
            other_roster,
            other_positive,
            other_negative,
        )[j].react,
{
}

fn contains_id(ids: &Vec<i64>, id: i64) -> (found: bool)
    ensures
        found == has_signal(ids@, id as int),
{
    let mut i: usize = 0;
    while i < ids.len()
        invariant
            i <= ids.len(),
            forall|j: int| 0 <= j < i ==> ids@[j] != id,
        decreases ids.len() - i,
    {
        if ids[i] == id {
            return true;
        }
        i += 1;
    }
    false
}

fn is_listed(availability: &Vec<Availability>, id: i64) -> (found: bool)
    ensures
        found == exists|j: int|
            0 <= j < availability@.len() && (#[trigger] availability@[j]).user.id == id,
{
    let mut i: usize = 0;
    while i < availability.len()
        invariant
            i <= availability.len(),
            forall|j: int| 0 <= j < i ==> (#[trigger] availability@[j]).user.id != id,
        decreases availability.len() - i,
    {
        if availability[i].user.id == id {
            return true;
        }
        i += 1;
    }
    false
}

/// Classifies every member of `roster` under the signals cast on one poll.
/// `positive` and `negative` hold the ids of the participants behind the two
/// markers; an id that no roster member carries changes nothing.
pub fn tally(roster: &Vec<User>, positive: &Vec<i64>, negative: &Vec<i64>) -> (parsed:
    ParsedScrumReacts)
    ensures
        parsed@ == tally_spec(views(roster@), positive@, negative@),
        parsed@.wf(),
        parsed.num_available + parsed.num_unavailable + parsed.num_unknown
            == parsed.availability@.len(),
{
    let mut availability: Vec<Availability> = Vec::new();
    let mut num_available: usize = 0;
    let mut num_unavailable: usize = 0;
    let mut num_unknown: usize = 0;
    let mut i: usize = 0;
    let ghost all = views(roster@);
    assert(all.take(0) =~= Seq::<UserView>::empty());
    while i < roster.len()
        invariant
            i <= roster.len(),
            all == views(roster@),
            views(availability@) =~= tally_entries(all.take(i as int), positive@, negative@),
            num_available == count_react(views(availability@), ScrumReact::Available),
            num_unavailable == count_react(views(availability@), ScrumReact::Unavailable),
            num_unknown == count_react(views(availability@), ScrumReact::Unknown),
            availability@.len() <= i,
        decreases roster.len() - i,
    {
        let user = &roster[i];
        let ghost seen = all.take(i as int);
        let ghost next = all.take(i + 1);
        proof {
            assert(next.drop_last() =~= seen);
            assert(next.last() == user@);
            lemma_members_ids(seen, user.id as int);
            lemma_counts_sum(views(availability@));
            if has_id(members(seen), user.id as int) {
                let k = choose|k: int|
                    0 <= k < members(seen).len() && (#[trigger] members(seen)[k]).id == user.id;
                assert(views(availability@)[k].user.id == user.id);
                assert(availability@[k].user.id == user.id);
            }
            if exists|j: int|
                0 <= j < availability@.len() && (#[trigger] availability@[j]).user.id == user.id {
                let j = choose|j: int|
                    0 <= j < availability@.len() && (#[trigger] availability@[j]).user.id
                        == user.id;
                assert(views(availability@)[j].user.id == user.id);
                assert(members(seen)[j].id == user.id);
            }
        }
        if !is_listed(&availability, user.id) {
            let react = if contains_id(negative, user.id) {
                num_unavailable += 1;
                ScrumReact::Unavailable
            } else if contains_id(positive, user.id) {
                num_available += 1;
                ScrumReact::Available
            } else {
                num_unknown += 1;
                ScrumReact::Unknown
            };
            let ghost before = views(availability@);
            availability.push(Availability { user: user.clone(), react });
            proof {
                assert(!has_id(seen, user.id as int));
                assert(members(next) =~= members(seen).push(user@));
                assert(views(availability@) =~= before.push(
                    AvailabilityView { user: user@, react },
                ));
                assert(views(availability@).drop_last() =~= before);
                assert(views(availability@) =~= tally_entries(next, positive@, negative@));
            }
        } else {
            proof {
                assert(has_id(seen, user.id as int));
                assert(members(next) =~= members(seen));
                assert(views(availability@) =~= tally_entries(next, positive@, negative@));
            }
        }
        i += 1;
    }
    let parsed = ParsedScrumReacts { availability, num_available, num_unavailable, num_unknown };
    proof {
        assert(all.take(i as int) =~= all);
        lemma_tally_partitions(all, positive@, negative@);
    }
    parsed
}

} // verus!
