//! Rosters as sequences of members: what it means to add, remove and
//! compare by id, and the laws that these operations obey.

use vstd::prelude::*;
use crate::chat::{Member, MemberView};

verus! {

/// The models of a sequence of members, in order.
pub open spec fn roster_view(members: Seq<Member>) -> Seq<MemberView> {
    members.map_values(|m: Member| m@)
}

/// Whether some member of `roster` carries `id`.
pub open spec fn roster_has(roster: Seq<MemberView>, id: Seq<char>) -> bool {
    exists|i: int| 0 <= i < roster.len() && (#[trigger] roster[i]).id == id
}

/// No two entries of `roster` carry the same id.
pub open spec fn roster_unique(roster: Seq<MemberView>) -> bool {
    forall|i: int, j: int|
        0 <= i < j < roster.len() ==> (#[trigger] roster[i]).id != (#[trigger] roster[j]).id
}

/// `roster` after `member` was offered to it: unchanged where the id is
/// already known, else with `member` at the end.
pub open spec fn roster_add(roster: Seq<MemberView>, member: MemberView) -> Seq<MemberView> {
    if roster_has(roster, member.id) {
        roster
    } else {
        roster.push(member)
    }
}

/// The roster that results where the entries of `members` are offered, one
/// after the other, to an empty roster: of entries with the same id the
/// first stays.
pub open spec fn roster_from(members: Seq<MemberView>) -> Seq<MemberView>
    decreases members.len(),
{
    if members.len() == 0 {
        Seq::empty()
    } else {
        roster_add(roster_from(members.drop_last()), members.last())
    }
}

/// `roster` without the entries that carry `id`, the others in order.
pub open spec fn roster_remove(roster: Seq<MemberView>, id: Seq<char>) -> Seq<MemberView> {
    roster.filter(|m: MemberView| m.id != id)
}

/// The entries of `remote` whose id no entry of `local` carries, in order.
pub open spec fn roster_diff(local: Seq<MemberView>, remote: Seq<MemberView>) -> Seq<MemberView> {
    remote.filter(|m: MemberView| !roster_has(local, m.id))
}

/// How many entries of `roster` carry `id`.
pub open spec fn roster_count(roster: Seq<MemberView>, id: Seq<char>) -> nat {
    roster.filter(|m: MemberView| m.id == id).len()
}

/// Every prefix of a roster without repeated ids has none either.
pub proof fn lemma_front_of_unique_roster(roster: Seq<MemberView>)
    requires
        roster_unique(roster),
        roster.len() > 0,
    ensures
        roster_unique(roster.drop_last()),
{
    let front = roster.drop_last();
    assert forall|i: int, j: int| 0 <= i < j < front.len() implies (#[trigger] front[i]).id != (
    #[trigger] front[j]).id by {
        assert(front[i] == roster[i] && front[j] == roster[j]);
    }
}

/// In a roster without repeated ids, an id is carried by one entry or by none.
pub proof fn lemma_count_in_unique_roster(roster: Seq<MemberView>, id: Seq<char>)
    requires
        roster_unique(roster),
    ensures
        roster_count(roster, id) == if roster_has(roster, id) { 1nat } else { 0nat },
    decreases roster.len(),
{
    reveal(Seq::filter);
    if roster.len() > 0 {
        let front = roster.drop_last();
        lemma_front_of_unique_roster(roster);
        lemma_count_in_unique_roster(front, id);
        if roster_has(front, id) {
            let i = choose|i: int| 0 <= i < front.len() && (#[trigger] front[i]).id == id;
            assert(roster[i].id == id);
        } else if roster.last().id != id && roster_has(roster, id) {
            let i = choose|i: int| 0 <= i < roster.len() && (#[trigger] roster[i]).id == id;
            assert(front[i].id == id);
        }
    }
}

/// Adding is idempotent by id: once a member was offered to a roster,
/// offering a member with the same id again changes nothing, and the roster
/// holds exactly one entry for that id.
pub proof fn lemma_add_member_idempotent(
    roster: Seq<MemberView>,
    first: MemberView,
    second: MemberView,
)
    requires
        roster_unique(roster),
        first.id == second.id,
    ensures
        roster_unique(roster_add(roster, first)),
        roster_add(roster_add(roster, first), second) == roster_add(roster, first),
        roster_count(roster_add(roster_add(roster, first), second), first.id) == 1,
{
    let once = roster_add(roster, first);
    if !roster_has(roster, first.id) {
        assert(once[roster.len() as int].id == first.id);
        assert forall|i: int, j: int| 0 <= i < j < once.len() implies (#[trigger] once[i]).id != (
        #[trigger] once[j]).id by {
            assert(once[i] == roster[i]);
        }
    }
    lemma_count_in_unique_roster(once, first.id);
}

/// A list without repeated ids is the roster that results from it.
pub proof fn lemma_roster_from_unique(members: Seq<MemberView>)
    requires
        roster_unique(members),
    ensures
        roster_from(members) == members,
    decreases members.len(),
{
    if members.len() > 0 {
        let front = members.drop_last();
        lemma_front_of_unique_roster(members);
        lemma_roster_from_unique(front);
        if roster_has(front, members.last().id) {
            let i = choose|i: int|
                0 <= i < front.len() && (#[trigger] front[i]).id == members.last().id;
            assert(members[i].id == members[members.len() - 1].id);
        }
    }
}

/// Filtering a roster without repeated ids leaves one without repeated ids,
/// whose entries all come from the roster and satisfy the filter.
pub proof fn lemma_filter_of_unique_roster(roster: Seq<MemberView>, pred: spec_fn(MemberView) -> bool)
    requires
        roster_unique(roster),
    ensures
        roster_unique(roster.filter(pred)),
        forall|j: int|
            0 <= j < roster.filter(pred).len() ==> pred(#[trigger] roster.filter(pred)[j])
                && roster_has(roster, roster.filter(pred)[j].id),
    decreases roster.len(),
{
    reveal(Seq::filter);
    if roster.len() > 0 {
        let front = roster.drop_last();
        let kept = front.filter(pred);
        lemma_front_of_unique_roster(roster);
        lemma_filter_of_unique_roster(front, pred);
        assert forall|j: int| 0 <= j < kept.len() implies roster_has(roster, (#[trigger] kept[j]).id)
            && kept[j].id != roster.last().id by {
            let k = choose|k: int| 0 <= k < front.len() && (#[trigger] front[k]).id == kept[j].id;
            assert(roster[k].id == kept[j].id);
        }
    }
}

/// The difference against a roster without repeated ids has no repeated ids
/// and no id that the local roster holds.
pub proof fn lemma_diff_is_new_and_unique(local: Seq<MemberView>, remote: Seq<MemberView>)
    requires
        roster_unique(remote),
    ensures
        roster_unique(roster_diff(local, remote)),
        forall|j: int|
            0 <= j < roster_diff(local, remote).len() ==> !roster_has(
                local,
                (#[trigger] roster_diff(local, remote)[j]).id,
            ),
{
    lemma_filter_of_unique_roster(remote, |m: MemberView| !roster_has(local, m.id));
}

/// What a filter keeps: each kept element satisfies the filter and comes
/// from the sequence, and each element of the sequence that satisfies the
/// filter is kept.
pub proof fn lemma_filter_members<A>(s: Seq<A>, pred: spec_fn(A) -> bool)
    ensures
        forall|j: int|
            0 <= j < s.filter(pred).len() ==> pred(#[trigger] s.filter(pred)[j]) && s.contains(
                s.filter(pred)[j],
            ),
        forall|k: int| 0 <= k < s.len() && pred(#[trigger] s[k]) ==> s.filter(pred).contains(s[k]),
    decreases s.len(),
{
    reveal(Seq::filter);
    if s.len() > 0 {
        let front = s.drop_last();
        let kept_front = front.filter(pred);
        let kept = s.filter(pred);
        lemma_filter_members(front, pred);
        assert forall|j: int| 0 <= j < kept.len() implies pred(#[trigger] kept[j]) && s.contains(
            kept[j],
        ) by {
            if j < kept_front.len() {
                let k = choose|k: int| 0 <= k < front.len() && front[k] == kept_front[j];
                assert(s[k] == kept[j]);
            } else {
                assert(s[s.len() - 1] == kept[j]);
            }
        }
        assert forall|k: int| 0 <= k < s.len() && pred(#[trigger] s[k]) implies kept.contains(
            s[k],
        ) by {
            if k < front.len() {
                let j = choose|j: int| 0 <= j < kept_front.len() && kept_front[j] == front[k];
                assert(kept[j] == s[k]);
            } else {
                assert(kept[kept.len() - 1] == s[k]);
            }
        }
    }
}

/// Removing an id leaves no entry that carries it, and leaves every other
/// id in the roster or out of it as it was.
pub proof fn lemma_removed_member_is_gone(roster: Seq<MemberView>, id: Seq<char>)
    ensures
        !roster_has(roster_remove(roster, id), id),
        forall|other: Seq<char>|
            other != id ==> (#[trigger] roster_has(roster_remove(roster, id), other)) == roster_has(
                roster,
                other,
            ),
{
    let kept = roster_remove(roster, id);
    lemma_filter_members(roster, |m: MemberView| m.id != id);
    assert forall|other: Seq<char>| other != id implies (#[trigger] roster_has(kept, other))
        == roster_has(roster, other) by {
        if roster_has(kept, other) {
            let j = choose|j: int| 0 <= j < kept.len() && (#[trigger] kept[j]).id == other;
            let k = choose|k: int| 0 <= k < roster.len() && roster[k] == kept[j];
            assert(roster[k].id == other);
        }
        if roster_has(roster, other) {
            let k = choose|k: int| 0 <= k < roster.len() && (#[trigger] roster[k]).id == other;
            let j = choose|j: int| 0 <= j < kept.len() && kept[j] == roster[k];
            assert(kept[j].id == other);
        }
    }
}

/// Where no remote id is known locally, the difference is the whole remote
/// roster.
pub proof fn lemma_diff_of_disjoint_rosters(local: Seq<MemberView>, remote: Seq<MemberView>)
    requires
        forall|i: int| 0 <= i < remote.len() ==> !roster_has(local, (#[trigger] remote[i]).id),
    ensures
        roster_diff(local, remote) == remote,
    decreases remote.len(),
{
    reveal(Seq::filter);
    if remote.len() > 0 {
        let front = remote.drop_last();
        assert forall|i: int| 0 <= i < front.len() implies !roster_has(
            local,
            (#[trigger] front[i]).id,
        ) by {
            assert(front[i] == remote[i]);
        }
        lemma_diff_of_disjoint_rosters(local, front);
        assert(front.push(remote.last()) =~= remote);
    }
}

/// Where every remote id is known locally, the difference is empty.
pub proof fn lemma_diff_of_overlapping_rosters(local: Seq<MemberView>, remote: Seq<MemberView>)
    requires
        forall|i: int| 0 <= i < remote.len() ==> roster_has(local, (#[trigger] remote[i]).id),
    ensures
        roster_diff(local, remote) == Seq::<MemberView>::empty(),
    decreases remote.len(),
{
    reveal(Seq::filter);
    if remote.len() > 0 {
        let front = remote.drop_last();
        assert forall|i: int| 0 <= i < front.len() implies roster_has(
            local,
            (#[trigger] front[i]).id,
        ) by {
            assert(front[i] == remote[i]);
        }
        lemma_diff_of_overlapping_rosters(local, front);
    }
}

/// One step of a filter that walks a sequence from the front.
pub proof fn lemma_filter_take_step<A>(s: Seq<A>, i: int, pred: spec_fn(A) -> bool)
    requires
        0 <= i < s.len(),
    ensures
        s.take(i + 1).filter(pred) == if pred(s[i]) {
            s.take(i).filter(pred).push(s[i])
        } else {
            s.take(i).filter(pred)
        },
{
    reveal(Seq::filter);
    assert(s.take(i + 1).drop_last() =~= s.take(i));
}

} // verus!
