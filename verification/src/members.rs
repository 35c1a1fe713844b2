//! The members of an object read as a map: which keys occur, what a list
//! with one member for each key looks like, and how to get there.
//!
//! A list of members stands for the map that [`lookup`] reads from it: a key
//! has the value of its last member. A list is settled when each key occurs
//! once; settling a list keeps that map.

use crate::json::{
    lemma_array_view, lemma_object_view, lookup, member_models, models, same_text, Json,
    JsonModel,
};
use vstd::prelude::*;

verus! {

/// Whether no two members of a list have the same key.
pub open spec fn distinct_keys(members: Seq<(Seq<char>, JsonModel)>) -> bool
    decreases members.len(),
{
    members.len() == 0 || (distinct_keys(members.drop_last()) && lookup(
        members.drop_last(),
        members.last().0,
    ) is None)
}

/// The test that a member passes when its key is not the given one.
pub open spec fn other_key(key: Seq<char>) -> spec_fn((Seq<char>, JsonModel)) -> bool {
    |member: (Seq<char>, JsonModel)| member.0 != key
}

/// The list with one member for each key: every member replaces an earlier
/// one of its key and stands at the end.
pub open spec fn one_per_key(members: Seq<(Seq<char>, JsonModel)>) -> Seq<(Seq<char>, JsonModel)>
    decreases members.len(),
{
    if members.len() == 0 {
        members
    } else {
        one_per_key(members.drop_last()).filter(other_key(members.last().0)).push(members.last())
    }
}

/// A key that a member has is found.
pub proof fn lemma_lookup_present(members: Seq<(Seq<char>, JsonModel)>, i: int)
    requires
        0 <= i < members.len(),
    ensures
        lookup(members, members[i].0) is Some,
    decreases members.len(),
{
    if members.last().0 != members[i].0 {
        lemma_lookup_present(members.drop_last(), i);
    }
}

/// A key that is not found is the key of no member.
pub proof fn lemma_lookup_none(members: Seq<(Seq<char>, JsonModel)>, key: Seq<char>)
    requires
        lookup(members, key) is None,
    ensures
        forall|i: int| 0 <= i < members.len() ==> (#[trigger] members[i]).0 != key,
{
    assert forall|i: int| 0 <= i < members.len() implies (#[trigger] members[i]).0 != key by {
        lemma_lookup_present(members, i);
    }
}

/// In a list with distinct keys, two members at different places have
/// different keys.
pub proof fn lemma_distinct_pairwise(members: Seq<(Seq<char>, JsonModel)>, i: int, j: int)
    requires
        distinct_keys(members),
        0 <= i < j < members.len(),
    ensures
        members[i].0 != members[j].0,
    decreases members.len(),
{
    if j == members.len() - 1 {
        lemma_lookup_none(members.drop_last(), members.last().0);
        assert(members.drop_last()[i] == members[i]);
    } else {
        lemma_distinct_pairwise(members.drop_last(), i, j);
    }
}

/// The beginning of a list with distinct keys has distinct keys.
pub proof fn lemma_distinct_prefix(members: Seq<(Seq<char>, JsonModel)>, n: int)
    requires
        distinct_keys(members),
        0 <= n <= members.len(),
    ensures
        distinct_keys(members.take(n)),
    decreases members.len(),
{
    if n == members.len() {
        assert(members.take(n) =~= members);
    } else {
        assert(members.drop_last().take(n) =~= members.take(n));
        lemma_distinct_prefix(members.drop_last(), n);
    }
}

/// Leaving out the members of one key leaves the other keys as they were.
pub proof fn lemma_lookup_without(
    members: Seq<(Seq<char>, JsonModel)>,
    key: Seq<char>,
    other: Seq<char>,
)
    ensures
        lookup(members.filter(other_key(key)), other) == if other == key {
            None
        } else {
            lookup(members, other)
        },
    decreases members.len(),
{
    reveal(Seq::filter);
    if members.len() > 0 {
        let rest = members.drop_last();
        lemma_lookup_without(rest, key, other);
        if members.last().0 != key {
            let kept = rest.filter(other_key(key)).push(members.last());
            assert(kept.drop_last() =~= rest.filter(other_key(key)));
        }
    }
}

/// Leaving out the members of one key keeps distinct keys distinct.
pub proof fn lemma_distinct_without(members: Seq<(Seq<char>, JsonModel)>, key: Seq<char>)
    requires
        distinct_keys(members),
    ensures
        distinct_keys(members.filter(other_key(key))),
    decreases members.len(),
{
    reveal(Seq::filter);
    if members.len() > 0 {
        let rest = members.drop_last();
        lemma_distinct_without(rest, key);
        if members.last().0 != key {
            let kept = rest.filter(other_key(key)).push(members.last());
            assert(kept.drop_last() =~= rest.filter(other_key(key)));
            lemma_lookup_without(rest, key, members.last().0);
        }
    }
}

/// Leaving out the members of a key that no member has leaves the list as
/// it was.
pub proof fn lemma_without_absent(members: Seq<(Seq<char>, JsonModel)>, key: Seq<char>)
    requires
        lookup(members, key) is None,
    ensures
        members.filter(other_key(key)) == members,
    decreases members.len(),
{
    reveal(Seq::filter);
    if members.len() > 0 {
        lemma_without_absent(members.drop_last(), key);
        assert(members.drop_last().push(members.last()) =~= members);
    }
}

/// A settled list has distinct keys.
pub proof fn lemma_one_per_key_distinct(members: Seq<(Seq<char>, JsonModel)>)
    ensures
        distinct_keys(one_per_key(members)),
    decreases members.len(),
{
    if members.len() > 0 {
        let key = members.last().0;
        let earlier = one_per_key(members.drop_last());
        lemma_one_per_key_distinct(members.drop_last());
        lemma_distinct_without(earlier, key);
        lemma_lookup_without(earlier, key, key);
        assert(one_per_key(members).drop_last() =~= earlier.filter(other_key(key)));
    }
}

/// Settling a list keeps the map: every key finds what it found before.
pub proof fn lemma_one_per_key_lookup(members: Seq<(Seq<char>, JsonModel)>, key: Seq<char>)
    ensures
        lookup(one_per_key(members), key) == lookup(members, key),
    decreases members.len(),
{
    if members.len() > 0 {
        let last = members.last().0;
        let earlier = one_per_key(members.drop_last());
        lemma_one_per_key_lookup(members.drop_last(), key);
        lemma_lookup_without(earlier, last, key);
        assert(one_per_key(members).drop_last() =~= earlier.filter(other_key(last)));
    }
}

/// A list with distinct keys is settled already.
pub proof fn lemma_one_per_key_same(members: Seq<(Seq<char>, JsonModel)>)
    requires
        distinct_keys(members),
    ensures
        one_per_key(members) == members,
    decreases members.len(),
{
    if members.len() > 0 {
        lemma_one_per_key_same(members.drop_last());
        lemma_without_absent(members.drop_last(), members.last().0);
        assert(members.drop_last().push(members.last()) =~= members);
    }
}

/// The place of the last of the first `end` members that has the key.
pub fn last_index_of(members: &Vec<(String, Json)>, end: usize, key: &str) -> (found: Option<usize>)
    requires
        end <= members.len(),
    ensures
        match found {
            Some(i) => i < end && members@[i as int].0@ == key@ && lookup(
                member_models(members@).take(end as int),
                key@,
            ) == Some(members@[i as int].1@) && forall|j: int|
                i < j < end ==> (#[trigger] members@[j]).0@ != key@,
            None => lookup(member_models(members@).take(end as int), key@) is None,
        },
{
    let ghost all = member_models(members@).take(end as int);
    let mut i: usize = end;
    assert(all.take(i as int) =~= all);
    while i > 0
        invariant
            i <= end <= members.len(),
            all == member_models(members@).take(end as int),
            lookup(all, key@) == lookup(all.take(i as int), key@),
            forall|j: int| i <= j < end ==> (#[trigger] members@[j]).0@ != key@,
        decreases i,
    {
        i = i - 1;
        proof {
            assert(all.take(i + 1).drop_last() =~= all.take(i as int));
            assert(all.take(i + 1).last() == all[i as int]);
        }
        if same_text(members[i].0.as_str(), key) {
            assert(all[i as int] == (members@[i as int].0@, members@[i as int].1@));
            return Some(i);
        }
    }
    assert(all.take(0).len() == 0);
    None
}

/// Copies of the members whose key is not the given one, in their order.
pub fn without_key(members: &Vec<(String, Json)>, key: &str) -> (kept: Vec<(String, Json)>)
    ensures
        member_models(kept@) == member_models(members@).filter(other_key(key@)),
{
    let ghost all = member_models(members@);
    let mut kept: Vec<(String, Json)> = Vec::new();
    let mut i: usize = 0;
    assert(all.take(0) =~= Seq::empty());
    assert(member_models(kept@) =~= Seq::empty());
    proof {
        reveal(Seq::filter);
    }
    while i < members.len()
        invariant
            i <= members.len(),
            all == member_models(members@),
            member_models(kept@) == all.take(i as int).filter(other_key(key@)),
        decreases members.len() - i,
    {
        let ghost before = member_models(kept@);
        proof {
            assert(all.take(i + 1) =~= all.take(i as int).push(all[i as int]));
            all.take(i as int).lemma_filter_push(all[i as int], other_key(key@));
        }
        if !same_text(members[i].0.as_str(), key) {
            let value = members[i].1.clone();
            kept.push((members[i].0.clone(), value));
            assert(member_models(kept@) =~= before.push(all[i as int]));
        }
        i = i + 1;
    }
    assert(all.take(i as int) =~= all);
    kept
}

/// The members with the given one put in: it replaces a member of its key
/// and stands at the end.
pub fn put(members: &Vec<(String, Json)>, key: &str, value: Json) -> (all: Vec<(String, Json)>)
    ensures
        member_models(all@) == member_models(members@).filter(other_key(key@)).push(
            (key@, value@),
        ),
{
    let mut all = without_key(members, key);
    let ghost before = member_models(all@);
    all.push((key.to_owned(), value));
    assert(member_models(all@) =~= before.push((key@, value@)));
    all
}

/// Copies of the members with one member for each key.
pub fn settle(members: &Vec<(String, Json)>) -> (settled: Vec<(String, Json)>)
    ensures
        member_models(settled@) == one_per_key(member_models(members@)),
        distinct_keys(member_models(settled@)),
{
    let ghost all = member_models(members@);
    let mut settled: Vec<(String, Json)> = Vec::new();
    let mut i: usize = 0;
    assert(all.take(0) =~= Seq::empty());
    assert(member_models(settled@) =~= Seq::empty());
    while i < members.len()
        invariant
            i <= members.len(),
            all == member_models(members@),
            member_models(settled@) == one_per_key(all.take(i as int)),
        decreases members.len() - i,
    {
        proof {
            assert(all.take(i + 1).drop_last() =~= all.take(i as int));
            assert(all.take(i + 1).last() == all[i as int]);
        }
        let value = members[i].1.clone();
        settled = put(&settled, members[i].0.as_str(), value);
        i = i + 1;
    }
    proof {
        assert(all.take(i as int) =~= all);
        lemma_one_per_key_distinct(all);
    }
    settled
}

/// Whether no two members have the same key.
pub fn has_distinct_keys(members: &Vec<(String, Json)>) -> (distinct: bool)
    ensures
        distinct == distinct_keys(member_models(members@)),
{
    let ghost all = member_models(members@);
    let mut i: usize = 0;
    assert(all.take(0) =~= Seq::empty());
    while i < members.len()
        invariant
            i <= members.len(),
            all == member_models(members@),
            distinct_keys(all.take(i as int)),
        decreases members.len() - i,
    {
        proof {
            assert(all.take(i + 1).drop_last() =~= all.take(i as int));
            assert(all.take(i + 1).last() == all[i as int]);
        }
        if last_index_of(members, i, members[i].0.as_str()).is_some() {
            proof {
                if distinct_keys(all) {
                    lemma_distinct_prefix(all, i + 1);
                }
            }
            return false;
        }
        i = i + 1;
    }
    assert(all.take(i as int) =~= all);
    true
}

/// Whether a member is the last of its key.
pub open spec fn last_of_key(members: Seq<(Seq<char>, JsonModel)>, i: int) -> bool {
    forall|j: int| i < j < members.len() ==> (#[trigger] members[j]).0 != members[i].0
}

/// Whether two documents are the same when every object in them is read as
/// a map: arrays element for element, objects key for key by the last member
/// of each key, in whatever order the members stand.
pub open spec fn same_document(a: JsonModel, b: JsonModel) -> bool
    decreases a,
{
    match a {
        JsonModel::Array(xs) => match b {
            JsonModel::Array(ys) => xs.len() == ys.len() && forall|i: int|
                0 <= i < xs.len() ==> same_document(#[trigger] xs[i], ys[i]),
            _ => false,
        },
        JsonModel::Object(ms) => match b {
            JsonModel::Object(ns) => {
                &&& forall|i: int|
                    0 <= i < ms.len() && last_of_key(ms, i) ==> match lookup(
                        ns,
                        (#[trigger] ms[i]).0,
                    ) {
                        Some(value) => same_document(ms[i].1, value),
                        None => false,
                    }
                &&& forall|j: int| 0 <= j < ns.len() ==> lookup(ms, (#[trigger] ns[j]).0) is Some
            },
            _ => false,
        },
        _ => a == b,
    }
}

/// Whether a key finds the same in two lists of members, or nothing in
/// both.
pub open spec fn same_at(
    left: Seq<(Seq<char>, JsonModel)>,
    right: Seq<(Seq<char>, JsonModel)>,
    key: Seq<char>,
) -> bool {
    match (lookup(left, key), lookup(right, key)) {
        (Some(a), Some(b)) => same_document(a, b),
        (None, None) => true,
        _ => false,
    }
}

/// The last member of a key holds what the key finds.
pub proof fn lemma_last_of_key(members: Seq<(Seq<char>, JsonModel)>, i: int)
    requires
        0 <= i < members.len(),
        last_of_key(members, i),
    ensures
        lookup(members, members[i].0) == Some(members[i].1),
    decreases members.len(),
{
    if i < members.len() - 1 {
        assert(members[members.len() - 1].0 != members[i].0);
        let earlier = members.drop_last();
        assert forall|j: int| i < j < earlier.len() implies (#[trigger] earlier[j]).0
            != earlier[i].0 by {
            assert(earlier[j] == members[j]);
        }
        lemma_last_of_key(earlier, i);
    }
}

/// Every key that is found has a last member.
pub proof fn lemma_has_last(members: Seq<(Seq<char>, JsonModel)>, key: Seq<char>) -> (i: int)
    requires
        lookup(members, key) is Some,
    ensures
        0 <= i < members.len(),
        members[i].0 == key,
        last_of_key(members, i),
    decreases members.len(),
{
    if members.last().0 == key {
        members.len() - 1
    } else {
        let earlier = members.drop_last();
        let i = lemma_has_last(earlier, key);
        assert forall|j: int| i < j < members.len() implies (#[trigger] members[j]).0
            != members[i].0 by {
            if j < earlier.len() {
                assert(earlier[j] == members[j]);
            }
        }
        i
    }
}

/// A document is the same as itself.
pub proof fn lemma_same_document_itself(a: JsonModel)
    ensures
        same_document(a, a),
    decreases a,
{
    match a {
        JsonModel::Array(xs) => {
            assert forall|i: int| 0 <= i < xs.len() implies same_document(#[trigger] xs[i], xs[i]) by {
                lemma_same_document_itself(xs[i]);
            }
        },
        JsonModel::Object(ms) => {
            assert forall|i: int| 0 <= i < ms.len() && last_of_key(ms, i) implies match lookup(
                ms,
                (#[trigger] ms[i]).0,
            ) {
                Some(value) => same_document(ms[i].1, value),
                None => false,
            } by {
                lemma_last_of_key(ms, i);
                lemma_same_document_itself(ms[i].1);
            }
            assert forall|j: int| 0 <= j < ms.len() implies lookup(ms, (#[trigger] ms[j]).0)
                is Some by {
                lemma_lookup_present(ms, j);
            }
        },
        _ => {},
    }
}

/// If a document is the same as another, the other is the same as it.
pub proof fn lemma_same_document_turned(a: JsonModel, b: JsonModel)
    requires
        same_document(a, b),
    ensures
        same_document(b, a),
    decreases a,
{
    match a {
        JsonModel::Array(xs) => {
            let ys = b->Array_0;
            assert forall|i: int| 0 <= i < ys.len() implies same_document(#[trigger] ys[i], xs[i]) by {
                assert(same_document(xs[i], ys[i]));
                lemma_same_document_turned(xs[i], ys[i]);
            }
        },
        JsonModel::Object(ms) => {
            let ns = b->Object_0;
            assert forall|j: int| 0 <= j < ns.len() && last_of_key(ns, j) implies match lookup(
                ms,
                (#[trigger] ns[j]).0,
            ) {
                Some(value) => same_document(ns[j].1, value),
                None => false,
            } by {
                let key = ns[j].0;
                let i = lemma_has_last(ms, key);
                lemma_last_of_key(ms, i);
                lemma_last_of_key(ns, j);
                assert(ms[i].0 == key);
                lemma_same_document_turned(ms[i].1, ns[j].1);
            }
            assert forall|i: int| 0 <= i < ms.len() implies lookup(ns, (#[trigger] ms[i]).0)
                is Some by {
                lemma_lookup_present(ms, i);
                let last = lemma_has_last(ms, ms[i].0);
                assert(ms[last].0 == ms[i].0);
            }
        },
        _ => {},
    }
}

/// If a document is the same as a second, and that as a third, the first is
/// the same as the third.
pub proof fn lemma_same_document_chained(a: JsonModel, b: JsonModel, c: JsonModel)
    requires
        same_document(a, b),
        same_document(b, c),
    ensures
        same_document(a, c),
    decreases a,
{
    match a {
        JsonModel::Array(xs) => {
            let ys = b->Array_0;
            let zs = c->Array_0;
            assert forall|i: int| 0 <= i < xs.len() implies same_document(#[trigger] xs[i], zs[i]) by {
                assert(same_document(xs[i], ys[i]));
                assert(same_document(ys[i], zs[i]));
                lemma_same_document_chained(xs[i], ys[i], zs[i]);
            }
        },
        JsonModel::Object(ms) => {
            let ns = b->Object_0;
            let ps = c->Object_0;
            assert forall|i: int| 0 <= i < ms.len() && last_of_key(ms, i) implies match lookup(
                ps,
                (#[trigger] ms[i]).0,
            ) {
                Some(value) => same_document(ms[i].1, value),
                None => false,
            } by {
                let key = ms[i].0;
                let j = lemma_has_last(ns, key);
                lemma_last_of_key(ns, j);
                assert(ns[j].0 == key);
                lemma_same_document_chained(ms[i].1, ns[j].1, lookup(ps, key)->0);
            }
            assert forall|k: int| 0 <= k < ps.len() implies lookup(ms, (#[trigger] ps[k]).0)
                is Some by {
                let j = lemma_has_last(ns, ps[k].0);
                assert(ns[j].0 == ps[k].0);
            }
        },
        _ => {},
    }
}

/// Whether the two documents are the same when every object in them is
/// read as a map.
pub fn alike(a: &Json, b: &Json) -> (same: bool)
    ensures
        same == same_document(a@, b@),
    decreases a,
{
    match (a, b) {
        (Json::Array(xs), Json::Array(ys)) => {
            proof {
                lemma_array_view(*xs);
                lemma_array_view(*ys);
            }
            if xs.len() != ys.len() {
                return false;
            }
            let mut i: usize = 0;
            while i < xs.len()
                invariant
                    *a == Json::Array(*xs),
                    a@ == JsonModel::Array(models(xs@)),
                    b@ == JsonModel::Array(models(ys@)),
                    xs.len() == ys.len(),
                    i <= xs.len(),
                    forall|k: int| 0 <= k < i ==> same_document(xs@[k]@, ys@[k]@),
                decreases xs.len() - i,
            {
                assert(a->Array_0 == *xs);
                assert(decreases_to!(*a => a->Array_0));
                assert(decreases_to!(*xs => xs[i as int]));
                if !alike(&xs[i], &ys[i]) {
                    assert(!same_document(models(xs@)[i as int], models(ys@)[i as int]));
                    return false;
                }
                i = i + 1;
            }
            assert forall|k: int| 0 <= k < models(xs@).len() implies same_document(
                #[trigger] models(xs@)[k],
                models(ys@)[k],
            ) by {
                assert(same_document(xs@[k]@, ys@[k]@));
            }
            true
        },
        (Json::Object(xs), Json::Object(ys)) => {
            proof {
                lemma_object_view(*xs);
                lemma_object_view(*ys);
            }
            let ghost ms = member_models(xs@);
            let ghost ns = member_models(ys@);
            assert(ms.take(ms.len() as int) =~= ms);
            assert(ns.take(ns.len() as int) =~= ns);
            let mut i: usize = 0;
            while i < xs.len()
                invariant
                    *a == Json::Object(*xs),
                    a@ == JsonModel::Object(ms),
                    b@ == JsonModel::Object(ns),
                    ms == member_models(xs@),
                    ns == member_models(ys@),
                    ms.take(ms.len() as int) == ms,
                    ns.take(ns.len() as int) == ns,
                    i <= xs.len(),
                    forall|k: int|
                        0 <= k < i && last_of_key(ms, k) ==> match lookup(ns, (#[trigger] ms[k]).0) {
                            Some(value) => same_document(ms[k].1, value),
                            None => false,
                        },
                decreases xs.len() - i,
            {
                let key = xs[i].0.as_str();
                let last = last_index_of(xs, xs.len(), key);
                proof {
                    lemma_lookup_present(ms, i as int);
                }
                let here = match last {
                    Some(l) => l == i,
                    None => false,
                };
                if here {
                    assert(last_of_key(ms, i as int)) by {
                        assert forall|j: int| i < j < ms.len() implies (#[trigger] ms[j]).0
                            != ms[i as int].0 by {
                            assert(xs@[j].0@ != key@);
                        }
                    }
                    match last_index_of(ys, ys.len(), key) {
                        Some(r) => {
                            assert(a->Object_0 == *xs);
                            assert(decreases_to!(*a => a->Object_0));
                            assert(decreases_to!(*xs => xs[i as int]));
                            assert(decreases_to!(xs[i as int] => xs[i as int].1));
                            if !alike(&xs[i].1, &ys[r].1) {
                                assert(!same_document(ms[i as int].1, lookup(ns, ms[i as int].0)->0));
                                return false;
                            }
                        },
                        None => {
                            assert(lookup(ns, ms[i as int].0) is None);
                            return false;
                        },
                    }
                } else {
                    assert(!last_of_key(ms, i as int)) by {
                        let l = last->0 as int;
                        assert(ms[l].0 == ms[i as int].0);
                        assert(xs@[l].0@ == key@);
                    }
                }
                i = i + 1;
            }
            let mut j: usize = 0;
            while j < ys.len()
                invariant
                    a@ == JsonModel::Object(ms),
                    b@ == JsonModel::Object(ns),
                    ms == member_models(xs@),
                    ns == member_models(ys@),
                    ms.take(ms.len() as int) == ms,
                    j <= ys.len(),
                    forall|k: int| 0 <= k < j ==> lookup(ms, (#[trigger] ns[k]).0) is Some,
                decreases ys.len() - j,
            {
                if last_index_of(xs, xs.len(), ys[j].0.as_str()).is_none() {
                    assert(lookup(ms, ns[j as int].0) is None);
                    return false;
                }
                j = j + 1;
            }
            true
        },
        (Json::Null, Json::Null) => true,
        (Json::Bool(x), Json::Bool(y)) => *x == *y,
        (Json::Int(x), Json::Int(y)) => *x == *y,
        (Json::Decimal(x), Json::Decimal(y)) => same_text(x.as_str(), y.as_str()),
        (Json::Text(x), Json::Text(y)) => same_text(x.as_str(), y.as_str()),
        _ => false,
    }
}

} // verus!
