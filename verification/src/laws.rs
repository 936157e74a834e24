//! The guarantees the library states about itself, each proved against
//! the public contracts: classification, resolution, aggregation and
//! determinism laws.

use crate::diff::{
    attr_names_of_change, changed_spec, diff_matches, diff_matches_rcs, entry_matches,
    rc_classified, resolve_after, resolve_before, verb_count, verb_use_entry, verb_uses_model,
    EntryModel, ValueStateModel,
};
use crate::error::ErrorModel;
use crate::json::obj_field_opt;
use crate::plan::{ChangeModel, ResourceChangeModel, TfPlanModel};
use crate::strutil::{lemma_chars_lt_trichotomy, lemma_strictly_sorted_canonical, strictly_sorted};
use crate::verb::{verb_of_actions, Verb};
use vstd::prelude::*;

verus! {

/// A no-op action list, in any order and with any repetition, classifies
/// as `Ignore`.
pub proof fn lemma_noop_classifies_ignore(actions: Seq<Seq<char>>)
    requires
        actions.to_set() == set!["no-op"@],
    ensures
        verb_of_actions(actions.to_set()) == Some(Verb::Ignore),
{
}

/// A resource change classified `Ignore` contributes no entry: removing
/// it from the input leaves the aggregated entries untouched.
pub proof fn lemma_ignored_excluded(
    rcs: Seq<ResourceChangeModel>,
    entries: Seq<EntryModel>,
    i: int,
)
    requires
        diff_matches_rcs(rcs, entries),
        0 <= i < rcs.len(),
        rc_classified(rcs[i]) == Some(Verb::Ignore),
    ensures
        diff_matches_rcs(rcs.remove(i), entries),
    decreases rcs.len(),
{
    let t = rcs.subrange(1, rcs.len() as int);
    if i == 0 {
        assert(rcs.remove(0) =~= t);
    } else {
        match rc_classified(rcs[0]) {
            None => {},
            Some(v) => {
                assert(t[i - 1] == rcs[i]);
                if v == Verb::Ignore {
                    lemma_ignored_excluded(t, entries, i - 1);
                } else {
                    lemma_ignored_excluded(t, entries.subrange(1, entries.len() as int), i - 1);
                }
                assert(rcs.remove(i)[0] == rcs[0]);
                assert(rcs.remove(i).subrange(1, rcs.remove(i).len() as int) =~= t.remove(i - 1));
            },
        }
    }
}

/// Classification reads only the set of action tokens: two action lists
/// with the same elements classify identically, whatever their order or
/// repetition.
pub proof fn lemma_classification_order_independent(a1: Seq<Seq<char>>, a2: Seq<Seq<char>>)
    requires
        a1.to_set() == a2.to_set(),
    ensures
        verb_of_actions(a1.to_set()) == verb_of_actions(a2.to_set()),
{
}

/// The classification table is exact: each of the six legal action sets
/// yields its verb.
pub proof fn lemma_classification_table()
    ensures
        verb_of_actions(set!["no-op"@]) == Some(Verb::Ignore),
        verb_of_actions(set!["create"@]) == Some(Verb::Create),
        verb_of_actions(set!["update"@]) == Some(Verb::Update),
        verb_of_actions(set!["delete"@]) == Some(Verb::Destroy),
        verb_of_actions(set!["create"@, "delete"@]) == Some(Verb::Replace),
        verb_of_actions(set!["read"@]) == Some(Verb::Read),
{
    reveal_strlit("no-op");
    reveal_strlit("create");
    reveal_strlit("update");
    reveal_strlit("delete");
    reveal_strlit("read");
    assert(set!["no-op"@].contains("no-op"@));
    assert(set!["create"@].contains("create"@));
    assert(set!["update"@].contains("update"@));
    assert(set!["delete"@].contains("delete"@));
    assert(set!["read"@].contains("read"@));
    assert(set!["create"@, "delete"@].contains("create"@));
    assert(set!["create"@, "delete"@].contains("delete"@));
    assert("no-op"@.len() == 5 && "create"@.len() == 6 && "update"@.len() == 6 && "delete"@.len()
        == 6 && "read"@.len() == 4);
    assert("create"@[0] == 'c' && "update"@[0] == 'u' && "delete"@[0] == 'd');
    assert("no-op"@ != "create"@ && "no-op"@ != "update"@ && "no-op"@ != "delete"@ && "no-op"@
        != "read"@);
    assert("create"@ != "update"@ && "create"@ != "delete"@ && "create"@ != "read"@);
    assert("update"@ != "delete"@ && "update"@ != "read"@);
    assert("delete"@ != "read"@);
}

/// Any action set outside the six-row table has no verb.
pub proof fn lemma_unrecognized_action_set(s: Set<Seq<char>>)
    requires
        s != set!["no-op"@],
        s != set!["create"@],
        s != set!["update"@],
        s != set!["delete"@],
        s != set!["create"@, "delete"@],
        s != set!["read"@],
    ensures
        verb_of_actions(s) is None,
{
}

/// An attribute present only in `after_unknown` resolves to an absent
/// before-state and an unknown after-state, and always counts as changed.
pub proof fn lemma_unknown_only_attribute(c: ChangeModel, name: Seq<char>)
    requires
        obj_field_opt(c.after_unknown, name) is Some,
        c.before matches Some(vals) ==> obj_field_opt(c.before->Some_0, name) is None,
        c.after matches Some(vals) ==> obj_field_opt(c.after->Some_0, name) is None,
        c.before_sensitive matches Some(marks) ==> obj_field_opt(
            c.before_sensitive->Some_0,
            name,
        ) is None,
        c.after_sensitive matches Some(marks) ==> obj_field_opt(
            c.after_sensitive->Some_0,
            name,
        ) is None,
    ensures
        resolve_before(c, name) == Ok::<_, ErrorModel>(ValueStateModel::Absent),
        resolve_after(c, name) == Ok::<_, ErrorModel>(ValueStateModel::Unknown),
        changed_spec(ValueStateModel::Absent, ValueStateModel::Unknown),
{
}

/// An attribute carried by both `before` and `before_sensitive` resolves
/// to the sensitive state around the recorded value, never to a known
/// state.
pub proof fn lemma_sensitive_wins_before(c: ChangeModel, name: Seq<char>)
    requires
        c.before_sensitive matches Some(marks) && obj_field_opt(marks, name) is Some,
        c.before matches Some(vals) && obj_field_opt(vals, name) is Some,
    ensures
        resolve_before(c, name) == Ok::<_, ErrorModel>(
            ValueStateModel::Sensitive(obj_field_opt(c.before->Some_0, name)->Some_0),
        ),
        !(resolve_before(c, name) matches Ok(ValueStateModel::Known(_))),
{
}

/// An attribute marked sensitive but missing from `before` is a data
/// error naming the attribute and the before side.
pub proof fn lemma_sensitive_missing_before(c: ChangeModel, name: Seq<char>)
    requires
        c.before_sensitive matches Some(marks) && obj_field_opt(marks, name) is Some,
        c.before matches Some(vals) ==> obj_field_opt(c.before->Some_0, name) is None,
    ensures
        resolve_before(c, name) == Err::<ValueStateModel, _>(
            ErrorModel::SensitiveValueMissingFromRecord { attribute: name, after: false },
        ),
{
}

/// The resolved attribute universe holds each attribute exactly once, and
/// holds an attribute exactly when any of the five maps carries it.
pub proof fn lemma_attribute_names_unique(names: Seq<Seq<char>>, c: ChangeModel)
    requires
        strictly_sorted(names),
        names.to_set() == attr_names_of_change(c),
    ensures
        forall|i: int, j: int| 0 <= i < j < names.len() ==> names[i] != names[j],
        forall|n: Seq<char>| names.contains(n) <==> attr_names_of_change(c).contains(n),
{
    assert forall|i: int, j: int| 0 <= i < j < names.len() implies names[i] != names[j] by {
        lemma_chars_lt_trichotomy(names[i], names[j]);
    }
}

/// Every entry of an aggregated diff carries a verb other than `Ignore`.
pub proof fn lemma_entries_never_ignored(rcs: Seq<ResourceChangeModel>, entries: Seq<EntryModel>)
    requires
        diff_matches_rcs(rcs, entries),
    ensures
        forall|k: int| 0 <= k < entries.len() ==> (#[trigger] entries[k]).verb != Verb::Ignore,
    decreases rcs.len(),
{
    if rcs.len() > 0 {
        let t = rcs.subrange(1, rcs.len() as int);
        match rc_classified(rcs[0]) {
            None => {},
            Some(v) => {
                if v == Verb::Ignore {
                    lemma_entries_never_ignored(t, entries);
                } else {
                    let te = entries.subrange(1, entries.len() as int);
                    lemma_entries_never_ignored(t, te);
                    assert forall|k: int| 0 <= k < entries.len() implies (
                    #[trigger] entries[k]).verb != Verb::Ignore by {
                        if k > 0 {
                            assert(entries[k] == te[k - 1]);
                        }
                    }
                }
            },
        }
    }
}

/// The histogram of an aggregated diff has no row for `Ignore`, whatever
/// no-op changes the source plan held.
pub proof fn lemma_histogram_excludes_ignored(p: TfPlanModel, entries: Seq<EntryModel>)
    requires
        diff_matches(p, entries),
    ensures
        verb_count(entries, Verb::Ignore) == 0,
        verb_use_entry(entries, Verb::Ignore) == Seq::<(Verb, u8)>::empty(),
        forall|j: int| 0 <= j < verb_uses_model(entries).len() ==> (#[trigger] verb_uses_model(
            entries,
        )[j]).0 != Verb::Ignore,
{
    lemma_entries_never_ignored(crate::diff::plan_rcs(p), entries);
    lemma_count_absent_verb(entries, Verb::Ignore);
    assert forall|j: int| 0 <= j < verb_uses_model(entries).len() implies (
    #[trigger] verb_uses_model(entries)[j]).0 != Verb::Ignore by {
        lemma_use_entry_verbs(entries, Verb::Create);
        lemma_use_entry_verbs(entries, Verb::Destroy);
        lemma_use_entry_verbs(entries, Verb::Replace);
        lemma_use_entry_verbs(entries, Verb::Update);
        lemma_use_entry_verbs(entries, Verb::Read);
    }
}

/// A verb used by no entry counts zero.
proof fn lemma_count_absent_verb(entries: Seq<EntryModel>, v: Verb)
    requires
        forall|k: int| 0 <= k < entries.len() ==> (#[trigger] entries[k]).verb != v,
    ensures
        verb_count(entries, v) == 0,
    decreases entries.len(),
{
    if entries.len() > 0 {
        lemma_count_absent_verb(entries.drop_last(), v);
    }
}

/// Every row of a verb's histogram segment names that verb.
proof fn lemma_use_entry_verbs(entries: Seq<EntryModel>, v: Verb)
    ensures
        forall|j: int| 0 <= j < verb_use_entry(entries, v).len() ==> (#[trigger] verb_use_entry(
            entries,
            v,
        )[j]).0 == v,
{
}

/// The histogram rows appear in strictly ascending rank order, each row
/// carries the exact count of entries with its verb, and every verb in
/// use has a row.
pub proof fn lemma_verb_uses_properties(entries: Seq<EntryModel>)
    requires
        entries.len() <= 255,
    ensures
        forall|i: int, j: int|
            0 <= i < j < verb_uses_model(entries).len() ==> crate::verb::verb_rank(
                #[trigger] verb_uses_model(entries)[i].0,
            ) < crate::verb::verb_rank(#[trigger] verb_uses_model(entries)[j].0),
        forall|j: int|
            0 <= j < verb_uses_model(entries).len() ==> ((#[trigger] verb_uses_model(
                entries,
            )[j]).1 as nat) == verb_count(entries, verb_uses_model(entries)[j].0) && verb_count(
                entries,
                verb_uses_model(entries)[j].0,
            ) > 0,
        forall|v: Verb|
            #[trigger] verb_count(entries, v) > 0 && v != Verb::Ignore ==> exists|j: int|
                0 <= j < verb_uses_model(entries).len() && (#[trigger] verb_uses_model(
                    entries,
                )[j]).0 == v,
{
    lemma_verb_count_bounded(entries, Verb::Create);
    lemma_verb_count_bounded(entries, Verb::Destroy);
    lemma_verb_count_bounded(entries, Verb::Replace);
    lemma_verb_count_bounded(entries, Verb::Update);
    lemma_verb_count_bounded(entries, Verb::Read);
    lemma_verb_count_bounded(entries, Verb::Ignore);
    let a = verb_use_entry(entries, Verb::Create);
    let b = verb_use_entry(entries, Verb::Destroy);
    let c = verb_use_entry(entries, Verb::Replace);
    let d = verb_use_entry(entries, Verb::Update);
    let e = verb_use_entry(entries, Verb::Read);
    let f = verb_use_entry(entries, Verb::Ignore);
    let m = verb_uses_model(entries);
    assert(m == a + b + c + d + e + f);
    assert forall|j: int| 0 <= j < m.len() implies ((#[trigger] m[j]).1 as nat) == verb_count(
        entries,
        m[j].0,
    ) && verb_count(entries, m[j].0) > 0 && crate::verb::verb_rank(m[j].0) == segment_rank(
        a,
        b,
        c,
        d,
        e,
        j,
    ) by {}
    assert forall|i: int, j: int| 0 <= i < j < m.len() implies crate::verb::verb_rank(
        #[trigger] m[i].0,
    ) < crate::verb::verb_rank(#[trigger] m[j].0) by {
        assert(crate::verb::verb_rank(m[i].0) == segment_rank(a, b, c, d, e, i));
        assert(crate::verb::verb_rank(m[j].0) == segment_rank(a, b, c, d, e, j));
    }
    assert forall|v: Verb|
        #[trigger] verb_count(entries, v) > 0 && v != Verb::Ignore implies exists|j: int|
        0 <= j < m.len() && (#[trigger] m[j]).0 == v by {
        match v {
            Verb::Create => {
                assert(m[0] == a[0]);
            },
            Verb::Destroy => {
                assert(m[a.len() as int] == b[0]);
            },
            Verb::Replace => {
                assert(m[a.len() as int + b.len() as int] == c[0]);
            },
            Verb::Update => {
                assert(m[a.len() as int + b.len() as int + c.len() as int] == d[0]);
            },
            Verb::Read => {
                assert(m[a.len() as int + b.len() as int + c.len() as int + d.len() as int] == e[0]);
            },
            Verb::Ignore => {},
        }
    }
}

/// The rank of the histogram row at a position, read off the segment the
/// position falls in.
spec fn segment_rank(
    a: Seq<(Verb, u8)>,
    b: Seq<(Verb, u8)>,
    c: Seq<(Verb, u8)>,
    d: Seq<(Verb, u8)>,
    e: Seq<(Verb, u8)>,
    j: int,
) -> int {
    if j < a.len() {
        0
    } else if j < a.len() + b.len() {
        1
    } else if j < a.len() + b.len() + c.len() {
        2
    } else if j < a.len() + b.len() + c.len() + d.len() {
        3
    } else if j < a.len() + b.len() + c.len() + d.len() + e.len() {
        4
    } else {
        99
    }
}

/// A verb's count never exceeds the number of entries.
proof fn lemma_verb_count_bounded(entries: Seq<EntryModel>, v: Verb)
    ensures
        verb_count(entries, v) <= entries.len(),
    decreases entries.len(),
{
    if entries.len() > 0 {
        lemma_verb_count_bounded(entries.drop_last(), v);
    }
}

/// An entry is determined by its resource change and verb: the
/// aggregation relation pins it completely.
proof fn lemma_entry_unique(rc: ResourceChangeModel, v: Verb, e1: EntryModel, e2: EntryModel)
    requires
        entry_matches(rc, v, e1),
        entry_matches(rc, v, e2),
    ensures
        e1 == e2,
{
    let keys1 = e1.values.map_values(|p: (Seq<char>, crate::diff::BeforeAfterModel)| p.0);
    let keys2 = e2.values.map_values(|p: (Seq<char>, crate::diff::BeforeAfterModel)| p.0);
    lemma_strictly_sorted_canonical(keys1, keys2);
    assert(e1.values.len() == e2.values.len());
    assert forall|k: int| 0 <= k < e1.values.len() implies e1.values[k] == e2.values[k] by {
        assert(keys1[k] == e1.values[k].0);
        assert(keys2[k] == e2.values[k].0);
        assert(e1.values[k].0 == e2.values[k].0);
        assert(resolve_before(rc.change, e1.values[k].0) == Ok::<_, ErrorModel>(
            e1.values[k].1.before,
        ));
        assert(resolve_before(rc.change, e2.values[k].0) == Ok::<_, ErrorModel>(
            e2.values[k].1.before,
        ));
        assert(resolve_after(rc.change, e1.values[k].0) == Ok::<_, ErrorModel>(
            e1.values[k].1.after,
        ));
        assert(resolve_after(rc.change, e2.values[k].0) == Ok::<_, ErrorModel>(
            e2.values[k].1.after,
        ));
    }
    assert(e1.values =~= e2.values);
}

/// Aggregation is deterministic: two change sets built from the same
/// resource changes are equal, with no dependence on any iteration
/// order.
pub proof fn lemma_diff_rcs_deterministic(
    rcs: Seq<ResourceChangeModel>,
    d1: Seq<EntryModel>,
    d2: Seq<EntryModel>,
)
    requires
        diff_matches_rcs(rcs, d1),
        diff_matches_rcs(rcs, d2),
    ensures
        d1 == d2,
    decreases rcs.len(),
{
    if rcs.len() == 0 {
        assert(d1 =~= d2);
    } else {
        let t = rcs.subrange(1, rcs.len() as int);
        match rc_classified(rcs[0]) {
            None => {},
            Some(v) => {
                if v == Verb::Ignore {
                    lemma_diff_rcs_deterministic(t, d1, d2);
                } else {
                    lemma_entry_unique(rcs[0], v, d1[0], d2[0]);
                    lemma_diff_rcs_deterministic(
                        t,
                        d1.subrange(1, d1.len() as int),
                        d2.subrange(1, d2.len() as int),
                    );
                    assert(d1.subrange(1, d1.len() as int).len() == d2.subrange(
                        1,
                        d2.len() as int,
                    ).len());
                    assert(d1.len() == d2.len());
                    assert forall|k: int| 0 <= k < d1.len() implies d1[k] == d2[k] by {
                        if k > 0 {
                            assert(d1[k] == d1.subrange(1, d1.len() as int)[k - 1]);
                            assert(d2[k] == d2.subrange(1, d2.len() as int)[k - 1]);
                        }
                    }
                    assert(d1 =~= d2);
                }
            },
        }
    }
}

/// Constructing a diff twice from the same plan document gives
/// value-equal results.
pub proof fn lemma_diff_deterministic(p: TfPlanModel, d1: Seq<EntryModel>, d2: Seq<EntryModel>)
    requires
        diff_matches(p, d1),
        diff_matches(p, d2),
    ensures
        d1 == d2,
{
    lemma_diff_rcs_deterministic(crate::diff::plan_rcs(p), d1, d2);
}

} // verus!
