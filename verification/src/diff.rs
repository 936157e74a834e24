//! The diff engine: resolves every attribute of every resource change to a
//! before/after state pair and aggregates the result into an immutable,
//! queryable change set.

use crate::error::{ErrorModel, TrowelError};
use crate::json::{
    json_model_fields, lemma_json_model_fields, lookup_field, obj_field_opt, render_model,
    JsonModel, JsonValue,
};
use crate::plan::{ChangeModel, TfPlanResourceChangeChange};
use crate::strutil::{chars_le, chars_lt, strictly_sorted, string_views};
use crate::verb::Verb;
use vstd::multiset::Multiset;
use vstd::prelude::*;

verus! {

/// The state of one side of an attribute: a plain value, a value that must
/// never be shown, a value that only applying the plan can determine, or
/// no value at all.
#[derive(Debug)]
pub enum TrowelDiffEntryBefore {
    Known(JsonValue),
    Sensitive(JsonValue),
    Unknown,
    Absent,
}

/// The after-side uses the same states as the before-side.
pub type TrowelDiffEntryAfter = TrowelDiffEntryBefore;

/// The mathematical shape of an attribute state.
pub enum ValueStateModel {
    Known(JsonModel),
    Sensitive(JsonModel),
    Unknown,
    Absent,
}

impl View for TrowelDiffEntryBefore {
    type V = ValueStateModel;

    open spec fn view(&self) -> ValueStateModel {
        match self {
            TrowelDiffEntryBefore::Known(v) => ValueStateModel::Known(v@),
            TrowelDiffEntryBefore::Sensitive(v) => ValueStateModel::Sensitive(v@),
            TrowelDiffEntryBefore::Unknown => ValueStateModel::Unknown,
            TrowelDiffEntryBefore::Absent => ValueStateModel::Absent,
        }
    }
}

/// The before-state of an attribute: a sensitivity marker wins and demands
/// a recorded value, otherwise the recorded value is known, otherwise the
/// attribute is absent.
pub open spec fn resolve_before(c: ChangeModel, name: Seq<char>) -> Result<
    ValueStateModel,
    ErrorModel,
> {
    let marked = match c.before_sensitive {
        Some(marks) => obj_field_opt(marks, name) is Some,
        None => false,
    };
    let val = match c.before {
        Some(vals) => obj_field_opt(vals, name),
        None => None,
    };
    if marked {
        match val {
            Some(v) => Ok(ValueStateModel::Sensitive(v)),
            None => Err(
                ErrorModel::SensitiveValueMissingFromRecord { attribute: name, after: false },
            ),
        }
    } else {
        match val {
            Some(v) => Ok(ValueStateModel::Known(v)),
            None => Ok(ValueStateModel::Absent),
        }
    }
}

/// The after-state of an attribute: unknownness wins over sensitivity,
/// which wins over the recorded value; a sensitivity marker without a
/// recorded value is a data error.
pub open spec fn resolve_after(c: ChangeModel, name: Seq<char>) -> Result<
    ValueStateModel,
    ErrorModel,
> {
    if obj_field_opt(c.after_unknown, name) is Some {
        Ok(ValueStateModel::Unknown)
    } else {
        let marked = match c.after_sensitive {
            Some(marks) => obj_field_opt(marks, name) is Some,
            None => false,
        };
        let val = match c.after {
            Some(vals) => obj_field_opt(vals, name),
            None => None,
        };
        if marked {
            match val {
                Some(v) => Ok(ValueStateModel::Sensitive(v)),
                None => Err(
                    ErrorModel::SensitiveValueMissingFromRecord { attribute: name, after: true },
                ),
            }
        } else {
            match val {
                Some(v) => Ok(ValueStateModel::Known(v)),
                None => Ok(ValueStateModel::Absent),
            }
        }
    }
}

/// Resolves the before-state of one attribute of a change record.
pub fn get_before_value(attribute_name: &String, change: &TfPlanResourceChangeChange) -> (r:
    Result<TrowelDiffEntryBefore, TrowelError>)
    ensures
        match r {
            Ok(s) => resolve_before(change@, attribute_name@) == Ok::<_, ErrorModel>(s@),
            Err(e) => resolve_before(change@, attribute_name@) == Err::<ValueStateModel, _>(e@),
        },
{
    let marked = match change.before_sensitive.inner() {
        Some(marks) => match lookup_field(marks, attribute_name.as_str()) {
            Some(_) => true,
            None => false,
        },
        None => false,
    };
    let val = match &change.before {
        Some(vals) => lookup_field(vals, attribute_name.as_str()),
        None => None,
    };
    if marked {
        match val {
            Some(v) => Ok(TrowelDiffEntryBefore::Sensitive(v.clone())),
            None => Err(
                TrowelError::SensitiveValueMissingFromRecord {
                    attribute: attribute_name.clone(),
                    after: false,
                },
            ),
        }
    } else {
        match val {
            Some(v) => Ok(TrowelDiffEntryBefore::Known(v.clone())),
            None => Ok(TrowelDiffEntryBefore::Absent),
        }
    }
}

/// Resolves the after-state of one attribute of a change record.
pub fn get_after_value(attribute_name: &String, change: &TfPlanResourceChangeChange) -> (r: Result<
    TrowelDiffEntryAfter,
    TrowelError,
>)
    ensures
        match r {
            Ok(s) => resolve_after(change@, attribute_name@) == Ok::<_, ErrorModel>(s@),
            Err(e) => resolve_after(change@, attribute_name@) == Err::<ValueStateModel, _>(e@),
        },
{
    let unknown = match lookup_field(&change.after_unknown, attribute_name.as_str()) {
        Some(_) => true,
        None => false,
    };
    if unknown {
        return Ok(TrowelDiffEntryBefore::Unknown);
    }
    let marked = match change.after_sensitive.inner() {
        Some(marks) => match lookup_field(marks, attribute_name.as_str()) {
            Some(_) => true,
            None => false,
        },
        None => false,
    };
    let val = match &change.after {
        Some(vals) => lookup_field(vals, attribute_name.as_str()),
        None => None,
    };
    if marked {
        match val {
            Some(v) => Ok(TrowelDiffEntryBefore::Sensitive(v.clone())),
            None => Err(
                TrowelError::SensitiveValueMissingFromRecord {
                    attribute: attribute_name.clone(),
                    after: true,
                },
            ),
        }
    } else {
        match val {
            Some(v) => Ok(TrowelDiffEntryBefore::Known(v.clone())),
            None => Ok(TrowelDiffEntryBefore::Absent),
        }
    }
}

/// The before/after pair of one attribute.
#[derive(Debug)]
pub struct TrowelDiffEntryBeforeAfter {
    pub before: TrowelDiffEntryBefore,
    pub after: TrowelDiffEntryAfter,
}

/// The mathematical shape of a before/after pair.
pub struct BeforeAfterModel {
    pub before: ValueStateModel,
    pub after: ValueStateModel,
}

impl View for TrowelDiffEntryBeforeAfter {
    type V = BeforeAfterModel;

    open spec fn view(&self) -> BeforeAfterModel {
        BeforeAfterModel { before: self.before@, after: self.after@ }
    }
}

/// The exact change-detection table: an attribute is unchanged only when
/// both sides hold semantically equal known or sensitive values, or both
/// sides are absent; an unknown side always counts as changed.
pub open spec fn changed_spec(b: ValueStateModel, a: ValueStateModel) -> bool {
    match b {
        ValueStateModel::Known(v1) => match a {
            ValueStateModel::Known(v2) => v1 != v2,
            ValueStateModel::Sensitive(v2) => v1 != v2,
            ValueStateModel::Unknown => true,
            ValueStateModel::Absent => true,
        },
        ValueStateModel::Sensitive(v1) => match a {
            ValueStateModel::Known(v2) => v1 != v2,
            ValueStateModel::Sensitive(v2) => v1 != v2,
            ValueStateModel::Unknown => true,
            ValueStateModel::Absent => true,
        },
        ValueStateModel::Unknown => true,
        ValueStateModel::Absent => match a {
            ValueStateModel::Absent => false,
            _ => true,
        },
    }
}

/// The display text of an attribute state: a known value shows its
/// rendering, every other state shows a fixed placeholder.
pub open spec fn plaintext_model(v: ValueStateModel) -> Seq<char> {
    match v {
        ValueStateModel::Known(m) => render_model(m),
        ValueStateModel::Sensitive(_) => "(sensitive value)"@,
        ValueStateModel::Unknown => "(unknown value)"@,
        ValueStateModel::Absent => "(absent value)"@,
    }
}

impl TrowelDiffEntryBeforeAfter {
    /// Whether this attribute counts as changed.
    pub fn changed(&self) -> (r: bool)
        ensures
            r == changed_spec(self.before@, self.after@),
    {
        match &self.before {
            TrowelDiffEntryBefore::Known(v1) => match &self.after {
                TrowelDiffEntryBefore::Known(v2) => !v1.deep_eq(v2),
                TrowelDiffEntryBefore::Sensitive(v2) => !v1.deep_eq(v2),
                TrowelDiffEntryBefore::Unknown => true,
                TrowelDiffEntryBefore::Absent => true,
            },
            TrowelDiffEntryBefore::Sensitive(v1) => match &self.after {
                TrowelDiffEntryBefore::Known(v2) => !v1.deep_eq(v2),
                TrowelDiffEntryBefore::Sensitive(v2) => !v1.deep_eq(v2),
                TrowelDiffEntryBefore::Unknown => true,
                TrowelDiffEntryBefore::Absent => true,
            },
            TrowelDiffEntryBefore::Unknown => true,
            TrowelDiffEntryBefore::Absent => match &self.after {
                TrowelDiffEntryBefore::Absent => false,
                _ => true,
            },
        }
    }

    /// The redaction-safe display text of one attribute state.
    pub fn plaintext(v: &TrowelDiffEntryBefore) -> (s: String)
        ensures
            s@ == plaintext_model(v@),
    {
        match v {
            TrowelDiffEntryBefore::Known(m) => m.render(),
            TrowelDiffEntryBefore::Sensitive(_) => "(sensitive value)".to_owned(),
            TrowelDiffEntryBefore::Unknown => "(unknown value)".to_owned(),
            TrowelDiffEntryBefore::Absent => "(absent value)".to_owned(),
        }
    }

    /// The three display segments of this pair: before, an arrow, after.
    pub fn fmt(&self) -> (r: Vec<String>)
        ensures
            r@.len() == 3,
            r@[0]@ == plaintext_model(self.before@),
            r@[1]@ == " -> "@,
            r@[2]@ == plaintext_model(self.after@),
    {
        let mut out: Vec<String> = Vec::new();
        out.push(Self::plaintext(&self.before));
        out.push(" -> ".to_owned());
        out.push(Self::plaintext(&self.after));
        out
    }
}

impl Clone for TrowelDiffEntryBefore {
    /// A clone has the same state model as the original.
    fn clone(&self) -> (r: Self)
        ensures
            r@ == self@,
    {
        match self {
            TrowelDiffEntryBefore::Known(v) => TrowelDiffEntryBefore::Known(v.clone()),
            TrowelDiffEntryBefore::Sensitive(v) => TrowelDiffEntryBefore::Sensitive(v.clone()),
            TrowelDiffEntryBefore::Unknown => TrowelDiffEntryBefore::Unknown,
            TrowelDiffEntryBefore::Absent => TrowelDiffEntryBefore::Absent,
        }
    }
}

impl Clone for TrowelDiffEntryBeforeAfter {
    /// A clone has the same pair model as the original.
    fn clone(&self) -> (r: Self)
        ensures
            r@ == self@,
    {
        TrowelDiffEntryBeforeAfter { before: self.before.clone(), after: self.after.clone() }
    }
}

/// One entry of the change set: the verb, the resource's address, and the
/// resolved state pair of every attribute.
#[derive(Debug)]
pub struct TrowelDiffEntry {
    pub verb: Verb,
    pub resource_path: String,
    pub values: Vec<(String, TrowelDiffEntryBeforeAfter)>,
}

/// The mathematical shape of a diff entry.
pub struct EntryModel {
    pub verb: Verb,
    pub resource_path: Seq<char>,
    pub values: Seq<(Seq<char>, BeforeAfterModel)>,
}

/// The models of a vector of named attribute pairs.
pub open spec fn values_model(s: Seq<(String, TrowelDiffEntryBeforeAfter)>) -> Seq<
    (Seq<char>, BeforeAfterModel),
> {
    s.map_values(|p: (String, TrowelDiffEntryBeforeAfter)| (p.0@, p.1@))
}

impl View for TrowelDiffEntry {
    type V = EntryModel;

    open spec fn view(&self) -> EntryModel {
        EntryModel {
            verb: self.verb,
            resource_path: self.resource_path@,
            values: values_model(self.values@),
        }
    }
}

impl Clone for TrowelDiffEntry {
    /// A clone has the same entry model as the original.
    fn clone(&self) -> (r: Self)
        ensures
            r@ == self@,
    {
        let mut values: Vec<(String, TrowelDiffEntryBeforeAfter)> = Vec::new();
        let n = self.values.len();
        let mut i: usize = 0;
        while i < n
            invariant
                i <= n,
                n == self.values@.len(),
                values@.len() == i,
                forall|j: int| 0 <= j < i ==> (#[trigger] values@[j]).0@ == self.values@[j].0@
                    && values@[j].1@ == self.values@[j].1@,
            decreases n - i,
        {
            values.push((self.values[i].0.clone(), self.values[i].1.clone()));
            i = i + 1;
        }
        let r = TrowelDiffEntry {
            verb: self.verb,
            resource_path: self.resource_path.clone(),
            values,
        };
        proof {
            assert(values_model(r.values@) =~= values_model(self.values@));
        }
        r
    }
}

/// Inserts a pair into a key-sorted sequence, after any equal keys.
pub open spec fn insert_mpair(
    s: Seq<(Seq<char>, BeforeAfterModel)>,
    p: (Seq<char>, BeforeAfterModel),
) -> Seq<(Seq<char>, BeforeAfterModel)>
    decreases s.len(),
{
    if s.len() == 0 {
        seq![p]
    } else if chars_lt(p.0, s[0].0) {
        seq![p] + s
    } else {
        seq![s[0]] + insert_mpair(s.subrange(1, s.len() as int), p)
    }
}

/// Sorts named pairs by key, stably, by repeated insertion.
pub open spec fn sort_mpairs(s: Seq<(Seq<char>, BeforeAfterModel)>) -> Seq<
    (Seq<char>, BeforeAfterModel),
>
    decreases s.len(),
{
    if s.len() == 0 {
        Seq::empty()
    } else {
        insert_mpair(sort_mpairs(s.drop_last()), s.last())
    }
}

/// Keys appear in non-decreasing order.
pub open spec fn sorted_by_keys(s: Seq<(Seq<char>, BeforeAfterModel)>) -> bool {
    forall|i: int, j: int| 0 <= i < j < s.len() ==> chars_le((#[trigger] s[i]).0, (#[trigger] s[j]).0)
}

/// Inserting into a key-sorted sequence keeps it sorted and adds exactly
/// the new pair.
pub proof fn lemma_insert_mpair(s: Seq<(Seq<char>, BeforeAfterModel)>, p: (Seq<char>, BeforeAfterModel))
    requires
        sorted_by_keys(s),
    ensures
        sorted_by_keys(insert_mpair(s, p)),
        insert_mpair(s, p).to_multiset() == s.to_multiset().insert(p),
        insert_mpair(s, p).len() == s.len() + 1,
    decreases s.len(),
{
    broadcast use vstd::seq_lib::group_to_multiset_ensures;

    let out = insert_mpair(s, p);
    if s.len() == 0 {
        assert(seq![p] =~= Seq::<(Seq<char>, BeforeAfterModel)>::empty().push(p));
        assert(Seq::<(Seq<char>, BeforeAfterModel)>::empty().to_multiset() =~= Multiset::<
            (Seq<char>, BeforeAfterModel),
        >::empty());
        assert(out.to_multiset() =~= s.to_multiset().insert(p));
    } else if chars_lt(p.0, s[0].0) {
        assert(sorted_by_keys(out)) by {
            assert forall|i: int, j: int| 0 <= i < j < out.len() implies chars_le(
                (#[trigger] out[i]).0,
                (#[trigger] out[j]).0,
            ) by {
                if i == 0 {
                    assert(out[j] == s[j - 1]);
                    if j > 1 {
                        crate::strutil::lemma_chars_lt_trichotomy(s[0].0, s[j - 1].0);
                        if chars_lt(s[0].0, s[j - 1].0) {
                            crate::strutil::lemma_chars_lt_transitive(p.0, s[0].0, s[j - 1].0);
                        }
                    }
                } else {
                    assert(out[i] == s[i - 1]);
                    assert(out[j] == s[j - 1]);
                }
            }
        }
        assert(out.to_multiset() == s.to_multiset().insert(p)) by {
            vstd::seq_lib::lemma_multiset_commutative(seq![p], s);
            assert(seq![p].to_multiset() =~= Multiset::<
                (Seq<char>, BeforeAfterModel),
            >::empty().insert(p)) by {
                assert(seq![p] =~= Seq::<(Seq<char>, BeforeAfterModel)>::empty().push(p));
                assert(Seq::<(Seq<char>, BeforeAfterModel)>::empty().to_multiset() =~= Multiset::<
                    (Seq<char>, BeforeAfterModel),
                >::empty());
            }
            assert(Multiset::<(Seq<char>, BeforeAfterModel)>::empty().insert(p).add(
                s.to_multiset(),
            ) =~= s.to_multiset().insert(p));
        }
    } else {
        let t = s.subrange(1, s.len() as int);
        assert(sorted_by_keys(t)) by {
            assert forall|i: int, j: int| 0 <= i < j < t.len() implies chars_le(
                (#[trigger] t[i]).0,
                (#[trigger] t[j]).0,
            ) by {
                assert(t[i] == s[i + 1]);
                assert(t[j] == s[j + 1]);
            }
        }
        lemma_insert_mpair(t, p);
        let ins = insert_mpair(t, p);
        assert(out == seq![s[0]] + ins);
        assert(sorted_by_keys(out)) by {
            crate::strutil::lemma_chars_lt_trichotomy(p.0, s[0].0);
            assert(chars_le(s[0].0, p.0));
            assert forall|i: int, j: int| 0 <= i < j < out.len() implies chars_le(
                (#[trigger] out[i]).0,
                (#[trigger] out[j]).0,
            ) by {
                if i == 0 {
                    assert(out[j] == ins[j - 1]);
                    assert(ins.to_multiset().contains(ins[j - 1]));
                    assert(t.to_multiset().insert(p).contains(ins[j - 1]));
                    if ins[j - 1] != p {
                        assert(t.to_multiset().contains(ins[j - 1]));
                        assert(t.contains(ins[j - 1]));
                        let w = choose|w: int| 0 <= w < t.len() && t[w] == ins[j - 1];
                        assert(t[w] == s[w + 1]);
                        assert(chars_le(s[0].0, s[w + 1].0));
                    } else {
                        if chars_lt(p.0, s[0].0) {
                        }
                    }
                } else {
                    assert(out[i] == ins[i - 1]);
                    assert(out[j] == ins[j - 1]);
                }
            }
        }
        assert(out.to_multiset() == s.to_multiset().insert(p)) by {
            vstd::seq_lib::lemma_multiset_commutative(seq![s[0]], ins);
            vstd::seq_lib::lemma_multiset_commutative(seq![s[0]], t);
            assert(s =~= seq![s[0]] + t);
            assert(out.to_multiset() =~= s.to_multiset().insert(p));
        }
    }
}

/// Sorting keeps exactly the same pairs and orders them by key.
pub proof fn lemma_sort_mpairs(s: Seq<(Seq<char>, BeforeAfterModel)>)
    ensures
        sorted_by_keys(sort_mpairs(s)),
        sort_mpairs(s).to_multiset() == s.to_multiset(),
        sort_mpairs(s).len() == s.len(),
    decreases s.len(),
{
    broadcast use vstd::seq_lib::group_to_multiset_ensures;

    if s.len() > 0 {
        lemma_sort_mpairs(s.drop_last());
        lemma_insert_mpair(sort_mpairs(s.drop_last()), s.last());
        assert(s =~= s.drop_last().push(s.last()));
        assert(s.drop_last().push(s.last()).to_multiset() =~= s.drop_last().to_multiset().insert(
            s.last(),
        ));
    }
}

/// Where the scan in `values_sorted` stops, the spec insertion lands.
proof fn lemma_insert_mpair_position(
    s: Seq<(Seq<char>, BeforeAfterModel)>,
    p: (Seq<char>, BeforeAfterModel),
    k: int,
)
    requires
        0 <= k <= s.len(),
        forall|j: int| 0 <= j < k ==> !chars_lt(p.0, (#[trigger] s[j]).0),
        k < s.len() ==> chars_lt(p.0, s[k].0),
    ensures
        insert_mpair(s, p) == s.subrange(0, k).push(p) + s.subrange(k, s.len() as int),
    decreases k,
{
    if k == 0 {
        if s.len() == 0 {
            assert(insert_mpair(s, p) =~= s.subrange(0, 0).push(p) + s.subrange(
                0,
                s.len() as int,
            ));
        } else {
            assert(chars_lt(p.0, s[0].0));
            assert(insert_mpair(s, p) =~= s.subrange(0, 0).push(p) + s.subrange(
                0,
                s.len() as int,
            ));
        }
    } else {
        let t = s.subrange(1, s.len() as int);
        assert(s[0] == s.subrange(0, k)[0]);
        assert(!chars_lt(p.0, s[0].0));
        assert forall|j: int| 0 <= j < k - 1 implies !chars_lt(p.0, (#[trigger] t[j]).0) by {
            assert(t[j] == s[j + 1]);
        }
        if k - 1 < t.len() {
            assert(t[k - 1] == s[k]);
        }
        lemma_insert_mpair_position(t, p, k - 1);
        assert(t.subrange(0, k - 1) =~= s.subrange(1, k));
        assert(t.subrange(k - 1, t.len() as int) =~= s.subrange(k, s.len() as int));
        assert(insert_mpair(s, p) =~= s.subrange(0, k).push(p) + s.subrange(k, s.len() as int));
    }
}

impl TrowelDiffEntry {
    /// The attributes of this entry, sorted by name for stable display.
    pub fn values_sorted(&self) -> (r: Vec<(String, TrowelDiffEntryBeforeAfter)>)
        ensures
            values_model(r@) == sort_mpairs(values_model(self.values@)),
    {
        let n = self.values.len();
        let mut out: Vec<(String, TrowelDiffEntryBeforeAfter)> = Vec::new();
        let mut i: usize = 0;
        while i < n
            invariant
                i <= n,
                n == self.values@.len(),
                values_model(out@) == sort_mpairs(values_model(self.values@.subrange(0, i as int))),
                out@.len() == i,
            decreases n - i,
        {
            let ghost sorted_so_far = values_model(out@);
            proof {
                lemma_sort_mpairs(values_model(self.values@.subrange(0, i as int)));
            }
            let key = self.values[i].0.clone();
            let pair = self.values[i].1.clone();
            let m = out.len();
            let mut pos: usize = 0;
            loop
                invariant
                    pos <= m,
                    m == out@.len(),
                    values_model(out@) == sorted_so_far,
                    forall|j: int| 0 <= j < pos ==> !chars_lt(key@, (#[trigger] values_model(
                        out@,
                    )[j]).0),
                ensures
                    pos <= m,
                    forall|j: int| 0 <= j < pos ==> !chars_lt(key@, (#[trigger] values_model(
                        out@,
                    )[j]).0),
                    pos < m ==> chars_lt(key@, values_model(out@)[pos as int].0),
                decreases m - pos,
            {
                if pos == m {
                    break ;
                }
                if crate::strutil::str_lt(key.as_str(), out[pos].0.as_str()) {
                    break ;
                }
                pos = pos + 1;
            }
            proof {
                lemma_insert_mpair_position(sorted_so_far, (key@, pair@), pos as int);
            }
            out.insert(pos, (key, pair));
            i = i + 1;
            proof {
                let prev = self.values@.subrange(0, i - 1);
                let cur = self.values@.subrange(0, i as int);
                assert(cur.drop_last() =~= prev);
                assert(values_model(cur).drop_last() =~= values_model(prev));
                assert(values_model(cur).last() == (self.values@[i - 1].0@, self.values@[i
                    - 1].1@));
                assert(values_model(out@) =~= sorted_so_far.subrange(0, pos as int).push(
                    (self.values@[i - 1].0@, self.values@[i - 1].1@),
                ) + sorted_so_far.subrange(pos as int, sorted_so_far.len() as int));
                assert(values_model(out@) == sort_mpairs(values_model(cur)));
            }
        }
        proof {
            assert(self.values@.subrange(0, n as int) =~= self.values@);
        }
        out
    }
}

/// The names carried by a field mapping.
pub open spec fn field_names_set(fs: Seq<(Seq<char>, JsonModel)>) -> Set<Seq<char>> {
    fs.map_values(|f: (Seq<char>, JsonModel)| f.0).to_set()
}

/// The names carried by an optional field mapping.
pub open spec fn opt_names_set(o: Option<Seq<(Seq<char>, JsonModel)>>) -> Set<Seq<char>> {
    match o {
        None => Set::empty(),
        Some(fs) => field_names_set(fs),
    }
}

/// The attribute universe of a change record: every name present in any
/// of the five maps, and no other.
pub open spec fn attr_names_of_change(c: ChangeModel) -> Set<Seq<char>> {
    opt_names_set(c.before).union(opt_names_set(c.after)).union(
        field_names_set(c.after_unknown),
    ).union(opt_names_set(c.before_sensitive)).union(opt_names_set(c.after_sensitive))
}

/// Extending a prefix of fields by one adds exactly that field's name.
proof fn lemma_field_names_prefix(fs: Seq<(Seq<char>, JsonModel)>, i: int)
    requires
        0 <= i < fs.len(),
    ensures
        field_names_set(fs.subrange(0, i + 1)) == field_names_set(fs.subrange(0, i)).insert(
            fs[i].0,
        ),
{
    let short = fs.subrange(0, i).map_values(|f: (Seq<char>, JsonModel)| f.0);
    let long = fs.subrange(0, i + 1).map_values(|f: (Seq<char>, JsonModel)| f.0);
    assert(long.to_set() =~= short.to_set().insert(fs[i].0)) by {
        assert forall|y: Seq<char>| long.to_set().contains(y) implies short.to_set().insert(
            fs[i].0,
        ).contains(y) by {
            let k = choose|k: int| 0 <= k < long.len() && long[k] == y;
            if k < i {
                assert(short[k] == y);
            }
        }
        assert forall|y: Seq<char>| short.to_set().insert(fs[i].0).contains(y) implies long.to_set()
            .contains(y) by {
            if y == fs[i].0 {
                assert(long[i] == y);
            } else {
                let k = choose|k: int| 0 <= k < short.len() && short[k] == y;
                assert(long[k] == y);
            }
        }
    }
}

/// Adds every field name of `fields` to the sorted name list.
fn add_keys(out: &mut Vec<String>, fields: &Vec<(String, JsonValue)>)
    requires
        strictly_sorted(string_views(old(out)@)),
    ensures
        strictly_sorted(string_views(final(out)@)),
        string_views(final(out)@).to_set() == string_views(old(out)@).to_set().union(
            field_names_set(json_model_fields(fields@)),
        ),
{
    proof {
        lemma_json_model_fields(fields@);
    }
    let ghost fs = json_model_fields(fields@);
    let ghost s0 = string_views(old(out)@).to_set();
    let n = fields.len();
    let mut i: usize = 0;
    while i < n
        invariant
            i <= n,
            n == fields@.len(),
            fs == json_model_fields(fields@),
            fs.len() == n,
            forall|j: int| 0 <= j < fields@.len() ==> fs[j] == (fields@[j].0@, crate::json::json_model(
                fields@[j].1,
            )),
            strictly_sorted(string_views(out@)),
            s0 == string_views(old(out)@).to_set(),
            string_views(out@).to_set() == s0.union(field_names_set(fs.subrange(0, i as int))),
        decreases n - i,
    {
        proof {
            lemma_field_names_prefix(fs, i as int);
        }
        let ghost before_set = string_views(out@).to_set();
        crate::strutil::insert_sorted_unique(out, fields[i].0.clone());
        proof {
            assert(string_views(out@).to_set() =~= s0.union(
                field_names_set(fs.subrange(0, i + 1)),
            ));
        }
        i = i + 1;
    }
    proof {
        assert(fs.subrange(0, n as int) =~= fs);
    }
}

/// Collects the full attribute universe of a change record, sorted
/// lexicographically and deduplicated. It always succeeds; the `Result`
/// mirrors the construction interface.
pub fn all_resource_names(change: &TfPlanResourceChangeChange) -> (r: Result<
    Vec<String>,
    TrowelError,
>)
    ensures
        r matches Ok(names) && strictly_sorted(string_views(names@)) && string_views(
            names@,
        ).to_set() == attr_names_of_change(change@),
{
    let mut names: Vec<String> = Vec::new();
    if let Some(map) = &change.before {
        add_keys(&mut names, map);
    }
    if let Some(map) = &change.after {
        add_keys(&mut names, map);
    }
    add_keys(&mut names, &change.after_unknown);
    if let Some(map) = change.before_sensitive.inner() {
        add_keys(&mut names, map);
    }
    if let Some(map) = change.after_sensitive.inner() {
        add_keys(&mut names, map);
    }
    proof {
        assert(string_views(names@).to_set() =~= attr_names_of_change(change@));
    }
    Ok(names)
}

/// The aggregated change set: one entry per non-ignored resource change,
/// in document order.
#[derive(Debug)]
pub struct TrowelDiff(pub Vec<TrowelDiffEntry>);

impl View for TrowelDiff {
    type V = Seq<EntryModel>;

    open spec fn view(&self) -> Seq<EntryModel> {
        self.0@.map_values(|e: TrowelDiffEntry| e@)
    }
}

impl Clone for TrowelDiff {
    /// A clone has the same change-set model as the original.
    fn clone(&self) -> (r: Self)
        ensures
            r@ == self@,
    {
        let mut entries: Vec<TrowelDiffEntry> = Vec::new();
        let n = self.0.len();
        let mut i: usize = 0;
        while i < n
            invariant
                i <= n,
                n == self.0@.len(),
                entries@.len() == i,
                forall|j: int| 0 <= j < i ==> (#[trigger] entries@[j])@ == self.0@[j]@,
            decreases n - i,
        {
            entries.push(self.0[i].clone());
            i = i + 1;
        }
        let r = TrowelDiff(entries);
        proof {
            assert(r@ =~= self@);
        }
        r
    }
}

/// The classification of a resource change's action set.
pub open spec fn rc_classified(rc: crate::plan::ResourceChangeModel) -> Option<Verb> {
    crate::verb::verb_of_actions(rc.change.actions.to_set())
}

/// Every attribute of the change resolves on both sides.
pub open spec fn rc_resolvable(c: ChangeModel) -> bool {
    forall|name: Seq<char>|
        attr_names_of_change(c).contains(name) ==> (#[trigger] resolve_before(c, name)) is Ok
            && resolve_after(c, name) is Ok
}

/// A resource change that contributes to a diff without error: its action
/// set is legal, and unless it is ignored, every attribute resolves.
pub open spec fn rc_ok(rc: crate::plan::ResourceChangeModel) -> bool {
    match rc_classified(rc) {
        None => false,
        Some(v) => v == Verb::Ignore || rc_resolvable(rc.change),
    }
}

/// What one diff entry says about its resource change: the classified
/// verb, the address, and the resolved pair of every attribute in the
/// change's sorted attribute universe.
pub open spec fn entry_matches(
    rc: crate::plan::ResourceChangeModel,
    v: Verb,
    e: EntryModel,
) -> bool {
    &&& e.verb == v
    &&& e.resource_path == rc.address
    &&& strictly_sorted(e.values.map_values(|p: (Seq<char>, BeforeAfterModel)| p.0))
    &&& e.values.map_values(|p: (Seq<char>, BeforeAfterModel)| p.0).to_set()
        == attr_names_of_change(rc.change)
    &&& forall|k: int|
        0 <= k < e.values.len() ==> resolve_before(rc.change, (#[trigger] e.values[k]).0) == Ok::<
            _,
            ErrorModel,
        >(e.values[k].1.before) && resolve_after(rc.change, e.values[k].0) == Ok::<
            _,
            ErrorModel,
        >(e.values[k].1.after)
}

/// The aggregation relation: entries follow the resource changes in
/// order, ignored changes contribute nothing, and every other change
/// contributes exactly one matching entry.
pub open spec fn diff_matches_rcs(
    rcs: Seq<crate::plan::ResourceChangeModel>,
    entries: Seq<EntryModel>,
) -> bool
    decreases rcs.len(),
{
    if rcs.len() == 0 {
        entries.len() == 0
    } else {
        match rc_classified(rcs[0]) {
            None => false,
            Some(v) => if v == Verb::Ignore {
                diff_matches_rcs(rcs.subrange(1, rcs.len() as int), entries)
            } else {
                &&& entries.len() > 0
                &&& entry_matches(rcs[0], v, entries[0])
                &&& diff_matches_rcs(
                    rcs.subrange(1, rcs.len() as int),
                    entries.subrange(1, entries.len() as int),
                )
            },
        }
    }
}

/// The resource changes of a plan; a plan without the list has none.
pub open spec fn plan_rcs(p: crate::plan::TfPlanModel) -> Seq<crate::plan::ResourceChangeModel> {
    match p.resource_changes {
        None => Seq::empty(),
        Some(rcs) => rcs,
    }
}

/// The whole-plan aggregation relation.
pub open spec fn diff_matches(p: crate::plan::TfPlanModel, entries: Seq<EntryModel>) -> bool {
    diff_matches_rcs(plan_rcs(p), entries)
}

/// Every resource change of the sequence is error-free.
pub open spec fn rcs_ok(rcs: Seq<crate::plan::ResourceChangeModel>) -> bool {
    forall|i: int| 0 <= i < rcs.len() ==> rc_ok(#[trigger] rcs[i])
}

/// The error a failing resource change produces: an unrecognized action
/// set carries the sorted, deduplicated set; a sensitivity marker without
/// a recorded value names the lexicographically first failing attribute
/// and the failing side, the before side checked first.
pub open spec fn rc_error_matches(rc: crate::plan::ResourceChangeModel, e: ErrorModel) -> bool {
    match rc_classified(rc) {
        None => e matches ErrorModel::UnrecognizedActionSet { actions } && strictly_sorted(actions)
            && actions.to_set() == rc.change.actions.to_set(),
        Some(v) => {
            let attribute = e->SensitiveValueMissingFromRecord_attribute;
            &&& v != Verb::Ignore
            &&& e matches ErrorModel::SensitiveValueMissingFromRecord { .. }
            &&& attr_names_of_change(rc.change).contains(attribute)
            &&& (if e->SensitiveValueMissingFromRecord_after {
                resolve_before(rc.change, attribute) is Ok && resolve_after(rc.change, attribute)
                    == Err::<ValueStateModel, _>(e)
            } else {
                resolve_before(rc.change, attribute) == Err::<ValueStateModel, _>(e)
            })
            &&& forall|other: Seq<char>|
                attr_names_of_change(rc.change).contains(other) && chars_lt(other, attribute)
                    ==> (#[trigger] resolve_before(rc.change, other)) is Ok && resolve_after(
                    rc.change,
                    other,
                ) is Ok
        },
    }
}

/// Appending an ignored resource change leaves the aggregation unchanged.
proof fn lemma_diff_matches_snoc_ignore(
    rcs: Seq<crate::plan::ResourceChangeModel>,
    entries: Seq<EntryModel>,
    rc: crate::plan::ResourceChangeModel,
)
    requires
        diff_matches_rcs(rcs, entries),
        rc_classified(rc) == Some(Verb::Ignore),
    ensures
        diff_matches_rcs(rcs.push(rc), entries),
    decreases rcs.len(),
{
    if rcs.len() == 0 {
        assert(rcs.push(rc)[0] == rc);
        assert(rcs.push(rc).subrange(1, 1) =~= rcs);
    } else {
        let t = rcs.subrange(1, rcs.len() as int);
        assert(rcs.push(rc)[0] == rcs[0]);
        assert(rcs.push(rc).subrange(1, rcs.len() as int + 1) =~= t.push(rc));
        match rc_classified(rcs[0]) {
            None => {},
            Some(v) => {
                if v == Verb::Ignore {
                    lemma_diff_matches_snoc_ignore(t, entries, rc);
                } else {
                    lemma_diff_matches_snoc_ignore(
                        t,
                        entries.subrange(1, entries.len() as int),
                        rc,
                    );
                }
            },
        }
    }
}

/// Appending a contributing resource change appends its matching entry.
proof fn lemma_diff_matches_snoc_entry(
    rcs: Seq<crate::plan::ResourceChangeModel>,
    entries: Seq<EntryModel>,
    rc: crate::plan::ResourceChangeModel,
    v: Verb,
    e: EntryModel,
)
    requires
        diff_matches_rcs(rcs, entries),
        rc_classified(rc) == Some(v),
        v != Verb::Ignore,
        entry_matches(rc, v, e),
    ensures
        diff_matches_rcs(rcs.push(rc), entries.push(e)),
    decreases rcs.len(),
{
    if rcs.len() == 0 {
        assert(rcs.push(rc)[0] == rc);
        assert(entries.push(e)[0] == e);
        assert(rcs.push(rc).subrange(1, 1) =~= rcs);
        assert(entries.push(e).subrange(1, entries.len() as int + 1) =~= entries);
    } else {
        let t = rcs.subrange(1, rcs.len() as int);
        assert(rcs.push(rc)[0] == rcs[0]);
        assert(rcs.push(rc).subrange(1, rcs.len() as int + 1) =~= t.push(rc));
        match rc_classified(rcs[0]) {
            None => {},
            Some(v0) => {
                if v0 == Verb::Ignore {
                    lemma_diff_matches_snoc_entry(t, entries, rc, v, e);
                } else {
                    let te = entries.subrange(1, entries.len() as int);
                    lemma_diff_matches_snoc_entry(t, te, rc, v, e);
                    assert(entries.push(e)[0] == entries[0]);
                    assert(entries.push(e).subrange(1, entries.len() as int + 1) =~= te.push(e));
                }
            },
        }
    }
}

/// When the name scan has resolved the first `k` names without error,
/// every attribute lexicographically before the `k`-th resolves on both
/// sides.
proof fn lemma_earlier_names_resolved(
    c: ChangeModel,
    names: Seq<String>,
    k: int,
    resolved: Seq<(Seq<char>, BeforeAfterModel)>,
)
    requires
        0 <= k < names.len(),
        strictly_sorted(string_views(names)),
        string_views(names).to_set() == attr_names_of_change(c),
        resolved.len() == k,
        forall|j: int| 0 <= j < k ==> (#[trigger] resolved[j]).0 == names[j]@,
        forall|j: int|
            0 <= j < k ==> resolve_before(c, names[j]@) == Ok::<_, ErrorModel>(
                (#[trigger] resolved[j]).1.before,
            ),
        forall|j: int|
            0 <= j < k ==> resolve_after(c, names[j]@) == Ok::<_, ErrorModel>(
                (#[trigger] resolved[j]).1.after,
            ),
    ensures
        forall|other: Seq<char>|
            attr_names_of_change(c).contains(other) && chars_lt(other, names[k]@) ==> (
            #[trigger] resolve_before(c, other)) is Ok && resolve_after(c, other) is Ok,
{
    assert forall|other: Seq<char>|
        attr_names_of_change(c).contains(other) && chars_lt(other, names[k]@) implies (
    #[trigger] resolve_before(c, other)) is Ok && resolve_after(c, other) is Ok by {
        assert(string_views(names).to_set().contains(other));
        assert(string_views(names).contains(other));
        let w = choose|w: int|
            0 <= w < string_views(names).len() && string_views(names)[w] == other;
        assert(names[w]@ == other);
        assert(w < k) by {
            crate::strutil::lemma_chars_lt_trichotomy(other, names[k]@);
            if w > k {
                assert(chars_lt(string_views(names)[k as int], string_views(names)[w]));
            }
        }
        assert(resolved[w].0 == other);
    }
}

impl TrowelDiff {
    /// Builds the change set from a parsed plan: classify each resource
    /// change in order, drop the ignored ones, and resolve every
    /// attribute of the rest. Any error aborts the whole construction.
    pub fn from_tf_plan(plan: &crate::plan::TfPlan) -> (r: Result<TrowelDiff, TrowelError>)
        ensures
            match r {
                Ok(d) => rcs_ok(plan_rcs(plan@)) && diff_matches(plan@, d@),
                Err(e) => {
                    &&& !rcs_ok(plan_rcs(plan@))
                    &&& exists|i: int|
                        {
                            &&& 0 <= i < plan_rcs(plan@).len()
                            &&& !rc_ok(#[trigger] plan_rcs(plan@)[i])
                            &&& (forall|j: int| 0 <= j < i ==> rc_ok(#[trigger] plan_rcs(plan@)[j]))
                            &&& rc_error_matches(plan_rcs(plan@)[i], e@)
                        }
                },
            },
    {
        let mut entries: Vec<TrowelDiffEntry> = Vec::new();
        let changes = match &plan.resource_changes {
            None => {
                let d = TrowelDiff(entries);
                proof {
                    assert(plan_rcs(plan@) =~= Seq::<crate::plan::ResourceChangeModel>::empty());
                    assert(d@ =~= Seq::<EntryModel>::empty());
                }
                return Ok(d);
            },
            Some(changes) => changes,
        };
        let ghost rcs = plan_rcs(plan@);
        proof {
            assert(rcs.len() == changes@.len());
            assert(forall|j: int| 0 <= j < changes@.len() ==> rcs[j] == (#[trigger] changes@[j])@);
        }
        let n = changes.len();
        let mut i: usize = 0;
        while i < n
            invariant
                i <= n,
                n == changes@.len(),
                rcs.len() == n,
                plan_rcs(plan@) == rcs,
                forall|j: int| 0 <= j < changes@.len() ==> rcs[j] == (#[trigger] changes@[j])@,
                forall|j: int| 0 <= j < i ==> rc_ok(#[trigger] rcs[j]),
                diff_matches_rcs(rcs.subrange(0, i as int), entries@.map_values(|e: TrowelDiffEntry| e@)),
            decreases n - i,
        {
            let rc = &changes[i];
            let verb = match Verb::from_resource(rc) {
                Ok(v) => v,
                Err(e) => {
                    proof {
                        assert(!rc_ok(rcs[i as int]));
                        assert(rc_error_matches(rcs[i as int], e@));
                    }
                    return Err(e);
                },
            };
            let is_ignore = matches!(verb, Verb::Ignore);
            if !is_ignore {
                let names = match all_resource_names(&rc.change) {
                    Ok(names) => names,
                    Err(e) => {
                        proof {
                            assert(false);
                        }
                        return Err(e);
                    },
                };
                let mut values: Vec<(String, TrowelDiffEntryBeforeAfter)> = Vec::new();
                let m = names.len();
                let mut k: usize = 0;
                while k < m
                    invariant
                        k <= m,
                        m == names@.len(),
                        i < n,
                        n == changes@.len(),
                        rcs.len() == n,
                        plan_rcs(plan@) == rcs,
                        forall|j: int| 0 <= j < changes@.len() ==> rcs[j] == (
                        #[trigger] changes@[j])@,
                        forall|j: int| 0 <= j < i ==> rc_ok(#[trigger] rcs[j]),
                        rc_classified(rcs[i as int]) == Some(verb),
                        verb != Verb::Ignore,
                        *rc == changes@[i as int],
                        strictly_sorted(string_views(names@)),
                        string_views(names@).to_set() == attr_names_of_change(
                            changes@[i as int]@.change,
                        ),
                        values@.len() == k,
                        forall|j: int| 0 <= j < k ==> (#[trigger] values_model(values@)[j]).0
                            == names@[j]@,
                        forall|j: int| 0 <= j < k ==> resolve_before(
                            changes@[i as int]@.change,
                            names@[j]@,
                        ) == Ok::<_, ErrorModel>((#[trigger] values_model(values@)[j]).1.before),
                        forall|j: int| 0 <= j < k ==> resolve_after(
                            changes@[i as int]@.change,
                            names@[j]@,
                        ) == Ok::<_, ErrorModel>((#[trigger] values_model(values@)[j]).1.after),
                    decreases m - k,
                {
                    let name = &names[k];
                    let before = match get_before_value(name, &rc.change) {
                        Ok(b) => b,
                        Err(e) => {
                            proof {
                                let nm = names@[k as int]@;
                                assert(string_views(names@)[k as int] == nm);
                                assert(string_views(names@).contains(nm));
                                assert(string_views(names@).to_set().contains(nm));
                                assert(rcs[i as int] == changes@[i as int]@);
                                assert(attr_names_of_change(rcs[i as int].change).contains(nm));
                                assert(resolve_before(rcs[i as int].change, nm) == Err::<
                                    ValueStateModel,
                                    _,
                                >(e@));
                                assert(!rc_resolvable(rcs[i as int].change)) by {
                                    if rc_resolvable(rcs[i as int].change) {
                                        assert(resolve_before(rcs[i as int].change, nm) is Ok);
                                    }
                                }
                                assert(!rc_ok(rcs[i as int]));
                                lemma_earlier_names_resolved(
                                    rcs[i as int].change,
                                    names@,
                                    k as int,
                                    values_model(values@),
                                );
                                assert(rc_error_matches(rcs[i as int], e@));
                            }
                            return Err(e);
                        },
                    };
                    let after = match get_after_value(name, &rc.change) {
                        Ok(a) => a,
                        Err(e) => {
                            proof {
                                let nm = names@[k as int]@;
                                assert(string_views(names@)[k as int] == nm);
                                assert(string_views(names@).contains(nm));
                                assert(string_views(names@).to_set().contains(nm));
                                assert(rcs[i as int] == changes@[i as int]@);
                                assert(attr_names_of_change(rcs[i as int].change).contains(nm));
                                assert(resolve_after(rcs[i as int].change, nm) == Err::<
                                    ValueStateModel,
                                    _,
                                >(e@));
                                assert(!rc_resolvable(rcs[i as int].change)) by {
                                    if rc_resolvable(rcs[i as int].change) {
                                        assert(resolve_before(rcs[i as int].change, nm) is Ok);
                                        assert(resolve_after(rcs[i as int].change, nm) is Ok);
                                    }
                                }
                                assert(!rc_ok(rcs[i as int]));
                                lemma_earlier_names_resolved(
                                    rcs[i as int].change,
                                    names@,
                                    k as int,
                                    values_model(values@),
                                );
                                assert(rc_error_matches(rcs[i as int], e@));
                            }
                            return Err(e);
                        },
                    };
                    let ghost nm = name@;
                    let ghost bm = before@;
                    let ghost am = after@;
                    let ghost ovm = values_model(values@);
                    values.push((name.clone(), TrowelDiffEntryBeforeAfter { before, after }));
                    proof {
                        let nvm = values_model(values@);
                        assert(nvm.len() == ovm.len() + 1);
                        assert forall|j: int| 0 <= j < nvm.len() implies #[trigger] nvm[j] == (
                        if j < ovm.len() {
                            ovm[j]
                        } else {
                            (nm, BeforeAfterModel { before: bm, after: am })
                        }) by {
                            if j < ovm.len() {
                                assert(values@[j] == values@.subrange(0, values@.len() - 1)[j]);
                            }
                        }
                    }
                    k = k + 1;
                }
                let entry = TrowelDiffEntry {
                    verb,
                    resource_path: rc.address.clone(),
                    values,
                };
                proof {
                    let em = entry@;
                    let keys = em.values.map_values(|p: (Seq<char>, BeforeAfterModel)| p.0);
                    assert(keys =~= string_views(names@));
                    assert(entry_matches(rcs[i as int], verb, em));
                    assert(rc_ok(rcs[i as int])) by {
                        assert forall|nm: Seq<char>|
                            attr_names_of_change(rcs[i as int].change).contains(nm) implies (
                        #[trigger] resolve_before(rcs[i as int].change, nm)) is Ok && resolve_after(
                            rcs[i as int].change,
                            nm,
                        ) is Ok by {
                            assert(string_views(names@).to_set().contains(nm));
                            assert(string_views(names@).contains(nm));
                            let w = choose|w: int|
                                0 <= w < string_views(names@).len() && string_views(names@)[w]
                                    == nm;
                            assert(values_model(entry.values@)[w].0 == nm);
                        }
                    }
                }
                let ghost old_entries = entries@.map_values(|e: TrowelDiffEntry| e@);
                entries.push(entry);
                proof {
                    lemma_diff_matches_snoc_entry(
                        rcs.subrange(0, i as int),
                        old_entries,
                        rcs[i as int],
                        verb,
                        entry@,
                    );
                    assert(rcs.subrange(0, i + 1) =~= rcs.subrange(0, i as int).push(
                        rcs[i as int],
                    ));
                    assert(entries@.map_values(|e: TrowelDiffEntry| e@) =~= old_entries.push(
                        entry@,
                    ));
                }
            } else {
                proof {
                    assert(rc_ok(rcs[i as int]));
                    lemma_diff_matches_snoc_ignore(
                        rcs.subrange(0, i as int),
                        entries@.map_values(|e: TrowelDiffEntry| e@),
                        rcs[i as int],
                    );
                    assert(rcs.subrange(0, i + 1) =~= rcs.subrange(0, i as int).push(
                        rcs[i as int],
                    ));
                }
            }
            i = i + 1;
        }
        proof {
            assert(rcs.subrange(0, n as int) =~= rcs);
        }
        Ok(TrowelDiff(entries))
    }
}

/// How many entries carry the given verb.
pub open spec fn verb_count(entries: Seq<EntryModel>, v: Verb) -> nat
    decreases entries.len(),
{
    if entries.len() == 0 {
        0
    } else {
        verb_count(entries.drop_last(), v) + if entries.last().verb == v {
            1nat
        } else {
            0nat
        }
    }
}

/// A verb's histogram entry: present exactly when the verb is used.
pub open spec fn verb_use_entry(entries: Seq<EntryModel>, v: Verb) -> Seq<(Verb, u8)> {
    if verb_count(entries, v) > 0 {
        seq![(v, verb_count(entries, v) as u8)]
    } else {
        Seq::empty()
    }
}

/// The verb usage histogram, ordered by display rank.
pub open spec fn verb_uses_model(entries: Seq<EntryModel>) -> Seq<(Verb, u8)> {
    verb_use_entry(entries, Verb::Create) + verb_use_entry(entries, Verb::Destroy)
        + verb_use_entry(entries, Verb::Replace) + verb_use_entry(entries, Verb::Update)
        + verb_use_entry(entries, Verb::Read) + verb_use_entry(entries, Verb::Ignore)
}

/// No verb is used more often than there are entries.
proof fn lemma_verb_count_le_len(entries: Seq<EntryModel>, v: Verb)
    ensures
        verb_count(entries, v) <= entries.len(),
    decreases entries.len(),
{
    if entries.len() > 0 {
        lemma_verb_count_le_len(entries.drop_last(), v);
    }
}

impl TrowelDiff {
    /// Counts the entries that carry the given verb.
    fn count_verb(&self, v: Verb) -> (r: usize)
        ensures
            r as nat == verb_count(self@, v),
    {
        let n = self.0.len();
        let mut count: usize = 0;
        let mut i: usize = 0;
        while i < n
            invariant
                i <= n,
                n == self.0@.len(),
                count <= i,
                count as nat == verb_count(self@.subrange(0, i as int), v),
            decreases n - i,
        {
            proof {
                assert(self@.subrange(0, i + 1).drop_last() =~= self@.subrange(0, i as int));
                assert(self@.subrange(0, i + 1).last() == self@[i as int]);
            }
            if self.0[i].verb == v {
                count = count + 1;
            }
            i = i + 1;
        }
        proof {
            assert(self@.subrange(0, n as int) =~= self@);
        }
        count
    }

    /// The verb usage histogram: one pair per verb in use, ordered by the
    /// fixed display rank, each with its count of entries.
    pub fn verb_uses(&self) -> (r: Vec<(Verb, u8)>)
        requires
            self@.len() <= 255,
        ensures
            r@ == verb_uses_model(self@),
    {
        proof {
            lemma_verb_count_le_len(self@, Verb::Create);
            lemma_verb_count_le_len(self@, Verb::Destroy);
            lemma_verb_count_le_len(self@, Verb::Replace);
            lemma_verb_count_le_len(self@, Verb::Update);
            lemma_verb_count_le_len(self@, Verb::Read);
            lemma_verb_count_le_len(self@, Verb::Ignore);
        }
        let mut out: Vec<(Verb, u8)> = Vec::new();
        let c_create = self.count_verb(Verb::Create);
        if c_create > 0 {
            out.push((Verb::Create, c_create as u8));
        }
        let c_destroy = self.count_verb(Verb::Destroy);
        if c_destroy > 0 {
            out.push((Verb::Destroy, c_destroy as u8));
        }
        let c_replace = self.count_verb(Verb::Replace);
        if c_replace > 0 {
            out.push((Verb::Replace, c_replace as u8));
        }
        let c_update = self.count_verb(Verb::Update);
        if c_update > 0 {
            out.push((Verb::Update, c_update as u8));
        }
        let c_read = self.count_verb(Verb::Read);
        if c_read > 0 {
            out.push((Verb::Read, c_read as u8));
        }
        let c_ignore = self.count_verb(Verb::Ignore);
        if c_ignore > 0 {
            out.push((Verb::Ignore, c_ignore as u8));
        }
        proof {
            assert(out@ =~= verb_uses_model(self@));
        }
        out
    }
}

/// The display segments of the verb usage line: a leading space, each
/// verb's `name count` label separated by pipes, and a trailing space.
pub open spec fn verb_uses_fmt_model(uses: Seq<(Verb, u8)>) -> Seq<Seq<char>> {
    if uses.len() == 0 {
        Seq::empty()
    } else {
        Seq::new(
            2 * uses.len() + 1,
            |i: int|
                if i == 0 {
                    " "@
                } else if i == 2 * uses.len() as int {
                    " "@
                } else if i % 2 == 1 {
                    crate::verb::verb_name_lower(uses[(i - 1) / 2].0) + seq![' '] + crate::strutil::dec_digits(
                        uses[(i - 1) / 2].1 as nat,
                    )
                } else {
                    " | "@
                },
        )
    }
}

impl TrowelDiff {
    /// The verb usage line, as display segments in rank order.
    pub fn verb_uses_fmt(&self) -> (r: Vec<String>)
        requires
            self@.len() <= 255,
        ensures
            string_views(r@) == verb_uses_fmt_model(verb_uses_model(self@)),
    {
        let uses = self.verb_uses();
        let n = uses.len();
        let mut out: Vec<String> = Vec::new();
        if n == 0 {
            proof {
                assert(string_views(out@) =~= verb_uses_fmt_model(verb_uses_model(self@)));
            }
            return out;
        }
        let ghost model = verb_uses_fmt_model(uses@);
        let mut i: usize = 0;
        while i < n
            invariant
                i <= n,
                0 < n == uses@.len() <= 255,
                model == verb_uses_fmt_model(uses@),
                model.len() == 2 * n + 1,
                forall|j: int| 0 <= j < model.len() ==> model[j] == verb_uses_fmt_model(uses@)[j],
                out@.len() == 2 * i,
                forall|j: int| 0 <= j < out@.len() ==> (#[trigger] string_views(out@)[j])
                    == model[j],
            decreases n - i,
        {
            let ghost old_out = out@;
            if i == 0 {
                out.push(" ".to_owned());
            } else {
                out.push(" | ".to_owned());
            }
            let verb = uses[i].0;
            let count = uses[i].1;
            let mut label = verb.name_lower();
            label.append(" ");
            label.append(crate::strutil::decimal_string(count as usize).as_str());
            let ghost label_view = label@;
            out.push(label);
            i = i + 1;
            proof {
                reveal_strlit(" ");
                assert(" "@ =~= seq![' ']);
                assert(label_view == crate::verb::verb_name_lower(uses@[i - 1].0) + seq![' ']
                    + crate::strutil::dec_digits(uses@[i - 1].1 as nat));
                assert(out@.len() == old_out.len() + 2);
                assert forall|j: int| 0 <= j < out@.len() implies (#[trigger] string_views(
                    out@,
                )[j]) == model[j] by {
                    assert(string_views(out@)[j] == out@[j]@);
                    if j < old_out.len() {
                        assert(out@[j] == old_out[j]);
                        assert(string_views(old_out)[j] == old_out[j]@);
                    } else if j == old_out.len() {
                        if i - 1 == 0 {
                            assert(model[j] == " "@);
                        } else {
                            assert(model[j] == " | "@);
                        }
                    } else {
                        assert(out@[j]@ == label_view);
                        assert(model[j] == crate::verb::verb_name_lower(uses@[(j - 1) / 2].0)
                            + seq![' '] + crate::strutil::dec_digits(uses@[(j - 1) / 2].1 as nat));
                        assert((j - 1) / 2 == i - 1);
                    }
                }
            }
        }
        let ghost old_out = out@;
        out.push(" ".to_owned());
        proof {
            assert forall|j: int| 0 <= j < out@.len() implies (#[trigger] string_views(out@)[j])
                == model[j] by {
                assert(string_views(out@)[j] == out@[j]@);
                if j < old_out.len() {
                    assert(out@[j] == old_out[j]);
                    assert(string_views(old_out)[j] == old_out[j]@);
                } else {
                    assert(model[j] == " "@);
                }
            }
            assert(string_views(out@) =~= model);
        }
        out
    }
}

} // verus!
