//! The plan document model: the typed subset of the plan schema the
//! library understands, read strictly from a generic structured value.
//! Unrecognized fields, missing required fields and mistyped fields all
//! reject the document with a `MalformedPlan` error.
//!
//! Optional fields follow the usual convention for nullable data: a field
//! that is absent or null reads as "not applicable", which is different
//! from an empty map or list.

use crate::error::{ErrorModel, TrowelError};
use crate::json::{
    clone_array, clone_fields, json_model_fields, json_model_seq, lemma_json_model_fields,
    lemma_json_model_seq, lemma_obj_field_opt_skip, lookup_field, obj_field_opt, JsonModel,
    JsonValue,
};
use crate::strutil::{dec_digits, parse_u8_decimal, str_eq, string_views};
use vstd::prelude::*;

verus! {

/// A field that is absent or null reads as `None`.
pub open spec fn opt_field(fs: Seq<(Seq<char>, JsonModel)>, name: Seq<char>) -> Option<JsonModel> {
    match obj_field_opt(fs, name) {
        None => None,
        Some(j) => if j is Null {
            None
        } else {
            Some(j)
        },
    }
}

/// Whether every field name is one of the allowed names.
pub open spec fn fields_allowed(fs: Seq<(Seq<char>, JsonModel)>, allowed: Set<Seq<char>>) -> bool {
    forall|i: int| 0 <= i < fs.len() ==> allowed.contains(#[trigger] fs[i].0)
}

/// Checks that every field name occurs in `allowed`.
fn check_fields_allowed(fields: &Vec<(String, JsonValue)>, allowed: &Vec<&str>) -> (r: bool)
    ensures
        r == fields_allowed(json_model_fields(fields@), string_views_of_strs(allowed@).to_set()),
{
    proof {
        lemma_json_model_fields(fields@);
    }
    let ghost fs = json_model_fields(fields@);
    let ghost ok = string_views_of_strs(allowed@).to_set();
    let n = fields.len();
    let mut i: usize = 0;
    while i < n
        invariant
            i <= n,
            n == fields@.len(),
            fs == json_model_fields(fields@),
            ok == string_views_of_strs(allowed@).to_set(),
            fs.len() == n,
            forall|j: int| 0 <= j < fields@.len() ==> fs[j] == (fields@[j].0@, crate::json::json_model(
                fields@[j].1,
            )),
            forall|j: int| 0 <= j < i ==> ok.contains(#[trigger] fs[j].0),
        decreases n - i,
    {
        let ghost vs = string_views_of_strs(allowed@);
        let mut found = false;
        let m = allowed.len();
        let mut k: usize = 0;
        while k < m
            invariant
                k <= m,
                m == allowed@.len(),
                vs == string_views_of_strs(allowed@),
                found ==> vs.contains(fields@[i as int].0@),
                !found ==> forall|j: int| 0 <= j < k ==> fields@[i as int].0@ != vs[j],
                i < n,
                n == fields@.len(),
            decreases m - k,
        {
            if !found && str_eq(fields[i].0.as_str(), allowed[k]) {
                found = true;
                proof {
                    assert(vs[k as int] == allowed@[k as int]@);
                    assert(vs.contains(fields@[i as int].0@));
                }
            } else {
                proof {
                    assert(vs[k as int] == allowed@[k as int]@);
                }
            }
            k = k + 1;
        }
        if !found {
            proof {
                assert(!vs.contains(fs[i as int].0));
                assert(!ok.contains(fs[i as int].0));
            }
            return false;
        }
        proof {
            assert(ok.contains(fs[i as int].0));
        }
        i = i + 1;
    }
    true
}

/// The character sequences of a sequence of string slices.
pub open spec fn string_views_of_strs(s: Seq<&str>) -> Seq<Seq<char>> {
    s.map_values(|x: &str| x@)
}

/// The sensitivity marker field: either "no sensitive attributes", written
/// as a false boolean, or a mapping from attribute name to marker. Any
/// other shape, a true boolean above all, is rejected.
#[derive(Debug)]
pub struct SensitiveValues(pub Option<Vec<(String, JsonValue)>>);

/// The mathematical shape of a [`SensitiveValues`].
pub type SensitiveValuesModel = Option<Seq<(Seq<char>, JsonModel)>>;

impl View for SensitiveValues {
    type V = SensitiveValuesModel;

    open spec fn view(&self) -> SensitiveValuesModel {
        match self.0 {
            None => None,
            Some(fields) => Some(json_model_fields(fields@)),
        }
    }
}

/// The shapes a sensitivity marker may take.
pub open spec fn wf_sensitive(j: JsonModel) -> bool {
    ||| j == JsonModel::Bool(false)
    ||| j is Object
}

/// The marker mapping read from a sensitivity marker value.
pub open spec fn sensitive_of(j: JsonModel) -> SensitiveValuesModel {
    match j {
        JsonModel::Object(fs) => Some(fs),
        _ => None,
    }
}

impl SensitiveValues {
    /// Wraps an already-decoded marker mapping.
    pub fn new(inner: Option<Vec<(String, JsonValue)>>) -> (r: Self)
        ensures
            r.0 == inner,
    {
        SensitiveValues(inner)
    }

    /// The marker mapping, if sensitive attributes are present.
    pub fn inner(&self) -> (r: &Option<Vec<(String, JsonValue)>>)
        ensures
            r == &self.0,
    {
        &self.0
    }

    /// Decodes the boolean-or-map union: `false` means no sensitive
    /// attributes, a map carries the markers, and everything else is
    /// malformed.
    pub fn from_json(v: &JsonValue, field: &str) -> (r: Result<Self, TrowelError>)
        ensures
            match r {
                Ok(s) => wf_sensitive(v@) && s@ == sensitive_of(v@),
                Err(e) => !wf_sensitive(v@) && e@ == ErrorModel::MalformedPlan {
                    field: field@,
                },
            },
    {
        match v {
            JsonValue::Bool(b) => {
                if !*b {
                    Ok(SensitiveValues(None))
                } else {
                    Err(TrowelError::MalformedPlan { field: field.to_owned() })
                }
            },
            JsonValue::Object(fields) => Ok(SensitiveValues(Some(clone_fields(fields)))),
            _ => Err(TrowelError::MalformedPlan { field: field.to_owned() }),
        }
    }
}

/// An array whose elements are all strings.
pub open spec fn wf_string_array(j: JsonModel) -> bool {
    &&& j is Array
    &&& forall|i: int| 0 <= i < j->Array_0.len() ==> (#[trigger] j->Array_0[i]) is Text
}

/// The character sequences of a string array.
pub open spec fn strings_of(j: JsonModel) -> Seq<Seq<char>> {
    j->Array_0.map_values(|x: JsonModel| x->Text_0)
}

/// An array of string arrays.
pub open spec fn wf_string_array_array(j: JsonModel) -> bool {
    &&& j is Array
    &&& forall|i: int| 0 <= i < j->Array_0.len() ==> wf_string_array(#[trigger] j->Array_0[i])
}

/// The character sequences of an array of string arrays.
pub open spec fn strings2_of(j: JsonModel) -> Seq<Seq<Seq<char>>> {
    j->Array_0.map_values(|x: JsonModel| strings_of(x))
}

/// Reads a string array into a vector of strings.
fn strings_from_json(v: &JsonValue) -> (r: Option<Vec<String>>)
    ensures
        match r {
            Some(out) => wf_string_array(v@) && string_views(out@) == strings_of(v@),
            None => !wf_string_array(v@),
        },
{
    match v {
        JsonValue::Array(items) => {
            proof {
                lemma_json_model_seq(items@);
            }
            let ghost models = json_model_seq(items@);
            let n = items.len();
            let mut out: Vec<String> = Vec::new();
            let mut i: usize = 0;
            while i < n
                invariant
                    i <= n,
                    n == items@.len(),
                    models == json_model_seq(items@),
                    models.len() == n,
                    v@ == JsonModel::Array(models),
                    forall|j: int|
                        0 <= j < items@.len() ==> models[j] == crate::json::json_model(items@[j]),
                    out@.len() == i,
                    forall|j: int| 0 <= j < i ==> (#[trigger] models[j]) is Text,
                    forall|j: int| 0 <= j < i ==> out@[j]@ == models[j]->Text_0,
                decreases n - i,
            {
                match &items[i] {
                    JsonValue::Text(s) => {
                        out.push(s.clone());
                    },
                    _ => {
                        proof {
                            assert(!(models[i as int] is Text));
                        }
                        return None;
                    },
                }
                i = i + 1;
            }
            proof {
                assert(string_views(out@) =~= strings_of(JsonModel::Array(models)));
            }
            Some(out)
        },
        _ => None,
    }
}

/// Reads an array of string arrays.
fn strings2_from_json(v: &JsonValue) -> (r: Option<Vec<Vec<String>>>)
    ensures
        match r {
            Some(out) => {
                &&& wf_string_array_array(v@)
                &&& out@.len() == strings2_of(v@).len()
                &&& forall|i: int|
                    0 <= i < out@.len() ==> string_views(#[trigger] out@[i]@) == strings2_of(v@)[i]
            },
            None => !wf_string_array_array(v@),
        },
{
    match v {
        JsonValue::Array(items) => {
            proof {
                lemma_json_model_seq(items@);
            }
            let ghost models = json_model_seq(items@);
            let n = items.len();
            let mut out: Vec<Vec<String>> = Vec::new();
            let mut i: usize = 0;
            while i < n
                invariant
                    i <= n,
                    n == items@.len(),
                    models == json_model_seq(items@),
                    models.len() == n,
                    v@ == JsonModel::Array(models),
                    forall|j: int|
                        0 <= j < items@.len() ==> models[j] == crate::json::json_model(items@[j]),
                    out@.len() == i,
                    forall|j: int| 0 <= j < i ==> wf_string_array(#[trigger] models[j]),
                    forall|j: int|
                        0 <= j < i ==> string_views(#[trigger] out@[j]@) == strings_of(models[j]),
                decreases n - i,
            {
                match strings_from_json(&items[i]) {
                    Some(ss) => {
                        out.push(ss);
                    },
                    None => {
                        proof {
                            assert(!wf_string_array(models[i as int]));
                            assert(v@->Array_0 == models);
                            assert(!wf_string_array(v@->Array_0[i as int]));
                        }
                        return None;
                    },
                }
                i = i + 1;
            }
            Some(out)
        },
        _ => None,
    }
}

/// A required string field.
pub open spec fn wf_req_text(fs: Seq<(Seq<char>, JsonModel)>, name: Seq<char>) -> bool {
    match obj_field_opt(fs, name) {
        Some(x) => x is Text,
        None => false,
    }
}

/// The characters of a required string field.
pub open spec fn req_text(fs: Seq<(Seq<char>, JsonModel)>, name: Seq<char>) -> Seq<char> {
    obj_field_opt(fs, name)->Some_0->Text_0
}

/// An optional string field.
pub open spec fn wf_opt_text(fs: Seq<(Seq<char>, JsonModel)>, name: Seq<char>) -> bool {
    match opt_field(fs, name) {
        None => true,
        Some(x) => x is Text,
    }
}

/// The characters of an optional string field.
pub open spec fn opt_text(fs: Seq<(Seq<char>, JsonModel)>, name: Seq<char>) -> Option<Seq<char>> {
    match opt_field(fs, name) {
        None => None,
        Some(x) => Some(x->Text_0),
    }
}

/// A required boolean field.
pub open spec fn wf_req_bool(fs: Seq<(Seq<char>, JsonModel)>, name: Seq<char>) -> bool {
    match obj_field_opt(fs, name) {
        Some(x) => x is Bool,
        None => false,
    }
}

/// The value of a required boolean field.
pub open spec fn req_bool(fs: Seq<(Seq<char>, JsonModel)>, name: Seq<char>) -> bool {
    obj_field_opt(fs, name)->Some_0->Bool_0
}

/// An optional boolean field.
pub open spec fn wf_opt_bool(fs: Seq<(Seq<char>, JsonModel)>, name: Seq<char>) -> bool {
    match opt_field(fs, name) {
        None => true,
        Some(x) => x is Bool,
    }
}

/// The value of an optional boolean field.
pub open spec fn opt_bool(fs: Seq<(Seq<char>, JsonModel)>, name: Seq<char>) -> Option<bool> {
    match opt_field(fs, name) {
        None => None,
        Some(x) => Some(x->Bool_0),
    }
}

/// Reads a required string field.
fn req_text_field(fields: &Vec<(String, JsonValue)>, name: &str) -> (r: Result<
    String,
    TrowelError,
>)
    ensures
        match r {
            Ok(s) => wf_req_text(json_model_fields(fields@), name@) && s@ == req_text(
                json_model_fields(fields@),
                name@,
            ),
            Err(e) => !wf_req_text(json_model_fields(fields@), name@) && e@
                == ErrorModel::MalformedPlan { field: name@ },
        },
{
    match lookup_field(fields, name) {
        Some(JsonValue::Text(s)) => Ok(s.clone()),
        _ => Err(TrowelError::MalformedPlan { field: name.to_owned() }),
    }
}

/// Reads an optional string field.
fn opt_text_field(fields: &Vec<(String, JsonValue)>, name: &str) -> (r: Result<
    Option<String>,
    TrowelError,
>)
    ensures
        match r {
            Ok(s) => wf_opt_text(json_model_fields(fields@), name@) && (match s {
                None => opt_text(json_model_fields(fields@), name@) is None,
                Some(x) => opt_text(json_model_fields(fields@), name@) == Some(x@),
            }),
            Err(e) => !wf_opt_text(json_model_fields(fields@), name@) && e@
                == ErrorModel::MalformedPlan { field: name@ },
        },
{
    match lookup_field(fields, name) {
        None => Ok(None),
        Some(JsonValue::Null) => Ok(None),
        Some(JsonValue::Text(s)) => Ok(Some(s.clone())),
        _ => Err(TrowelError::MalformedPlan { field: name.to_owned() }),
    }
}

/// Reads a required boolean field.
fn req_bool_field(fields: &Vec<(String, JsonValue)>, name: &str) -> (r: Result<bool, TrowelError>)
    ensures
        match r {
            Ok(b) => wf_req_bool(json_model_fields(fields@), name@) && b == req_bool(
                json_model_fields(fields@),
                name@,
            ),
            Err(e) => !wf_req_bool(json_model_fields(fields@), name@) && e@
                == ErrorModel::MalformedPlan { field: name@ },
        },
{
    match lookup_field(fields, name) {
        Some(JsonValue::Bool(b)) => Ok(*b),
        _ => Err(TrowelError::MalformedPlan { field: name.to_owned() }),
    }
}

/// Reads an optional boolean field.
fn opt_bool_field(fields: &Vec<(String, JsonValue)>, name: &str) -> (r: Result<
    Option<bool>,
    TrowelError,
>)
    ensures
        match r {
            Ok(b) => wf_opt_bool(json_model_fields(fields@), name@) && b == opt_bool(
                json_model_fields(fields@),
                name@,
            ),
            Err(e) => !wf_opt_bool(json_model_fields(fields@), name@) && e@
                == ErrorModel::MalformedPlan { field: name@ },
        },
{
    match lookup_field(fields, name) {
        None => Ok(None),
        Some(JsonValue::Null) => Ok(None),
        Some(JsonValue::Bool(b)) => Ok(Some(*b)),
        _ => Err(TrowelError::MalformedPlan { field: name.to_owned() }),
    }
}

/// The transition a resource change describes: the raw action tokens and
/// the before/after value maps with their sensitivity and unknownness
/// markers.
#[derive(Debug)]
pub struct TfPlanResourceChangeChange {
    pub actions: Vec<String>,
    pub before: Option<Vec<(String, JsonValue)>>,
    pub after: Option<Vec<(String, JsonValue)>>,
    pub after_unknown: Vec<(String, JsonValue)>,
    pub before_sensitive: SensitiveValues,
    pub after_sensitive: SensitiveValues,
    pub importing: Option<JsonValue>,
    pub replace_paths: Option<Vec<Vec<String>>>,
}

/// The mathematical shape of a change record.
pub struct ChangeModel {
    pub actions: Seq<Seq<char>>,
    pub before: Option<Seq<(Seq<char>, JsonModel)>>,
    pub after: Option<Seq<(Seq<char>, JsonModel)>>,
    pub after_unknown: Seq<(Seq<char>, JsonModel)>,
    pub before_sensitive: SensitiveValuesModel,
    pub after_sensitive: SensitiveValuesModel,
    pub importing: Option<JsonModel>,
    pub replace_paths: Option<Seq<Seq<Seq<char>>>>,
}

impl View for TfPlanResourceChangeChange {
    type V = ChangeModel;

    open spec fn view(&self) -> ChangeModel {
        ChangeModel {
            actions: string_views(self.actions@),
            before: match self.before {
                None => None,
                Some(fields) => Some(json_model_fields(fields@)),
            },
            after: match self.after {
                None => None,
                Some(fields) => Some(json_model_fields(fields@)),
            },
            after_unknown: json_model_fields(self.after_unknown@),
            before_sensitive: self.before_sensitive@,
            after_sensitive: self.after_sensitive@,
            importing: match self.importing {
                None => None,
                Some(v) => Some(v@),
            },
            replace_paths: match self.replace_paths {
                None => None,
                Some(paths) => Some(paths@.map_values(|p: Vec<String>| string_views(p@))),
            },
        }
    }
}

/// The field names a change record may carry.
pub open spec fn change_allowed() -> Set<Seq<char>> {
    seq![
        "actions"@,
        "before"@,
        "after"@,
        "after_unknown"@,
        "before_sensitive"@,
        "after_sensitive"@,
        "importing"@,
        "replace_paths"@,
    ].to_set()
}

/// The shape of a well-formed change record.
pub open spec fn wf_change(j: JsonModel) -> bool {
    &&& j is Object
    &&& {
        let fs = j->Object_0;
        &&& fields_allowed(fs, change_allowed())
        &&& match obj_field_opt(fs, "actions"@) {
            Some(a) => wf_string_array(a),
            None => false,
        }
        &&& match opt_field(fs, "before"@) {
            None => true,
            Some(x) => x is Object,
        }
        &&& match opt_field(fs, "after"@) {
            None => true,
            Some(x) => x is Object,
        }
        &&& match obj_field_opt(fs, "after_unknown"@) {
            Some(x) => x is Object,
            None => false,
        }
        &&& match obj_field_opt(fs, "before_sensitive"@) {
            Some(x) => wf_sensitive(x),
            None => false,
        }
        &&& match obj_field_opt(fs, "after_sensitive"@) {
            Some(x) => wf_sensitive(x),
            None => false,
        }
        &&& match opt_field(fs, "replace_paths"@) {
            None => true,
            Some(x) => wf_string_array_array(x),
        }
    }
}

/// The change record read from a well-formed change value.
pub open spec fn change_of(j: JsonModel) -> ChangeModel
    recommends
        wf_change(j),
{
    let fs = j->Object_0;
    ChangeModel {
        actions: strings_of(obj_field_opt(fs, "actions"@)->Some_0),
        before: match opt_field(fs, "before"@) {
            None => None,
            Some(x) => Some(x->Object_0),
        },
        after: match opt_field(fs, "after"@) {
            None => None,
            Some(x) => Some(x->Object_0),
        },
        after_unknown: obj_field_opt(fs, "after_unknown"@)->Some_0->Object_0,
        before_sensitive: sensitive_of(obj_field_opt(fs, "before_sensitive"@)->Some_0),
        after_sensitive: sensitive_of(obj_field_opt(fs, "after_sensitive"@)->Some_0),
        importing: opt_field(fs, "importing"@),
        replace_paths: match opt_field(fs, "replace_paths"@) {
            None => None,
            Some(x) => Some(strings2_of(x)),
        },
    }
}

impl TfPlanResourceChangeChange {
    /// Reads a change record, strictly.
    pub fn from_json(v: &JsonValue) -> (r: Result<Self, TrowelError>)
        ensures
            match r {
                Ok(c) => wf_change(v@) && c@ == change_of(v@),
                Err(e) => !wf_change(v@) && e@ is MalformedPlan,
            },
    {
        let fields = match v {
            JsonValue::Object(f) => f,
            _ => {
                return Err(TrowelError::MalformedPlan { field: "change".to_owned() });
            },
        };
        proof {
            lemma_json_model_fields(fields@);
        }
        let ghost fs = json_model_fields(fields@);
        let allowed: Vec<&str> = vec![
            "actions",
            "before",
            "after",
            "after_unknown",
            "before_sensitive",
            "after_sensitive",
            "importing",
            "replace_paths",
        ];
        proof {
            assert(string_views_of_strs(allowed@) =~= seq![
                "actions"@,
                "before"@,
                "after"@,
                "after_unknown"@,
                "before_sensitive"@,
                "after_sensitive"@,
                "importing"@,
                "replace_paths"@,
            ]);
        }
        if !check_fields_allowed(fields, &allowed) {
            return Err(TrowelError::MalformedPlan { field: "change".to_owned() });
        }
        let actions = match lookup_field(fields, "actions") {
            Some(a) => match strings_from_json(a) {
                Some(ss) => ss,
                None => {
                    return Err(TrowelError::MalformedPlan { field: "actions".to_owned() });
                },
            },
            None => {
                return Err(TrowelError::MalformedPlan { field: "actions".to_owned() });
            },
        };
        let before = match lookup_field(fields, "before") {
            None => None,
            Some(x) => match x {
                JsonValue::Null => None,
                JsonValue::Object(f) => Some(clone_fields(f)),
                _ => {
                    return Err(TrowelError::MalformedPlan { field: "before".to_owned() });
                },
            },
        };
        let after = match lookup_field(fields, "after") {
            None => None,
            Some(x) => match x {
                JsonValue::Null => None,
                JsonValue::Object(f) => Some(clone_fields(f)),
                _ => {
                    return Err(TrowelError::MalformedPlan { field: "after".to_owned() });
                },
            },
        };
        let after_unknown = match lookup_field(fields, "after_unknown") {
            Some(JsonValue::Object(f)) => clone_fields(f),
            _ => {
                return Err(TrowelError::MalformedPlan { field: "after_unknown".to_owned() });
            },
        };
        let before_sensitive = match lookup_field(fields, "before_sensitive") {
            Some(x) => match SensitiveValues::from_json(x, "before_sensitive") {
                Ok(s) => s,
                Err(e) => {
                    return Err(e);
                },
            },
            None => {
                return Err(TrowelError::MalformedPlan { field: "before_sensitive".to_owned() });
            },
        };
        let after_sensitive = match lookup_field(fields, "after_sensitive") {
            Some(x) => match SensitiveValues::from_json(x, "after_sensitive") {
                Ok(s) => s,
                Err(e) => {
                    return Err(e);
                },
            },
            None => {
                return Err(TrowelError::MalformedPlan { field: "after_sensitive".to_owned() });
            },
        };
        let importing = match lookup_field(fields, "importing") {
            None => None,
            Some(x) => match x {
                JsonValue::Null => None,
                other => Some(other.clone()),
            },
        };
        let replace_paths = match lookup_field(fields, "replace_paths") {
            None => None,
            Some(x) => match x {
                JsonValue::Null => None,
                other => match strings2_from_json(other) {
                    Some(p) => Some(p),
                    None => {
                        return Err(TrowelError::MalformedPlan { field: "replace_paths".to_owned() });
                    },
                },
            },
        };
        let out = TfPlanResourceChangeChange {
            actions,
            before,
            after,
            after_unknown,
            before_sensitive,
            after_sensitive,
            importing,
            replace_paths,
        };
        proof {
            assert(wf_change(v@));
            let m = change_of(v@);
            assert(out@.replace_paths == m.replace_paths) by {
                match opt_field(fs, "replace_paths"@) {
                    None => {},
                    Some(x) => {
                        assert(out@.replace_paths matches Some(p) && p =~= strings2_of(x));
                    },
                }
            }
            assert(out@ == m);
        }
        Ok(out)
    }
}

/// One resource in the planned-values tree.
#[derive(Debug)]
pub struct TfPlanPlannedValuesModuleResource {
    pub address: String,
    pub mode: String,
    pub resource_type: String,
    pub name: String,
    pub index: Option<String>,
    pub provider_name: String,
    pub schema_version: u8,
    pub values: Vec<(String, JsonValue)>,
    pub sensitive_values: Vec<(String, JsonValue)>,
    pub depends_on: Option<Vec<String>>,
}

/// The mathematical shape of a planned-values resource.
pub struct ModuleResourceModel {
    pub address: Seq<char>,
    pub mode: Seq<char>,
    pub resource_type: Seq<char>,
    pub name: Seq<char>,
    pub index: Option<Seq<char>>,
    pub provider_name: Seq<char>,
    pub schema_version: u8,
    pub values: Seq<(Seq<char>, JsonModel)>,
    pub sensitive_values: Seq<(Seq<char>, JsonModel)>,
    pub depends_on: Option<Seq<Seq<char>>>,
}

impl View for TfPlanPlannedValuesModuleResource {
    type V = ModuleResourceModel;

    open spec fn view(&self) -> ModuleResourceModel {
        ModuleResourceModel {
            address: self.address@,
            mode: self.mode@,
            resource_type: self.resource_type@,
            name: self.name@,
            index: match self.index {
                None => None,
                Some(s) => Some(s@),
            },
            provider_name: self.provider_name@,
            schema_version: self.schema_version,
            values: json_model_fields(self.values@),
            sensitive_values: json_model_fields(self.sensitive_values@),
            depends_on: match self.depends_on {
                None => None,
                Some(d) => Some(string_views(d@)),
            },
        }
    }
}

/// The field names a planned-values resource may carry.
pub open spec fn module_resource_allowed() -> Set<Seq<char>> {
    seq![
        "address"@,
        "mode"@,
        "type"@,
        "name"@,
        "index"@,
        "provider_name"@,
        "schema_version"@,
        "values"@,
        "sensitive_values"@,
        "depends_on"@,
    ].to_set()
}

/// A required object-valued field.
pub open spec fn wf_req_obj(fs: Seq<(Seq<char>, JsonModel)>, name: Seq<char>) -> bool {
    match obj_field_opt(fs, name) {
        Some(x) => x is Object,
        None => false,
    }
}

/// The fields of a required object-valued field.
pub open spec fn req_obj(fs: Seq<(Seq<char>, JsonModel)>, name: Seq<char>) -> Seq<
    (Seq<char>, JsonModel),
> {
    obj_field_opt(fs, name)->Some_0->Object_0
}

/// The shape of a well-formed planned-values resource.
pub open spec fn wf_module_resource(j: JsonModel) -> bool {
    &&& j is Object
    &&& {
        let fs = j->Object_0;
        &&& fields_allowed(fs, module_resource_allowed())
        &&& wf_req_text(fs, "address"@)
        &&& wf_req_text(fs, "mode"@)
        &&& wf_req_text(fs, "type"@)
        &&& wf_req_text(fs, "name"@)
        &&& wf_opt_text(fs, "index"@)
        &&& wf_req_text(fs, "provider_name"@)
        &&& match obj_field_opt(fs, "schema_version"@) {
            Some(x) => x matches JsonModel::Number(s) && crate::strutil::canonical_dec(s)
                && crate::strutil::dec_val(s) <= 255,
            None => false,
        }
        &&& wf_req_obj(fs, "values"@)
        &&& wf_req_obj(fs, "sensitive_values"@)
        &&& match opt_field(fs, "depends_on"@) {
            None => true,
            Some(x) => wf_string_array(x),
        }
    }
}

/// The resource read from a well-formed planned-values resource value.
pub open spec fn module_resource_of(j: JsonModel) -> ModuleResourceModel
    recommends
        wf_module_resource(j),
{
    let fs = j->Object_0;
    ModuleResourceModel {
        address: req_text(fs, "address"@),
        mode: req_text(fs, "mode"@),
        resource_type: req_text(fs, "type"@),
        name: req_text(fs, "name"@),
        index: opt_text(fs, "index"@),
        provider_name: req_text(fs, "provider_name"@),
        schema_version: crate::strutil::dec_val(
            obj_field_opt(fs, "schema_version"@)->Some_0->Number_0,
        ) as u8,
        values: req_obj(fs, "values"@),
        sensitive_values: req_obj(fs, "sensitive_values"@),
        depends_on: match opt_field(fs, "depends_on"@) {
            None => None,
            Some(x) => Some(strings_of(x)),
        },
    }
}

impl TfPlanPlannedValuesModuleResource {
    /// Reads a planned-values resource, strictly.
    pub fn from_json(v: &JsonValue) -> (r: Result<Self, TrowelError>)
        ensures
            match r {
                Ok(m) => wf_module_resource(v@) && m@ == module_resource_of(v@),
                Err(e) => !wf_module_resource(v@) && e@ is MalformedPlan,
            },
    {
        let fields = match v {
            JsonValue::Object(f) => f,
            _ => {
                return Err(TrowelError::MalformedPlan { field: "resources".to_owned() });
            },
        };
        proof {
            lemma_json_model_fields(fields@);
        }
        let ghost fs = json_model_fields(fields@);
        let allowed: Vec<&str> = vec![
            "address",
            "mode",
            "type",
            "name",
            "index",
            "provider_name",
            "schema_version",
            "values",
            "sensitive_values",
            "depends_on",
        ];
        proof {
            assert(string_views_of_strs(allowed@) =~= seq![
                "address"@,
                "mode"@,
                "type"@,
                "name"@,
                "index"@,
                "provider_name"@,
                "schema_version"@,
                "values"@,
                "sensitive_values"@,
                "depends_on"@,
            ]);
        }
        if !check_fields_allowed(fields, &allowed) {
            return Err(TrowelError::MalformedPlan { field: "resources".to_owned() });
        }
        let address = match req_text_field(fields, "address") {
            Ok(s) => s,
            Err(e) => {
                return Err(e);
            },
        };
        let mode = match req_text_field(fields, "mode") {
            Ok(s) => s,
            Err(e) => {
                return Err(e);
            },
        };
        let resource_type = match req_text_field(fields, "type") {
            Ok(s) => s,
            Err(e) => {
                return Err(e);
            },
        };
        let name = match req_text_field(fields, "name") {
            Ok(s) => s,
            Err(e) => {
                return Err(e);
            },
        };
        let index = match opt_text_field(fields, "index") {
            Ok(s) => s,
            Err(e) => {
                return Err(e);
            },
        };
        let provider_name = match req_text_field(fields, "provider_name") {
            Ok(s) => s,
            Err(e) => {
                return Err(e);
            },
        };
        let schema_version = match lookup_field(fields, "schema_version") {
            Some(JsonValue::Number(s)) => match parse_u8_decimal(s.as_str()) {
                Some(n) => {
                    proof {
                        crate::strutil::lemma_dec_digits_canonical(n as nat);
                    }
                    n
                },
                None => {
                    proof {
                        let txt = obj_field_opt(fs, "schema_version"@)->Some_0->Number_0;
                        if crate::strutil::canonical_dec(txt) && crate::strutil::dec_val(txt)
                            <= 255 {
                            crate::strutil::lemma_canonical_dec_digits(txt);
                            let nv = crate::strutil::dec_val(txt) as u8;
                            assert(txt == dec_digits(nv as nat));
                        }
                    }
                    return Err(TrowelError::MalformedPlan { field: "schema_version".to_owned() });
                },
            },
            _ => {
                return Err(TrowelError::MalformedPlan { field: "schema_version".to_owned() });
            },
        };
        let values = match lookup_field(fields, "values") {
            Some(JsonValue::Object(f)) => clone_fields(f),
            _ => {
                return Err(TrowelError::MalformedPlan { field: "values".to_owned() });
            },
        };
        let sensitive_values = match lookup_field(fields, "sensitive_values") {
            Some(JsonValue::Object(f)) => clone_fields(f),
            _ => {
                return Err(TrowelError::MalformedPlan { field: "sensitive_values".to_owned() });
            },
        };
        let depends_on = match lookup_field(fields, "depends_on") {
            None => None,
            Some(x) => match x {
                JsonValue::Null => None,
                other => match strings_from_json(other) {
                    Some(d) => Some(d),
                    None => {
                        return Err(TrowelError::MalformedPlan { field: "depends_on".to_owned() });
                    },
                },
            },
        };
        let out = TfPlanPlannedValuesModuleResource {
            address,
            mode,
            resource_type,
            name,
            index,
            provider_name,
            schema_version,
            values,
            sensitive_values,
            depends_on,
        };
        proof {
            assert(wf_module_resource(v@));
            assert(out@ == module_resource_of(v@));
        }
        Ok(out)
    }
}

/// Every element is a well-formed planned-values resource.
pub open spec fn wf_module_resource_array(j: JsonModel) -> bool {
    &&& j is Array
    &&& forall|i: int| 0 <= i < j->Array_0.len() ==> wf_module_resource(#[trigger] j->Array_0[i])
}

/// The resources read from a well-formed resource array.
pub open spec fn module_resources_of(j: JsonModel) -> Seq<ModuleResourceModel> {
    j->Array_0.map_values(|x: JsonModel| module_resource_of(x))
}

/// Reads an array of planned-values resources.
fn module_resources_from_json(v: &JsonValue) -> (r: Result<
    Vec<TfPlanPlannedValuesModuleResource>,
    TrowelError,
>)
    ensures
        match r {
            Ok(out) => {
                &&& wf_module_resource_array(v@)
                &&& out@.map_values(|x: TfPlanPlannedValuesModuleResource| x@)
                    == module_resources_of(v@)
            },
            Err(e) => !wf_module_resource_array(v@) && e@ is MalformedPlan,
        },
{
    let items = match v {
        JsonValue::Array(items) => items,
        _ => {
            return Err(TrowelError::MalformedPlan { field: "resources".to_owned() });
        },
    };
    proof {
        lemma_json_model_seq(items@);
    }
    let ghost models = json_model_seq(items@);
    let n = items.len();
    let mut out: Vec<TfPlanPlannedValuesModuleResource> = Vec::new();
    let mut i: usize = 0;
    while i < n
        invariant
            i <= n,
            n == items@.len(),
            models == json_model_seq(items@),
            models.len() == n,
            v@ == JsonModel::Array(models),
            forall|j: int| 0 <= j < items@.len() ==> models[j] == crate::json::json_model(
                items@[j],
            ),
            out@.len() == i,
            forall|j: int| 0 <= j < i ==> wf_module_resource(#[trigger] models[j]),
            forall|j: int| 0 <= j < i ==> (#[trigger] out@[j])@ == module_resource_of(models[j]),
        decreases n - i,
    {
        match TfPlanPlannedValuesModuleResource::from_json(&items[i]) {
            Ok(m) => {
                out.push(m);
            },
            Err(e) => {
                proof {
                    assert(!wf_module_resource(v@->Array_0[i as int]));
                }
                return Err(e);
            },
        }
        i = i + 1;
    }
    proof {
        assert(out@.map_values(|x: TfPlanPlannedValuesModuleResource| x@) =~= module_resources_of(
            v@,
        ));
    }
    Ok(out)
}

/// One module in the planned-values tree; modules nest.
#[derive(Debug)]
pub struct TfPlanPlannedValuesChildModule {
    pub address: String,
    pub resources: Option<Vec<TfPlanPlannedValuesModuleResource>>,
    pub child_modules: Option<Vec<TfPlanPlannedValuesChildModule>>,
}

/// The mathematical shape of a child module.
pub struct ChildModuleModel {
    pub address: Seq<char>,
    pub resources: Option<Seq<ModuleResourceModel>>,
    pub child_modules: Option<Seq<ChildModuleModel>>,
}

/// The model of a child module.
pub open spec fn child_module_view(c: TfPlanPlannedValuesChildModule) -> ChildModuleModel
    decreases c,
{
    ChildModuleModel {
        address: c.address@,
        resources: match c.resources {
            None => None,
            Some(rs) => Some(rs@.map_values(|x: TfPlanPlannedValuesModuleResource| x@)),
        },
        child_modules: match c.child_modules {
            None => None,
            Some(cs) => Some(child_module_views(cs@)),
        },
    }
}

/// The models of a sequence of child modules.
pub open spec fn child_module_views(s: Seq<TfPlanPlannedValuesChildModule>) -> Seq<
    ChildModuleModel,
>
    decreases s,
{
    if s.len() == 0 {
        Seq::empty()
    } else {
        seq![child_module_view(s[0])] + child_module_views(s.subrange(1, s.len() as int))
    }
}

/// The model sequence has one entry per module, in order.
pub proof fn lemma_child_module_views(s: Seq<TfPlanPlannedValuesChildModule>)
    ensures
        child_module_views(s).len() == s.len(),
        forall|i: int| 0 <= i < s.len() ==> child_module_views(s)[i] == child_module_view(s[i]),
    decreases s,
{
    if s.len() > 0 {
        lemma_child_module_views(s.subrange(1, s.len() as int));
    }
}

impl View for TfPlanPlannedValuesChildModule {
    type V = ChildModuleModel;

    open spec fn view(&self) -> ChildModuleModel {
        child_module_view(*self)
    }
}

/// The field names a child module may carry.
pub open spec fn child_module_allowed() -> Set<Seq<char>> {
    seq!["address"@, "resources"@, "child_modules"@].to_set()
}

/// The shape of a well-formed child module.
pub open spec fn wf_child_module(j: JsonModel) -> bool
    decreases j,
{
    &&& j is Object
    &&& {
        let fs = j->Object_0;
        &&& fields_allowed(fs, child_module_allowed())
        &&& wf_req_text(fs, "address"@)
        &&& match opt_field(fs, "resources"@) {
            None => true,
            Some(x) => wf_module_resource_array(x),
        }
        &&& wf_child_modules_entry(fs)
    }
}

/// Every element is a well-formed child module.
pub open spec fn wf_child_module_array(s: Seq<JsonModel>) -> bool
    decreases s,
{
    if s.len() == 0 {
        true
    } else {
        wf_child_module(s[0]) && wf_child_module_array(s.subrange(1, s.len() as int))
    }
}

/// The shape of the `child_modules` field, located by a first-occurrence
/// scan: absent or null is fine, and an array must hold well-formed child
/// modules.
pub open spec fn wf_child_modules_entry(fs: Seq<(Seq<char>, JsonModel)>) -> bool
    decreases fs,
{
    if fs.len() == 0 {
        true
    } else if fs[0].0 == "child_modules"@ {
        fs[0].1 is Null || (fs[0].1 is Array && wf_child_module_array(fs[0].1->Array_0))
    } else {
        wf_child_modules_entry(fs.subrange(1, fs.len() as int))
    }
}

/// The module read from a well-formed child module value.
pub open spec fn child_module_of(j: JsonModel) -> ChildModuleModel
    recommends
        wf_child_module(j),
    decreases j,
{
    match j {
        JsonModel::Object(fs) => ChildModuleModel {
            address: req_text(fs, "address"@),
            resources: match opt_field(fs, "resources"@) {
                None => None,
                Some(x) => Some(module_resources_of(x)),
            },
            child_modules: child_modules_entry_models(fs),
        },
        _ => ChildModuleModel { address: Seq::empty(), resources: None, child_modules: None },
    }
}

/// The modules read from a well-formed child module array.
pub open spec fn child_module_array_models(s: Seq<JsonModel>) -> Seq<ChildModuleModel>
    decreases s,
{
    if s.len() == 0 {
        Seq::empty()
    } else {
        seq![child_module_of(s[0])] + child_module_array_models(s.subrange(1, s.len() as int))
    }
}

/// The `child_modules` read by a first-occurrence scan: `None` when the
/// field is absent or null.
pub open spec fn child_modules_entry_models(fs: Seq<(Seq<char>, JsonModel)>) -> Option<
    Seq<ChildModuleModel>,
>
    decreases fs,
{
    if fs.len() == 0 {
        None
    } else if fs[0].0 == "child_modules"@ {
        if fs[0].1 is Array {
            Some(child_module_array_models(fs[0].1->Array_0))
        } else {
            None
        }
    } else {
        child_modules_entry_models(fs.subrange(1, fs.len() as int))
    }
}

/// The model sequence of a child module array has one entry per element.
pub proof fn lemma_child_module_array_models(s: Seq<JsonModel>)
    ensures
        child_module_array_models(s).len() == s.len(),
        forall|i: int| 0 <= i < s.len() ==> child_module_array_models(s)[i] == child_module_of(
            s[i],
        ),
        wf_child_module_array(s) <==> (forall|i: int|
            0 <= i < s.len() ==> wf_child_module(#[trigger] s[i])),
    decreases s,
{
    if s.len() > 0 {
        let t = s.subrange(1, s.len() as int);
        lemma_child_module_array_models(t);
        assert forall|i: int| 1 <= i < s.len() implies s[i] == t[i - 1] by {}
        if forall|i: int| 0 <= i < s.len() ==> wf_child_module(#[trigger] s[i]) {
            assert forall|i: int| 0 <= i < t.len() implies wf_child_module(#[trigger] t[i]) by {
                assert(t[i] == s[i + 1]);
            }
        }
    }
}

/// The scan of the `child_modules` field agrees with the usual
/// first-occurrence lookup.
pub proof fn lemma_child_modules_entry(fs: Seq<(Seq<char>, JsonModel)>)
    ensures
        opt_field(fs, "child_modules"@) is None ==> wf_child_modules_entry(fs)
            && child_modules_entry_models(fs) is None,
        opt_field(fs, "child_modules"@) matches Some(x) ==> (wf_child_modules_entry(fs) == (
        x is Array && wf_child_module_array(x->Array_0)) && (x is Array
            ==> child_modules_entry_models(fs) == Some(child_module_array_models(x->Array_0)))),
    decreases fs,
{
    if fs.len() > 0 && fs[0].0 != "child_modules"@ {
        lemma_child_modules_entry(fs.subrange(1, fs.len() as int));
    }
}

/// Reads the elements of a `child_modules` array.
fn child_modules_from_items(items: &Vec<JsonValue>) -> (r: Result<
    Vec<TfPlanPlannedValuesChildModule>,
    TrowelError,
>)
    ensures
        match r {
            Ok(out) => {
                &&& wf_child_module_array(json_model_seq(items@))
                &&& child_module_views(out@) == child_module_array_models(json_model_seq(items@))
            },
            Err(e) => !wf_child_module_array(json_model_seq(items@)) && e@ is MalformedPlan,
        },
    decreases items@,
{
    proof {
        lemma_json_model_seq(items@);
        lemma_child_module_array_models(json_model_seq(items@));
    }
    let ghost models = json_model_seq(items@);
    let n = items.len();
    let mut out: Vec<TfPlanPlannedValuesChildModule> = Vec::new();
    let mut i: usize = 0;
    while i < n
        invariant
            i <= n,
            n == items@.len(),
            models == json_model_seq(items@),
            models.len() == n,
            child_module_array_models(models).len() == n,
            forall|j: int| 0 <= j < items@.len() ==> models[j] == crate::json::json_model(
                items@[j],
            ),
            forall|j: int| 0 <= j < models.len() ==> child_module_array_models(models)[j]
                == child_module_of(models[j]),
            wf_child_module_array(models) <==> (forall|j: int|
                0 <= j < models.len() ==> wf_child_module(#[trigger] models[j])),
            out@.len() == i,
            forall|j: int| 0 <= j < i ==> wf_child_module(#[trigger] models[j]),
            forall|j: int| 0 <= j < i ==> child_module_view(#[trigger] out@[j]) == child_module_of(
                models[j],
            ),
        decreases n - i,
    {
        match TfPlanPlannedValuesChildModule::from_json(&items[i]) {
            Ok(m) => {
                out.push(m);
            },
            Err(e) => {
                proof {
                    assert(!wf_child_module(models[i as int]));
                }
                return Err(e);
            },
        }
        i = i + 1;
    }
    proof {
        lemma_child_module_views(out@);
        assert(child_module_views(out@) =~= child_module_array_models(models));
    }
    Ok(out)
}

/// Reads the `child_modules` field of an object by a first-occurrence
/// scan.
fn child_modules_field(fields: &Vec<(String, JsonValue)>) -> (r: Result<
    Option<Vec<TfPlanPlannedValuesChildModule>>,
    TrowelError,
>)
    ensures
        match r {
            Ok(out) => {
                &&& wf_child_modules_entry(json_model_fields(fields@))
                &&& match out {
                    None => child_modules_entry_models(json_model_fields(fields@)) is None,
                    Some(cs) => child_modules_entry_models(json_model_fields(fields@)) == Some(
                        child_module_views(cs@),
                    ),
                }
            },
            Err(e) => !wf_child_modules_entry(json_model_fields(fields@)) && e@ is MalformedPlan,
        },
    decreases fields@,
{
    proof {
        lemma_json_model_fields(fields@);
    }
    let ghost fs = json_model_fields(fields@);
    let nf = fields.len();
    let mut k: usize = 0;
    while k < nf
        invariant
            k <= nf,
            nf == fields@.len(),
            fs == json_model_fields(fields@),
            fs.len() == nf,
            forall|j: int| 0 <= j < fields@.len() ==> fs[j] == (fields@[j].0@, crate::json::json_model(
                fields@[j].1,
            )),
            forall|j: int| 0 <= j < k ==> fs[j].0 != "child_modules"@,
        decreases nf - k,
    {
        if str_eq(fields[k].0.as_str(), "child_modules") {
            proof {
                lemma_obj_field_opt_skip(fs, "child_modules"@, k as int);
                let tail = fs.subrange(k as int, fs.len() as int);
                assert(tail[0] == fs[k as int]);
                assert(obj_field_opt(fs, "child_modules"@) == Some(fs[k as int].1));
                lemma_child_modules_entry(fs);
            }
            match &fields[k].1 {
                JsonValue::Null => {
                    return Ok(None);
                },
                JsonValue::Array(items) => {
                    match child_modules_from_items(items) {
                        Ok(cs) => {
                            return Ok(Some(cs));
                        },
                        Err(e) => {
                            return Err(e);
                        },
                    }
                },
                _ => {
                    return Err(
                        TrowelError::MalformedPlan { field: "child_modules".to_owned() },
                    );
                },
            }
        }
        k = k + 1;
    }
    proof {
        lemma_obj_field_opt_skip(fs, "child_modules"@, nf as int);
        assert(fs.subrange(nf as int, fs.len() as int) =~= Seq::<(Seq<char>, JsonModel)>::empty());
        lemma_child_modules_entry(fs);
    }
    Ok(None)
}

impl TfPlanPlannedValuesChildModule {
    /// Reads a child module, strictly; modules nest to any depth.
    pub fn from_json(v: &JsonValue) -> (r: Result<Self, TrowelError>)
        ensures
            match r {
                Ok(m) => wf_child_module(v@) && m@ == child_module_of(v@),
                Err(e) => !wf_child_module(v@) && e@ is MalformedPlan,
            },
        decreases *v,
    {
        let fields = match v {
            JsonValue::Object(f) => f,
            _ => {
                return Err(TrowelError::MalformedPlan { field: "child_modules".to_owned() });
            },
        };
        proof {
            lemma_json_model_fields(fields@);
        }
        let ghost fs = json_model_fields(fields@);
        let allowed: Vec<&str> = vec!["address", "resources", "child_modules"];
        proof {
            assert(string_views_of_strs(allowed@) =~= seq![
                "address"@,
                "resources"@,
                "child_modules"@,
            ]);
        }
        if !check_fields_allowed(fields, &allowed) {
            return Err(TrowelError::MalformedPlan { field: "child_modules".to_owned() });
        }
        let address = match req_text_field(fields, "address") {
            Ok(s) => s,
            Err(e) => {
                return Err(e);
            },
        };
        let resources = match lookup_field(fields, "resources") {
            None => None,
            Some(x) => match x {
                JsonValue::Null => None,
                other => match module_resources_from_json(other) {
                    Ok(rs) => Some(rs),
                    Err(e) => {
                        return Err(e);
                    },
                },
            },
        };
        let child_modules = match child_modules_field(fields) {
            Ok(cs) => cs,
            Err(e) => {
                return Err(e);
            },
        };
        let out = TfPlanPlannedValuesChildModule { address, resources, child_modules };
        proof {
            assert(wf_child_module(v@));
            assert(out@.resources == child_module_of(v@).resources) by {
                match opt_field(fs, "resources"@) {
                    None => {},
                    Some(x) => {
                        assert(out@.resources matches Some(p) && p =~= module_resources_of(x));
                    },
                }
            }
            assert(out@ == child_module_of(v@));
        }
        Ok(out)
    }
}

/// The root module of the planned-values tree.
#[derive(Debug)]
pub struct TfPlanPlannedValuesRootModule {
    pub resources: Option<Vec<TfPlanPlannedValuesModuleResource>>,
    pub child_modules: Option<Vec<TfPlanPlannedValuesChildModule>>,
}

/// The mathematical shape of the root module.
pub struct RootModuleModel {
    pub resources: Option<Seq<ModuleResourceModel>>,
    pub child_modules: Option<Seq<ChildModuleModel>>,
}

impl View for TfPlanPlannedValuesRootModule {
    type V = RootModuleModel;

    open spec fn view(&self) -> RootModuleModel {
        RootModuleModel {
            resources: match self.resources {
                None => None,
                Some(rs) => Some(rs@.map_values(|x: TfPlanPlannedValuesModuleResource| x@)),
            },
            child_modules: match self.child_modules {
                None => None,
                Some(cs) => Some(child_module_views(cs@)),
            },
        }
    }
}

/// The field names the root module may carry.
pub open spec fn root_module_allowed() -> Set<Seq<char>> {
    seq!["resources"@, "child_modules"@].to_set()
}

/// The shape of a well-formed root module.
pub open spec fn wf_root_module(j: JsonModel) -> bool {
    &&& j is Object
    &&& {
        let fs = j->Object_0;
        &&& fields_allowed(fs, root_module_allowed())
        &&& match opt_field(fs, "resources"@) {
            None => true,
            Some(x) => wf_module_resource_array(x),
        }
        &&& wf_child_modules_entry(fs)
    }
}

/// The root module read from a well-formed root module value.
pub open spec fn root_module_of(j: JsonModel) -> RootModuleModel
    recommends
        wf_root_module(j),
{
    let fs = j->Object_0;
    RootModuleModel {
        resources: match opt_field(fs, "resources"@) {
            None => None,
            Some(x) => Some(module_resources_of(x)),
        },
        child_modules: child_modules_entry_models(fs),
    }
}

impl TfPlanPlannedValuesRootModule {
    /// Reads the root module, strictly.
    pub fn from_json(v: &JsonValue) -> (r: Result<Self, TrowelError>)
        ensures
            match r {
                Ok(m) => wf_root_module(v@) && m@ == root_module_of(v@),
                Err(e) => !wf_root_module(v@) && e@ is MalformedPlan,
            },
    {
        let fields = match v {
            JsonValue::Object(f) => f,
            _ => {
                return Err(TrowelError::MalformedPlan { field: "root_module".to_owned() });
            },
        };
        proof {
            lemma_json_model_fields(fields@);
        }
        let ghost fs = json_model_fields(fields@);
        let allowed: Vec<&str> = vec!["resources", "child_modules"];
        proof {
            assert(string_views_of_strs(allowed@) =~= seq!["resources"@, "child_modules"@]);
        }
        if !check_fields_allowed(fields, &allowed) {
            return Err(TrowelError::MalformedPlan { field: "root_module".to_owned() });
        }
        let resources = match lookup_field(fields, "resources") {
            None => None,
            Some(x) => match x {
                JsonValue::Null => None,
                other => match module_resources_from_json(other) {
                    Ok(rs) => Some(rs),
                    Err(e) => {
                        return Err(e);
                    },
                },
            },
        };
        let child_modules = match child_modules_field(fields) {
            Ok(cs) => cs,
            Err(e) => {
                return Err(e);
            },
        };
        let out = TfPlanPlannedValuesRootModule { resources, child_modules };
        proof {
            assert(wf_root_module(v@));
            assert(out@.resources == root_module_of(v@).resources) by {
                match opt_field(fs, "resources"@) {
                    None => {},
                    Some(x) => {
                        assert(out@.resources matches Some(p) && p =~= module_resources_of(x));
                    },
                }
            }
            assert(out@ == root_module_of(v@));
        }
        Ok(out)
    }
}

/// The planned values of a plan: the state the plan would produce.
#[derive(Debug)]
pub struct TfPlanPlannedValues {
    pub root_module: TfPlanPlannedValuesRootModule,
}

/// The mathematical shape of the planned values.
pub struct PlannedValuesModel {
    pub root_module: RootModuleModel,
}

impl View for TfPlanPlannedValues {
    type V = PlannedValuesModel;

    open spec fn view(&self) -> PlannedValuesModel {
        PlannedValuesModel { root_module: self.root_module@ }
    }
}

/// The shape of well-formed planned values.
pub open spec fn wf_planned_values(j: JsonModel) -> bool {
    &&& j is Object
    &&& fields_allowed(j->Object_0, seq!["root_module"@].to_set())
    &&& match obj_field_opt(j->Object_0, "root_module"@) {
        Some(x) => wf_root_module(x),
        None => false,
    }
}

/// The planned values read from a well-formed value.
pub open spec fn planned_values_of(j: JsonModel) -> PlannedValuesModel
    recommends
        wf_planned_values(j),
{
    PlannedValuesModel {
        root_module: root_module_of(obj_field_opt(j->Object_0, "root_module"@)->Some_0),
    }
}

impl TfPlanPlannedValues {
    /// Reads the planned values, strictly.
    pub fn from_json(v: &JsonValue) -> (r: Result<Self, TrowelError>)
        ensures
            match r {
                Ok(m) => wf_planned_values(v@) && m@ == planned_values_of(v@),
                Err(e) => !wf_planned_values(v@) && e@ is MalformedPlan,
            },
    {
        let fields = match v {
            JsonValue::Object(f) => f,
            _ => {
                return Err(TrowelError::MalformedPlan { field: "planned_values".to_owned() });
            },
        };
        proof {
            lemma_json_model_fields(fields@);
        }
        let allowed: Vec<&str> = vec!["root_module"];
        proof {
            assert(string_views_of_strs(allowed@) =~= seq!["root_module"@]);
        }
        if !check_fields_allowed(fields, &allowed) {
            return Err(TrowelError::MalformedPlan { field: "planned_values".to_owned() });
        }
        let root_module = match lookup_field(fields, "root_module") {
            Some(x) => match TfPlanPlannedValuesRootModule::from_json(x) {
                Ok(m) => m,
                Err(e) => {
                    return Err(e);
                },
            },
            None => {
                return Err(TrowelError::MalformedPlan { field: "root_module".to_owned() });
            },
        };
        Ok(TfPlanPlannedValues { root_module })
    }
}

/// The prior state recorded in a plan.
#[derive(Debug)]
pub struct TfPlanPriorState {
    pub format_version: String,
    pub terraform_version: String,
    pub values: TfPlanPlannedValues,
}

/// The mathematical shape of the prior state.
pub struct PriorStateModel {
    pub format_version: Seq<char>,
    pub terraform_version: Seq<char>,
    pub values: PlannedValuesModel,
}

impl View for TfPlanPriorState {
    type V = PriorStateModel;

    open spec fn view(&self) -> PriorStateModel {
        PriorStateModel {
            format_version: self.format_version@,
            terraform_version: self.terraform_version@,
            values: self.values@,
        }
    }
}

/// The shape of a well-formed prior state.
pub open spec fn wf_prior_state(j: JsonModel) -> bool {
    &&& j is Object
    &&& {
        let fs = j->Object_0;
        &&& fields_allowed(fs, seq!["format_version"@, "terraform_version"@, "values"@].to_set())
        &&& wf_req_text(fs, "format_version"@)
        &&& wf_req_text(fs, "terraform_version"@)
        &&& match obj_field_opt(fs, "values"@) {
            Some(x) => wf_planned_values(x),
            None => false,
        }
    }
}

/// The prior state read from a well-formed value.
pub open spec fn prior_state_of(j: JsonModel) -> PriorStateModel
    recommends
        wf_prior_state(j),
{
    let fs = j->Object_0;
    PriorStateModel {
        format_version: req_text(fs, "format_version"@),
        terraform_version: req_text(fs, "terraform_version"@),
        values: planned_values_of(obj_field_opt(fs, "values"@)->Some_0),
    }
}

impl TfPlanPriorState {
    /// Reads the prior state, strictly.
    pub fn from_json(v: &JsonValue) -> (r: Result<Self, TrowelError>)
        ensures
            match r {
                Ok(m) => wf_prior_state(v@) && m@ == prior_state_of(v@),
                Err(e) => !wf_prior_state(v@) && e@ is MalformedPlan,
            },
    {
        let fields = match v {
            JsonValue::Object(f) => f,
            _ => {
                return Err(TrowelError::MalformedPlan { field: "prior_state".to_owned() });
            },
        };
        proof {
            lemma_json_model_fields(fields@);
        }
        let allowed: Vec<&str> = vec!["format_version", "terraform_version", "values"];
        proof {
            assert(string_views_of_strs(allowed@) =~= seq![
                "format_version"@,
                "terraform_version"@,
                "values"@,
            ]);
        }
        if !check_fields_allowed(fields, &allowed) {
            return Err(TrowelError::MalformedPlan { field: "prior_state".to_owned() });
        }
        let format_version = match req_text_field(fields, "format_version") {
            Ok(s) => s,
            Err(e) => {
                return Err(e);
            },
        };
        let terraform_version = match req_text_field(fields, "terraform_version") {
            Ok(s) => s,
            Err(e) => {
                return Err(e);
            },
        };
        let values = match lookup_field(fields, "values") {
            Some(x) => match TfPlanPlannedValues::from_json(x) {
                Ok(m) => m,
                Err(e) => {
                    return Err(e);
                },
            },
            None => {
                return Err(TrowelError::MalformedPlan { field: "values".to_owned() });
            },
        };
        Ok(TfPlanPriorState { format_version, terraform_version, values })
    }
}

/// One resource change: the resource's identity and the transition it
/// undergoes.
#[derive(Debug)]
pub struct TfPlanResourceChange {
    pub address: String,
    pub mode: String,
    pub resource_type: String,
    pub name: String,
    pub index: Option<String>,
    pub provider_name: String,
    pub change: TfPlanResourceChangeChange,
    pub action_reason: Option<String>,
    pub module_address: Option<String>,
}

/// The mathematical shape of a resource change.
pub struct ResourceChangeModel {
    pub address: Seq<char>,
    pub mode: Seq<char>,
    pub resource_type: Seq<char>,
    pub name: Seq<char>,
    pub index: Option<Seq<char>>,
    pub provider_name: Seq<char>,
    pub change: ChangeModel,
    pub action_reason: Option<Seq<char>>,
    pub module_address: Option<Seq<char>>,
}

impl View for TfPlanResourceChange {
    type V = ResourceChangeModel;

    open spec fn view(&self) -> ResourceChangeModel {
        ResourceChangeModel {
            address: self.address@,
            mode: self.mode@,
            resource_type: self.resource_type@,
            name: self.name@,
            index: match self.index {
                None => None,
                Some(s) => Some(s@),
            },
            provider_name: self.provider_name@,
            change: self.change@,
            action_reason: match self.action_reason {
                None => None,
                Some(s) => Some(s@),
            },
            module_address: match self.module_address {
                None => None,
                Some(s) => Some(s@),
            },
        }
    }
}

/// The field names a resource change may carry.
pub open spec fn resource_change_allowed() -> Set<Seq<char>> {
    seq![
        "address"@,
        "mode"@,
        "type"@,
        "name"@,
        "index"@,
        "provider_name"@,
        "change"@,
        "action_reason"@,
        "module_address"@,
    ].to_set()
}

/// The shape of a well-formed resource change.
pub open spec fn wf_resource_change(j: JsonModel) -> bool {
    &&& j is Object
    &&& {
        let fs = j->Object_0;
        &&& fields_allowed(fs, resource_change_allowed())
        &&& wf_req_text(fs, "address"@)
        &&& wf_req_text(fs, "mode"@)
        &&& wf_req_text(fs, "type"@)
        &&& wf_req_text(fs, "name"@)
        &&& wf_opt_text(fs, "index"@)
        &&& wf_req_text(fs, "provider_name"@)
        &&& match obj_field_opt(fs, "change"@) {
            Some(x) => wf_change(x),
            None => false,
        }
        &&& wf_opt_text(fs, "action_reason"@)
        &&& wf_opt_text(fs, "module_address"@)
    }
}

/// The resource change read from a well-formed value.
pub open spec fn resource_change_of(j: JsonModel) -> ResourceChangeModel
    recommends
        wf_resource_change(j),
{
    let fs = j->Object_0;
    ResourceChangeModel {
        address: req_text(fs, "address"@),
        mode: req_text(fs, "mode"@),
        resource_type: req_text(fs, "type"@),
        name: req_text(fs, "name"@),
        index: opt_text(fs, "index"@),
        provider_name: req_text(fs, "provider_name"@),
        change: change_of(obj_field_opt(fs, "change"@)->Some_0),
        action_reason: opt_text(fs, "action_reason"@),
        module_address: opt_text(fs, "module_address"@),
    }
}

impl TfPlanResourceChange {
    /// Reads a resource change, strictly.
    pub fn from_json(v: &JsonValue) -> (r: Result<Self, TrowelError>)
        ensures
            match r {
                Ok(m) => wf_resource_change(v@) && m@ == resource_change_of(v@),
                Err(e) => !wf_resource_change(v@) && e@ is MalformedPlan,
            },
    {
        let fields = match v {
            JsonValue::Object(f) => f,
            _ => {
                return Err(TrowelError::MalformedPlan { field: "resource_changes".to_owned() });
            },
        };
        proof {
            lemma_json_model_fields(fields@);
        }
        let allowed: Vec<&str> = vec![
            "address",
            "mode",
            "type",
            "name",
            "index",
            "provider_name",
            "change",
            "action_reason",
            "module_address",
        ];
        proof {
            assert(string_views_of_strs(allowed@) =~= seq![
                "address"@,
                "mode"@,
                "type"@,
                "name"@,
                "index"@,
                "provider_name"@,
                "change"@,
                "action_reason"@,
                "module_address"@,
            ]);
        }
        if !check_fields_allowed(fields, &allowed) {
            return Err(TrowelError::MalformedPlan { field: "resource_changes".to_owned() });
        }
        let address = match req_text_field(fields, "address") {
            Ok(s) => s,
            Err(e) => {
                return Err(e);
            },
        };
        let mode = match req_text_field(fields, "mode") {
            Ok(s) => s,
            Err(e) => {
                return Err(e);
            },
        };
        let resource_type = match req_text_field(fields, "type") {
            Ok(s) => s,
            Err(e) => {
                return Err(e);
            },
        };
        let name = match req_text_field(fields, "name") {
            Ok(s) => s,
            Err(e) => {
                return Err(e);
            },
        };
        let index = match opt_text_field(fields, "index") {
            Ok(s) => s,
            Err(e) => {
                return Err(e);
            },
        };
        let provider_name = match req_text_field(fields, "provider_name") {
            Ok(s) => s,
            Err(e) => {
                return Err(e);
            },
        };
        let change = match lookup_field(fields, "change") {
            Some(x) => match TfPlanResourceChangeChange::from_json(x) {
                Ok(c) => c,
                Err(e) => {
                    return Err(e);
                },
            },
            None => {
                return Err(TrowelError::MalformedPlan { field: "change".to_owned() });
            },
        };
        let action_reason = match opt_text_field(fields, "action_reason") {
            Ok(s) => s,
            Err(e) => {
                return Err(e);
            },
        };
        let module_address = match opt_text_field(fields, "module_address") {
            Ok(s) => s,
            Err(e) => {
                return Err(e);
            },
        };
        Ok(
            TfPlanResourceChange {
                address,
                mode,
                resource_type,
                name,
                index,
                provider_name,
                change,
                action_reason,
                module_address,
            },
        )
    }
}

/// Every element is a well-formed resource change.
pub open spec fn wf_resource_change_array(j: JsonModel) -> bool {
    &&& j is Array
    &&& forall|i: int| 0 <= i < j->Array_0.len() ==> wf_resource_change(#[trigger] j->Array_0[i])
}

/// The resource changes read from a well-formed array.
pub open spec fn resource_changes_of(j: JsonModel) -> Seq<ResourceChangeModel> {
    j->Array_0.map_values(|x: JsonModel| resource_change_of(x))
}

/// Reads an array of resource changes.
fn resource_changes_from_json(v: &JsonValue) -> (r: Result<Vec<TfPlanResourceChange>, TrowelError>)
    ensures
        match r {
            Ok(out) => {
                &&& wf_resource_change_array(v@)
                &&& out@.map_values(|x: TfPlanResourceChange| x@) == resource_changes_of(v@)
            },
            Err(e) => !wf_resource_change_array(v@) && e@ is MalformedPlan,
        },
{
    let items = match v {
        JsonValue::Array(items) => items,
        _ => {
            return Err(TrowelError::MalformedPlan { field: "resource_changes".to_owned() });
        },
    };
    proof {
        lemma_json_model_seq(items@);
    }
    let ghost models = json_model_seq(items@);
    let n = items.len();
    let mut out: Vec<TfPlanResourceChange> = Vec::new();
    let mut i: usize = 0;
    while i < n
        invariant
            i <= n,
            n == items@.len(),
            models == json_model_seq(items@),
            models.len() == n,
            v@ == JsonModel::Array(models),
            forall|j: int| 0 <= j < items@.len() ==> models[j] == crate::json::json_model(
                items@[j],
            ),
            out@.len() == i,
            forall|j: int| 0 <= j < i ==> wf_resource_change(#[trigger] models[j]),
            forall|j: int| 0 <= j < i ==> (#[trigger] out@[j])@ == resource_change_of(models[j]),
        decreases n - i,
    {
        match TfPlanResourceChange::from_json(&items[i]) {
            Ok(m) => {
                out.push(m);
            },
            Err(e) => {
                proof {
                    assert(!wf_resource_change(v@->Array_0[i as int]));
                }
                return Err(e);
            },
        }
        i = i + 1;
    }
    proof {
        assert(out@.map_values(|x: TfPlanResourceChange| x@) =~= resource_changes_of(v@));
    }
    Ok(out)
}

/// One provider's configuration.
#[derive(Debug)]
pub struct TfPlanConfigurationProviderConfig {
    pub name: String,
    pub full_name: String,
    pub version_constraint: Option<String>,
    pub expressions: Option<Vec<(String, JsonValue)>>,
    pub module_address: Option<String>,
}

/// The mathematical shape of a provider configuration.
pub struct ProviderConfigModel {
    pub name: Seq<char>,
    pub full_name: Seq<char>,
    pub version_constraint: Option<Seq<char>>,
    pub expressions: Option<Seq<(Seq<char>, JsonModel)>>,
    pub module_address: Option<Seq<char>>,
}

impl View for TfPlanConfigurationProviderConfig {
    type V = ProviderConfigModel;

    open spec fn view(&self) -> ProviderConfigModel {
        ProviderConfigModel {
            name: self.name@,
            full_name: self.full_name@,
            version_constraint: match self.version_constraint {
                None => None,
                Some(s) => Some(s@),
            },
            expressions: match self.expressions {
                None => None,
                Some(fields) => Some(json_model_fields(fields@)),
            },
            module_address: match self.module_address {
                None => None,
                Some(s) => Some(s@),
            },
        }
    }
}

/// The field names a provider configuration may carry.
pub open spec fn provider_config_allowed() -> Set<Seq<char>> {
    seq!["name"@, "full_name"@, "version_constraint"@, "expressions"@, "module_address"@].to_set()
}

/// The shape of a well-formed provider configuration.
pub open spec fn wf_provider_config(j: JsonModel) -> bool {
    &&& j is Object
    &&& {
        let fs = j->Object_0;
        &&& fields_allowed(fs, provider_config_allowed())
        &&& wf_req_text(fs, "name"@)
        &&& wf_req_text(fs, "full_name"@)
        &&& wf_opt_text(fs, "version_constraint"@)
        &&& match opt_field(fs, "expressions"@) {
            None => true,
            Some(x) => x is Object,
        }
        &&& wf_opt_text(fs, "module_address"@)
    }
}

/// The provider configuration read from a well-formed value.
pub open spec fn provider_config_of(j: JsonModel) -> ProviderConfigModel
    recommends
        wf_provider_config(j),
{
    let fs = j->Object_0;
    ProviderConfigModel {
        name: req_text(fs, "name"@),
        full_name: req_text(fs, "full_name"@),
        version_constraint: opt_text(fs, "version_constraint"@),
        expressions: match opt_field(fs, "expressions"@) {
            None => None,
            Some(x) => Some(x->Object_0),
        },
        module_address: opt_text(fs, "module_address"@),
    }
}

impl TfPlanConfigurationProviderConfig {
    /// Reads a provider configuration, strictly.
    pub fn from_json(v: &JsonValue) -> (r: Result<Self, TrowelError>)
        ensures
            match r {
                Ok(m) => wf_provider_config(v@) && m@ == provider_config_of(v@),
                Err(e) => !wf_provider_config(v@) && e@ is MalformedPlan,
            },
    {
        let fields = match v {
            JsonValue::Object(f) => f,
            _ => {
                return Err(TrowelError::MalformedPlan { field: "provider_config".to_owned() });
            },
        };
        proof {
            lemma_json_model_fields(fields@);
        }
        let allowed: Vec<&str> = vec![
            "name",
            "full_name",
            "version_constraint",
            "expressions",
            "module_address",
        ];
        proof {
            assert(string_views_of_strs(allowed@) =~= seq![
                "name"@,
                "full_name"@,
                "version_constraint"@,
                "expressions"@,
                "module_address"@,
            ]);
        }
        if !check_fields_allowed(fields, &allowed) {
            return Err(TrowelError::MalformedPlan { field: "provider_config".to_owned() });
        }
        let name = match req_text_field(fields, "name") {
            Ok(s) => s,
            Err(e) => {
                return Err(e);
            },
        };
        let full_name = match req_text_field(fields, "full_name") {
            Ok(s) => s,
            Err(e) => {
                return Err(e);
            },
        };
        let version_constraint = match opt_text_field(fields, "version_constraint") {
            Ok(s) => s,
            Err(e) => {
                return Err(e);
            },
        };
        let expressions = match lookup_field(fields, "expressions") {
            None => None,
            Some(x) => match x {
                JsonValue::Null => None,
                JsonValue::Object(f) => Some(clone_fields(f)),
                _ => {
                    return Err(TrowelError::MalformedPlan { field: "expressions".to_owned() });
                },
            },
        };
        let module_address = match opt_text_field(fields, "module_address") {
            Ok(s) => s,
            Err(e) => {
                return Err(e);
            },
        };
        Ok(
            TfPlanConfigurationProviderConfig {
                name,
                full_name,
                version_constraint,
                expressions,
                module_address,
            },
        )
    }
}

/// Every field value is a well-formed provider configuration.
pub open spec fn wf_provider_config_map(j: JsonModel) -> bool {
    &&& j is Object
    &&& forall|i: int|
        0 <= i < j->Object_0.len() ==> wf_provider_config((#[trigger] j->Object_0[i]).1)
}

/// The provider configurations read from a well-formed map.
pub open spec fn provider_config_map_of(j: JsonModel) -> Seq<(Seq<char>, ProviderConfigModel)> {
    j->Object_0.map_values(|f: (Seq<char>, JsonModel)| (f.0, provider_config_of(f.1)))
}

/// Reads a map from provider name to provider configuration.
fn provider_config_map_from_json(v: &JsonValue) -> (r: Result<
    Vec<(String, TfPlanConfigurationProviderConfig)>,
    TrowelError,
>)
    ensures
        match r {
            Ok(out) => {
                &&& wf_provider_config_map(v@)
                &&& out@.map_values(
                    |f: (String, TfPlanConfigurationProviderConfig)| (f.0@, f.1@),
                ) == provider_config_map_of(v@)
            },
            Err(e) => !wf_provider_config_map(v@) && e@ is MalformedPlan,
        },
{
    let fields = match v {
        JsonValue::Object(f) => f,
        _ => {
            return Err(TrowelError::MalformedPlan { field: "provider_config".to_owned() });
        },
    };
    proof {
        lemma_json_model_fields(fields@);
    }
    let ghost fs = json_model_fields(fields@);
    let n = fields.len();
    let mut out: Vec<(String, TfPlanConfigurationProviderConfig)> = Vec::new();
    let mut i: usize = 0;
    while i < n
        invariant
            i <= n,
            n == fields@.len(),
            fs == json_model_fields(fields@),
            fs.len() == n,
            v@ == JsonModel::Object(fs),
            forall|j: int| 0 <= j < fields@.len() ==> fs[j] == (fields@[j].0@, crate::json::json_model(
                fields@[j].1,
            )),
            out@.len() == i,
            forall|j: int| 0 <= j < i ==> wf_provider_config((#[trigger] fs[j]).1),
            forall|j: int| 0 <= j < i ==> (#[trigger] out@[j]).0@ == fs[j].0 && out@[j].1@
                == provider_config_of(fs[j].1),
        decreases n - i,
    {
        match TfPlanConfigurationProviderConfig::from_json(&fields[i].1) {
            Ok(m) => {
                let key = fields[i].0.clone();
                out.push((key, m));
            },
            Err(e) => {
                proof {
                    assert(!wf_provider_config((v@->Object_0[i as int]).1));
                }
                return Err(e);
            },
        }
        i = i + 1;
    }
    proof {
        assert(out@.map_values(|f: (String, TfPlanConfigurationProviderConfig)| (f.0@, f.1@))
            =~= provider_config_map_of(v@));
    }
    Ok(out)
}

/// The configuration block of a plan. The nested module configuration is
/// kept as a raw value; the library does not interpret it.
#[derive(Debug)]
pub struct TfPlanConfiguration {
    pub provider_config: Option<Vec<(String, TfPlanConfigurationProviderConfig)>>,
    pub root_module: JsonValue,
}

/// The mathematical shape of the configuration block.
pub struct ConfigurationModel {
    pub provider_config: Option<Seq<(Seq<char>, ProviderConfigModel)>>,
    pub root_module: JsonModel,
}

impl View for TfPlanConfiguration {
    type V = ConfigurationModel;

    open spec fn view(&self) -> ConfigurationModel {
        ConfigurationModel {
            provider_config: match self.provider_config {
                None => None,
                Some(pcs) => Some(
                    pcs@.map_values(
                        |f: (String, TfPlanConfigurationProviderConfig)| (f.0@, f.1@),
                    ),
                ),
            },
            root_module: self.root_module@,
        }
    }
}

/// The shape of a well-formed configuration block.
pub open spec fn wf_configuration(j: JsonModel) -> bool {
    &&& j is Object
    &&& {
        let fs = j->Object_0;
        &&& fields_allowed(fs, seq!["provider_config"@, "root_module"@].to_set())
        &&& match opt_field(fs, "provider_config"@) {
            None => true,
            Some(x) => wf_provider_config_map(x),
        }
        &&& obj_field_opt(fs, "root_module"@) is Some
    }
}

/// The configuration read from a well-formed value.
pub open spec fn configuration_of(j: JsonModel) -> ConfigurationModel
    recommends
        wf_configuration(j),
{
    let fs = j->Object_0;
    ConfigurationModel {
        provider_config: match opt_field(fs, "provider_config"@) {
            None => None,
            Some(x) => Some(provider_config_map_of(x)),
        },
        root_module: obj_field_opt(fs, "root_module"@)->Some_0,
    }
}

impl TfPlanConfiguration {
    /// Reads the configuration block, strictly.
    pub fn from_json(v: &JsonValue) -> (r: Result<Self, TrowelError>)
        ensures
            match r {
                Ok(m) => wf_configuration(v@) && m@ == configuration_of(v@),
                Err(e) => !wf_configuration(v@) && e@ is MalformedPlan,
            },
    {
        let fields = match v {
            JsonValue::Object(f) => f,
            _ => {
                return Err(TrowelError::MalformedPlan { field: "configuration".to_owned() });
            },
        };
        proof {
            lemma_json_model_fields(fields@);
        }
        let ghost fs = json_model_fields(fields@);
        let allowed: Vec<&str> = vec!["provider_config", "root_module"];
        proof {
            assert(string_views_of_strs(allowed@) =~= seq!["provider_config"@, "root_module"@]);
        }
        if !check_fields_allowed(fields, &allowed) {
            return Err(TrowelError::MalformedPlan { field: "configuration".to_owned() });
        }
        let provider_config = match lookup_field(fields, "provider_config") {
            None => None,
            Some(x) => match x {
                JsonValue::Null => None,
                other => match provider_config_map_from_json(other) {
                    Ok(pcs) => Some(pcs),
                    Err(e) => {
                        return Err(e);
                    },
                },
            },
        };
        let root_module = match lookup_field(fields, "root_module") {
            Some(x) => x.clone(),
            None => {
                return Err(TrowelError::MalformedPlan { field: "root_module".to_owned() });
            },
        };
        let out = TfPlanConfiguration { provider_config, root_module };
        proof {
            assert(wf_configuration(v@));
            assert(out@.provider_config == configuration_of(v@).provider_config) by {
                match opt_field(fs, "provider_config"@) {
                    None => {},
                    Some(x) => {
                        assert(out@.provider_config matches Some(p) && p =~= provider_config_map_of(
                            x,
                        ));
                    },
                }
            }
            assert(out@ == configuration_of(v@));
        }
        Ok(out)
    }
}

/// The root module of the configuration block, in raw form.
#[derive(Debug)]
pub struct TfPlanConfigurationRootModule {
    pub resources: Vec<JsonValue>,
    pub module_calls: Vec<(String, JsonValue)>,
}

/// The mathematical shape of the configuration root module.
pub struct ConfigurationRootModuleModel {
    pub resources: Seq<JsonModel>,
    pub module_calls: Seq<(Seq<char>, JsonModel)>,
}

impl View for TfPlanConfigurationRootModule {
    type V = ConfigurationRootModuleModel;

    open spec fn view(&self) -> ConfigurationRootModuleModel {
        ConfigurationRootModuleModel {
            resources: json_model_seq(self.resources@),
            module_calls: json_model_fields(self.module_calls@),
        }
    }
}

/// The shape of a well-formed configuration root module.
pub open spec fn wf_configuration_root_module(j: JsonModel) -> bool {
    &&& j is Object
    &&& {
        let fs = j->Object_0;
        &&& fields_allowed(fs, seq!["resources"@, "module_calls"@].to_set())
        &&& match obj_field_opt(fs, "resources"@) {
            Some(x) => x is Array,
            None => false,
        }
        &&& wf_req_obj(fs, "module_calls"@)
    }
}

/// The configuration root module read from a well-formed value.
pub open spec fn configuration_root_module_of(j: JsonModel) -> ConfigurationRootModuleModel
    recommends
        wf_configuration_root_module(j),
{
    let fs = j->Object_0;
    ConfigurationRootModuleModel {
        resources: obj_field_opt(fs, "resources"@)->Some_0->Array_0,
        module_calls: req_obj(fs, "module_calls"@),
    }
}

impl TfPlanConfigurationRootModule {
    /// Reads a configuration root module, strictly.
    pub fn from_json(v: &JsonValue) -> (r: Result<Self, TrowelError>)
        ensures
            match r {
                Ok(m) => wf_configuration_root_module(v@) && m@ == configuration_root_module_of(
                    v@,
                ),
                Err(e) => !wf_configuration_root_module(v@) && e@ is MalformedPlan,
            },
    {
        let fields = match v {
            JsonValue::Object(f) => f,
            _ => {
                return Err(TrowelError::MalformedPlan { field: "root_module".to_owned() });
            },
        };
        proof {
            lemma_json_model_fields(fields@);
        }
        let allowed: Vec<&str> = vec!["resources", "module_calls"];
        proof {
            assert(string_views_of_strs(allowed@) =~= seq!["resources"@, "module_calls"@]);
        }
        if !check_fields_allowed(fields, &allowed) {
            return Err(TrowelError::MalformedPlan { field: "root_module".to_owned() });
        }
        let resources = match lookup_field(fields, "resources") {
            Some(JsonValue::Array(items)) => clone_array(items),
            _ => {
                return Err(TrowelError::MalformedPlan { field: "resources".to_owned() });
            },
        };
        let module_calls = match lookup_field(fields, "module_calls") {
            Some(JsonValue::Object(f)) => clone_fields(f),
            _ => {
                return Err(TrowelError::MalformedPlan { field: "module_calls".to_owned() });
            },
        };
        Ok(TfPlanConfigurationRootModule { resources, module_calls })
    }
}

/// One attribute a change is known to depend on.
#[derive(Debug)]
pub struct TfPlanRelevantAttribute {
    pub resource: String,
    pub attribute: Vec<String>,
}

/// The mathematical shape of a relevant attribute.
pub struct RelevantAttributeModel {
    pub resource: Seq<char>,
    pub attribute: Seq<Seq<char>>,
}

impl View for TfPlanRelevantAttribute {
    type V = RelevantAttributeModel;

    open spec fn view(&self) -> RelevantAttributeModel {
        RelevantAttributeModel { resource: self.resource@, attribute: string_views(self.attribute@) }
    }
}

/// The shape of a well-formed relevant attribute.
pub open spec fn wf_relevant_attribute(j: JsonModel) -> bool {
    &&& j is Object
    &&& {
        let fs = j->Object_0;
        &&& fields_allowed(fs, seq!["resource"@, "attribute"@].to_set())
        &&& wf_req_text(fs, "resource"@)
        &&& match obj_field_opt(fs, "attribute"@) {
            Some(x) => wf_string_array(x),
            None => false,
        }
    }
}

/// The relevant attribute read from a well-formed value.
pub open spec fn relevant_attribute_of(j: JsonModel) -> RelevantAttributeModel
    recommends
        wf_relevant_attribute(j),
{
    let fs = j->Object_0;
    RelevantAttributeModel {
        resource: req_text(fs, "resource"@),
        attribute: strings_of(obj_field_opt(fs, "attribute"@)->Some_0),
    }
}

impl TfPlanRelevantAttribute {
    /// Reads a relevant attribute, strictly.
    pub fn from_json(v: &JsonValue) -> (r: Result<Self, TrowelError>)
        ensures
            match r {
                Ok(m) => wf_relevant_attribute(v@) && m@ == relevant_attribute_of(v@),
                Err(e) => !wf_relevant_attribute(v@) && e@ is MalformedPlan,
            },
    {
        let fields = match v {
            JsonValue::Object(f) => f,
            _ => {
                return Err(TrowelError::MalformedPlan { field: "relevant_attributes".to_owned() });
            },
        };
        proof {
            lemma_json_model_fields(fields@);
        }
        let allowed: Vec<&str> = vec!["resource", "attribute"];
        proof {
            assert(string_views_of_strs(allowed@) =~= seq!["resource"@, "attribute"@]);
        }
        if !check_fields_allowed(fields, &allowed) {
            return Err(TrowelError::MalformedPlan { field: "relevant_attributes".to_owned() });
        }
        let resource = match req_text_field(fields, "resource") {
            Ok(s) => s,
            Err(e) => {
                return Err(e);
            },
        };
        let attribute = match lookup_field(fields, "attribute") {
            Some(x) => match strings_from_json(x) {
                Some(a) => a,
                None => {
                    return Err(TrowelError::MalformedPlan { field: "attribute".to_owned() });
                },
            },
            None => {
                return Err(TrowelError::MalformedPlan { field: "attribute".to_owned() });
            },
        };
        Ok(TfPlanRelevantAttribute { resource, attribute })
    }
}

/// The address of a configuration check.
#[derive(Debug)]
pub struct TfPlanCheckAddress {
    pub kind: String,
    pub module: String,
    pub name: String,
    pub to_display: String,
}

/// The mathematical shape of a check address.
pub struct CheckAddressModel {
    pub kind: Seq<char>,
    pub module: Seq<char>,
    pub name: Seq<char>,
    pub to_display: Seq<char>,
}

impl View for TfPlanCheckAddress {
    type V = CheckAddressModel;

    open spec fn view(&self) -> CheckAddressModel {
        CheckAddressModel {
            kind: self.kind@,
            module: self.module@,
            name: self.name@,
            to_display: self.to_display@,
        }
    }
}

/// The shape of a well-formed check address.
pub open spec fn wf_check_address(j: JsonModel) -> bool {
    &&& j is Object
    &&& {
        let fs = j->Object_0;
        &&& fields_allowed(fs, seq!["kind"@, "module"@, "name"@, "to_display"@].to_set())
        &&& wf_req_text(fs, "kind"@)
        &&& wf_req_text(fs, "module"@)
        &&& wf_req_text(fs, "name"@)
        &&& wf_req_text(fs, "to_display"@)
    }
}

/// The check address read from a well-formed value.
pub open spec fn check_address_of(j: JsonModel) -> CheckAddressModel
    recommends
        wf_check_address(j),
{
    let fs = j->Object_0;
    CheckAddressModel {
        kind: req_text(fs, "kind"@),
        module: req_text(fs, "module"@),
        name: req_text(fs, "name"@),
        to_display: req_text(fs, "to_display"@),
    }
}

impl TfPlanCheckAddress {
    /// Reads a check address, strictly.
    pub fn from_json(v: &JsonValue) -> (r: Result<Self, TrowelError>)
        ensures
            match r {
                Ok(m) => wf_check_address(v@) && m@ == check_address_of(v@),
                Err(e) => !wf_check_address(v@) && e@ is MalformedPlan,
            },
    {
        let fields = match v {
            JsonValue::Object(f) => f,
            _ => {
                return Err(TrowelError::MalformedPlan { field: "address".to_owned() });
            },
        };
        proof {
            lemma_json_model_fields(fields@);
        }
        let allowed: Vec<&str> = vec!["kind", "module", "name", "to_display"];
        proof {
            assert(string_views_of_strs(allowed@) =~= seq![
                "kind"@,
                "module"@,
                "name"@,
                "to_display"@,
            ]);
        }
        if !check_fields_allowed(fields, &allowed) {
            return Err(TrowelError::MalformedPlan { field: "address".to_owned() });
        }
        let kind = match req_text_field(fields, "kind") {
            Ok(s) => s,
            Err(e) => {
                return Err(e);
            },
        };
        let module = match req_text_field(fields, "module") {
            Ok(s) => s,
            Err(e) => {
                return Err(e);
            },
        };
        let name = match req_text_field(fields, "name") {
            Ok(s) => s,
            Err(e) => {
                return Err(e);
            },
        };
        let to_display = match req_text_field(fields, "to_display") {
            Ok(s) => s,
            Err(e) => {
                return Err(e);
            },
        };
        Ok(TfPlanCheckAddress { kind, module, name, to_display })
    }
}

/// The address of one checked instance.
#[derive(Debug)]
pub struct TfPlanCheckInstanceAddress {
    pub module: String,
    pub to_display: String,
}

/// The mathematical shape of a check instance address.
pub struct CheckInstanceAddressModel {
    pub module: Seq<char>,
    pub to_display: Seq<char>,
}

impl View for TfPlanCheckInstanceAddress {
    type V = CheckInstanceAddressModel;

    open spec fn view(&self) -> CheckInstanceAddressModel {
        CheckInstanceAddressModel { module: self.module@, to_display: self.to_display@ }
    }
}

/// The shape of a well-formed check instance address.
pub open spec fn wf_check_instance_address(j: JsonModel) -> bool {
    &&& j is Object
    &&& {
        let fs = j->Object_0;
        &&& fields_allowed(fs, seq!["module"@, "to_display"@].to_set())
        &&& wf_req_text(fs, "module"@)
        &&& wf_req_text(fs, "to_display"@)
    }
}

/// The check instance address read from a well-formed value.
pub open spec fn check_instance_address_of(j: JsonModel) -> CheckInstanceAddressModel
    recommends
        wf_check_instance_address(j),
{
    let fs = j->Object_0;
    CheckInstanceAddressModel {
        module: req_text(fs, "module"@),
        to_display: req_text(fs, "to_display"@),
    }
}

impl TfPlanCheckInstanceAddress {
    /// Reads a check instance address, strictly.
    pub fn from_json(v: &JsonValue) -> (r: Result<Self, TrowelError>)
        ensures
            match r {
                Ok(m) => wf_check_instance_address(v@) && m@ == check_instance_address_of(v@),
                Err(e) => !wf_check_instance_address(v@) && e@ is MalformedPlan,
            },
    {
        let fields = match v {
            JsonValue::Object(f) => f,
            _ => {
                return Err(TrowelError::MalformedPlan { field: "address".to_owned() });
            },
        };
        proof {
            lemma_json_model_fields(fields@);
        }
        let allowed: Vec<&str> = vec!["module", "to_display"];
        proof {
            assert(string_views_of_strs(allowed@) =~= seq!["module"@, "to_display"@]);
        }
        if !check_fields_allowed(fields, &allowed) {
            return Err(TrowelError::MalformedPlan { field: "address".to_owned() });
        }
        let module = match req_text_field(fields, "module") {
            Ok(s) => s,
            Err(e) => {
                return Err(e);
            },
        };
        let to_display = match req_text_field(fields, "to_display") {
            Ok(s) => s,
            Err(e) => {
                return Err(e);
            },
        };
        Ok(TfPlanCheckInstanceAddress { module, to_display })
    }
}

/// One checked instance and its status.
#[derive(Debug)]
pub struct TfPlanCheckInstance {
    pub address: TfPlanCheckInstanceAddress,
    pub status: String,
}

/// The mathematical shape of a check instance.
pub struct CheckInstanceModel {
    pub address: CheckInstanceAddressModel,
    pub status: Seq<char>,
}

impl View for TfPlanCheckInstance {
    type V = CheckInstanceModel;

    open spec fn view(&self) -> CheckInstanceModel {
        CheckInstanceModel { address: self.address@, status: self.status@ }
    }
}

/// The shape of a well-formed check instance.
pub open spec fn wf_check_instance(j: JsonModel) -> bool {
    &&& j is Object
    &&& {
        let fs = j->Object_0;
        &&& fields_allowed(fs, seq!["address"@, "status"@].to_set())
        &&& match obj_field_opt(fs, "address"@) {
            Some(x) => wf_check_instance_address(x),
            None => false,
        }
        &&& wf_req_text(fs, "status"@)
    }
}

/// The check instance read from a well-formed value.
pub open spec fn check_instance_of(j: JsonModel) -> CheckInstanceModel
    recommends
        wf_check_instance(j),
{
    let fs = j->Object_0;
    CheckInstanceModel {
        address: check_instance_address_of(obj_field_opt(fs, "address"@)->Some_0),
        status: req_text(fs, "status"@),
    }
}

impl TfPlanCheckInstance {
    /// Reads a check instance, strictly.
    pub fn from_json(v: &JsonValue) -> (r: Result<Self, TrowelError>)
        ensures
            match r {
                Ok(m) => wf_check_instance(v@) && m@ == check_instance_of(v@),
                Err(e) => !wf_check_instance(v@) && e@ is MalformedPlan,
            },
    {
        let fields = match v {
            JsonValue::Object(f) => f,
            _ => {
                return Err(TrowelError::MalformedPlan { field: "instances".to_owned() });
            },
        };
        proof {
            lemma_json_model_fields(fields@);
        }
        let allowed: Vec<&str> = vec!["address", "status"];
        proof {
            assert(string_views_of_strs(allowed@) =~= seq!["address"@, "status"@]);
        }
        if !check_fields_allowed(fields, &allowed) {
            return Err(TrowelError::MalformedPlan { field: "instances".to_owned() });
        }
        let address = match lookup_field(fields, "address") {
            Some(x) => match TfPlanCheckInstanceAddress::from_json(x) {
                Ok(a) => a,
                Err(e) => {
                    return Err(e);
                },
            },
            None => {
                return Err(TrowelError::MalformedPlan { field: "address".to_owned() });
            },
        };
        let status = match req_text_field(fields, "status") {
            Ok(s) => s,
            Err(e) => {
                return Err(e);
            },
        };
        Ok(TfPlanCheckInstance { address, status })
    }
}

/// One configuration check and its instances.
#[derive(Debug)]
pub struct TfPlanCheck {
    pub address: TfPlanCheckAddress,
    pub status: String,
    pub instances: Vec<TfPlanCheckInstance>,
}

/// The mathematical shape of a check.
pub struct CheckModel {
    pub address: CheckAddressModel,
    pub status: Seq<char>,
    pub instances: Seq<CheckInstanceModel>,
}

impl View for TfPlanCheck {
    type V = CheckModel;

    open spec fn view(&self) -> CheckModel {
        CheckModel {
            address: self.address@,
            status: self.status@,
            instances: self.instances@.map_values(|x: TfPlanCheckInstance| x@),
        }
    }
}

/// The shape of a well-formed check.
pub open spec fn wf_check(j: JsonModel) -> bool {
    &&& j is Object
    &&& {
        let fs = j->Object_0;
        &&& fields_allowed(fs, seq!["address"@, "status"@, "instances"@].to_set())
        &&& match obj_field_opt(fs, "address"@) {
            Some(x) => wf_check_address(x),
            None => false,
        }
        &&& wf_req_text(fs, "status"@)
        &&& match obj_field_opt(fs, "instances"@) {
            Some(x) => {
                &&& x is Array
                &&& forall|i: int|
                    0 <= i < x->Array_0.len() ==> wf_check_instance(#[trigger] x->Array_0[i])
            },
            None => false,
        }
    }
}

/// The check read from a well-formed value.
pub open spec fn check_of(j: JsonModel) -> CheckModel
    recommends
        wf_check(j),
{
    let fs = j->Object_0;
    CheckModel {
        address: check_address_of(obj_field_opt(fs, "address"@)->Some_0),
        status: req_text(fs, "status"@),
        instances: obj_field_opt(fs, "instances"@)->Some_0->Array_0.map_values(
            |x: JsonModel| check_instance_of(x),
        ),
    }
}

impl TfPlanCheck {
    /// Reads a check, strictly.
    pub fn from_json(v: &JsonValue) -> (r: Result<Self, TrowelError>)
        ensures
            match r {
                Ok(m) => wf_check(v@) && m@ == check_of(v@),
                Err(e) => !wf_check(v@) && e@ is MalformedPlan,
            },
    {
        let fields = match v {
            JsonValue::Object(f) => f,
            _ => {
                return Err(TrowelError::MalformedPlan { field: "checks".to_owned() });
            },
        };
        proof {
            lemma_json_model_fields(fields@);
        }
        let ghost fs = json_model_fields(fields@);
        let allowed: Vec<&str> = vec!["address", "status", "instances"];
        proof {
            assert(string_views_of_strs(allowed@) =~= seq!["address"@, "status"@, "instances"@]);
        }
        if !check_fields_allowed(fields, &allowed) {
            return Err(TrowelError::MalformedPlan { field: "checks".to_owned() });
        }
        let address = match lookup_field(fields, "address") {
            Some(x) => match TfPlanCheckAddress::from_json(x) {
                Ok(a) => a,
                Err(e) => {
                    return Err(e);
                },
            },
            None => {
                return Err(TrowelError::MalformedPlan { field: "address".to_owned() });
            },
        };
        let status = match req_text_field(fields, "status") {
            Ok(s) => s,
            Err(e) => {
                return Err(e);
            },
        };
        let instances = match lookup_field(fields, "instances") {
            Some(x) => match x {
                JsonValue::Array(items) => {
                    proof {
                        lemma_json_model_seq(items@);
                    }
                    let ghost models = json_model_seq(items@);
                    let n = items.len();
                    let mut out: Vec<TfPlanCheckInstance> = Vec::new();
                    let mut i: usize = 0;
                    while i < n
                        invariant
                            i <= n,
                            n == items@.len(),
                            models == json_model_seq(items@),
                            models.len() == n,
                            fs == json_model_fields(fields@),
                            v@ == JsonModel::Object(fs),
                            obj_field_opt(fs, "instances"@) == Some(JsonModel::Array(models)),
                            forall|j: int| 0 <= j < items@.len() ==> models[j]
                                == crate::json::json_model(items@[j]),
                            out@.len() == i,
                            forall|j: int| 0 <= j < i ==> wf_check_instance(#[trigger] models[j]),
                            forall|j: int| 0 <= j < i ==> (#[trigger] out@[j])@
                                == check_instance_of(models[j]),
                        decreases n - i,
                    {
                        match TfPlanCheckInstance::from_json(&items[i]) {
                            Ok(m) => {
                                out.push(m);
                            },
                            Err(e) => {
                                proof {
                                    let x = obj_field_opt(fs, "instances"@)->Some_0;
                                    assert(x->Array_0 == models);
                                    assert(!wf_check_instance(x->Array_0[i as int]));
                                }
                                return Err(e);
                            },
                        }
                        i = i + 1;
                    }
                    out
                },
                _ => {
                    return Err(TrowelError::MalformedPlan { field: "instances".to_owned() });
                },
            },
            None => {
                return Err(TrowelError::MalformedPlan { field: "instances".to_owned() });
            },
        };
        let out = TfPlanCheck { address, status, instances };
        proof {
            assert(wf_check(v@));
            assert(out@.instances =~= check_of(v@).instances);
            assert(out@ == check_of(v@));
        }
        Ok(out)
    }
}

/// Every element is a well-formed relevant attribute.
pub open spec fn wf_relevant_attribute_array(j: JsonModel) -> bool {
    &&& j is Array
    &&& forall|i: int| 0 <= i < j->Array_0.len() ==> wf_relevant_attribute(#[trigger] j->Array_0[i])
}

/// The relevant attributes read from a well-formed array.
pub open spec fn relevant_attributes_of(j: JsonModel) -> Seq<RelevantAttributeModel> {
    j->Array_0.map_values(|x: JsonModel| relevant_attribute_of(x))
}

/// Reads an array of relevant attributes.
fn relevant_attributes_from_json(v: &JsonValue) -> (r: Result<
    Vec<TfPlanRelevantAttribute>,
    TrowelError,
>)
    ensures
        match r {
            Ok(out) => {
                &&& wf_relevant_attribute_array(v@)
                &&& out@.map_values(|x: TfPlanRelevantAttribute| x@) == relevant_attributes_of(v@)
            },
            Err(e) => !wf_relevant_attribute_array(v@) && e@ is MalformedPlan,
        },
{
    let items = match v {
        JsonValue::Array(items) => items,
        _ => {
            return Err(TrowelError::MalformedPlan { field: "relevant_attributes".to_owned() });
        },
    };
    proof {
        lemma_json_model_seq(items@);
    }
    let ghost models = json_model_seq(items@);
    let n = items.len();
    let mut out: Vec<TfPlanRelevantAttribute> = Vec::new();
    let mut i: usize = 0;
    while i < n
        invariant
            i <= n,
            n == items@.len(),
            models == json_model_seq(items@),
            models.len() == n,
            v@ == JsonModel::Array(models),
            forall|j: int| 0 <= j < items@.len() ==> models[j] == crate::json::json_model(
                items@[j],
            ),
            out@.len() == i,
            forall|j: int| 0 <= j < i ==> wf_relevant_attribute(#[trigger] models[j]),
            forall|j: int| 0 <= j < i ==> (#[trigger] out@[j])@ == relevant_attribute_of(
                models[j],
            ),
        decreases n - i,
    {
        match TfPlanRelevantAttribute::from_json(&items[i]) {
            Ok(m) => {
                out.push(m);
            },
            Err(e) => {
                proof {
                    assert(!wf_relevant_attribute(v@->Array_0[i as int]));
                }
                return Err(e);
            },
        }
        i = i + 1;
    }
    proof {
        assert(out@.map_values(|x: TfPlanRelevantAttribute| x@) =~= relevant_attributes_of(v@));
    }
    Ok(out)
}

/// Every element is a well-formed check.
pub open spec fn wf_check_array(j: JsonModel) -> bool {
    &&& j is Array
    &&& forall|i: int| 0 <= i < j->Array_0.len() ==> wf_check(#[trigger] j->Array_0[i])
}

/// The checks read from a well-formed array.
pub open spec fn checks_of(j: JsonModel) -> Seq<CheckModel> {
    j->Array_0.map_values(|x: JsonModel| check_of(x))
}

/// Reads an array of checks.
fn checks_from_json(v: &JsonValue) -> (r: Result<Vec<TfPlanCheck>, TrowelError>)
    ensures
        match r {
            Ok(out) => {
                &&& wf_check_array(v@)
                &&& out@.map_values(|x: TfPlanCheck| x@) == checks_of(v@)
            },
            Err(e) => !wf_check_array(v@) && e@ is MalformedPlan,
        },
{
    let items = match v {
        JsonValue::Array(items) => items,
        _ => {
            return Err(TrowelError::MalformedPlan { field: "checks".to_owned() });
        },
    };
    proof {
        lemma_json_model_seq(items@);
    }
    let ghost models = json_model_seq(items@);
    let n = items.len();
    let mut out: Vec<TfPlanCheck> = Vec::new();
    let mut i: usize = 0;
    while i < n
        invariant
            i <= n,
            n == items@.len(),
            models == json_model_seq(items@),
            models.len() == n,
            v@ == JsonModel::Array(models),
            forall|j: int| 0 <= j < items@.len() ==> models[j] == crate::json::json_model(
                items@[j],
            ),
            out@.len() == i,
            forall|j: int| 0 <= j < i ==> wf_check(#[trigger] models[j]),
            forall|j: int| 0 <= j < i ==> (#[trigger] out@[j])@ == check_of(models[j]),
        decreases n - i,
    {
        match TfPlanCheck::from_json(&items[i]) {
            Ok(m) => {
                out.push(m);
            },
            Err(e) => {
                proof {
                    assert(!wf_check(v@->Array_0[i as int]));
                }
                return Err(e);
            },
        }
        i = i + 1;
    }
    proof {
        assert(out@.map_values(|x: TfPlanCheck| x@) =~= checks_of(v@));
    }
    Ok(out)
}

/// The parsed plan document: everything the plan schema carries, read
/// strictly. The diff engine consumes `resource_changes`; the other fields
/// are validated and kept for completeness.
#[derive(Debug)]
pub struct TfPlan {
    pub format_version: String,
    pub terraform_version: String,
    pub planned_values: TfPlanPlannedValues,
    pub resource_drift: Option<Vec<JsonValue>>,
    pub resource_changes: Option<Vec<TfPlanResourceChange>>,
    pub prior_state: Option<TfPlanPriorState>,
    pub configuration: TfPlanConfiguration,
    pub relevant_attributes: Option<Vec<TfPlanRelevantAttribute>>,
    pub checks: Option<Vec<TfPlanCheck>>,
    pub timestamp: String,
    pub applyable: Option<bool>,
    pub complete: Option<bool>,
    pub errored: bool,
}

/// The mathematical shape of a plan document.
pub struct TfPlanModel {
    pub format_version: Seq<char>,
    pub terraform_version: Seq<char>,
    pub planned_values: PlannedValuesModel,
    pub resource_drift: Option<Seq<JsonModel>>,
    pub resource_changes: Option<Seq<ResourceChangeModel>>,
    pub prior_state: Option<PriorStateModel>,
    pub configuration: ConfigurationModel,
    pub relevant_attributes: Option<Seq<RelevantAttributeModel>>,
    pub checks: Option<Seq<CheckModel>>,
    pub timestamp: Seq<char>,
    pub applyable: Option<bool>,
    pub complete: Option<bool>,
    pub errored: bool,
}

impl View for TfPlan {
    type V = TfPlanModel;

    open spec fn view(&self) -> TfPlanModel {
        TfPlanModel {
            format_version: self.format_version@,
            terraform_version: self.terraform_version@,
            planned_values: self.planned_values@,
            resource_drift: match self.resource_drift {
                None => None,
                Some(d) => Some(json_model_seq(d@)),
            },
            resource_changes: match self.resource_changes {
                None => None,
                Some(rcs) => Some(rcs@.map_values(|x: TfPlanResourceChange| x@)),
            },
            prior_state: match self.prior_state {
                None => None,
                Some(p) => Some(p@),
            },
            configuration: self.configuration@,
            relevant_attributes: match self.relevant_attributes {
                None => None,
                Some(ras) => Some(ras@.map_values(|x: TfPlanRelevantAttribute| x@)),
            },
            checks: match self.checks {
                None => None,
                Some(cs) => Some(cs@.map_values(|x: TfPlanCheck| x@)),
            },
            timestamp: self.timestamp@,
            applyable: self.applyable,
            complete: self.complete,
            errored: self.errored,
        }
    }
}

/// The field names a plan document may carry.
pub open spec fn tf_plan_allowed() -> Set<Seq<char>> {
    seq![
        "format_version"@,
        "terraform_version"@,
        "planned_values"@,
        "resource_drift"@,
        "resource_changes"@,
        "prior_state"@,
        "configuration"@,
        "relevant_attributes"@,
        "checks"@,
        "timestamp"@,
        "applyable"@,
        "complete"@,
        "errored"@,
    ].to_set()
}

/// The shape of a well-formed plan document.
pub open spec fn wf_tf_plan(j: JsonModel) -> bool {
    &&& j is Object
    &&& {
        let fs = j->Object_0;
        &&& fields_allowed(fs, tf_plan_allowed())
        &&& wf_req_text(fs, "format_version"@)
        &&& wf_req_text(fs, "terraform_version"@)
        &&& match obj_field_opt(fs, "planned_values"@) {
            Some(x) => wf_planned_values(x),
            None => false,
        }
        &&& match opt_field(fs, "resource_drift"@) {
            None => true,
            Some(x) => x is Array,
        }
        &&& match opt_field(fs, "resource_changes"@) {
            None => true,
            Some(x) => wf_resource_change_array(x),
        }
        &&& match opt_field(fs, "prior_state"@) {
            None => true,
            Some(x) => wf_prior_state(x),
        }
        &&& match obj_field_opt(fs, "configuration"@) {
            Some(x) => wf_configuration(x),
            None => false,
        }
        &&& match opt_field(fs, "relevant_attributes"@) {
            None => true,
            Some(x) => wf_relevant_attribute_array(x),
        }
        &&& match opt_field(fs, "checks"@) {
            None => true,
            Some(x) => wf_check_array(x),
        }
        &&& wf_req_text(fs, "timestamp"@)
        &&& wf_opt_bool(fs, "applyable"@)
        &&& wf_opt_bool(fs, "complete"@)
        &&& wf_req_bool(fs, "errored"@)
    }
}

/// The plan document read from a well-formed value.
pub open spec fn tf_plan_of(j: JsonModel) -> TfPlanModel
    recommends
        wf_tf_plan(j),
{
    let fs = j->Object_0;
    TfPlanModel {
        format_version: req_text(fs, "format_version"@),
        terraform_version: req_text(fs, "terraform_version"@),
        planned_values: planned_values_of(obj_field_opt(fs, "planned_values"@)->Some_0),
        resource_drift: match opt_field(fs, "resource_drift"@) {
            None => None,
            Some(x) => Some(x->Array_0),
        },
        resource_changes: match opt_field(fs, "resource_changes"@) {
            None => None,
            Some(x) => Some(resource_changes_of(x)),
        },
        prior_state: match opt_field(fs, "prior_state"@) {
            None => None,
            Some(x) => Some(prior_state_of(x)),
        },
        configuration: configuration_of(obj_field_opt(fs, "configuration"@)->Some_0),
        relevant_attributes: match opt_field(fs, "relevant_attributes"@) {
            None => None,
            Some(x) => Some(relevant_attributes_of(x)),
        },
        checks: match opt_field(fs, "checks"@) {
            None => None,
            Some(x) => Some(checks_of(x)),
        },
        timestamp: req_text(fs, "timestamp"@),
        applyable: opt_bool(fs, "applyable"@),
        complete: opt_bool(fs, "complete"@),
        errored: req_bool(fs, "errored"@),
    }
}

impl TfPlan {
    /// Reads a whole plan document from a generic structured value,
    /// strictly: a missing or mistyped required field, or any field
    /// outside the schema, rejects the document.
    pub fn from_json(v: &JsonValue) -> (r: Result<Self, TrowelError>)
        ensures
            match r {
                Ok(p) => wf_tf_plan(v@) && p@ == tf_plan_of(v@),
                Err(e) => !wf_tf_plan(v@) && e@ is MalformedPlan,
            },
    {
        let fields = match v {
            JsonValue::Object(f) => f,
            _ => {
                return Err(TrowelError::MalformedPlan { field: "plan".to_owned() });
            },
        };
        proof {
            lemma_json_model_fields(fields@);
        }
        let ghost fs = json_model_fields(fields@);
        let allowed: Vec<&str> = vec![
            "format_version",
            "terraform_version",
            "planned_values",
            "resource_drift",
            "resource_changes",
            "prior_state",
            "configuration",
            "relevant_attributes",
            "checks",
            "timestamp",
            "applyable",
            "complete",
            "errored",
        ];
        proof {
            assert(string_views_of_strs(allowed@) =~= seq![
                "format_version"@,
                "terraform_version"@,
                "planned_values"@,
                "resource_drift"@,
                "resource_changes"@,
                "prior_state"@,
                "configuration"@,
                "relevant_attributes"@,
                "checks"@,
                "timestamp"@,
                "applyable"@,
                "complete"@,
                "errored"@,
            ]);
        }
        if !check_fields_allowed(fields, &allowed) {
            return Err(TrowelError::MalformedPlan { field: "plan".to_owned() });
        }
        let format_version = match req_text_field(fields, "format_version") {
            Ok(s) => s,
            Err(e) => {
                return Err(e);
            },
        };
        let terraform_version = match req_text_field(fields, "terraform_version") {
            Ok(s) => s,
            Err(e) => {
                return Err(e);
            },
        };
        let planned_values = match lookup_field(fields, "planned_values") {
            Some(x) => match TfPlanPlannedValues::from_json(x) {
                Ok(m) => m,
                Err(e) => {
                    return Err(e);
                },
            },
            None => {
                return Err(TrowelError::MalformedPlan { field: "planned_values".to_owned() });
            },
        };
        let resource_drift = match lookup_field(fields, "resource_drift") {
            None => None,
            Some(x) => match x {
                JsonValue::Null => None,
                JsonValue::Array(items) => Some(clone_array(items)),
                _ => {
                    return Err(TrowelError::MalformedPlan { field: "resource_drift".to_owned() });
                },
            },
        };
        let resource_changes = match lookup_field(fields, "resource_changes") {
            None => None,
            Some(x) => match x {
                JsonValue::Null => None,
                other => match resource_changes_from_json(other) {
                    Ok(rcs) => Some(rcs),
                    Err(e) => {
                        return Err(e);
                    },
                },
            },
        };
        let prior_state = match lookup_field(fields, "prior_state") {
            None => None,
            Some(x) => match x {
                JsonValue::Null => None,
                other => match TfPlanPriorState::from_json(other) {
                    Ok(p) => Some(p),
                    Err(e) => {
                        return Err(e);
                    },
                },
            },
        };
        let configuration = match lookup_field(fields, "configuration") {
            Some(x) => match TfPlanConfiguration::from_json(x) {
                Ok(c) => c,
                Err(e) => {
                    return Err(e);
                },
            },
            None => {
                return Err(TrowelError::MalformedPlan { field: "configuration".to_owned() });
            },
        };
        let relevant_attributes = match lookup_field(fields, "relevant_attributes") {
            None => None,
            Some(x) => match x {
                JsonValue::Null => None,
                other => match relevant_attributes_from_json(other) {
                    Ok(ras) => Some(ras),
                    Err(e) => {
                        return Err(e);
                    },
                },
            },
        };
        let checks = match lookup_field(fields, "checks") {
            None => None,
            Some(x) => match x {
                JsonValue::Null => None,
                other => match checks_from_json(other) {
                    Ok(cs) => Some(cs),
                    Err(e) => {
                        return Err(e);
                    },
                },
            },
        };
        let timestamp = match req_text_field(fields, "timestamp") {
            Ok(s) => s,
            Err(e) => {
                return Err(e);
            },
        };
        let applyable = match opt_bool_field(fields, "applyable") {
            Ok(b) => b,
            Err(e) => {
                return Err(e);
            },
        };
        let complete = match opt_bool_field(fields, "complete") {
            Ok(b) => b,
            Err(e) => {
                return Err(e);
            },
        };
        let errored = match req_bool_field(fields, "errored") {
            Ok(b) => b,
            Err(e) => {
                return Err(e);
            },
        };
        let out = TfPlan {
            format_version,
            terraform_version,
            planned_values,
            resource_drift,
            resource_changes,
            prior_state,
            configuration,
            relevant_attributes,
            checks,
            timestamp,
            applyable,
            complete,
            errored,
        };
        proof {
            assert(wf_tf_plan(v@));
            let m = tf_plan_of(v@);
            assert(out@.resource_drift == m.resource_drift);
            assert(out@.resource_changes == m.resource_changes);
            assert(out@.relevant_attributes == m.relevant_attributes);
            assert(out@.checks == m.checks);
            assert(out@ == m);
        }
        Ok(out)
    }
}

} // verus!
