//! A generic structured-data value, the input format of the plan reader.
//!
//! The surrounding application parses whatever concrete wire format it
//! receives and hands the library one of these trees; everything the library
//! proves about a value is stated over its mathematical shape,
//! [`JsonModel`].

use vstd::prelude::*;

verus! {

/// An executable structured-data value: the shapes a JSON document can take.
///
/// Numbers are carried as their literal source text; the library never does
/// arithmetic on them, it only compares and displays them.
#[derive(Debug)]
pub enum JsonValue {
    Null,
    Bool(bool),
    Number(String),
    Text(String),
    Array(Vec<JsonValue>),
    Object(Vec<(String, JsonValue)>),
}

/// The mathematical shape of a [`JsonValue`]: strings become character
/// sequences and vectors become sequences, all the way down.
pub enum JsonModel {
    Null,
    Bool(bool),
    Number(Seq<char>),
    Text(Seq<char>),
    Array(Seq<JsonModel>),
    Object(Seq<(Seq<char>, JsonModel)>),
}

/// The deep model of a value.
pub open spec fn json_model(v: JsonValue) -> JsonModel
    decreases v,
{
    match v {
        JsonValue::Null => JsonModel::Null,
        JsonValue::Bool(b) => JsonModel::Bool(b),
        JsonValue::Number(s) => JsonModel::Number(s@),
        JsonValue::Text(s) => JsonModel::Text(s@),
        JsonValue::Array(items) => JsonModel::Array(json_model_seq(items@)),
        JsonValue::Object(fields) => JsonModel::Object(json_model_fields(fields@)),
    }
}

/// The deep models of the elements of an array.
pub open spec fn json_model_seq(s: Seq<JsonValue>) -> Seq<JsonModel>
    decreases s,
{
    if s.len() == 0 {
        Seq::empty()
    } else {
        seq![json_model(s[0])] + json_model_seq(s.subrange(1, s.len() as int))
    }
}

/// The deep models of the fields of an object, in order.
pub open spec fn json_model_fields(s: Seq<(String, JsonValue)>) -> Seq<(Seq<char>, JsonModel)>
    decreases s,
{
    if s.len() == 0 {
        Seq::empty()
    } else {
        seq![(s[0].0@, json_model(s[0].1))] + json_model_fields(s.subrange(1, s.len() as int))
    }
}

impl View for JsonValue {
    type V = JsonModel;

    open spec fn view(&self) -> JsonModel {
        json_model(*self)
    }
}

/// The model of an array has one entry per element, in order.
pub proof fn lemma_json_model_seq(s: Seq<JsonValue>)
    ensures
        json_model_seq(s).len() == s.len(),
        forall|i: int| 0 <= i < s.len() ==> json_model_seq(s)[i] == json_model(s[i]),
    decreases s,
{
    if s.len() > 0 {
        lemma_json_model_seq(s.subrange(1, s.len() as int));
    }
}

/// The model of an object has one entry per field, in order, pairing the
/// field name's characters with the field value's model.
pub proof fn lemma_json_model_fields(s: Seq<(String, JsonValue)>)
    ensures
        json_model_fields(s).len() == s.len(),
        forall|i: int| 0 <= i < s.len() ==> json_model_fields(s)[i] == (s[i].0@, json_model(
            s[i].1,
        )),
    decreases s,
{
    if s.len() > 0 {
        lemma_json_model_fields(s.subrange(1, s.len() as int));
    }
}

impl JsonValue {
    /// Whether two values have the same mathematical shape.
    pub fn deep_eq(&self, other: &JsonValue) -> (r: bool)
        ensures
            r == (self@ == other@),
        decreases *self,
    {
        match self {
            JsonValue::Null => matches!(other, JsonValue::Null),
            JsonValue::Bool(x) => match other {
                JsonValue::Bool(y) => *x == *y,
                _ => false,
            },
            JsonValue::Number(x) => match other {
                JsonValue::Number(y) => *x == *y,
                _ => false,
            },
            JsonValue::Text(x) => match other {
                JsonValue::Text(y) => *x == *y,
                _ => false,
            },
            JsonValue::Array(x) => match other {
                JsonValue::Array(y) => arrays_deep_eq(x, y),
                _ => false,
            },
            JsonValue::Object(x) => match other {
                JsonValue::Object(y) => objects_deep_eq(x, y),
                _ => false,
            },
        }
    }
}

/// Whether two arrays have pointwise equal element models.
fn arrays_deep_eq(x: &Vec<JsonValue>, y: &Vec<JsonValue>) -> (r: bool)
    ensures
        r == (json_model_seq(x@) == json_model_seq(y@)),
    decreases x@,
{
    proof {
        lemma_json_model_seq(x@);
        lemma_json_model_seq(y@);
    }
    if x.len() != y.len() {
        return false;
    }
    let n = x.len();
    let mut i: usize = 0;
    while i < n
        invariant
            n == x@.len() == y@.len(),
            i <= n,
            json_model_seq(x@).len() == n,
            json_model_seq(y@).len() == n,
            forall|j: int| 0 <= j < x@.len() ==> json_model_seq(x@)[j] == json_model(x@[j]),
            forall|j: int| 0 <= j < y@.len() ==> json_model_seq(y@)[j] == json_model(y@[j]),
            forall|j: int| 0 <= j < i ==> json_model(x@[j]) == json_model(y@[j]),
        decreases n - i,
    {
        if !x[i].deep_eq(&y[i]) {
            proof {
                let k = i as int;
                assert(json_model_seq(x@)[k] != json_model_seq(y@)[k]);
            }
            return false;
        }
        i = i + 1;
    }
    proof {
        assert(json_model_seq(x@) =~= json_model_seq(y@));
    }
    true
}

/// Whether two objects have pointwise equal field names and value models.
fn objects_deep_eq(x: &Vec<(String, JsonValue)>, y: &Vec<(String, JsonValue)>) -> (r: bool)
    ensures
        r == (json_model_fields(x@) == json_model_fields(y@)),
    decreases x@,
{
    proof {
        lemma_json_model_fields(x@);
        lemma_json_model_fields(y@);
    }
    if x.len() != y.len() {
        return false;
    }
    let n = x.len();
    let mut i: usize = 0;
    while i < n
        invariant
            n == x@.len() == y@.len(),
            i <= n,
            json_model_fields(x@).len() == n,
            json_model_fields(y@).len() == n,
            forall|j: int|
                0 <= j < x@.len() ==> json_model_fields(x@)[j] == (x@[j].0@, json_model(x@[j].1)),
            forall|j: int|
                0 <= j < y@.len() ==> json_model_fields(y@)[j] == (y@[j].0@, json_model(y@[j].1)),
            forall|j: int| 0 <= j < i ==> json_model_fields(x@)[j] == json_model_fields(y@)[j],
        decreases n - i,
    {
        let names_differ = x[i].0 != y[i].0;
        if names_differ {
            proof {
                let k = i as int;
                assert(json_model_fields(x@)[k] != json_model_fields(y@)[k]);
            }
            return false;
        }
        if !x[i].1.deep_eq(&y[i].1) {
            proof {
                let k = i as int;
                assert(json_model_fields(x@)[k] != json_model_fields(y@)[k]);
            }
            return false;
        }
        i = i + 1;
    }
    proof {
        assert(json_model_fields(x@) =~= json_model_fields(y@));
    }
    true
}

impl Clone for JsonValue {
    /// A clone has the same mathematical shape as the original.
    fn clone(&self) -> (r: Self)
        ensures
            r@ == self@,
        decreases *self,
    {
        match self {
            JsonValue::Null => JsonValue::Null,
            JsonValue::Bool(b) => JsonValue::Bool(*b),
            JsonValue::Number(s) => JsonValue::Number(s.clone()),
            JsonValue::Text(s) => JsonValue::Text(s.clone()),
            JsonValue::Array(items) => JsonValue::Array(clone_array(items)),
            JsonValue::Object(fields) => JsonValue::Object(clone_fields(fields)),
        }
    }
}

/// Clones the elements of an array, keeping their models.
pub(crate) fn clone_array(x: &Vec<JsonValue>) -> (r: Vec<JsonValue>)
    ensures
        json_model_seq(r@) == json_model_seq(x@),
    decreases x@,
{
    proof {
        lemma_json_model_seq(x@);
    }
    let n = x.len();
    let mut r: Vec<JsonValue> = Vec::new();
    let mut i: usize = 0;
    while i < n
        invariant
            n == x@.len(),
            i <= n,
            r@.len() == i,
            forall|j: int| 0 <= j < x@.len() ==> json_model_seq(x@)[j] == json_model(x@[j]),
            forall|j: int| 0 <= j < i ==> json_model(r@[j]) == json_model(x@[j]),
        decreases n - i,
    {
        r.push(x[i].clone());
        i = i + 1;
    }
    proof {
        lemma_json_model_seq(r@);
        assert(json_model_seq(r@) =~= json_model_seq(x@));
    }
    r
}

/// Clones the fields of an object, keeping names and value models.
pub(crate) fn clone_fields(x: &Vec<(String, JsonValue)>) -> (r: Vec<(String, JsonValue)>)
    ensures
        json_model_fields(r@) == json_model_fields(x@),
    decreases x@,
{
    proof {
        lemma_json_model_fields(x@);
    }
    let n = x.len();
    let mut r: Vec<(String, JsonValue)> = Vec::new();
    let mut i: usize = 0;
    while i < n
        invariant
            n == x@.len(),
            i <= n,
            r@.len() == i,
            forall|j: int|
                0 <= j < x@.len() ==> json_model_fields(x@)[j] == (x@[j].0@, json_model(x@[j].1)),
            forall|j: int| 0 <= j < i ==> r@[j].0@ == x@[j].0@ && json_model(r@[j].1) == json_model(
                x@[j].1,
            ),
        decreases n - i,
    {
        let name = x[i].0.clone();
        let value = x[i].1.clone();
        r.push((name, value));
        i = i + 1;
    }
    proof {
        lemma_json_model_fields(r@);
        assert(json_model_fields(r@) =~= json_model_fields(x@));
    }
    r
}

/// The value of the first field with the given name, if any.
pub open spec fn obj_field_opt(fs: Seq<(Seq<char>, JsonModel)>, name: Seq<char>) -> Option<
    JsonModel,
>
    decreases fs.len(),
{
    if fs.len() == 0 {
        None
    } else if fs[0].0 == name {
        Some(fs[0].1)
    } else {
        obj_field_opt(fs.subrange(1, fs.len() as int), name)
    }
}

/// A prefix of fields with other names does not change a lookup.
pub proof fn lemma_obj_field_opt_skip(fs: Seq<(Seq<char>, JsonModel)>, name: Seq<char>, i: int)
    requires
        0 <= i <= fs.len(),
        forall|k: int| 0 <= k < i ==> fs[k].0 != name,
    ensures
        obj_field_opt(fs, name) == obj_field_opt(fs.subrange(i, fs.len() as int), name),
    decreases i,
{
    if i == 0 {
        assert(fs.subrange(0, fs.len() as int) =~= fs);
    } else {
        let ft = fs.subrange(1, fs.len() as int);
        lemma_obj_field_opt_skip(ft, name, i - 1);
        assert(ft.subrange(i - 1, ft.len() as int) =~= fs.subrange(i, fs.len() as int));
    }
}

/// Finds the first field with the given name.
pub fn lookup_field<'a>(fields: &'a Vec<(String, JsonValue)>, name: &str) -> (r: Option<
    &'a JsonValue,
>)
    ensures
        match r {
            Some(v) => obj_field_opt(json_model_fields(fields@), name@) == Some(v@),
            None => obj_field_opt(json_model_fields(fields@), name@) is None,
        },
{
    proof {
        lemma_json_model_fields(fields@);
    }
    let ghost fs = json_model_fields(fields@);
    let n = fields.len();
    let mut i: usize = 0;
    while i < n
        invariant
            i <= n,
            n == fields@.len(),
            fs == json_model_fields(fields@),
            fs.len() == n,
            forall|j: int| 0 <= j < fields@.len() ==> fs[j] == (fields@[j].0@, json_model(
                fields@[j].1,
            )),
            forall|k: int| 0 <= k < i ==> fs[k].0 != name@,
        decreases n - i,
    {
        if crate::strutil::str_eq(fields[i].0.as_str(), name) {
            proof {
                lemma_obj_field_opt_skip(fs, name@, i as int);
                let tail = fs.subrange(i as int, fs.len() as int);
                assert(tail[0] == fs[i as int]);
            }
            return Some(&fields[i].1);
        }
        i = i + 1;
    }
    proof {
        lemma_obj_field_opt_skip(fs, name@, n as int);
        assert(fs.subrange(n as int, fs.len() as int) =~= Seq::<(Seq<char>, JsonModel)>::empty());
    }
    None
}

/// How one character appears inside a rendered string literal: quotes and
/// backslashes are escaped, as are the common control characters.
pub open spec fn escape_char(c: char) -> Seq<char> {
    if c == '"' {
        seq!['\\', '"']
    } else if c == '\\' {
        seq!['\\', '\\']
    } else if c == '\n' {
        seq!['\\', 'n']
    } else if c == '\r' {
        seq!['\\', 'r']
    } else if c == '\t' {
        seq!['\\', 't']
    } else {
        seq![c]
    }
}

/// The escaped form of a whole character sequence.
pub open spec fn escaped_chars(s: Seq<char>) -> Seq<char>
    decreases s.len(),
{
    if s.len() == 0 {
        Seq::empty()
    } else {
        escape_char(s[0]) + escaped_chars(s.subrange(1, s.len() as int))
    }
}

/// A rendered string literal: the escaped characters between quotes.
pub open spec fn quoted(s: Seq<char>) -> Seq<char> {
    seq!['"'] + escaped_chars(s) + seq!['"']
}

/// The canonical text rendering of a value: the library's own compact
/// JSON-shaped form, used wherever a raw value is shown.
pub open spec fn render_model(m: JsonModel) -> Seq<char>
    decreases m, 0int,
{
    match m {
        JsonModel::Null => seq!['n', 'u', 'l', 'l'],
        JsonModel::Bool(b) => if b {
            seq!['t', 'r', 'u', 'e']
        } else {
            seq!['f', 'a', 'l', 's', 'e']
        },
        JsonModel::Number(s) => s,
        JsonModel::Text(s) => quoted(s),
        JsonModel::Array(items) => seq!['['] + render_items(items) + seq![']'],
        JsonModel::Object(fields) => seq!['{'] + render_fields(fields) + seq!['}'],
    }
}

/// The comma-separated renderings of array elements.
pub open spec fn render_items(s: Seq<JsonModel>) -> Seq<char>
    decreases s, s.len(),
{
    if s.len() == 0 {
        Seq::empty()
    } else if s.len() == 1 {
        render_model(s[0])
    } else {
        render_model(s[0]) + seq![','] + render_items(s.subrange(1, s.len() as int))
    }
}

/// The comma-separated renderings of object fields, `"name":value` each.
pub open spec fn render_fields(s: Seq<(Seq<char>, JsonModel)>) -> Seq<char>
    decreases s, s.len(),
{
    if s.len() == 0 {
        Seq::empty()
    } else if s.len() == 1 {
        quoted(s[0].0) + seq![':'] + render_model(s[0].1)
    } else {
        quoted(s[0].0) + seq![':'] + render_model(s[0].1) + seq![','] + render_fields(
            s.subrange(1, s.len() as int),
        )
    }
}

/// Escaping distributes over appending one character.
proof fn lemma_escaped_snoc(s: Seq<char>, c: char)
    ensures
        escaped_chars(s.push(c)) == escaped_chars(s) + escape_char(c),
    decreases s.len(),
{
    if s.len() == 0 {
        let sc = s.push(c);
        assert(sc.len() == 1);
        assert(sc[0] == c);
        assert(sc.subrange(1, sc.len() as int) =~= Seq::<char>::empty());
        assert(escaped_chars(sc) == escape_char(c) + escaped_chars(
            sc.subrange(1, sc.len() as int),
        ));
        assert(escaped_chars(sc) =~= escaped_chars(s) + escape_char(c));
    } else {
        lemma_escaped_snoc(s.subrange(1, s.len() as int), c);
        assert(s.push(c).subrange(1, s.len() as int + 1) =~= s.subrange(1, s.len() as int).push(
            c,
        ));
        assert(s.push(c)[0] == s[0]);
        assert(escaped_chars(s.push(c)) == escape_char(s[0]) + (escaped_chars(
            s.subrange(1, s.len() as int),
        ) + escape_char(c)));
        assert(escape_char(s[0]) + (escaped_chars(s.subrange(1, s.len() as int)) + escape_char(c))
            =~= (escape_char(s[0]) + escaped_chars(s.subrange(1, s.len() as int))) + escape_char(
            c,
        ));
    }
}

/// Appends the escaped characters of `s` to `out`.
fn escape_str_into(s: &str, out: &mut Vec<char>)
    ensures
        final(out)@ == old(out)@ + escaped_chars(s@),
{
    let n = s.unicode_len();
    let mut i: usize = 0;
    while i < n
        invariant
            n == s@.len(),
            i <= n,
            out@ == old(out)@ + escaped_chars(s@.subrange(0, i as int)),
        decreases n - i,
    {
        let c = s.get_char(i);
        proof {
            assert(s@.subrange(0, i + 1) =~= s@.subrange(0, i as int).push(s@[i as int]));
            lemma_escaped_snoc(s@.subrange(0, i as int), s@[i as int]);
        }
        if c == '"' {
            out.push('\\');
            out.push('"');
        } else if c == '\\' {
            out.push('\\');
            out.push('\\');
        } else if c == '\n' {
            out.push('\\');
            out.push('n');
        } else if c == '\r' {
            out.push('\\');
            out.push('r');
        } else if c == '\t' {
            out.push('\\');
            out.push('t');
        } else {
            out.push(c);
        }
        proof {
            assert(out@ =~= old(out)@ + escaped_chars(s@.subrange(0, i + 1)));
        }
        i = i + 1;
    }
    proof {
        assert(s@.subrange(0, s@.len() as int) =~= s@);
    }
}

/// Appends the characters of `s` to `out`, unchanged.
fn copy_str_into(s: &str, out: &mut Vec<char>)
    ensures
        final(out)@ == old(out)@ + s@,
{
    let n = s.unicode_len();
    let mut i: usize = 0;
    while i < n
        invariant
            n == s@.len(),
            i <= n,
            out@ == old(out)@ + s@.subrange(0, i as int),
        decreases n - i,
    {
        let c = s.get_char(i);
        out.push(c);
        proof {
            assert(out@ =~= old(out)@ + s@.subrange(0, i + 1));
        }
        i = i + 1;
    }
    proof {
        assert(s@.subrange(0, s@.len() as int) =~= s@);
    }
}

/// Appends `"` + escaped `s` + `"` to `out`.
pub(crate) fn quote_str_into(s: &str, out: &mut Vec<char>)
    ensures
        final(out)@ == old(out)@ + quoted(s@),
{
    out.push('"');
    escape_str_into(s, out);
    out.push('"');
    proof {
        assert(out@ =~= old(out)@ + quoted(s@));
    }
}

impl JsonValue {
    /// Appends the canonical rendering of this value to `out`.
    pub fn render_into(&self, out: &mut Vec<char>)
        ensures
            final(out)@ == old(out)@ + render_model(self@),
        decreases *self, 0int,
    {
        match self {
            JsonValue::Null => {
                out.push('n');
                out.push('u');
                out.push('l');
                out.push('l');
                proof {
                    assert(out@ =~= old(out)@ + render_model(self@));
                }
            },
            JsonValue::Bool(b) => {
                if *b {
                    out.push('t');
                    out.push('r');
                    out.push('u');
                    out.push('e');
                } else {
                    out.push('f');
                    out.push('a');
                    out.push('l');
                    out.push('s');
                    out.push('e');
                }
                proof {
                    assert(out@ =~= old(out)@ + render_model(self@));
                }
            },
            JsonValue::Number(s) => {
                copy_str_into(s, out);
            },
            JsonValue::Text(s) => {
                quote_str_into(s, out);
            },
            JsonValue::Array(items) => {
                out.push('[');
                render_array_items(items, 0, out);
                out.push(']');
                proof {
                    lemma_json_model_seq(items@);
                    assert(json_model_seq(items@).subrange(0, json_model_seq(items@).len() as int)
                        =~= json_model_seq(items@));
                    assert(out@ =~= old(out)@ + render_model(self@));
                }
            },
            JsonValue::Object(fields) => {
                out.push('{');
                render_object_fields(fields, 0, out);
                out.push('}');
                proof {
                    lemma_json_model_fields(fields@);
                    assert(json_model_fields(fields@).subrange(
                        0,
                        json_model_fields(fields@).len() as int,
                    ) =~= json_model_fields(fields@));
                    assert(out@ =~= old(out)@ + render_model(self@));
                }
            },
        }
    }

    /// The canonical rendering of this value, as a string.
    pub fn render(&self) -> (s: String)
        ensures
            s@ == render_model(self@),
    {
        let mut buf: Vec<char> = Vec::new();
        self.render_into(&mut buf);
        crate::strutil::chars_to_string(&buf)
    }
}

/// Appends the renderings of `items[from..]`, comma-separated, to `out`.
fn render_array_items(items: &Vec<JsonValue>, from: usize, out: &mut Vec<char>)
    requires
        from <= items@.len(),
    ensures
        final(out)@ == old(out)@ + render_items(
            json_model_seq(items@).subrange(from as int, items@.len() as int),
        ),
    decreases items@, items@.len() - from,
{
    proof {
        lemma_json_model_seq(items@);
    }
    let ghost models = json_model_seq(items@);
    let ghost rest = models.subrange(from as int, items@.len() as int);
    if from == items.len() {
        proof {
            assert(rest =~= Seq::<JsonModel>::empty());
        }
        return ;
    }
    items[from].render_into(out);
    if from + 1 == items.len() {
        proof {
            assert(rest.len() == 1);
            assert(rest[0] == json_model(items@[from as int]));
        }
        return ;
    }
    out.push(',');
    render_array_items(items, from + 1, out);
    proof {
        assert(rest[0] == json_model(items@[from as int]));
        assert(rest.subrange(1, rest.len() as int) =~= models.subrange(
            from + 1,
            items@.len() as int,
        ));
        assert(out@ =~= old(out)@ + render_items(rest));
    }
}

/// Appends the renderings of `fields[from..]`, comma-separated, to `out`.
fn render_object_fields(fields: &Vec<(String, JsonValue)>, from: usize, out: &mut Vec<char>)
    requires
        from <= fields@.len(),
    ensures
        final(out)@ == old(out)@ + render_fields(
            json_model_fields(fields@).subrange(from as int, fields@.len() as int),
        ),
    decreases fields@, fields@.len() - from,
{
    proof {
        lemma_json_model_fields(fields@);
    }
    let ghost models = json_model_fields(fields@);
    let ghost rest = models.subrange(from as int, fields@.len() as int);
    if from == fields.len() {
        proof {
            assert(rest =~= Seq::<(Seq<char>, JsonModel)>::empty());
        }
        return ;
    }
    quote_str_into(&fields[from].0, out);
    out.push(':');
    fields[from].1.render_into(out);
    if from + 1 == fields.len() {
        proof {
            assert(rest.len() == 1);
            assert(rest[0] == (fields@[from as int].0@, json_model(fields@[from as int].1)));
            assert(out@ =~= old(out)@ + render_fields(rest));
        }
        return ;
    }
    out.push(',');
    render_object_fields(fields, from + 1, out);
    proof {
        assert(rest[0] == (fields@[from as int].0@, json_model(fields@[from as int].1)));
        assert(rest.subrange(1, rest.len() as int) =~= models.subrange(
            from + 1,
            fields@.len() as int,
        ));
        assert(out@ =~= old(out)@ + render_fields(rest));
    }
}

} // verus!
