//! Input-schema checks: whether a tool's `input_schema` is well formed,
//! and whether call arguments conform to it.

use vstd::prelude::*;
use crate::error::{Error, ErrorKind};
use crate::json::{entries_get, json_eq, entries_lookup, json_equal, JsonValue, JsonView, JsonNumber};
use crate::text::{concat, str_eq};
use crate::registry::{name_lt, str_lt};

verus! {

pub const SCHEMA_NOT_OBJECT: &'static str = "input_schema must be a JSON object";
pub const SCHEMA_TYPE_NOT_OBJECT: &'static str = "input_schema.type must be \"object\"";
pub const SCHEMA_PROPERTIES_NOT_OBJECT: &'static str = "input_schema.properties must be an object";
pub const SCHEMA_REQUIRED_NOT_ARRAY: &'static str = "input_schema.required must be an array";
pub const SCHEMA_REQUIRED_NOT_STRINGS: &'static str = "input_schema.required entries must be strings";
pub const SCHEMA_REQUIRED_UNKNOWN: &'static str = "required field not in properties: ";
pub const ARGS_NOT_OBJECT: &'static str = "tool args must be a JSON object";
pub const REQUIRED_NAME_NOT_STRING: &'static str = "required field name must be string";

/// The first problem with a schema's `required` list, from entry `i` on:
/// an entry that is no string, or a name that `properties` lacks.
pub open spec fn required_problem(req: Seq<JsonView>, props: Seq<(Seq<char>, JsonView)>, i: nat) -> Option<Seq<char>>
    decreases req.len() - i,
{
    if i >= req.len() {
        None
    } else {
        match req[i as int] {
            JsonView::Str(name) => if entries_get(props, name) is None {
                Some(SCHEMA_REQUIRED_UNKNOWN@ + name)
            } else {
                required_problem(req, props, i + 1)
            },
            _ => Some(SCHEMA_REQUIRED_NOT_STRINGS@),
        }
    }
}

/// The validation message for a malformed input schema, or `None` when it
/// is well formed: an object whose `type` is the string `"object"`, whose
/// `properties` is an object, and whose `required`, when present, is an
/// array of names that `properties` holds.
pub open spec fn schema_problem(schema: JsonView) -> Option<Seq<char>> {
    match schema {
        JsonView::Object(es) => if !(entries_get(es, "type"@) matches Some(JsonView::Str(t)) && t
            == "object"@) {
            Some(SCHEMA_TYPE_NOT_OBJECT@)
        } else {
            match entries_get(es, "properties"@) {
                Some(JsonView::Object(props)) => match entries_get(es, "required"@) {
                    None => None,
                    Some(JsonView::Array(req)) => required_problem(req, props, 0),
                    Some(_) => Some(SCHEMA_REQUIRED_NOT_ARRAY@),
                },
                _ => Some(SCHEMA_PROPERTIES_NOT_OBJECT@),
            }
        },
        _ => Some(SCHEMA_NOT_OBJECT@),
    }
}

/// Whether `v` has the JSON type that a property spec names; unknown
/// type names accept every value.
pub open spec fn type_matches(t: Seq<char>, v: JsonView) -> bool {
    if t == "string"@ {
        v is Str
    } else if t == "number"@ {
        v is Number
    } else if t == "integer"@ {
        v matches JsonView::Number(n) && !(n is Float)
    } else if t == "boolean"@ {
        v is Bool
    } else if t == "object"@ {
        v is Object
    } else if t == "array"@ {
        v is Array
    } else if t == "null"@ {
        v is Null
    } else {
        true
    }
}

/// Whether some element of `vals[i..]` equals `v`.
pub open spec fn contains_from(vals: Seq<JsonView>, v: JsonView, i: nat) -> bool
    decreases vals.len() - i,
{
    if i >= vals.len() {
        false
    } else {
        json_eq(vals[i as int], v) || contains_from(vals, v, i + 1)
    }
}

/// The first required name, from entry `i` on, that `args` lacks.
pub open spec fn missing_required(req: Seq<JsonView>, args: Seq<(Seq<char>, JsonView)>, i: nat) -> Option<(ErrorKind, Seq<char>)>
    decreases req.len() - i,
{
    if i >= req.len() {
        None
    } else {
        match req[i as int] {
            JsonView::Str(name) => if entries_get(args, name) is None {
                Some((ErrorKind::MissingField, name))
            } else {
                missing_required(req, args, i + 1)
            },
            _ => Some((ErrorKind::Validation, REQUIRED_NAME_NOT_STRING@)),
        }
    }
}

/// The problem with one argument `(key, value)` against its property
/// spec: a type mismatch, or a value outside the spec's `enum`.
pub open spec fn field_problem(props: Seq<(Seq<char>, JsonView)>, key: Seq<char>, value: JsonView) -> Option<Seq<char>> {
    match entries_get(props, key) {
        Some(JsonView::Object(sp)) => match entries_get(sp, "type"@) {
            Some(JsonView::Str(t)) if !type_matches(t, value) => Some(
                "field "@ + key + " expected type "@ + t,
            ),
            _ => match entries_get(sp, "enum"@) {
                Some(JsonView::Array(vals)) if !contains_from(vals, value, 0) => Some(
                    "field "@ + key + " is not in enum"@,
                ),
                _ => None,
            },
        },
        _ => None,
    }
}

/// The problem of the argument at key `k`, read at its value (the last
/// entry for `k`).
pub open spec fn key_problem(props: Seq<(Seq<char>, JsonView)>, args: Seq<(Seq<char>, JsonView)>, k: Seq<char>) -> Option<Seq<char>> {
    match entries_get(args, k) {
        Some(v) => field_problem(props, k, v),
        None => None,
    }
}

/// Among the keys of `args[..n]` that have a problem, the one first in
/// `String` order, with its problem: the arguments are an object read as
/// a map whose keys are visited in ascending order.
pub open spec fn fields_problem(props: Seq<(Seq<char>, JsonView)>, args: Seq<(Seq<char>, JsonView)>, n: nat) -> Option<(Seq<char>, Seq<char>)>
    decreases n,
{
    if n == 0 || n > args.len() {
        None
    } else {
        let best = fields_problem(props, args, (n - 1) as nat);
        let k = args[n - 1].0;
        match key_problem(props, args, k) {
            None => best,
            Some(m) => match best {
                None => Some((k, m)),
                Some(b) => if name_lt(k, b.0) {
                    Some((k, m))
                } else {
                    best
                },
            },
        }
    }
}

/// The error that validating `args` against `schema` yields, or `None`
/// when the arguments conform: the schema's own problem first, then an
/// argument value that is no object, then the first missing required
/// field, then the first argument with a wrong type or a value outside
/// its enum.
pub open spec fn args_problem(schema: JsonView, args: JsonView) -> Option<(ErrorKind, Seq<char>)> {
    match schema_problem(schema) {
        Some(m) => Some((ErrorKind::Validation, m)),
        None => match args {
            JsonView::Object(aes) => {
                let props = schema.get("properties"@)->0->Object_0;
                let missing = match schema.get("required"@) {
                    Some(JsonView::Array(req)) => missing_required(req, aes, 0),
                    _ => None,
                };
                match missing {
                    Some(p) => Some(p),
                    None => match fields_problem(props, aes, aes.len()) {
                        Some(p) => Some((ErrorKind::Validation, p.1)),
                        None => None,
                    },
                }
            },
            _ => Some((ErrorKind::Validation, ARGS_NOT_OBJECT@)),
        },
    }
}

} // verus!

verus! {

/// The views of the elements of `xs`.
pub open spec fn elems_view(xs: Vec<JsonValue>) -> Seq<JsonView> {
    JsonValue::Array(xs)@->Array_0
}

/// The views of the entries of `ps`.
pub open spec fn entries_view(ps: Vec<(String, JsonValue)>) -> Seq<(Seq<char>, JsonView)> {
    JsonValue::Object(ps)@->Object_0
}

fn validation(msg: &str) -> (e: Error)
    ensures
        e@ == (ErrorKind::Validation, msg@),
{
    Error::Validation(msg.to_owned())
}

/// Checks the names of a schema's `required` list against its properties.
fn check_required_names(items: &Vec<JsonValue>, props: &Vec<(String, JsonValue)>) -> (r: Result<(), Error>)
    ensures
        match r {
            Ok(_) => required_problem(elems_view(*items), entries_view(*props), 0) is None,
            Err(e) => e@.0 == ErrorKind::Validation && required_problem(elems_view(*items), entries_view(*props), 0) == Some(e@.1),
        },
{
    let ghost iv = elems_view(*items);
    let ghost pv = entries_view(*props);
    let mut i: usize = 0;
    while i < items.len()
        invariant
            iv == elems_view(*items),
            pv == entries_view(*props),
            0 <= i <= items@.len(),
            required_problem(iv, pv, 0) == required_problem(iv, pv, i as nat),
        decreases items@.len() - i,
    {
        assert(iv[i as int] == items@[i as int]@);
        match items[i].as_str() {
            Some(name) => {
                if entries_lookup(props, name).is_none() {
                    return Err(Error::Validation(concat(SCHEMA_REQUIRED_UNKNOWN, name)));
                }
            },
            None => {
                return Err(validation(SCHEMA_REQUIRED_NOT_STRINGS));
            },
        }
        i += 1;
    }
    Ok(())
}

/// Checks that a schema is well formed (see [`schema_problem`]).
pub fn check_schema(schema: &JsonValue) -> (r: Result<(), Error>)
    ensures
        match r {
            Ok(_) => schema_problem(schema@) is None,
            Err(e) => e@.0 == ErrorKind::Validation && schema_problem(schema@) == Some(e@.1),
        },
{
    let es = match schema.as_object() {
        Some(es) => es,
        None => return Err(validation(SCHEMA_NOT_OBJECT)),
    };
    let type_ok = match entries_lookup(es, "type") {
        Some(t) => match t.as_str() {
            Some(x) => str_eq(x, "object"),
            None => false,
        },
        None => false,
    };
    if !type_ok {
        return Err(validation(SCHEMA_TYPE_NOT_OBJECT));
    }
    let props = match entries_lookup(es, "properties") {
        Some(p) => match p.as_object() {
            Some(o) => o,
            None => return Err(validation(SCHEMA_PROPERTIES_NOT_OBJECT)),
        },
        None => return Err(validation(SCHEMA_PROPERTIES_NOT_OBJECT)),
    };
    match entries_lookup(es, "required") {
        None => Ok(()),
        Some(req) => match req.as_array() {
            Some(items) => check_required_names(items, props),
            None => Err(validation(SCHEMA_REQUIRED_NOT_ARRAY)),
        },
    }
}

/// Whether `v` has the JSON type named `t` (see [`type_matches`]).
pub fn value_has_type(t: &str, v: &JsonValue) -> (r: bool)
    ensures
        r == type_matches(t@, v@),
{
    if str_eq(t, "string") {
        v.is_string()
    } else if str_eq(t, "number") {
        v.is_number()
    } else if str_eq(t, "integer") {
        match v {
            JsonValue::Number(JsonNumber::PosInt(_)) => true,
            JsonValue::Number(JsonNumber::NegInt(_)) => true,
            _ => false,
        }
    } else if str_eq(t, "boolean") {
        v.is_boolean()
    } else if str_eq(t, "object") {
        v.is_object()
    } else if str_eq(t, "array") {
        v.is_array()
    } else if str_eq(t, "null") {
        v.is_null()
    } else {
        true
    }
}

/// Whether some element of `vals` equals `v`.
pub fn values_contain(vals: &Vec<JsonValue>, v: &JsonValue) -> (r: bool)
    ensures
        r == contains_from(elems_view(*vals), v@, 0),
{
    let ghost vv = elems_view(*vals);
    let mut i: usize = 0;
    while i < vals.len()
        invariant
            vv == elems_view(*vals),
            0 <= i <= vals@.len(),
            contains_from(vv, v@, 0) == contains_from(vv, v@, i as nat),
        decreases vals@.len() - i,
    {
        assert(vv[i as int] == vals@[i as int]@);
        if json_equal(&vals[i], v) {
            return true;
        }
        i += 1;
    }
    false
}

/// The problem with one argument against its property spec, if any
/// (see [`field_problem`]).
pub fn check_field(props: &Vec<(String, JsonValue)>, key: &str, value: &JsonValue) -> (r: Option<String>)
    ensures
        match r {
            Some(m) => field_problem(entries_view(*props), key@, value@) == Some(m@),
            None => field_problem(entries_view(*props), key@, value@) is None,
        },
{
    let sp = match entries_lookup(props, key) {
        Some(spec) => match spec.as_object() {
            Some(sp) => sp,
            None => return None,
        },
        None => return None,
    };
    match entries_lookup(sp, "type") {
        Some(t) => match t.as_str() {
            Some(t) => {
                if !value_has_type(t, value) {
                    let mut m = concat("field ", key);
                    m.append(" expected type ");
                    m.append(t);
                    return Some(m);
                }
            },
            None => {},
        },
        None => {},
    }
    match entries_lookup(sp, "enum") {
        Some(e) => match e.as_array() {
            Some(vals) => {
                if !values_contain(vals, value) {
                    let mut m = concat("field ", key);
                    m.append(" is not in enum");
                    return Some(m);
                }
            },
            None => {},
        },
        None => {},
    }
    None
}

/// Checks call arguments against a schema (see [`args_problem`]).
#[verifier::loop_isolation(false)]
pub fn check_args(schema: &JsonValue, args: &JsonValue) -> (r: Result<(), Error>)
    ensures
        match r {
            Ok(_) => args_problem(schema@, args@) is None,
            Err(e) => args_problem(schema@, args@) == Some(e@),
        },
{
    match check_schema(schema) {
        Ok(_) => {},
        Err(e) => return Err(e),
    }
    let es = match schema.as_object() {
        Some(es) => es,
        None => return Err(validation(SCHEMA_NOT_OBJECT)),
    };
    let props = match entries_lookup(es, "properties") {
        Some(p) => match p.as_object() {
            Some(o) => o,
            None => return Err(validation(SCHEMA_PROPERTIES_NOT_OBJECT)),
        },
        None => return Err(validation(SCHEMA_PROPERTIES_NOT_OBJECT)),
    };
    let aes = match args.as_object() {
        Some(a) => a,
        None => return Err(validation(ARGS_NOT_OBJECT)),
    };
    let ghost av = entries_view(*aes);
    match entries_lookup(es, "required") {
        Some(req) => match req.as_array() {
            Some(items) => {
                let ghost iv = elems_view(*items);
                let mut i: usize = 0;
                while i < items.len()
                    invariant
                        iv == elems_view(*items),
                        av == entries_view(*aes),
                        0 <= i <= items@.len(),
                        missing_required(iv, av, 0) == missing_required(iv, av, i as nat),
                    decreases items@.len() - i,
                {
                    assert(iv[i as int] == items@[i as int]@);
                    match items[i].as_str() {
                        Some(name) => {
                            if entries_lookup(aes, name).is_none() {
                                return Err(Error::MissingField(name.to_owned()));
                            }
                        },
                        None => {
                            return Err(validation(REQUIRED_NAME_NOT_STRING));
                        },
                    }
                    i += 1;
                }
            },
            None => {},
        },
        None => {},
    }
    let ghost pv = entries_view(*props);
    let mut best: Option<(String, String)> = None;
    let mut k: usize = 0;
    while k < aes.len()
        invariant
            av == entries_view(*aes),
            pv == entries_view(*props),
            0 <= k <= aes@.len(),
            match best {
                None => fields_problem(pv, av, k as nat) is None,
                Some(b) => fields_problem(pv, av, k as nat) == Some((b.0@, b.1@)),
            },
        decreases aes@.len() - k,
    {
        assert(av[k as int] == (aes@[k as int].0@, aes@[k as int].1@));
        let key = aes[k].0.as_str();
        match entries_lookup(aes, key) {
            Some(v) => match check_field(props, key, v) {
                Some(m) => {
                    let better = match &best {
                        None => true,
                        Some(b) => str_lt(key, b.0.as_str()),
                    };
                    if better {
                        best = Some((key.to_owned(), m));
                    }
                },
                None => {},
            },
            None => {},
        }
        k += 1;
    }
    if let Some(b) = best {
        return Err(Error::Validation(b.1));
    }
    Ok(())
}


// ---------------------------------------------------------------------------
// Laws of validation
// ---------------------------------------------------------------------------

/// Arguments pass validation only against a well-formed schema.
pub proof fn law_valid_args_need_valid_schema(schema: JsonView, args: JsonView)
    requires
        args_problem(schema, args) is None,
    ensures
        schema_problem(schema) is None,
        args is Object,
{
}

proof fn lemma_missing_required_none(req: Seq<JsonView>, aes: Seq<(Seq<char>, JsonView)>, i: nat)
    requires
        missing_required(req, aes, i) is None,
    ensures
        forall|j: int| i <= j < req.len() ==> ((#[trigger] req[j]) matches JsonView::Str(n) && entries_get(aes, n) is Some),
    decreases req.len() - i,
{
    if i < req.len() {
        lemma_missing_required_none(req, aes, i + 1);
    }
}

proof fn lemma_fields_problem_none(props: Seq<(Seq<char>, JsonView)>, aes: Seq<(Seq<char>, JsonView)>, n: nat)
    requires
        n <= aes.len(),
        fields_problem(props, aes, n) is None,
    ensures
        forall|j: int| 0 <= j < n ==> key_problem(props, aes, (#[trigger] aes[j]).0) is None,
    decreases n,
{
    if n > 0 {
        lemma_fields_problem_none(props, aes, (n - 1) as nat);
    }
}

proof fn lemma_fields_problem_least(props: Seq<(Seq<char>, JsonView)>, aes: Seq<(Seq<char>, JsonView)>, n: nat)
    requires
        n <= aes.len(),
    ensures
        fields_problem(props, aes, n) matches Some(p) ==> {
            &&& key_problem(props, aes, p.0) == Some(p.1)
            &&& exists|i: int| 0 <= i < n && (#[trigger] aes[i]).0 == p.0
            &&& forall|j: int| 0 <= j < n && key_problem(props, aes, (#[trigger] aes[j]).0) is Some ==> p.0 == aes[j].0
                || name_lt(p.0, aes[j].0)
        },
    decreases n,
{
    if n > 0 {
        lemma_fields_problem_least(props, aes, (n - 1) as nat);
        let best = fields_problem(props, aes, (n - 1) as nat);
        let k = aes[n - 1].0;
        if let Some(m) = key_problem(props, aes, k) {
            assert(aes[n - 1].0 == k);
            if best is None {
                lemma_fields_problem_none(props, aes, (n - 1) as nat);
            }
            if let Some(b) = best {
                if name_lt(k, b.0) {
                    assert forall|j: int| 0 <= j < n && key_problem(props, aes, (#[trigger] aes[j]).0) is Some implies k
                        == aes[j].0 || name_lt(k, aes[j].0) by {
                        if j < n - 1 && b.0 != aes[j].0 {
                            crate::registry::lemma_name_lt_transitive(k, b.0, aes[j].0);
                        }
                    }
                } else {
                    assert forall|j: int| 0 <= j < n && key_problem(props, aes, (#[trigger] aes[j]).0) is Some implies b.0
                        == aes[j].0 || name_lt(b.0, aes[j].0) by {
                        if j == n - 1 && b.0 != k {
                            crate::registry::lemma_name_lt_total(b.0, k);
                        }
                    }
                }
            }
        }
    }
}

/// Arguments that pass validation hold every field that the schema
/// requires.
pub proof fn law_valid_args_hold_required(schema: JsonView, args: JsonView)
    requires
        args_problem(schema, args) is None,
    ensures
        schema.get("required"@) matches Some(JsonView::Array(req)) ==> forall|j: int| 0 <= j < req.len() ==> ((#[trigger] req[j]) matches JsonView::Str(n) && args.get(n) is Some),
{
    if let Some(JsonView::Array(req)) = schema.get("required"@) {
        lemma_missing_required_none(req, args->Object_0, 0);
    }
}

/// In arguments that pass validation, each field whose property spec
/// names a type has a value of that type, and each field whose spec lists
/// an `enum` has one of its values (a field read at its key's value).
pub proof fn law_valid_args_match_properties(schema: JsonView, args: JsonView)
    requires
        args_problem(schema, args) is None,
    ensures
        forall|j: int| 0 <= j < args->Object_0.len() ==> key_problem(schema.get("properties"@)->0->Object_0, args->Object_0, (#[trigger] args->Object_0[j]).0) is None,
{
    let props = schema.get("properties"@)->0->Object_0;
    lemma_fields_problem_none(props, args->Object_0, args->Object_0.len());
}

/// When arguments fail on their fields, the message is that of the field
/// whose key comes first in `String` order among the fields that fail.
pub proof fn law_field_problem_is_least_key(schema: JsonView, args: JsonView)
    requires
        schema_problem(schema) is None,
        args is Object,
    ensures
        ({
            let props = schema.get("properties"@)->0->Object_0;
            let aes = args->Object_0;
            fields_problem(props, aes, aes.len()) matches Some(p) ==> {
                &&& key_problem(props, aes, p.0) == Some(p.1)
                &&& forall|j: int| 0 <= j < aes.len() && key_problem(props, aes, (#[trigger] aes[j]).0) is Some ==> p.0
                    == aes[j].0 || name_lt(p.0, aes[j].0)
            }
        }),
{
    let props = schema.get("properties"@)->0->Object_0;
    lemma_fields_problem_least(props, args->Object_0, args->Object_0.len());
}

/// The type names that the validator knows for numbers: a float is a
/// `"number"` but never an `"integer"`; a whole number, positive or
/// negative, is both; a string, a boolean or `null` is neither.
pub proof fn law_number_type_names(bits: u64, p: u64, q: i64, s: Seq<char>, b: bool)
    ensures
        !type_matches("integer"@, JsonView::Number(JsonNumber::Float(bits))),
        type_matches("number"@, JsonView::Number(JsonNumber::Float(bits))),
        type_matches("integer"@, JsonView::Number(JsonNumber::PosInt(p))),
        type_matches("integer"@, JsonView::Number(JsonNumber::NegInt(q))),
        type_matches("number"@, JsonView::Number(JsonNumber::PosInt(p))),
        type_matches("number"@, JsonView::Number(JsonNumber::NegInt(q))),
        !type_matches("integer"@, JsonView::Str(s)),
        !type_matches("integer"@, JsonView::Bool(b)),
        !type_matches("integer"@, JsonView::Null),
        !type_matches("number"@, JsonView::Str(s)),
{
    reveal_strlit("string");
    reveal_strlit("number");
    reveal_strlit("integer");
    assert("number"@ != "string"@) by {
        assert("number"@[0] != "string"@[0]);
    }
    assert("integer"@.len() != "string"@.len() && "integer"@.len() != "number"@.len());
}

/// What each JSON type name accepts: `"string"` strings, `"number"` every
/// number, `"integer"` the numbers that are no float, `"boolean"` booleans,
/// `"object"` objects, `"array"` arrays, `"null"` null; a name outside these
/// seven accepts every value.
pub proof fn law_type_names(t: Seq<char>, v: JsonView)
    ensures
        type_matches("string"@, v) <==> v is Str,
        type_matches("number"@, v) <==> v is Number,
        type_matches("integer"@, v) <==> (v is Number && !(v->Number_0 is Float)),
        type_matches("boolean"@, v) <==> v is Bool,
        type_matches("object"@, v) <==> v is Object,
        type_matches("array"@, v) <==> v is Array,
        type_matches("null"@, v) <==> v is Null,
        t != "string"@ && t != "number"@ && t != "integer"@ && t != "boolean"@ && t != "object"@ && t != "array"@
            && t != "null"@ ==> type_matches(t, v),
{
    reveal_strlit("string");
    reveal_strlit("number");
    reveal_strlit("integer");
    reveal_strlit("boolean");
    reveal_strlit("object");
    reveal_strlit("array");
    reveal_strlit("null");
    assert("number"@ != "string"@) by {
        assert("number"@[0] != "string"@[0]);
    }
    assert("object"@ != "string"@ && "object"@ != "number"@) by {
        assert("object"@[0] != "string"@[0]);
        assert("object"@[0] != "number"@[0]);
    }
    assert("boolean"@ != "integer"@) by {
        assert("boolean"@[0] != "integer"@[0]);
    }
    assert("integer"@.len() != "string"@.len() && "integer"@.len() != "number"@.len());
    assert("boolean"@.len() != "string"@.len() && "boolean"@.len() != "number"@.len());
    assert("array"@.len() != "string"@.len() && "array"@.len() != "number"@.len() && "array"@.len()
        != "integer"@.len() && "array"@.len() != "boolean"@.len() && "array"@.len() != "object"@.len());
    assert("null"@.len() != "string"@.len() && "null"@.len() != "number"@.len() && "null"@.len()
        != "integer"@.len() && "null"@.len() != "boolean"@.len() && "null"@.len() != "object"@.len()
        && "null"@.len() != "array"@.len());
}

/// A float given for a property whose spec names the type `"integer"` is a
/// problem of that field, whatever else the schema holds: its message is
/// `field <key> expected type integer`.
pub proof fn law_float_field_for_integer(props: Seq<(Seq<char>, JsonView)>, key: Seq<char>, spec: Seq<(Seq<char>, JsonView)>, bits: u64)
    requires
        entries_get(props, key) == Some(JsonView::Object(spec)),
        entries_get(spec, "type"@) == Some(JsonView::Str("integer"@)),
    ensures
        field_problem(props, key, JsonView::Number(JsonNumber::Float(bits)))
            == Some("field "@ + key + " expected type integer"@),
{
    law_number_type_names(bits, 0, 0, seq![], false);
    reveal_strlit(" expected type ");
    reveal_strlit("integer");
    reveal_strlit(" expected type integer");
    assert("field "@ + key + " expected type "@ + "integer"@ =~= "field "@ + key + " expected type integer"@);
}

/// Validating the arguments `{key: <float>}` against a schema whose one
/// property `key` has the type `"integer"` fails with the validation error
/// `field <key> expected type integer`, for every key, description and
/// float; a whole number there passes.
pub proof fn law_float_argument_for_integer_property(key: Seq<char>, desc: Seq<char>, bits: u64, p: u64)
    ensures
        args_problem(
            object_schema(seq![(key, prop_view("integer"@, desc))], seq![]),
            JsonView::Object(seq![(key, JsonView::Number(JsonNumber::Float(bits)))]),
        ) == Some((ErrorKind::Validation, "field "@ + key + " expected type integer"@)),
        args_problem(
            object_schema(seq![(key, prop_view("integer"@, desc))], seq![]),
            JsonView::Object(seq![(key, JsonView::Number(JsonNumber::PosInt(p)))]),
        ) is None,
{
    let props = seq![(key, prop_view("integer"@, desc))];
    let schema = object_schema(props, seq![]);
    law_object_schema_well_formed(props, seq![]);
    reveal_strlit("type");
    reveal_strlit("properties");
    reveal_strlit("required");
    reveal_strlit("description");
    let es = schema->Object_0;
    assert("properties"@.len() != "required"@.len());
    assert(entries_get(es.drop_last(), "properties"@) == Some(JsonView::Object(props)));
    assert(schema.get("properties"@) == Some(JsonView::Object(props)));
    assert(schema.get("required"@) == Some(str_array(seq![])));
    assert(str_array(seq![])->Array_0.len() == 0);
    let sp = prop_view("integer"@, desc)->Object_0;
    assert("description"@.len() != "type"@.len());
    assert(entries_get(sp.drop_last(), "type"@) == Some(JsonView::Str("integer"@)));
    assert(entries_get(sp, "type"@) == Some(JsonView::Str("integer"@)));
    lemma_entries_get_at(props, 0);
    let fl = JsonView::Number(JsonNumber::Float(bits));
    let wh = JsonView::Number(JsonNumber::PosInt(p));
    law_float_field_for_integer(props, key, sp, bits);
    law_number_type_names(bits, p, 0, seq![], false);
    let a1 = seq![(key, fl)];
    let a2 = seq![(key, wh)];
    lemma_entries_get_at(a1, 0);
    lemma_entries_get_at(a2, 0);
    assert(fields_problem(props, a1, 0) is None);
    assert(key_problem(props, a1, key) == Some("field "@ + key + " expected type integer"@));
    assert(fields_problem(props, a1, 1) == Some((key, "field "@ + key + " expected type integer"@)));
    assert(fields_problem(props, a2, 0) is None);
    assert(entries_get(sp, "enum"@) is None) by {
        reveal_strlit("enum");
        assert("enum"@.len() != "description"@.len());
        assert("enum"@ != "type"@) by {
            assert("enum"@[0] != "type"@[0]);
        }
        assert(sp.drop_last().drop_last().len() == 0);
        assert(entries_get(sp.drop_last().drop_last(), "enum"@) is None);
        assert(entries_get(sp.drop_last(), "enum"@) is None);
    }
    assert(key_problem(props, a2, key) is None);
    assert(fields_problem(props, a2, 1) is None);
}

// ---------------------------------------------------------------------------
// Building schemas
// ---------------------------------------------------------------------------

/// The JSON array of the strings `xs`.
pub open spec fn str_array(xs: Seq<Seq<char>>) -> JsonView {
    JsonView::Array(Seq::new(xs.len(), |i: int| JsonView::Str(xs[i])))
}

/// A property spec: `{"type": t, "description": desc}`.
pub open spec fn prop_view(t: Seq<char>, desc: Seq<char>) -> JsonView {
    JsonView::Object(seq![("type"@, JsonView::Str(t)), ("description"@, JsonView::Str(desc))])
}

/// The object `o` with the entry `(k, v)` appended.
pub open spec fn with_entry(o: JsonView, k: Seq<char>, v: JsonView) -> JsonView {
    match o {
        JsonView::Object(es) => JsonView::Object(es.push((k, v))),
        _ => o,
    }
}

/// An object schema: `{"type": "object", "properties": props,
/// "required": required}`.
pub open spec fn object_schema(props: Seq<(Seq<char>, JsonView)>, required: Seq<Seq<char>>) -> JsonView {
    JsonView::Object(
        seq![
            ("type"@, JsonView::Str("object"@)),
            ("properties"@, JsonView::Object(props)),
            ("required"@, str_array(required)),
        ],
    )
}

/// The character sequences of the string slices `xs`.
pub open spec fn strs_view(xs: Seq<&str>) -> Seq<Seq<char>> {
    Seq::new(xs.len(), |i: int| xs[i]@)
}

/// The JSON string `s`.
pub fn json_str(s: &str) -> (r: JsonValue)
    ensures
        r@ == JsonView::Str(s@),
{
    JsonValue::String(s.to_owned())
}

/// Appends the entry `(k, v)` to an object's entries.
pub fn push_entry(es: &mut Vec<(String, JsonValue)>, k: &str, v: JsonValue)
    ensures
        entries_view(*final(es)) == entries_view(*old(es)).push((k@, v@)),
{
    let ghost before = entries_view(*es);
    let ghost vv = v@;
    let ghost e0 = es@;
    es.push((k.to_owned(), v));
    assert forall|j: int| 0 <= j < e0.len() implies es@[j] == e0[j] by {}
    assert(entries_view(*es) =~= before.push((k@, vv)));
}

/// The JSON array of the strings `xs` (see [`str_array`]).
pub fn str_array_exec(xs: &[&str]) -> (r: JsonValue)
    ensures
        r@ == str_array(strs_view(xs@)),
{
    let mut out: Vec<JsonValue> = Vec::new();
    let mut i: usize = 0;
    while i < xs.len()
        invariant
            0 <= i <= xs@.len(),
            elems_view(out) == str_array(strs_view(xs@.take(i as int)))->Array_0,
        decreases xs@.len() - i,
    {
        let ghost before = elems_view(out);
        let ghost o0 = out@;
        out.push(json_str(xs[i]));
        proof {
            assert forall|j: int| 0 <= j < o0.len() implies out@[j] == o0[j] by {}
            assert(elems_view(out) =~= before.push(JsonView::Str(xs@[i as int]@)));
            assert(str_array(strs_view(xs@.take(i as int + 1)))->Array_0 =~= before.push(JsonView::Str(xs@[i as int]@)));
        }
        i += 1;
    }
    assert(xs@.take(xs@.len() as int) =~= xs@);
    JsonValue::Array(out)
}

/// A property spec `{"type": t, "description": desc}`.
pub fn prop(t: &str, desc: &str) -> (r: JsonValue)
    ensures
        r@ == prop_view(t@, desc@),
{
    let mut es: Vec<(String, JsonValue)> = Vec::new();
    push_entry(&mut es, "type", json_str(t));
    push_entry(&mut es, "description", json_str(desc));
    let r = JsonValue::Object(es);
    assert(r@->Object_0 =~= prop_view(t@, desc@)->Object_0);
    r
}

/// The object `o` with the entry `(k, v)` appended (see [`with_entry`]).
pub fn prop_with(o: JsonValue, k: &str, v: JsonValue) -> (r: JsonValue)
    ensures
        r@ == with_entry(o@, k@, v@),
{
    match o {
        JsonValue::Object(es) => {
            let mut es = es;
            push_entry(&mut es, k, v);
            JsonValue::Object(es)
        },
        other => other,
    }
}

/// An object schema with the properties `props` and the required names
/// `required` (see [`object_schema`]).
pub fn object_schema_exec(props: Vec<(String, JsonValue)>, required: &[&str]) -> (r: JsonValue)
    ensures
        r@ == object_schema(entries_view(props), strs_view(required@)),
{
    let ghost pv = entries_view(props);
    let mut es: Vec<(String, JsonValue)> = Vec::new();
    push_entry(&mut es, "type", json_str("object"));
    push_entry(&mut es, "properties", JsonValue::Object(props));
    push_entry(&mut es, "required", str_array_exec(required));
    let r = JsonValue::Object(es);
    assert(r@->Object_0 =~= object_schema(pv, strs_view(required@))->Object_0);
    r
}


proof fn lemma_required_names_found(req: Seq<Seq<char>>, props: Seq<(Seq<char>, JsonView)>, i: nat)
    requires
        forall|j: int| 0 <= j < req.len() ==> entries_get(props, #[trigger] req[j]) is Some,
    ensures
        required_problem(str_array(req)->Array_0, props, i) is None,
    decreases req.len() - i,
{
    if i < req.len() {
        assert(entries_get(props, req[i as int]) is Some);
        lemma_required_names_found(req, props, i + 1);
    }
}

/// An object schema is well formed when each name it requires is one of
/// its properties.
pub proof fn law_object_schema_well_formed(props: Seq<(Seq<char>, JsonView)>, required: Seq<Seq<char>>)
    requires
        forall|j: int| 0 <= j < required.len() ==> entries_get(props, #[trigger] required[j]) is Some,
    ensures
        schema_problem(object_schema(props, required)) is None,
{
    reveal_strlit("type");
    reveal_strlit("properties");
    reveal_strlit("required");
    let es = object_schema(props, required)->Object_0;
    assert("type"@.len() == 4);
    assert("properties"@.len() == 10);
    assert("required"@.len() == 8);
    let e2 = es.drop_last();
    let e1 = e2.drop_last();
    assert(es.last().0 == "required"@);
    assert(e2.last().0 == "properties"@);
    assert(e1.last().0 == "type"@);
    assert(entries_get(es, "required"@) == Some(str_array(required)));
    assert(entries_get(e2, "properties"@) == Some(JsonView::Object(props)));
    assert(entries_get(es, "properties"@) == Some(JsonView::Object(props)));
    assert(entries_get(e1, "type"@) == Some(JsonView::Str("object"@)));
    assert(entries_get(e2, "type"@) == Some(JsonView::Str("object"@)));
    assert(entries_get(es, "type"@) == Some(JsonView::Str("object"@)));
    lemma_required_names_found(required, props, 0);
}


/// The value of the entry at `i`, when no later entry has its key.
pub proof fn lemma_entries_get_at(es: Seq<(Seq<char>, JsonView)>, i: int)
    requires
        0 <= i < es.len(),
        forall|j: int| i < j < es.len() ==> (#[trigger] es[j]).0 != es[i].0,
    ensures
        entries_get(es, es[i].0) == Some(es[i].1),
{
    crate::json::lemma_entries_get_take(es, es[i].0, i + 1);
    assert(es.take(i + 1).last() == es[i]);
}
} // verus!
