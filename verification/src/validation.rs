//! JSON Schema validation of state.
//!
//! A `StateValidator` holds a schema (a JSON object) and checks values
//! against it: the `type` keyword (string, number, integer, boolean, array,
//! object, null), `required` fields, `minLength`/`maxLength`, `pattern`
//! (a regular expression that must match somewhere in the string),
//! `minimum`/`maximum` and their exclusive forms,
//! `minItems`/`maxItems`, `items`, nested `properties`, and `enum` when no
//! type is given.

use vstd::prelude::*;
use vstd::string::StringExecFns;
use vstd::string::StringSliceAdditionalSpecFns;
use vstd::utf8::encode_utf8;
use crate::json::number::JsonNumber;
use crate::json::value::{
    deref_opt, json_eq, lemma_field_decreases, lemma_lookup_index, lemma_field_object_decreases, str_opt, JsonObject,
    JsonValue,
};
use crate::text::{decimal, push_decimal, str_eq};

verus! {

/// Errors from schema validation.
#[derive(Debug, Clone)]
pub enum ValidationError {
    /// A required field is missing.
    MissingRequired { field: String },
    /// A value has the wrong type.
    TypeMismatch { field: String, expected: String, got: String },
    /// A value is out of its valid range.
    OutOfRange { field: String, message: String },
    /// An item of an array failed validation.
    ArrayValidationFailed { field: String, index: usize, message: String },
    /// Another check failed.
    CustomValidationFailed { message: String },
    /// The schema is invalid.
    InvalidSchema { message: String },
}

/// The content of a `ValidationError`, with its texts as character
/// sequences.
pub enum SchemaFailure {
    MissingRequired { field: Seq<char> },
    TypeMismatch { field: Seq<char>, expected: Seq<char>, got: Seq<char> },
    OutOfRange { field: Seq<char>, message: Seq<char> },
    ArrayValidationFailed { field: Seq<char>, index: nat, message: Seq<char> },
    CustomValidationFailed { message: Seq<char> },
    InvalidSchema { message: Seq<char> },
}

impl View for ValidationError {
    type V = SchemaFailure;

    open spec fn view(&self) -> SchemaFailure {
        match self {
            ValidationError::MissingRequired { field } => SchemaFailure::MissingRequired {
                field: field@,
            },
            ValidationError::TypeMismatch { field, expected, got } => SchemaFailure::TypeMismatch {
                field: field@,
                expected: expected@,
                got: got@,
            },
            ValidationError::OutOfRange { field, message } => SchemaFailure::OutOfRange {
                field: field@,
                message: message@,
            },
            ValidationError::ArrayValidationFailed { field, index, message } =>
                SchemaFailure::ArrayValidationFailed {
                field: field@,
                index: *index as nat,
                message: message@,
            },
            ValidationError::CustomValidationFailed { message } =>
                SchemaFailure::CustomValidationFailed { message: message@ },
            ValidationError::InvalidSchema { message } => SchemaFailure::InvalidSchema {
                message: message@,
            },
        }
    }
}

/// The outcome of a validation, with the error by its content.
pub open spec fn outcome(r: Result<(), ValidationError>) -> Result<(), SchemaFailure> {
    match r {
        Ok(()) => Ok(()),
        Err(e) => Err(e@),
    }
}

/// The message a validation error displays.
pub open spec fn failure_text(f: SchemaFailure) -> Seq<char> {
    match f {
        SchemaFailure::MissingRequired { field } => "Missing required field: '"@ + field + "'"@,
        SchemaFailure::TypeMismatch { field, expected, got } => "Type mismatch in '"@ + field
            + "': expected "@ + expected + ", got "@ + got,
        SchemaFailure::OutOfRange { field, message } => "Out of range for '"@ + field + "': "@
            + message,
        SchemaFailure::ArrayValidationFailed { field, index, message } =>
            "Array validation failed for '"@ + field + "["@ + decimal(index) + "]': "@ + message,
        SchemaFailure::CustomValidationFailed { message } => "Custom validation failed: "@
            + message,
        SchemaFailure::InvalidSchema { message } => "Invalid schema: "@ + message,
    }
}

/// The characters of an optional string value.
pub open spec fn opt_str_of(v: Option<JsonValue>) -> Option<Seq<char>> {
    match v {
        Some(x) => x.str_of(),
        None => None,
    }
}

/// An optional value as a `u64`.
pub open spec fn opt_u64_of(v: Option<JsonValue>) -> Option<u64> {
    match v {
        Some(x) => x.u64_of(),
        None => None,
    }
}

/// An optional value as a number.
pub open spec fn opt_number_of(v: Option<JsonValue>) -> Option<JsonNumber> {
    match v {
        Some(JsonValue::Number(n)) => Some(n),
        _ => None,
    }
}

/// The items of an optional array value.
pub open spec fn opt_items_of(v: Option<JsonValue>) -> Option<Seq<JsonValue>> {
    match v {
        Some(x) => x.items_of(),
        None => None,
    }
}

/// The human-readable name of a value's type.
pub open spec fn type_name_of(v: JsonValue) -> Seq<char> {
    match v {
        JsonValue::Null => "null"@,
        JsonValue::Bool(_) => "boolean"@,
        JsonValue::Number(n) => if n.written_as_integer() {
            "integer"@
        } else {
            "number"@
        },
        JsonValue::String(_) => "string"@,
        JsonValue::Array(_) => "array"@,
        JsonValue::Object(_) => "object"@,
    }
}

/// The length of a string in bytes, as UTF-8 (a string's byte length
/// always fits in a `usize`).
pub open spec fn byte_len(s: Seq<char>) -> nat {
    (encode_utf8(s).len() as usize) as nat
}

/// A value of the wrong type at `path`.
pub open spec fn mismatch(path: Seq<char>, expected: Seq<char>, data: JsonValue) -> SchemaFailure {
    SchemaFailure::TypeMismatch { field: path, expected, got: type_name_of(data) }
}

/// The path of an array item.
pub open spec fn item_path(path: Seq<char>, i: nat) -> Seq<char> {
    path + "["@ + decimal(i) + "]"@
}

/// The path of an object property: the bare name at the root.
pub open spec fn property_path(path: Seq<char>, name: Seq<char>) -> Seq<char> {
    if path == "root"@ {
        name
    } else {
        path + "."@ + name
    }
}

/// How the failure of an array item is reported for the array.
pub open spec fn item_failure(f: SchemaFailure, path: Seq<char>, i: nat) -> SchemaFailure {
    match f {
        SchemaFailure::TypeMismatch { expected, got, .. } => SchemaFailure::ArrayValidationFailed {
            field: path,
            index: i,
            message: "Expected "@ + expected + ", got "@ + got,
        },
        other => SchemaFailure::ArrayValidationFailed {
            field: path,
            index: i,
            message: failure_text(other),
        },
    }
}

/// The checks of a `string` schema.
pub open spec fn check_string(data: JsonValue, schema: JsonValue, path: Seq<char>) -> Result<
    (),
    SchemaFailure,
> {
    match data {
        JsonValue::String(s) => {
            let len = byte_len(s@);
            let too_short = match opt_u64_of(schema.field("minLength"@)) {
                Some(m) => if len < m {
                    Some(
                        SchemaFailure::OutOfRange {
                            field: path,
                            message: "Length "@ + decimal(len) + " is less than minimum "@
                                + decimal(m as nat),
                        },
                    )
                } else {
                    None
                },
                None => None,
            };
            let too_long = match opt_u64_of(schema.field("maxLength"@)) {
                Some(m) => if len > m {
                    Some(
                        SchemaFailure::OutOfRange {
                            field: path,
                            message: "Length "@ + decimal(len) + " exceeds maximum "@ + decimal(
                                m as nat,
                            ),
                        },
                    )
                } else {
                    None
                },
                None => None,
            };
            let unmatched = match opt_str_of(schema.field("pattern"@)) {
                Some(p) => pattern_outcome(s@, p, regex_match(p, s@)),
                None => None,
            };
            if too_short is Some {
                Err(too_short->0)
            } else if too_long is Some {
                Err(too_long->0)
            } else if unmatched is Some {
                Err(unmatched->0)
            } else {
                Ok(())
            }
        },
        _ => Err(mismatch(path, "string"@, data)),
    }
}

/// Whether the regular expression `pattern` matches somewhere in `s`, as
/// `regex::Regex::new(pattern)` and then `Regex::is_match(s)` decide it;
/// `None` when `pattern` is not a valid regular expression.
pub uninterp spec fn regex_match(pattern: Seq<char>, s: Seq<char>) -> Option<bool>;

/// `regex::Regex::new(pattern)` and, when the pattern compiles,
/// `Regex::is_match(s)`. The contract claims only that the result is the
/// one `regex_match` names for these two strings: `None` for a pattern that
/// does not compile, else whether the pattern matches somewhere in `s`.
#[verifier::external_body]
fn pattern_matches(pattern: &str, s: &str) -> (r: Option<bool>)
    ensures
        r == regex_match(pattern@, s@),
{
    match regex::Regex::new(pattern) {
        Ok(re) => Some(re.is_match(s)),
        Err(_) => None,
    }
}

/// The failure of the `pattern` check of the string `s`, given whether the
/// pattern `p` matches it (`None`: `p` is not a valid regular expression).
pub open spec fn pattern_outcome(s: Seq<char>, p: Seq<char>, matched: Option<bool>) -> Option<SchemaFailure> {
    match matched {
        Some(true) => None,
        Some(false) => Some(
            SchemaFailure::CustomValidationFailed {
                message: "String '"@ + s + "' does not match pattern '"@ + p + "'"@,
            },
        ),
        None => Some(SchemaFailure::InvalidSchema { message: "Invalid pattern '"@ + p + "'"@ }),
    }
}

/// A bound on a number failed: `Value <n><words><bound>`.
pub open spec fn number_bound_failure(path: Seq<char>, n: JsonNumber, words: Seq<char>, b: JsonNumber) -> SchemaFailure {
    SchemaFailure::OutOfRange { field: path, message: "Value "@ + n.text_of() + words + b.text_of() }
}

/// The checks of a `number` or `integer` schema.
pub open spec fn check_number(
    data: JsonValue,
    schema: JsonValue,
    path: Seq<char>,
    integer: bool,
) -> Result<(), SchemaFailure> {
    match data {
        JsonValue::Number(n) => {
            let fractional = if integer && !n.value_whole() {
                Some(
                    SchemaFailure::TypeMismatch { field: path, expected: "integer"@, got: "float"@ },
                )
            } else {
                None
            };
            let below = match opt_number_of(schema.field("minimum"@)) {
                Some(b) => if n.value_less(b) {
                    Some(number_bound_failure(path, n, " is less than minimum "@, b))
                } else {
                    None
                },
                None => None,
            };
            let not_above = match opt_number_of(schema.field("exclusiveMinimum"@)) {
                Some(b) => if !b.value_less(n) {
                    Some(number_bound_failure(path, n, " is not greater than "@, b))
                } else {
                    None
                },
                None => None,
            };
            let above = match opt_number_of(schema.field("maximum"@)) {
                Some(b) => if b.value_less(n) {
                    Some(number_bound_failure(path, n, " exceeds maximum "@, b))
                } else {
                    None
                },
                None => None,
            };
            let not_below = match opt_number_of(schema.field("exclusiveMaximum"@)) {
                Some(b) => if !n.value_less(b) {
                    Some(number_bound_failure(path, n, " is not less than "@, b))
                } else {
                    None
                },
                None => None,
            };
            if fractional is Some {
                Err(fractional->0)
            } else if below is Some {
                Err(below->0)
            } else if not_above is Some {
                Err(not_above->0)
            } else if above is Some {
                Err(above->0)
            } else if not_below is Some {
                Err(not_below->0)
            } else {
                Ok(())
            }
        },
        _ => Err(
            mismatch(
                path,
                if integer {
                    "integer"@
                } else {
                    "number"@
                },
                data,
            ),
        ),
    }
}

/// The fields named in `reqs` from index `i` on must be keys of `obj`; the
/// first missing one is reported.
pub open spec fn check_required(obj: JsonObject, reqs: Seq<JsonValue>, path: Seq<char>, i: int) -> Result<
    (),
    SchemaFailure,
>
    decreases reqs.len() - i,
{
    if i < 0 || i >= reqs.len() {
        Ok(())
    } else {
        match reqs[i].str_of() {
            Some(name) => if obj.lookup(name) is None {
                Err(SchemaFailure::MissingRequired { field: path + "."@ + name })
            } else {
                check_required(obj, reqs, path, i + 1)
            },
            None => check_required(obj, reqs, path, i + 1),
        }
    }
}

/// `items` holds a value equal to `v`.
pub open spec fn contains_json(items: Seq<JsonValue>, v: JsonValue) -> bool {
    exists|k: int| 0 <= k < items.len() && json_eq(#[trigger] items[k], v)
}

/// The checks of a schema, as `StateValidator::validate_value`.
pub open spec fn check_value(data: JsonValue, schema: JsonValue, path: Seq<char>) -> Result<
    (),
    SchemaFailure,
>
    decreases schema, 1int, 0int,
{
    match opt_str_of(schema.field("type"@)) {
        Some(t) => {
            if t == "string"@ {
                check_string(data, schema, path)
            } else if t == "number"@ || t == "integer"@ {
                check_number(data, schema, path, t == "integer"@)
            } else if t == "boolean"@ {
                if data is Bool {
                    Ok(())
                } else {
                    Err(mismatch(path, "boolean"@, data))
                }
            } else if t == "array"@ {
                check_array(data, schema, path)
            } else if t == "object"@ {
                check_object(data, schema, path)
            } else if t == "null"@ {
                if data is Null {
                    Ok(())
                } else {
                    Err(mismatch(path, "null"@, data))
                }
            } else {
                Err(SchemaFailure::InvalidSchema { message: "Unknown type: "@ + t })
            }
        },
        None => match opt_items_of(schema.field("enum"@)) {
            Some(allowed) => if contains_json(allowed, data) {
                Ok(())
            } else {
                Err(
                    SchemaFailure::CustomValidationFailed {
                        message: "Value not in allowed enum values"@,
                    },
                )
            },
            None => Ok(()),
        },
    }
}

/// The checks of an `array` schema.
pub open spec fn check_array(data: JsonValue, schema: JsonValue, path: Seq<char>) -> Result<
    (),
    SchemaFailure,
>
    decreases schema, 0int, 0int,
{
    match data {
        JsonValue::Array(arr) => {
            let len = arr@.len();
            let too_few = match opt_u64_of(schema.field("minItems"@)) {
                Some(m) => if len < m {
                    Some(
                        SchemaFailure::OutOfRange {
                            field: path,
                            message: "Array length "@ + decimal(len) + " is less than minimum "@
                                + decimal(m as nat),
                        },
                    )
                } else {
                    None
                },
                None => None,
            };
            let too_many = match opt_u64_of(schema.field("maxItems"@)) {
                Some(m) => if len > m {
                    Some(
                        SchemaFailure::OutOfRange {
                            field: path,
                            message: "Array length "@ + decimal(len) + " exceeds maximum "@
                                + decimal(m as nat),
                        },
                    )
                } else {
                    None
                },
                None => None,
            };
            if too_few is Some {
                Err(too_few->0)
            } else if too_many is Some {
                Err(too_many->0)
            } else if schema.field("items"@) is Some {
                proof {
                    lemma_field_decreases(schema, "items"@);
                }
                check_items(arr@, schema.field("items"@)->0, path, 0)
            } else {
                Ok(())
            }
        },
        _ => Err(mismatch(path, "array"@, data)),
    }
}

/// The items of `arr` from index `i` on, each checked against
/// `item_schema`; the first failure is reported for the array.
pub open spec fn check_items(arr: Seq<JsonValue>, item_schema: JsonValue, path: Seq<char>, i: int) -> Result<
    (),
    SchemaFailure,
>
    decreases item_schema, 2int, arr.len() - i,
{
    if i < 0 || i >= arr.len() {
        Ok(())
    } else {
        match check_value(arr[i], item_schema, item_path(path, i as nat)) {
            Err(f) => Err(item_failure(f, path, i as nat)),
            Ok(()) => check_items(arr, item_schema, path, i + 1),
        }
    }
}

/// The checks of an `object` schema.
pub open spec fn check_object(data: JsonValue, schema: JsonValue, path: Seq<char>) -> Result<
    (),
    SchemaFailure,
>
    decreases schema, 0int, 0int,
{
    match data {
        JsonValue::Object(obj) => {
            let reqs = match opt_items_of(schema.field("required"@)) {
                Some(r) => r,
                None => Seq::empty(),
            };
            match check_required(obj, reqs, path, 0) {
                Err(f) => Err(f),
                Ok(()) => match schema.field("properties"@) {
                    Some(JsonValue::Object(props)) => {
                        proof {
                            lemma_field_object_decreases(schema, "properties"@);
                        }
                        check_properties(obj, props, path, 0)
                    },
                    _ => Ok(()),
                },
            }
        },
        _ => Err(mismatch(path, "object"@, data)),
    }
}

/// The properties of `props` from index `i` on (in key order), each checked
/// against the value `obj` holds under that key, if any.
pub open spec fn check_properties(obj: JsonObject, props: JsonObject, path: Seq<char>, i: int) -> Result<
    (),
    SchemaFailure,
>
    decreases props, 2int, props.entries_of().len() - i,
{
    if i < 0 || i >= props.entries_of().len() {
        Ok(())
    } else {
        let name = props.entries_of()[i].0@;
        match obj.lookup(name) {
            Some(v) => {
                proof {
                    props.lemma_entry_decreases(i);
                }
                match check_value(v, props.entries_of()[i].1, property_path(path, name)) {
                    Err(f) => Err(f),
                    Ok(()) => check_properties(obj, props, path, i + 1),
                }
            },
            None => check_properties(obj, props, path, i + 1),
        }
    }
}

/// The checks of `StateValidator::validate_field`: `data` against the
/// schema of the property `field`.
pub open spec fn check_field(schema: JsonValue, field: Seq<char>, data: JsonValue) -> Result<
    (),
    SchemaFailure,
> {
    match schema.field("properties"@) {
        Some(JsonValue::Object(props)) => match props.lookup(field) {
            Some(field_schema) => check_value(data, field_schema, field),
            None => Err(
                SchemaFailure::CustomValidationFailed {
                    message: "Field '"@ + field + "' not in schema"@,
                },
            ),
        },
        _ => Err(SchemaFailure::InvalidSchema { message: "Schema has no properties"@ }),
    }
}

/// The strings among `items`, in order.
pub open spec fn string_items(items: Seq<JsonValue>) -> Seq<Seq<char>>
    decreases items.len(),
{
    if items.len() == 0 {
        Seq::empty()
    } else {
        let rest = string_items(items.drop_last());
        match items.last().str_of() {
            Some(s) => rest.push(s),
            None => rest,
        }
    }
}

/// The names that a schema lists under `required`, in order.
pub open spec fn required_names(schema: JsonValue) -> Seq<Seq<char>> {
    string_items(
        match opt_items_of(schema.field("required"@)) {
            Some(items) => items,
            None => Seq::empty(),
        },
    )
}

/// The characters of each string slice.
pub open spec fn str_views(v: Seq<&str>) -> Seq<Seq<char>> {
    v.map_values(|s: &str| s@)
}

/// A new string holding `s`.
fn text(s: &str) -> (r: String)
    ensures
        r@ == s@,
{
    let mut r = String::new();
    r.append(s);
    assert(r@ =~= s@);
    r
}

/// A new string holding `a` then `b`.
fn text2(a: &str, b: &str) -> (r: String)
    ensures
        r@ == a@ + b@,
{
    let mut r = String::new();
    r.append(a);
    r.append(b);
    assert(r@ =~= a@ + b@);
    r
}

/// A new string holding `a`, `b`, `c` and `d`, one after the other.
fn text4(a: &str, b: &str, c: &str, d: &str) -> (r: String)
    ensures
        r@ == a@ + b@ + c@ + d@,
{
    let mut r = String::new();
    r.append(a);
    r.append(b);
    r.append(c);
    r.append(d);
    assert(r@ =~= a@ + b@ + c@ + d@);
    r
}

/// `a`, the decimal of `x`, `b`, and the decimal of `y`.
fn counts_text(a: &str, x: u64, b: &str, y: u64) -> (r: String)
    ensures
        r@ == a@ + decimal(x as nat) + b@ + decimal(y as nat),
{
    let mut r = String::new();
    r.append(a);
    push_decimal(&mut r, x);
    r.append(b);
    push_decimal(&mut r, y);
    assert(r@ =~= a@ + decimal(x as nat) + b@ + decimal(y as nat));
    r
}

impl ValidationError {
    /// The message this error displays.
    pub fn message(&self) -> (r: String)
        ensures
            r@ == failure_text(self@),
    {
        match self {
            ValidationError::MissingRequired { field } => {
                let r = text4("Missing required field: '", field.as_str(), "'", "");
                proof {
                    reveal_strlit("");
                }
                assert(r@ =~= failure_text(self@));
                r
            },
            ValidationError::TypeMismatch { field, expected, got } => {
                let mut r = text4("Type mismatch in '", field.as_str(), "': expected ", expected.as_str());
                r.append(", got ");
                r.append(got.as_str());
                assert(r@ =~= failure_text(self@));
                r
            },
            ValidationError::OutOfRange { field, message } => {
                let r = text4("Out of range for '", field.as_str(), "': ", message.as_str());
                assert(r@ =~= failure_text(self@));
                r
            },
            ValidationError::ArrayValidationFailed { field, index, message } => {
                let mut r = text2("Array validation failed for '", field.as_str());
                r.append("[");
                push_decimal(&mut r, *index as u64);
                r.append("]': ");
                r.append(message.as_str());
                assert(r@ =~= failure_text(self@));
                r
            },
            ValidationError::CustomValidationFailed { message } => {
                let r = text2("Custom validation failed: ", message.as_str());
                assert(r@ =~= failure_text(self@));
                r
            },
            ValidationError::InvalidSchema { message } => {
                let r = text2("Invalid schema: ", message.as_str());
                assert(r@ =~= failure_text(self@));
                r
            },
        }
    }
}

/// The human-readable name of a value's type.
fn value_type_name(value: &JsonValue) -> (r: String)
    ensures
        r@ == type_name_of(*value),
{
    match value {
        JsonValue::Null => text("null"),
        JsonValue::Bool(_) => text("boolean"),
        JsonValue::Number(n) => if n.is_written_as_integer() {
            text("integer")
        } else {
            text("number")
        },
        JsonValue::String(_) => text("string"),
        JsonValue::Array(_) => text("array"),
        JsonValue::Object(_) => text("object"),
    }
}

/// A type mismatch at `path`.
fn type_mismatch(path: &str, expected: &str, data: &JsonValue) -> (r: ValidationError)
    ensures
        r@ == mismatch(path@, expected@, *data),
{
    ValidationError::TypeMismatch { field: text(path), expected: text(expected), got: value_type_name(data) }
}

/// The number held under `key`, if any.
fn number_field<'a>(schema: &'a JsonValue, key: &str) -> (r: Option<&'a JsonNumber>)
    ensures
        match r {
            Some(n) => opt_number_of(schema.field(key@)) == Some(*n),
            None => opt_number_of(schema.field(key@)) is None,
        },
{
    match schema.get(key) {
        Some(v) => v.as_number(),
        None => None,
    }
}

/// The `u64` held under `key`, if any.
fn u64_field(schema: &JsonValue, key: &str) -> (r: Option<u64>)
    ensures
        r == opt_u64_of(schema.field(key@)),
{
    match schema.get(key) {
        Some(v) => v.as_u64(),
        None => None,
    }
}

/// The string held under `key`, if any.
fn str_field<'a>(schema: &'a JsonValue, key: &str) -> (r: Option<&'a str>)
    ensures
        str_opt(r) == opt_str_of(schema.field(key@)),
{
    match schema.get(key) {
        Some(v) => v.as_str(),
        None => None,
    }
}

/// The array held under `key`, if any.
fn array_field<'a>(schema: &'a JsonValue, key: &str) -> (r: Option<&'a Vec<JsonValue>>)
    ensures
        match r {
            Some(items) => opt_items_of(schema.field(key@)) == Some(items@),
            None => opt_items_of(schema.field(key@)) is None,
        },
{
    match schema.get(key) {
        Some(v) => v.as_array(),
        None => None,
    }
}

/// An out-of-range failure for a number: `Value <n><words><bound>`.
fn number_out_of_range(path: &str, n: &JsonNumber, words: &str, bound: &JsonNumber) -> (r: ValidationError)
    ensures
        r@ == (SchemaFailure::OutOfRange {
            field: path@,
            message: "Value "@ + n.text_of() + words@ + bound.text_of(),
        }),
{
    ValidationError::OutOfRange { field: text(path), message: text4("Value ", n.text(), words, bound.text()) }
}

/// Whether `allowed` holds a value equal to `data`, as `Vec::contains`.
fn contains_value(allowed: &Vec<JsonValue>, data: &JsonValue) -> (r: bool)
    ensures
        r == contains_json(allowed@, *data),
{
    let mut k: usize = 0;
    while k < allowed.len()
        invariant
            k <= allowed@.len(),
            forall|j: int| 0 <= j < k ==> !json_eq(#[trigger] allowed@[j], *data),
        decreases allowed@.len() - k,
    {
        if allowed[k].equals(data) {
            assert(json_eq(allowed@[k as int], *data));
            return true;
        }
        k = k + 1;
    }
    false
}

/// The `pattern` check of the string `s`, given whether the regular
/// expression `pattern` matches it (`None`: it is not a valid regular
/// expression).
pub fn check_pattern(s: &str, pattern: &str, matched: Option<bool>) -> (r: Result<(), ValidationError>)
    ensures
        outcome(r) == (match pattern_outcome(s@, pattern@, matched) {
            Some(f) => Err(f),
            None => Ok(()),
        }),
{
    match matched {
        Some(true) => Ok(()),
        Some(false) => {
            let mut message = text4("String '", s, "' does not match pattern '", pattern);
            message.append("'");
            Err(ValidationError::CustomValidationFailed { message })
        },
        None => {
            let mut message = text2("Invalid pattern '", pattern);
            message.append("'");
            Err(ValidationError::InvalidSchema { message })
        },
    }
}

/// JSON Schema validator for state objects.
pub struct StateValidator {
    schema: JsonValue,
}

impl StateValidator {
    /// The schema this validator checks against.
    pub closed spec fn schema_of(self) -> JsonValue {
        self.schema
    }

    /// Creates a validator from a schema, which must be a JSON object.
    pub fn new(schema: JsonValue) -> (r: Result<Self, ValidationError>)
        ensures
            r is Ok <==> schema is Object,
            r matches Ok(v) ==> v.schema_of() == schema,
            r matches Err(e) ==> e@ == (SchemaFailure::InvalidSchema {
                message: "Schema must be a JSON object"@,
            }),
    {
        if !schema.is_object() {
            return Err(ValidationError::InvalidSchema { message: text("Schema must be a JSON object") });
        }
        Ok(StateValidator { schema })
    }

    /// The schema this validator checks against.
    pub fn schema(&self) -> (r: &JsonValue)
        ensures
            *r == self.schema_of(),
    {
        &self.schema
    }

    /// Validates state data against the schema.
    pub fn validate(&self, data: &JsonValue) -> (r: Result<(), ValidationError>)
        ensures
            outcome(r) == check_value(*data, self.schema_of(), "root"@),
    {
        Self::validate_value(data, &self.schema, "root")
    }

    /// Validates `data` against the schema of the property `field`.
    pub fn validate_field(&self, field: &str, data: &JsonValue) -> (r: Result<(), ValidationError>)
        ensures
            outcome(r) == check_field(self.schema_of(), field@, *data),
    {
        let properties = match self.schema.get("properties") {
            Some(p) => p.as_object(),
            None => None,
        };
        let properties = match properties {
            Some(p) => p,
            None => {
                return Err(ValidationError::InvalidSchema { message: text("Schema has no properties") });
            },
        };
        let field_schema = match properties.get(field) {
            Some(s) => s,
            None => {
                let message = text4("Field '", field, "' not in schema", "");
                proof {
                    reveal_strlit("");
                    assert(message@ =~= "Field '"@ + field@ + "' not in schema"@);
                }
                return Err(ValidationError::CustomValidationFailed { message });
            },
        };
        Self::validate_value(data, field_schema, field)
    }

    /// The names listed under `required` in the schema, in order.
    #[verifier::loop_isolation(false)]
    pub fn required_fields(&self) -> (r: Vec<&str>)
        ensures
            str_views(r@) == required_names(self.schema_of()),
    {
        let mut names: Vec<&str> = Vec::new();
        let required = match array_field(&self.schema, "required") {
            Some(r) => r,
            None => {
                assert(str_views(names@) =~= Seq::empty());
                return names;
            },
        };
        let mut i: usize = 0;
        while i < required.len()
            invariant
                i <= required@.len(),
                str_views(names@) == string_items(required@.take(i as int)),
            decreases required@.len() - i,
        {
            proof {
                assert(required@.take(i + 1).drop_last() =~= required@.take(i as int));
            }
            let ghost before = names@;
            match required[i].as_str() {
                Some(name) => {
                    names.push(name);
                    assert(str_views(names@) =~= str_views(before).push(name@));
                },
                None => {},
            }
            i = i + 1;
        }
        assert(required@.take(i as int) =~= required@);
        names
    }

    /// Validates `data` against `schema`, reporting failures at `path`.
    #[verifier::loop_isolation(false)]
    fn validate_value(data: &JsonValue, schema: &JsonValue, path: &str) -> (r: Result<
        (),
        ValidationError,
    >)
        ensures
            outcome(r) == check_value(*data, *schema, path@),
        decreases *schema, 1int,
    {
        match str_field(schema, "type") {
            Some(t) => {
                if str_eq(t, "string") {
                    Self::validate_string(data, schema, path)
                } else if str_eq(t, "number") || str_eq(t, "integer") {
                    let integer = str_eq(t, "integer");
                    Self::validate_number(data, schema, path, integer)
                } else if str_eq(t, "boolean") {
                    if !data.is_boolean() {
                        return Err(type_mismatch(path, "boolean", data));
                    }
                    Ok(())
                } else if str_eq(t, "array") {
                    Self::validate_array(data, schema, path)
                } else if str_eq(t, "object") {
                    Self::validate_object(data, schema, path)
                } else if str_eq(t, "null") {
                    if !data.is_null() {
                        return Err(type_mismatch(path, "null", data));
                    }
                    Ok(())
                } else {
                    Err(ValidationError::InvalidSchema { message: text2("Unknown type: ", t) })
                }
            },
            None => {
                match array_field(schema, "enum") {
                    Some(allowed) => {
                        if contains_value(allowed, data) {
                                    Ok(())
                        } else {
                            Err(
                                ValidationError::CustomValidationFailed {
                                    message: text("Value not in allowed enum values"),
                                },
                            )
                        }
                    },
                    None => {
                            Ok(())
                    },
                }
            },
        }
    }

    /// The checks of a `string` schema.
    fn validate_string(data: &JsonValue, schema: &JsonValue, path: &str) -> (r: Result<
        (),
        ValidationError,
    >)
        ensures
            outcome(r) == check_string(*data, *schema, path@),
    {
        let s = match data.as_str() {
            Some(s) => s,
            None => {
                return Err(type_mismatch(path, "string", data));
            },
        };
        let len = s.len();
        assert(len == byte_len(s@));
        if let Some(min_length) = u64_field(schema, "minLength") {
            if (len as u64) < min_length {
                return Err(
                    ValidationError::OutOfRange {
                        field: text(path),
                        message: counts_text("Length ", len as u64, " is less than minimum ", min_length),
                    },
                );
            }
        }
        if let Some(max_length) = u64_field(schema, "maxLength") {
            if (len as u64) > max_length {
                return Err(
                    ValidationError::OutOfRange {
                        field: text(path),
                        message: counts_text("Length ", len as u64, " exceeds maximum ", max_length),
                    },
                );
            }
        }
        if let Some(pattern) = str_field(schema, "pattern") {
            let matched = pattern_matches(pattern, s);
            return check_pattern(s, pattern, matched);
        }
        Ok(())
    }

    /// The checks of a `number` or `integer` schema.
    fn validate_number(data: &JsonValue, schema: &JsonValue, path: &str, integer: bool) -> (r: Result<
        (),
        ValidationError,
    >)
        ensures
            outcome(r) == check_number(*data, *schema, path@, integer),
    {
        let num = match data.as_number() {
            Some(n) => n,
            None => {
                let expected = if integer {
                    "integer"
                } else {
                    "number"
                };
                return Err(type_mismatch(path, expected, data));
            },
        };
        if integer && !num.is_whole() {
            return Err(
                ValidationError::TypeMismatch {
                    field: text(path),
                    expected: text("integer"),
                    got: text("float"),
                },
            );
        }
        if let Some(min) = number_field(schema, "minimum") {
            if num.less_than(min) {
                return Err(number_out_of_range(path, num, " is less than minimum ", min));
            }
        }
        if let Some(ex_min) = number_field(schema, "exclusiveMinimum") {
            if !ex_min.less_than(num) {
                return Err(number_out_of_range(path, num, " is not greater than ", ex_min));
            }
        }
        if let Some(max) = number_field(schema, "maximum") {
            if max.less_than(num) {
                return Err(number_out_of_range(path, num, " exceeds maximum ", max));
            }
        }
        if let Some(ex_max) = number_field(schema, "exclusiveMaximum") {
            if !num.less_than(ex_max) {
                return Err(number_out_of_range(path, num, " is not less than ", ex_max));
            }
        }
        Ok(())
    }

    /// The checks of an `array` schema.
    #[verifier::loop_isolation(false)]
    fn validate_array(data: &JsonValue, schema: &JsonValue, path: &str) -> (r: Result<
        (),
        ValidationError,
    >)
        ensures
            outcome(r) == check_array(*data, *schema, path@),
        decreases *schema, 0int,
    {
        let arr = match data.as_array() {
            Some(a) => a,
            None => {
                return Err(type_mismatch(path, "array", data));
            },
        };
        let len = arr.len();
        if let Some(min_items) = u64_field(schema, "minItems") {
            if (len as u64) < min_items {
                return Err(
                    ValidationError::OutOfRange {
                        field: text(path),
                        message: counts_text("Array length ", len as u64, " is less than minimum ", min_items),
                    },
                );
            }
        }
        if let Some(max_items) = u64_field(schema, "maxItems") {
            if (len as u64) > max_items {
                return Err(
                    ValidationError::OutOfRange {
                        field: text(path),
                        message: counts_text("Array length ", len as u64, " exceeds maximum ", max_items),
                    },
                );
            }
        }
        let item_schema = match schema.get("items") {
            Some(s) => s,
            None => {
                return Ok(());
            },
        };
        proof {
            lemma_field_decreases(*schema, "items"@);
        }
        let mut idx: usize = 0;
        while idx < len
            invariant
                len == arr@.len(),
                idx <= len,
                *item_schema == schema.field("items"@)->0,
                decreases_to!(*schema => *item_schema),
                check_items(arr@, *item_schema, path@, 0) == check_items(arr@, *item_schema, path@, idx as int),
            decreases len - idx,
        {
            let mut item_path = text2(path, "[");
            push_decimal(&mut item_path, idx as u64);
            item_path.append("]");
            assert(item_path@ =~= crate::validation::item_path(path@, idx as nat));
            match Self::validate_value(&arr[idx], item_schema, item_path.as_str()) {
                Err(e) => {
                    let message = match &e {
                        ValidationError::TypeMismatch { expected, got, .. } => {
                            let mut m = text2("Expected ", expected.as_str());
                            m.append(", got ");
                            m.append(got.as_str());
                            m
                        },
                        other => other.message(),
                    };
                    let failure = ValidationError::ArrayValidationFailed { field: text(path), index: idx, message };
                    assert(failure@ =~= item_failure(e@, path@, idx as nat));
                    return Err(failure);
                },
                Ok(()) => {},
            }
            idx = idx + 1;
        }
        Ok(())
    }

    /// The checks of an `object` schema.
    #[verifier::loop_isolation(false)]
    fn validate_object(data: &JsonValue, schema: &JsonValue, path: &str) -> (r: Result<
        (),
        ValidationError,
    >)
        ensures
            outcome(r) == check_object(*data, *schema, path@),
        decreases *schema, 0int,
    {
        let obj = match data.as_object() {
            Some(o) => o,
            None => {
                return Err(type_mismatch(path, "object", data));
            },
        };
        let ghost reqs = match opt_items_of(schema.field("required"@)) {
            Some(r) => r,
            None => Seq::empty(),
        };
        if let Some(required) = array_field(schema, "required") {
            let mut i: usize = 0;
            while i < required.len()
                invariant
                    reqs == required@,
                    i <= required@.len(),
                    check_required(*obj, reqs, path@, 0) == check_required(*obj, reqs, path@, i as int),
                decreases required@.len() - i,
            {
                if let Some(field_name) = required[i].as_str() {
                    if !obj.contains_key(field_name) {
                        let field = text4(path, ".", field_name, "");
                        proof {
                            reveal_strlit("");
                            assert(field@ =~= path@ + "."@ + field_name@);
                        }
                        return Err(ValidationError::MissingRequired { field });
                    }
                }
                i = i + 1;
            }
        }
        let props = match schema.get("properties") {
            Some(p) => p.as_object(),
            None => None,
        };
        let props = match props {
            Some(p) => p,
            None => {
                return Ok(());
            },
        };
        proof {
            lemma_field_object_decreases(*schema, "properties"@);
        }
        let entries = props.entries();
        let n = entries.len();
        let at_root = str_eq(path, "root");
        let mut i: usize = 0;
        while i < n
            invariant
                entries@ == props.entries_of(),
                n == entries@.len(),
                i <= n,
                at_root == (path@ == "root"@),
                decreases_to!(*schema => *props),
                check_properties(*obj, *props, path@, 0) == check_properties(*obj, *props, path@, i as int),
            decreases n - i,
        {
            let prop_name = entries[i].0.as_str();
            if let Some(value) = obj.get(prop_name) {
                let prop_path = if at_root {
                    text(prop_name)
                } else {
                    text4(path, ".", prop_name, "")
                };
                proof {
                    reveal_strlit("");
                    assert(prop_path@ =~= property_path(path@, prop_name@));
                    props.lemma_entry_decreases(i as int);
                }
                match Self::validate_value(value, &entries[i].1, prop_path.as_str()) {
                    Err(e) => {
                        return Err(e);
                    },
                    Ok(()) => {},
                }
            }
            i = i + 1;
        }
        Ok(())
    }
}

/// Once `check_properties` passes from index `i0` on, every property from
/// there on that `obj` holds passes the property's schema.
proof fn lemma_properties_pass(obj: JsonObject, props: JsonObject, path: Seq<char>, i0: int, i: int)
    requires
        0 <= i0 <= i < props.entries_of().len(),
        check_properties(obj, props, path, i0) is Ok,
        obj.lookup(props.entries_of()[i].0@) is Some,
    ensures
        check_value(
            obj.lookup(props.entries_of()[i].0@)->0,
            props.entries_of()[i].1,
            property_path(path, props.entries_of()[i].0@),
        ) is Ok,
    decreases i - i0,
{
    if i0 < i {
        lemma_properties_pass(obj, props, path, i0 + 1, i);
    }
}

/// Once `check_required` passes from index `i0` on, every string listed from
/// there on names a key of `obj`.
proof fn lemma_required_present(obj: JsonObject, reqs: Seq<JsonValue>, path: Seq<char>, i0: int, i: int)
    requires
        0 <= i0 <= i < reqs.len(),
        check_required(obj, reqs, path, i0) is Ok,
        reqs[i].str_of() is Some,
    ensures
        obj.lookup(reqs[i].str_of()->0) is Some,
    decreases i - i0,
{
    if i0 < i {
        lemma_required_present(obj, reqs, path, i0 + 1, i);
    }
}

/// A string among `string_items(items)` is the string of one of `items`.
proof fn lemma_string_item_index(items: Seq<JsonValue>, n: Seq<char>) -> (i: int)
    requires
        string_items(items).contains(n),
    ensures
        0 <= i < items.len(),
        items[i].str_of() == Some(n),
    decreases items.len(),
{
    let rest = string_items(items.drop_last());
    if items.last().str_of() == Some(n) {
        items.len() - 1
    } else {
        if items.last().str_of() is Some {
            let s = items.last().str_of()->0;
            let k = choose|k: int| 0 <= k < rest.push(s).len() && rest.push(s)[k] == n;
            assert(k < rest.len());
            assert(rest[k] == n);
        }
        assert(rest.contains(n));
        lemma_string_item_index(items.drop_last(), n)
    }
}

/// `object` is none of the other type names that `check_value` tests
/// before it.
proof fn lemma_object_type_distinct()
    ensures
        "object"@ != "string"@,
        "object"@ != "number"@,
        "object"@ != "integer"@,
        "object"@ != "boolean"@,
        "object"@ != "array"@,
{
    reveal_strlit("object");
    reveal_strlit("string");
    reveal_strlit("number");
    reveal_strlit("integer");
    reveal_strlit("boolean");
    reveal_strlit("array");
    assert("object"@[0] != "string"@[0]);
    assert("object"@[0] != "number"@[0]);
    assert("object"@[0] != "integer"@[0]);
    assert("object"@[0] != "boolean"@[0]);
    assert("object"@[0] != "array"@[0]);
}

/// A value that passes an object schema holds every field that the schema
/// requires (as `validate` checks it: every name `required_fields` lists
/// is a key of a state that validates).
pub proof fn lemma_validate_has_required(v: StateValidator, data: JsonValue, name: Seq<char>)
    requires
        opt_str_of(v.schema_of().field("type"@)) == Some("object"@),
        check_value(data, v.schema_of(), "root"@) is Ok,
        required_names(v.schema_of()).contains(name),
    ensures
        data.field(name) is Some,
{
    let schema = v.schema_of();
    lemma_object_type_distinct();
    assert(check_value(data, schema, "root"@) == check_object(data, schema, "root"@));
    let obj = data->Object_0;
    let reqs = match opt_items_of(schema.field("required"@)) {
        Some(items) => items,
        None => Seq::<JsonValue>::empty(),
    };
    let i = lemma_string_item_index(reqs, name);
    lemma_required_present(obj, reqs, "root"@, 0, i);
}

/// When a state passes `validate` against an object schema, each of its
/// fields that the schema's properties describe passes `validate_field`.
pub proof fn lemma_validate_then_validate_field(v: StateValidator, data: JsonValue, name: Seq<char>)
    requires
        opt_str_of(v.schema_of().field("type"@)) == Some("object"@),
        check_value(data, v.schema_of(), "root"@) is Ok,
        data.field(name) is Some,
        v.schema_of().field("properties"@) matches Some(JsonValue::Object(props)) && props.lookup(
            name,
        ) is Some,
    ensures
        check_field(v.schema_of(), name, data.field(name)->0) is Ok,
{
    let schema = v.schema_of();
    lemma_object_type_distinct();
    assert(check_value(data, schema, "root"@) == check_object(data, schema, "root"@));
    let obj = data->Object_0;
    let props = schema.field("properties"@)->0->Object_0;
    let i = lemma_lookup_index(props.entries_of(), name);
    lemma_properties_pass(obj, props, "root"@, 0, i);
    assert(property_path("root"@, name) == name);
}


impl Clone for StateValidator {
    /// A validator with a copy of this one's schema.
    fn clone(&self) -> (r: Self)
        ensures
            json_eq(self.schema_of(), r.schema_of()),
    {
        StateValidator { schema: self.schema.copy() }
    }
}

/// The type names that `check_value` tells apart are all different.
proof fn lemma_type_names_distinct()
    ensures
        "number"@ != "string"@,
        "integer"@ != "string"@,
        "boolean"@ != "string"@,
        "boolean"@ != "number"@,
        "boolean"@ != "integer"@,
        "array"@ != "string"@,
        "array"@ != "number"@,
        "array"@ != "integer"@,
        "array"@ != "boolean"@,
        "null"@ != "string"@,
        "null"@ != "number"@,
        "null"@ != "integer"@,
        "null"@ != "boolean"@,
        "null"@ != "array"@,
        "null"@ != "object"@,
{
    reveal_strlit("object");
    reveal_strlit("string");
    reveal_strlit("number");
    reveal_strlit("integer");
    reveal_strlit("boolean");
    reveal_strlit("array");
    reveal_strlit("null");
    assert("number"@[0] != "string"@[0]);
    assert("integer"@[0] != "string"@[0]);
    assert("boolean"@[0] != "string"@[0]);
    assert("boolean"@[0] != "number"@[0]);
    assert("boolean"@[0] != "integer"@[0]);
    assert("array"@[0] != "string"@[0]);
    assert("array"@[0] != "number"@[0]);
    assert("array"@[0] != "integer"@[0]);
    assert("array"@[0] != "boolean"@[0]);
    assert("null"@[0] != "string"@[0]);
    assert("null"@.len() != "number"@.len());
    assert("null"@[0] != "integer"@[0]);
    assert("null"@[0] != "boolean"@[0]);
    assert("null"@[0] != "array"@[0]);
    assert("null"@[0] != "object"@[0]);
}

/// A number (or integer) schema accepts a value exactly when the value is a
/// number that meets every bound the schema gives: not below `minimum`,
/// strictly above `exclusiveMinimum`, not above `maximum`, strictly below
/// `exclusiveMaximum`, and whole when the type is `integer`. In particular
/// any number at or below `exclusiveMinimum` is refused.
pub proof fn lemma_number_schema_accepts(data: JsonValue, schema: JsonValue, path: Seq<char>)
    requires
        opt_str_of(schema.field("type"@)) == Some("number"@) || opt_str_of(schema.field("type"@))
            == Some("integer"@),
    ensures
        check_value(data, schema, path) is Ok <==> {
            &&& data is Number
            &&& (opt_str_of(schema.field("type"@)) == Some("integer"@)
                ==> data->Number_0.value_whole())
            &&& (opt_number_of(schema.field("minimum"@)) matches Some(b)
                ==> !data->Number_0.value_less(b))
            &&& (opt_number_of(schema.field("exclusiveMinimum"@)) matches Some(b) ==> b.value_less(
                data->Number_0,
            ))
            &&& (opt_number_of(schema.field("maximum"@)) matches Some(b) ==> !b.value_less(
                data->Number_0,
            ))
            &&& (opt_number_of(schema.field("exclusiveMaximum"@)) matches Some(b)
                ==> data->Number_0.value_less(b))
        },
{
    lemma_type_names_distinct();
}

/// A boolean schema accepts exactly the booleans, `true` and `false` alike.
pub proof fn lemma_boolean_schema_accepts(data: JsonValue, schema: JsonValue, path: Seq<char>)
    requires
        opt_str_of(schema.field("type"@)) == Some("boolean"@),
    ensures
        check_value(data, schema, path) is Ok <==> data is Bool,
{
    lemma_type_names_distinct();
}

/// A null schema accepts exactly `null`.
pub proof fn lemma_null_schema_accepts(data: JsonValue, schema: JsonValue, path: Seq<char>)
    requires
        opt_str_of(schema.field("type"@)) == Some("null"@),
    ensures
        check_value(data, schema, path) is Ok <==> data is Null,
{
    lemma_type_names_distinct();
}

/// A string schema accepts a value exactly when it is a string that meets
/// all of the schema's constraints together: at least `minLength` and at
/// most `maxLength` bytes long, and matched by the regular expression
/// `pattern`, whichever of these the schema gives.
pub proof fn lemma_string_schema_accepts(data: JsonValue, schema: JsonValue, path: Seq<char>)
    requires
        opt_str_of(schema.field("type"@)) == Some("string"@),
    ensures
        check_value(data, schema, path) is Ok <==> {
            &&& data is String
            &&& (opt_u64_of(schema.field("minLength"@)) matches Some(m) ==> byte_len(
                data->String_0@,
            ) >= m)
            &&& (opt_u64_of(schema.field("maxLength"@)) matches Some(m) ==> byte_len(
                data->String_0@,
            ) <= m)
            &&& (opt_str_of(schema.field("pattern"@)) matches Some(p) ==> regex_match(
                p,
                data->String_0@,
            ) == Some(true))
        },
{
}

/// `check_items` from index `i0` on passes exactly when every item from
/// there on passes the item schema at its own path.
proof fn lemma_items_pass(arr: Seq<JsonValue>, item_schema: JsonValue, path: Seq<char>, i0: int)
    requires
        0 <= i0 <= arr.len(),
    ensures
        check_items(arr, item_schema, path, i0) is Ok <==> forall|i: int|
            i0 <= i < arr.len() ==> #[trigger] check_value(
                arr[i],
                item_schema,
                item_path(path, i as nat),
            ) is Ok,
    decreases arr.len() - i0,
{
    if i0 < arr.len() {
        lemma_items_pass(arr, item_schema, path, i0 + 1);
        let first = check_value(arr[i0], item_schema, item_path(path, i0 as nat));
        if check_items(arr, item_schema, path, i0) is Ok {
            assert(first is Ok);
            assert forall|i: int| i0 <= i < arr.len() implies #[trigger] check_value(
                arr[i],
                item_schema,
                item_path(path, i as nat),
            ) is Ok by {
                if i > i0 {
                    assert(i0 + 1 <= i);
                }
            }
        }
        if forall|i: int|
            i0 <= i < arr.len() ==> #[trigger] check_value(
                arr[i],
                item_schema,
                item_path(path, i as nat),
            ) is Ok {
            assert(first is Ok);
        }
    }
}

/// When every item from `i0` up to `k` passes and the item at `k` fails,
/// `check_items` from `i0` reports that failure at index `k`.
proof fn lemma_items_first_failure(arr: Seq<JsonValue>, item_schema: JsonValue, path: Seq<char>, i0: int, k: int)
    requires
        0 <= i0 <= k < arr.len(),
        forall|i: int|
            i0 <= i < k ==> #[trigger] check_value(arr[i], item_schema, item_path(path, i as nat)) is Ok,
        check_value(arr[k], item_schema, item_path(path, k as nat)) is Err,
    ensures
        check_items(arr, item_schema, path, i0) == Err::<(), SchemaFailure>(
            item_failure(
                check_value(arr[k], item_schema, item_path(path, k as nat))->Err_0,
                path,
                k as nat,
            ),
        ),
    decreases k - i0,
{
    if i0 < k {
        assert(check_value(arr[i0], item_schema, item_path(path, i0 as nat)) is Ok);
        lemma_items_first_failure(arr, item_schema, path, i0 + 1, k);
    }
}

/// An array schema accepts a value exactly when it is an array with at
/// least `minItems` and at most `maxItems` items, every one of which, from
/// index 0 on, passes the `items` schema. When the item counts are within
/// bounds and the first failing item is at index `k`, the failure is an
/// array failure at `path` naming index `k`.
pub proof fn lemma_array_schema_accepts(data: JsonValue, schema: JsonValue, path: Seq<char>, k: int)
    requires
        opt_str_of(schema.field("type"@)) == Some("array"@),
    ensures
        check_value(data, schema, path) is Ok <==> {
            &&& data is Array
            &&& (opt_u64_of(schema.field("minItems"@)) matches Some(m) ==> data->Array_0@.len()
                >= m)
            &&& (opt_u64_of(schema.field("maxItems"@)) matches Some(m) ==> data->Array_0@.len()
                <= m)
            &&& (schema.field("items"@) matches Some(item_schema) ==> forall|i: int|
                0 <= i < data->Array_0@.len() ==> #[trigger] check_value(
                    data->Array_0@[i],
                    item_schema,
                    item_path(path, i as nat),
                ) is Ok)
        },
        ({
            &&& data is Array
            &&& (opt_u64_of(schema.field("minItems"@)) matches Some(m) ==> data->Array_0@.len()
                >= m)
            &&& (opt_u64_of(schema.field("maxItems"@)) matches Some(m) ==> data->Array_0@.len()
                <= m)
            &&& schema.field("items"@) is Some
            &&& 0 <= k < data->Array_0@.len()
            &&& check_value(
                data->Array_0@[k],
                schema.field("items"@)->0,
                item_path(path, k as nat),
            ) is Err
            &&& forall|i: int|
                0 <= i < k ==> #[trigger] check_value(
                    data->Array_0@[i],
                    schema.field("items"@)->0,
                    item_path(path, i as nat),
                ) is Ok
        }) ==> (check_value(data, schema, path) matches Err(
            SchemaFailure::ArrayValidationFailed { field, index, .. },
        ) && field == path && index == k),
{
    lemma_type_names_distinct();
    if data is Array && schema.field("items"@) is Some {
        let arr = data->Array_0@;
        let item_schema = schema.field("items"@)->0;
        lemma_items_pass(arr, item_schema, path, 0);
        if 0 <= k < arr.len() && check_value(arr[k], item_schema, item_path(path, k as nat)) is Err
            && (forall|i: int|
            0 <= i < k ==> #[trigger] check_value(arr[i], item_schema, item_path(path, i as nat))
                is Ok) {
            lemma_items_first_failure(arr, item_schema, path, 0, k);
        }
    }
}

} // verus!
