//! The trusted boundary around `serde_json`, and the verified extraction of
//! an example's metadata descriptor from a parsed JSON value.
//!
//! A parsed `serde_json::Value` is opaque here; what the contracts say about
//! it goes through a small family of named field maps: the set of keys of
//! the value as a JSON object, and the partial maps from key to value for
//! the string-typed, boolean-typed and string-array-typed fields.

use crate::model::ExampleMetadata;
use crate::model::MetadataV;
use vstd::prelude::*;

verus! {

#[verifier::external_type_specification]
#[verifier::external_body]
pub struct ExValue(serde_json::Value);

/// The keys of the value, taken as a JSON object. A value that is not an
/// object has no keys.
pub uninterp spec fn json_keys(v: serde_json::Value) -> Set<Seq<char>>;

/// The string-typed fields of the value, keyed by field name.
pub uninterp spec fn json_str_fields(v: serde_json::Value) -> Map<Seq<char>, Seq<char>>;

/// The boolean-typed fields of the value, keyed by field name.
pub uninterp spec fn json_bool_fields(v: serde_json::Value) -> Map<Seq<char>, bool>;

/// The keys of the array-typed fields of the value.
pub uninterp spec fn json_list_keys(v: serde_json::Value) -> Set<Seq<char>>;

/// The fields of the value that are arrays of strings, keyed by field name,
/// each mapped to its elements in order.
pub uninterp spec fn json_str_list_fields(v: serde_json::Value) -> Map<Seq<char>, Seq<Seq<char>>>;

/// Whether the value itself is a JSON string.
pub uninterp spec fn json_is_str(v: serde_json::Value) -> bool;

/// The characters of the value, when it is a JSON string.
pub uninterp spec fn json_str_value(v: serde_json::Value) -> Seq<char>;

/// Whether a byte string is a well-formed JSON document. The parse of a
/// byte string, and with it each field map below, is a function of the
/// bytes alone.
pub uninterp spec fn json_parses(b: Seq<u8>) -> bool;

/// The keys of the document the bytes parse to, taken as a JSON object.
pub uninterp spec fn json_keys_of(b: Seq<u8>) -> Set<Seq<char>>;

/// The string-typed fields of the document the bytes parse to.
pub uninterp spec fn json_str_fields_of(b: Seq<u8>) -> Map<Seq<char>, Seq<char>>;

/// The boolean-typed fields of the document the bytes parse to.
pub uninterp spec fn json_bool_fields_of(b: Seq<u8>) -> Map<Seq<char>, bool>;

/// The fields of the document the bytes parse to that are arrays of
/// strings, each mapped to its elements in order.
pub uninterp spec fn json_str_list_fields_of(b: Seq<u8>) -> Map<Seq<char>, Seq<Seq<char>>>;

/// Whether every element of the sequence is a JSON string.
pub open spec fn all_strings(vs: Seq<serde_json::Value>) -> bool {
    forall|i: int| 0 <= i < vs.len() ==> json_is_str(#[trigger] vs[i])
}

/// The characters of each element of a sequence of JSON strings.
pub open spec fn strs_of(vs: Seq<serde_json::Value>) -> Seq<Seq<char>> {
    vs.map_values(|e: serde_json::Value| json_str_value(e))
}

pub proof fn lemma_strs_of(vs: Seq<serde_json::Value>)
    ensures
        strs_of(vs).len() == vs.len(),
        forall|i: int| 0 <= i < vs.len() ==> strs_of(vs)[i] == json_str_value(vs[i]),
{
}

/// The result of looking one field up in a JSON object.
pub enum JsonField<T> {
    /// The object has no such key, or the value is not an object.
    Missing,
    /// The key is present but its value has the wrong JSON type.
    WrongType,
    /// The key is present with a value of the expected type.
    Value(T),
}

/// Relies on `serde_json::from_slice`: parses bytes as a JSON document.
/// The parse is deterministic, so the outcome and the parsed object's field
/// maps are named functions of the bytes.
#[verifier::external_body]
pub fn parse_json(bytes: &Vec<u8>) -> (r: Option<serde_json::Value>)
    ensures
        r is Some <==> json_parses(bytes@),
        r matches Some(v) ==> json_keys(v) == json_keys_of(bytes@),
        r matches Some(v) ==> json_str_fields(v) == json_str_fields_of(bytes@),
        r matches Some(v) ==> json_bool_fields(v) == json_bool_fields_of(bytes@),
        r matches Some(v) ==> json_str_list_fields(v) == json_str_list_fields_of(bytes@),
{
    serde_json::from_slice::<serde_json::Value>(bytes.as_slice()).ok()
}

/// Relies on `serde_json::Value::get` and `Value::as_str`: a field of a JSON
/// object, when it is a string.
#[verifier::external_body]
pub fn json_str_field(v: &serde_json::Value, name: &str) -> (r: JsonField<String>)
    ensures
        r is Missing <==> !json_keys(*v).contains(name@),
        r is Value <==> json_str_fields(*v).contains_key(name@),
        r matches JsonField::Value(s) ==> s@ == json_str_fields(*v)[name@],
{
    match v.get(name) {
        None => JsonField::Missing,
        Some(f) => match f.as_str() {
            Some(s) => JsonField::Value(s.to_owned()),
            None => JsonField::WrongType,
        },
    }
}

/// Relies on `serde_json::Value::get` and `Value::as_bool`: a field of a
/// JSON object, when it is a boolean.
#[verifier::external_body]
pub fn json_bool_field(v: &serde_json::Value, name: &str) -> (r: JsonField<bool>)
    ensures
        r is Missing <==> !json_keys(*v).contains(name@),
        r is Value <==> json_bool_fields(*v).contains_key(name@),
        r matches JsonField::Value(b) ==> b == json_bool_fields(*v)[name@],
{
    match v.get(name) {
        None => JsonField::Missing,
        Some(f) => match f.as_bool() {
            Some(b) => JsonField::Value(b),
            None => JsonField::WrongType,
        },
    }
}

/// Relies on `serde_json::Value::get` and `Value::as_array`: a field of a
/// JSON object, when it is an array; the elements come back as opaque JSON
/// values.
#[verifier::external_body]
pub fn json_list_field(v: &serde_json::Value, name: &str) -> (r: JsonField<Vec<serde_json::Value>>)
    ensures
        r is Missing <==> !json_keys(*v).contains(name@),
        r is Value <==> json_list_keys(*v).contains(name@),
        r is Missing ==> !json_str_list_fields(*v).contains_key(name@),
        r is WrongType ==> !json_str_list_fields(*v).contains_key(name@),
        r matches JsonField::Value(arr) ==> (all_strings(arr@) <==> json_str_list_fields(*v).contains_key(name@)),
        r matches JsonField::Value(arr) ==> (all_strings(arr@) ==> json_str_list_fields(*v)[name@] == strs_of(arr@)),
{
    match v.get(name) {
        None => JsonField::Missing,
        Some(f) => match f.as_array() {
            Some(a) => JsonField::Value(a.clone()),
            None => JsonField::WrongType,
        },
    }
}

/// Relies on `serde_json::Value::as_str`: the characters of a JSON string
/// value.
#[verifier::external_body]
pub fn json_as_str(v: &serde_json::Value) -> (r: Option<String>)
    ensures
        r is Some <==> json_is_str(*v),
        r matches Some(s) ==> s@ == json_str_value(*v),
{
    match v.as_str() {
        Some(s) => Some(s.to_owned()),
        None => None,
    }
}

/// The strings of an array of JSON values, or nothing if any element is not
/// a string.
pub fn strings_of_values(vs: &Vec<serde_json::Value>) -> (r: Option<Vec<String>>)
    ensures
        r is Some <==> all_strings(vs@),
        r matches Some(out) ==> out.deep_view() == strs_of(vs@),
{
    let mut out: Vec<String> = Vec::new();
    let mut i: usize = 0;
    while i < vs.len()
        invariant
            i <= vs.len(),
            out.len() == i,
            forall|k: int| 0 <= k < i ==> json_is_str(#[trigger] vs@[k]),
            forall|k: int| 0 <= k < i ==> out.deep_view()[k] == json_str_value(vs@[k]),
        decreases vs.len() - i,
    {
        match json_as_str(&vs[i]) {
            Some(s) => {
                let ghost pre = out.deep_view();
                out.push(s);
                proof {
                    assert(out.deep_view() =~= pre.push(s@));
                }
            },
            None => {
                proof {
                    assert(!json_is_str(vs@[i as int]));
                }
                return None;
            },
        }
        i = i + 1;
    }
    proof {
        lemma_strs_of(vs@);
        assert(out.deep_view() =~= strs_of(vs@));
    }
    Some(out)
}

/// Whether a JSON object with the given key set and typed field maps is a
/// well-formed metadata descriptor, and the descriptor it denotes:
/// `description` and `exclude` are required, the remaining fields optional,
/// and every present field must have its expected type.
pub open spec fn meta_from_fields(
    keys: Set<Seq<char>>,
    strs: Map<Seq<char>, Seq<char>>,
    bools: Map<Seq<char>, bool>,
    lists: Map<Seq<char>, Seq<Seq<char>>>,
) -> Option<MetadataV> {
    if !strs.contains_key("description"@) {
        None
    } else if !lists.contains_key("exclude"@) {
        None
    } else if keys.contains("requiresAdapter"@) && !bools.contains_key(
        "requiresAdapter"@,
    ) {
        None
    } else if keys.contains("requiresGolemHostWIT"@) && !bools.contains_key(
        "requiresGolemHostWIT"@,
    ) {
        None
    } else if keys.contains("requiresWASI"@) && !bools.contains_key(
        "requiresWASI"@,
    ) {
        None
    } else if keys.contains("instructions"@) && !strs.contains_key(
        "instructions"@,
    ) {
        None
    } else if keys.contains("witDepsPaths"@) && !lists.contains_key(
        "witDepsPaths"@,
    ) {
        None
    } else if keys.contains("transformExclude"@) && !lists.contains_key(
        "transformExclude"@,
    ) {
        None
    } else {
        Some(
            MetadataV {
                description: strs["description"@],
                requires_adapter: if keys.contains("requiresAdapter"@) {
                    Some(bools["requiresAdapter"@])
                } else {
                    None
                },
                requires_golem_host_wit: if keys.contains("requiresGolemHostWIT"@) {
                    Some(bools["requiresGolemHostWIT"@])
                } else {
                    None
                },
                requires_wasi: if keys.contains("requiresWASI"@) {
                    Some(bools["requiresWASI"@])
                } else {
                    None
                },
                exclude: lists["exclude"@],
                instructions: if keys.contains("instructions"@) {
                    Some(strs["instructions"@])
                } else {
                    None
                },
                wit_deps_paths: if keys.contains("witDepsPaths"@) {
                    Some(lists["witDepsPaths"@])
                } else {
                    None
                },
                transform_exclude: if keys.contains("transformExclude"@) {
                    Some(lists["transformExclude"@])
                } else {
                    None
                },
            },
        )
    }
}

/// Whether a parsed JSON value is a well-formed metadata descriptor, and
/// the descriptor it denotes.
pub open spec fn meta_spec(v: serde_json::Value) -> Option<MetadataV> {
    meta_from_fields(json_keys(v), json_str_fields(v), json_bool_fields(v), json_str_list_fields(v))
}

/// Whether a byte string parses as JSON denoting a well-formed metadata
/// descriptor, and the descriptor it denotes: the whole metadata read as a
/// function of the descriptor file's bytes.
pub open spec fn meta_spec_bytes(b: Seq<u8>) -> Option<MetadataV> {
    if !json_parses(b) {
        None
    } else {
        meta_from_fields(
            json_keys_of(b),
            json_str_fields_of(b),
            json_bool_fields_of(b),
            json_str_list_fields_of(b),
        )
    }
}

/// A required string-list field: present and an array of strings, or the
/// descriptor is malformed.
fn required_str_list(v: &serde_json::Value, name: &str) -> (r: Option<Vec<String>>)
    ensures
        r is Some <==> json_str_list_fields(*v).contains_key(name@),
        r matches Some(out) ==> out.deep_view() == json_str_list_fields(*v)[name@],
{
    match json_list_field(v, name) {
        JsonField::Value(arr) => strings_of_values(&arr),
        JsonField::Missing => None,
        JsonField::WrongType => None,
    }
}

/// An optional boolean field: absent, or present with a boolean value; a
/// present field of another type makes the descriptor malformed.
fn optional_bool(v: &serde_json::Value, name: &str) -> (r: Option<Option<bool>>)
    ensures
        r is None <==> json_keys(*v).contains(name@) && !json_bool_fields(*v).contains_key(name@),
        r == Some(Option::<bool>::None) <==> !json_keys(*v).contains(name@),
        r matches Some(Some(b)) ==> json_bool_fields(*v).contains_key(name@) && b
            == json_bool_fields(*v)[name@],
        json_bool_fields(*v).contains_key(name@) ==> r == Some(
            Some(json_bool_fields(*v)[name@]),
        ),
{
    match json_bool_field(v, name) {
        JsonField::Value(b) => Some(Some(b)),
        JsonField::Missing => Some(None),
        JsonField::WrongType => None,
    }
}

/// The metadata descriptor a parsed JSON value denotes, or nothing if the
/// descriptor is malformed.
pub fn metadata_from_value(v: &serde_json::Value) -> (r: Option<ExampleMetadata>)
    ensures
        r is Some <==> meta_spec(*v) is Some,
        r matches Some(m) ==> meta_spec(*v) == Some(m@),
{
    let description = match json_str_field(v, "description") {
        JsonField::Value(s) => s,
        JsonField::Missing => {
            return None;
        },
        JsonField::WrongType => {
            return None;
        },
    };
    let exclude = match required_str_list(v, "exclude") {
        Some(xs) => xs,
        None => {
            return None;
        },
    };
    let requires_adapter = match optional_bool(v, "requiresAdapter") {
        Some(b) => b,
        None => {
            return None;
        },
    };
    let requires_golem_host_wit = match optional_bool(v, "requiresGolemHostWIT") {
        Some(b) => b,
        None => {
            return None;
        },
    };
    let requires_wasi = match optional_bool(v, "requiresWASI") {
        Some(b) => b,
        None => {
            return None;
        },
    };
    let instructions = match json_str_field(v, "instructions") {
        JsonField::Value(s) => Some(s),
        JsonField::Missing => None,
        JsonField::WrongType => {
            return None;
        },
    };
    let wit_deps_paths = match json_list_field(v, "witDepsPaths") {
        JsonField::Value(arr) => match strings_of_values(&arr) {
            Some(xs) => Some(xs),
            None => {
                return None;
            },
        },
        JsonField::Missing => None,
        JsonField::WrongType => {
            return None;
        },
    };
    let transform_exclude = match json_list_field(v, "transformExclude") {
        JsonField::Value(arr) => match strings_of_values(&arr) {
            Some(xs) => Some(xs),
            None => {
                return None;
            },
        },
        JsonField::Missing => None,
        JsonField::WrongType => {
            return None;
        },
    };
    Some(
        ExampleMetadata {
            description,
            requires_adapter,
            requires_golem_host_wit,
            requires_wasi,
            exclude,
            instructions,
            wit_deps_paths,
            transform_exclude,
        },
    )
}

} // verus!
