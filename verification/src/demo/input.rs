//! Input given to a demo flow: inline JSON or YAML, or a file named with a leading `@`.
use vstd::prelude::*;
use crate::json::{jv, Json, JsonV};
use crate::text::{chars_of, concat2, concat4, concat5, opt_text, string_from};

verus! {

/// A JSON document, as `serde_json` holds it.
#[verifier::external_type_specification]
#[verifier::external_body]
pub struct ExJsonValue(serde_json::Value);

/// The encoding input was given in.
#[derive(Clone, Copy, Debug, PartialEq, Eq, Structural)]
pub enum InputEncoding {
    Json,
    Yaml,
}

/// The name of an encoding.
pub open spec fn encoding_label(e: InputEncoding) -> Seq<char> {
    match e {
        InputEncoding::Json => "json"@,
        InputEncoding::Yaml => "yaml"@,
    }
}

impl InputEncoding {
    /// The name of the encoding.
    pub fn label(self) -> (r: &'static str)
        ensures
            r@ == encoding_label(self),
    {
        match self {
            InputEncoding::Json => "json",
            InputEncoding::Yaml => "yaml",
        }
    }
}

/// Where input came from.
#[derive(Clone, Debug)]
pub enum InputSource {
    Inline(InputEncoding),
    File { path: String, encoding: InputEncoding },
}

/// Parsed input and where it came from.
#[derive(Debug)]
pub struct ParsedInput {
    pub value: Json,
    pub source: InputSource,
}

/// Why input could not be parsed: the JSON and the YAML parser's messages, and the file when
/// the input was read from one.
#[derive(Clone, Debug)]
pub enum InputError {
    Parse { json: String, yaml: String },
    FileParse { path: String, json: String, yaml: String },
}

/// The message of an input error, with the file's context first.
pub open spec fn input_error_text(e: InputError) -> Seq<char> {
    match e {
        InputError::Parse { json, yaml } => "input parse error: json="@ + json@ + "; yaml="@ + yaml@,
        InputError::FileParse { path, json, yaml } => "unable to parse input file "@ + path@
            + ": input parse error: json="@ + json@ + "; yaml="@ + yaml@,
    }
}

impl InputError {
    /// The message shown for the error.
    pub fn message(&self) -> (r: String)
        ensures
            r@ == input_error_text(*self),
    {
        match self {
            InputError::Parse { json, yaml } => concat4(
                "input parse error: json=",
                json.as_str(),
                "; yaml=",
                yaml.as_str(),
            ),
            InputError::FileParse { path, json, yaml } => {
                let head = concat2("unable to parse input file ", path.as_str());
                concat5(head.as_str(), ": input parse error: json=", json.as_str(), "; yaml=", yaml.as_str())
            },
        }
    }
}

/// What `serde_json` parses a text into, taken member for member as a document (numbers by
/// their text, object members in the order its map yields them), or its error message.
pub uninterp spec fn json_parsed(text: Seq<char>) -> Result<JsonV, Seq<char>>;

/// What `serde_yaml_bw` parses a text into as a JSON value, taken member for member as a
/// document, or its error message.
pub uninterp spec fn yaml_parsed(text: Seq<char>) -> Result<JsonV, Seq<char>>;

/// A `serde_json` value as a document, variant for variant: a number by `Number`'s text, an
/// array element by element, an object member by member as its `Map` yields them. Nothing is
/// stated of it on its own: `parse_json` and `parse_yaml` state what their conversion gives.
#[verifier::external_body]
fn json_of_value(v: serde_json::Value) -> Json {
    match v {
        serde_json::Value::Null => Json::Null,
        serde_json::Value::Bool(b) => Json::Bool(b),
        serde_json::Value::Number(n) => Json::Number(n.to_string()),
        serde_json::Value::String(s) => Json::Str(s),
        serde_json::Value::Array(a) => Json::Array(a.into_iter().map(json_of_value).collect()),
        serde_json::Value::Object(m) => Json::Object(m.into_iter().map(|(k, x)| (k, json_of_value(x))).collect()),
    }
}

/// A document as a `serde_json` value, variant for variant: a number through `Number`'s
/// `FromStr`, an object member by member into its `Map` (a later member with the same key
/// wins); none when a number's text is not a JSON number. Nothing is stated of it on its own:
/// `write_json` states what its writing gives.
#[verifier::external_body]
fn value_of_json(j: &Json) -> Option<serde_json::Value> {
    match j {
        Json::Null => Some(serde_json::Value::Null),
        Json::Bool(b) => Some(serde_json::Value::Bool(*b)),
        Json::Number(n) => n.parse::<serde_json::Number>().ok().map(serde_json::Value::Number),
        Json::Str(s) => Some(serde_json::Value::String(s.clone())),
        Json::Array(a) => a.iter().map(value_of_json).collect::<Option<_>>().map(serde_json::Value::Array),
        Json::Object(f) => f.iter().map(|(k, v)| value_of_json(v).map(|x| (k.clone(), x)))
            .collect::<Option<_>>().map(serde_json::Value::Object),
    }
}

/// What `serde_json::to_string` writes for a document taken as a `serde_json` value, or none
/// when the document has a number whose text is not a JSON number.
pub uninterp spec fn json_written(j: JsonV) -> Option<Seq<char>>;

/// `serde_json::to_string` of a document taken as a `serde_json` value: exactly what
/// `json_written` names for it.
#[verifier::external_body]
pub(crate) fn write_json(j: &Json) -> (r: Option<String>)
    ensures
        opt_text(r) == json_written(jv(*j)),
{
    match value_of_json(j) {
        Some(v) => serde_json::to_string(&v).ok(),
        None => None,
    }
}

/// `serde_json::from_str` into a JSON value, converted to a document: the result is exactly
/// what `json_parsed` names for the text, the document or the error message.
#[verifier::external_body]
pub(crate) fn parse_json(text: &str) -> (r: Result<Json, String>)
    ensures
        match r {
            Ok(j) => json_parsed(text@) == Ok::<JsonV, Seq<char>>(jv(j)),
            Err(e) => json_parsed(text@) == Err::<JsonV, Seq<char>>(e@),
        },
{
    match serde_json::from_str::<serde_json::Value>(text) {
        Ok(value) => Ok(json_of_value(value)),
        Err(err) => Err(err.to_string()),
    }
}

/// `serde_yaml_bw::from_str` into a JSON value, converted to a document: the result is exactly
/// what `yaml_parsed` names for the text, the document or the error message.
#[verifier::external_body]
fn parse_yaml(text: &str) -> (r: Result<Json, String>)
    ensures
        match r {
            Ok(j) => yaml_parsed(text@) == Ok::<JsonV, Seq<char>>(jv(j)),
            Err(e) => yaml_parsed(text@) == Err::<JsonV, Seq<char>>(e@),
        },
{
    match serde_yaml_bw::from_str::<serde_json::Value>(text) {
        Ok(value) => Ok(json_of_value(value)),
        Err(err) => Err(err.to_string()),
    }
}

/// What a text parses into and in which encoding, JSON first, or the two parsers' messages
/// when it parses in neither.
pub open spec fn text_parse(text: Seq<char>) -> Result<(JsonV, InputEncoding), (Seq<char>, Seq<char>)> {
    match json_parsed(text) {
        Ok(v) => Ok((v, InputEncoding::Json)),
        Err(j) => match yaml_parsed(text) {
            Ok(v) => Ok((v, InputEncoding::Yaml)),
            Err(y) => Err((j, y)),
        },
    }
}

/// Parses a text as JSON, or as YAML when it is not JSON.
pub fn parse_text(text: &str) -> (r: Result<(Json, InputEncoding), InputError>)
    ensures
        match text_parse(text@) {
            Ok((v, e)) => r matches Ok((j, e2)) && jv(j) == v && e2 == e,
            Err((j, y)) => r matches Err(InputError::Parse { json, yaml }) && json@ == j && yaml@ == y,
        },
{
    match parse_json(text) {
        Ok(value) => Ok((value, InputEncoding::Json)),
        Err(json) => match parse_yaml(text) {
            Ok(value) => Ok((value, InputEncoding::Yaml)),
            Err(yaml) => Err(InputError::Parse { json, yaml }),
        },
    }
}

/// The file an input argument names: what follows a leading `@`.
pub open spec fn input_file(value: Seq<char>) -> Option<Seq<char>> {
    if value.len() > 0 && value[0] == '@' {
        Some(value.skip(1))
    } else {
        None
    }
}

/// The file an input argument names, if it starts with `@`.
pub fn input_file_path(value: &str) -> (r: Option<String>)
    ensures
        opt_text(r) == input_file(value@),
{
    let v = chars_of(value);
    if v.len() > 0 && v[0] == '@' {
        let mut rest: Vec<char> = Vec::new();
        let mut i: usize = 1;
        while i < v.len()
            invariant
                1 <= i <= v@.len(),
                rest@ == v@.subrange(1, i as int),
            decreases v@.len() - i,
        {
            rest.push(v[i]);
            proof {
                assert(v@.subrange(1, i + 1) =~= v@.subrange(1, i as int).push(v@[i as int]));
            }
            i += 1;
        }
        proof {
            assert(v@.subrange(1, v@.len() as int) =~= value@.skip(1));
        }
        Some(string_from(&rest))
    } else {
        None
    }
}

/// Parses an input argument: inline text, or, when it names a file with `@`, that file's
/// contents (read by the caller and passed as `file_contents`).
pub fn parse_input(value: &str, file_contents: Option<&str>) -> (r: Result<ParsedInput, InputError>)
    requires
        input_file(value@) is Some <==> file_contents is Some,
    ensures
        match input_file(value@) {
            None => match text_parse(value@) {
                Ok((v, e)) => r matches Ok(p) && jv(p.value) == v && p.source == InputSource::Inline(e),
                Err((j, y)) => r matches Err(InputError::Parse { json, yaml }) && json@ == j && yaml@ == y,
            },
            Some(path) => match text_parse(file_contents->Some_0@) {
                Ok((v, e)) => r matches Ok(p) && jv(p.value) == v && (p.source matches InputSource::File { path: p2, encoding }
                    && p2@ == path && encoding == e),
                Err((j, y)) => r matches Err(InputError::FileParse { path: p2, json, yaml }) && p2@ == path
                    && json@ == j && yaml@ == y,
            },
        },
{
    match input_file_path(value) {
        Some(path) => {
            let contents = match file_contents {
                Some(c) => c,
                None => "",
            };
            match parse_text(contents) {
                Ok((value, encoding)) => Ok(ParsedInput { value, source: InputSource::File { path, encoding } }),
                Err(InputError::Parse { json, yaml }) => Err(InputError::FileParse { path, json, yaml }),
                Err(other) => Err(other),
            }
        },
        None => match parse_text(value) {
            Ok((value, encoding)) => Ok(ParsedInput { value, source: InputSource::Inline(encoding) }),
            Err(e) => Err(e),
        },
    }
}

} // verus!
