//! The collection file's data model: a collection of named requests with
//! environments of variables.

use vstd::prelude::*;
use crate::strmap::StringMap;

verus! {

/// A collection: metadata, environments of variables and its requests.
#[derive(Debug, Clone)]
pub struct Collection {
    pub name: Option<String>,
    pub description: Option<String>,
    /// Prefix for relative request URLs.
    pub base_url: Option<String>,
    /// Environments by name; each maps variable names to values.
    pub env: StringMap<StringMap<String>>,
    pub requests: Vec<Request>,
}

/// One request of a collection.
#[derive(Debug, Clone)]
pub struct Request {
    pub name: String,
    pub method: String,
    pub url: String,
    pub headers: StringMap<String>,
    pub query: StringMap<String>,
    pub body: Option<Body>,
}

/// A request body: its kind (`json`, `form`, `raw`, `multipart`) and text.
#[derive(Debug, Clone)]
pub struct Body {
    pub kind: String,
    pub content: String,
    /// Fields for a `multipart` body. Ignored for other kinds.
    pub parts: Vec<MultipartPart>,
}

/// One field of a `multipart/form-data` body: either a text value or a file
/// upload referenced by path.
#[derive(Debug, Clone)]
pub struct MultipartPart {
    pub name: String,
    /// Text field value. Used when `file` is absent.
    pub value: Option<String>,
    /// Path to a file to upload as this field.
    pub file: Option<String>,
    /// Optional filename to advertise (defaults to the file's own name).
    pub filename: Option<String>,
    /// Optional per-part Content-Type.
    pub content_type: Option<String>,
}

/// The body kind a collection file gets when it names none.
pub fn default_body_type() -> (r: String)
    ensures
        r@ == seq!['r', 'a', 'w'],
{
    let r = String::from_str("raw");
    proof {
        reveal_strlit("raw");
    }
    r
}

impl Default for Collection {
    /// An empty collection: no metadata, environments or requests.
    fn default() -> (r: Self)
        ensures
            r.name is None,
            r.description is None,
            r.base_url is None,
            r.env@ == Map::<Seq<char>, Map<Seq<char>, Seq<char>>>::empty(),
            r.requests@.len() == 0,
    {
        let env: StringMap<StringMap<String>> = StringMap::new();
        Collection { name: None, description: None, base_url: None, env, requests: Vec::new() }
    }
}

impl Default for Body {
    /// A body with empty kind and content and no parts.
    fn default() -> (r: Self)
        ensures
            r.kind@.len() == 0,
            r.content@.len() == 0,
            r.parts@.len() == 0,
    {
        Body { kind: String::new(), content: String::new(), parts: Vec::new() }
    }
}

impl Default for MultipartPart {
    /// A part with an empty name and nothing else.
    fn default() -> (r: Self)
        ensures
            r.name@.len() == 0,
            r.value is None,
            r.file is None,
            r.filename is None,
            r.content_type is None,
    {
        MultipartPart {
            name: String::new(),
            value: None,
            file: None,
            filename: None,
            content_type: None,
        }
    }
}

} // verus!
