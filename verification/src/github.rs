//! Requests to the GitHub GraphQL API: a query and its variables.

use vstd::prelude::*;

verus! {

/// A repository.
pub struct Repo {
    pub owner: String,
    pub name: String,
}

/// A JSON value, as far as a request variable can be one.
pub enum Variable {
    Null,
    Text(String),
    Number(i64),
}

/// A JSON value: null, a text, an integer, or any other one.
#[verifier::ext_equal]
pub enum JsonView {
    Null,
    Text(Seq<char>),
    Number(int),
    Other,
}

impl View for Variable {
    type V = JsonView;

    open spec fn view(&self) -> JsonView {
        match self {
            Variable::Null => JsonView::Null,
            Variable::Text(s) => JsonView::Text(s@),
            Variable::Number(n) => JsonView::Number(*n as int),
        }
    }
}

/// A JSON value of `serde_json`. A value of it is opaque.
#[verifier::external_type_specification]
#[verifier::external_body]
pub struct ExJsonValue(serde_json::Value);

/// A JSON object of `serde_json`. A value of it is opaque: [`members`] names
/// what it holds.
#[verifier::external_type_specification]
#[verifier::external_body]
#[verifier::reject_recursive_types(K)]
#[verifier::reject_recursive_types(V)]
pub struct ExJsonObject<K, V>(serde_json::Map<K, V>);

/// The members of a JSON object by key.
pub uninterp spec fn members(o: serde_json::Map<String, serde_json::Value>) -> Map<
    Seq<char>,
    JsonView,
>;

/// No members.
pub open spec fn no_members() -> Map<Seq<char>, JsonView> {
    Map::empty()
}

/// `serde_json::Map::new`: an object without members.
#[verifier::external_body]
fn new_object() -> (o: serde_json::Map<String, serde_json::Value>)
    ensures
        members(o) == no_members(),
{
    serde_json::Map::new()
}

/// `serde_json::Map::insert`: sets the member of that key, in place of any
/// earlier one.
#[verifier::external_body]
fn insert(o: &mut serde_json::Map<String, serde_json::Value>, key: &str, value: Variable)
    ensures
        members(*final(o)) == members(*old(o)).insert(key@, value@),
{
    let value = match value {
        Variable::Null => serde_json::Value::Null,
        Variable::Text(s) => serde_json::Value::String(s),
        Variable::Number(n) => serde_json::Value::from(n),
    };
    o.insert(key.to_owned(), value);
}

/// The variables of a request.
pub struct Variables {
    pub object: serde_json::Map<String, serde_json::Value>,
}

impl View for Variables {
    type V = Map<Seq<char>, JsonView>;

    open spec fn view(&self) -> Map<Seq<char>, JsonView> {
        members(self.object)
    }
}

impl Variables {
    /// No variables.
    pub fn new() -> (v: Self)
        ensures
            v@ == no_members(),
    {
        Variables { object: new_object() }
    }

    /// Sets a variable, in place of any earlier value of it.
    pub fn set(&mut self, key: &str, value: Variable)
        ensures
            final(self)@ == old(self)@.insert(key@, value@),
    {
        insert(&mut self.object, key, value);
    }

    /// Sets a variable to a text.
    pub fn set_text(&mut self, key: &str, value: &str)
        ensures
            final(self)@ == old(self)@.insert(key@, JsonView::Text(value@)),
    {
        self.set(key, Variable::Text(value.to_owned()));
    }
}

/// A request: its query and its variables.
pub struct Request {
    pub query: String,
    pub variables: Variables,
}

} // verus!
