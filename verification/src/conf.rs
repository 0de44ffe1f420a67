//! The configuration: a tree of named values, read by dotted key paths.

use crate::chars::{quoted, quoted_text, to_text};
use vstd::prelude::*;
use vstd::std_specs::iter::IteratorSpec;

verus! {

/// A configuration value as the lookups see it.
#[derive(Debug)]
pub enum JsonNode {
    /// A string.
    Text(String),
    /// An array.
    List(Vec<JsonNode>),
    /// An object: its members in the order they are held.
    Table(Vec<(String, JsonNode)>),
    /// Null, a boolean or a number: nothing a lookup can return.
    Other,
}

/// The mathematical value of a `JsonNode`.
pub ghost enum JsonModel {
    Text(Seq<char>),
    List(Seq<JsonModel>),
    Table(Seq<(Seq<char>, JsonModel)>),
    Other,
}

/// The value of `node`: its own text, or the values of what it holds.
pub open spec fn node_model(node: JsonNode) -> JsonModel
    decreases node,
{
    match node {
        JsonNode::Text(s) => JsonModel::Text(s@),
        JsonNode::List(items) => JsonModel::List(
            Seq::new(
                items@.len(),
                |i: int|
                    if 0 <= i < items@.len() {
                        node_model(items@[i])
                    } else {
                        JsonModel::Other
                    },
            ),
        ),
        JsonNode::Table(members) => JsonModel::Table(
            Seq::new(
                members@.len(),
                |i: int|
                    if 0 <= i < members@.len() {
                        (members@[i].0@, node_model(members@[i].1))
                    } else {
                        (Seq::empty(), JsonModel::Other)
                    },
            ),
        ),
        JsonNode::Other => JsonModel::Other,
    }
}

impl View for JsonNode {
    type V = JsonModel;

    open spec fn view(&self) -> JsonModel {
        node_model(*self)
    }
}

/// The names along a dotted key path: the stretches of `key` between its
/// dots. A key without a dot is one name; two dots in a row enclose the
/// empty name.
pub open spec fn path_of(key: Seq<char>) -> Seq<Seq<char>>
    decreases key.len(),
{
    if key.len() == 0 {
        seq![Seq::empty()]
    } else {
        let head = path_of(key.drop_last());
        if key.last() == '.' {
            head.push(Seq::empty())
        } else {
            head.drop_last().push(head.last().push(key.last()))
        }
    }
}

/// The names written one after the other, with a dot between each two.
pub open spec fn dotted(names: Seq<Seq<char>>) -> Seq<char>
    decreases names.len(),
{
    if names.len() == 0 {
        Seq::empty()
    } else if names.len() == 1 {
        names[0]
    } else {
        dotted(names.drop_last()) + seq!['.'] + names.last()
    }
}

/// A key falls into at least one name, no name holds a dot, and the names
/// with dots between them are the key again.
pub proof fn lemma_path_of_parts(key: Seq<char>)
    ensures
        path_of(key).len() >= 1,
        forall|i: int, j: int|
            0 <= i < path_of(key).len() && 0 <= j < path_of(key)[i].len() ==> path_of(
                key,
            )[i][j] != '.',
        dotted(path_of(key)) == key,
    decreases key.len(),
{
    if key.len() == 0 {
        assert(dotted(path_of(key)) =~= key);
    } else {
        let front = key.drop_last();
        let head = path_of(front);
        lemma_path_of_parts(front);
        if key.last() == '.' {
            let all = head.push(Seq::empty());
            assert(all.drop_last() =~= head);
            assert(dotted(all) =~= front.push('.'));
            assert(front.push('.') =~= key);
        } else {
            let grown = head.last().push(key.last());
            let all = head.drop_last().push(grown);
            assert(all.drop_last() =~= head.drop_last());
            if head.len() == 1 {
                assert(head[0] == front);
                assert(grown =~= key);
            } else {
                assert(dotted(head) == dotted(head.drop_last()) + seq!['.'] + head.last());
                assert(dotted(all) =~= dotted(head) + seq![key.last()]);
                assert(front + seq![key.last()] =~= key);
            }
        }
    }
}

/// The value of the first member called `name`, if there is one.
pub open spec fn member(members: Seq<(Seq<char>, JsonModel)>, name: Seq<char>) -> Option<
    JsonModel,
>
    decreases members.len(),
{
    if members.len() == 0 {
        None
    } else if members[0].0 == name {
        Some(members[0].1)
    } else {
        member(members.drop_first(), name)
    }
}

/// The value reached from `node` by following `path` through nested
/// objects, one member name after the other.
pub open spec fn descend(node: JsonModel, path: Seq<Seq<char>>) -> Option<JsonModel>
    decreases path.len(),
{
    if path.len() == 0 {
        Some(node)
    } else {
        match node {
            JsonModel::Table(members) => match member(members, path[0]) {
                Some(child) => descend(child, path.drop_first()),
                None => None,
            },
            _ => None,
        }
    }
}

/// The strings of `items` one after the other, if every item is a string.
pub open spec fn joined(items: Seq<JsonModel>) -> Option<Seq<char>>
    decreases items.len(),
{
    if items.len() == 0 {
        Some(Seq::empty())
    } else {
        match (joined(items.drop_last()), items.last()) {
            (Some(head), JsonModel::Text(s)) => Some(head + s),
            _ => None,
        }
    }
}

/// The text that a value stands for: a string is its own text, an array of
/// strings is their concatenation, and nothing else has one.
pub open spec fn leaf(node: JsonModel) -> Option<Seq<char>> {
    match node {
        JsonModel::Text(s) => Some(s),
        JsonModel::List(items) => joined(items),
        _ => None,
    }
}

/// What the configuration `root` holds under the dotted key `key`.
pub open spec fn lookup(root: JsonModel, key: Seq<char>) -> Option<Seq<char>> {
    match descend(root, path_of(key)) {
        Some(node) => leaf(node),
        None => None,
    }
}

/// Why a configuration could not be had or did not answer.
#[derive(Debug, Clone)]
#[non_exhaustive]
pub enum ConfigError {
    /// The key leads to no text.
    ConfigNoSuchKey(String),
    /// The file's content is not JSON; the parser's words.
    CannotParseJson(String),
    /// The file at this path could not be opened.
    CannotOpenFile(String),
    /// The file at this path could not be read.
    CannotReadFile(String),
}

/// The sentence that reports `e`.
pub open spec fn config_error_text(e: ConfigError) -> Seq<char> {
    match e {
        ConfigError::ConfigNoSuchKey(x) => "We don't find key "@ + x@
            + " in your configuration file"@,
        ConfigError::CannotParseJson(x) => "We cannot parse your configuration file: "@ + x@,
        ConfigError::CannotOpenFile(x) => "We cannot open configuration file "@ + quoted_text(x@),
        ConfigError::CannotReadFile(x) => "We cannot read configuration file "@ + quoted_text(x@),
    }
}

impl ConfigError {
    /// The sentence that reports this error.
    pub fn into(self) -> (out: String)
        ensures
            out@ == config_error_text(self),
    {
        self.message()
    }

    /// The sentence that reports this error.
    pub fn message(&self) -> (out: String)
        ensures
            out@ == config_error_text(*self),
    {
        match self {
            ConfigError::ConfigNoSuchKey(x) => {
                let mut out = String::from_str("We don't find key ");
                out.append(x.as_str());
                out.append(" in your configuration file");
                out
            },
            ConfigError::CannotParseJson(x) => {
                let mut out = String::from_str("We cannot parse your configuration file: ");
                out.append(x.as_str());
                out
            },
            ConfigError::CannotOpenFile(x) => {
                let mut out = String::from_str("We cannot open configuration file ");
                out.append(quoted(x.as_str()).as_str());
                out
            },
            ConfigError::CannotReadFile(x) => {
                let mut out = String::from_str("We cannot read configuration file ");
                out.append(quoted(x.as_str()).as_str());
                out
            },
        }
    }
}

#[verifier::external_type_specification]
#[verifier::external_body]
pub struct ExJsonValue(serde_json::Value);

#[verifier::external_type_specification]
#[verifier::external_body]
pub struct ExJsonError(serde_json::Error);

/// The value that `serde_json::from_str` reads from `text`, or `None` where
/// it rejects the text.
pub uninterp spec fn json_document(text: Seq<char>) -> Option<JsonModel>;

/// What a `serde_json::Value` holds, as far as lookups read it.
pub uninterp spec fn json_content(value: serde_json::Value) -> JsonModel;

/// `serde_json::from_str` at the type `serde_json::Value`: whether the text
/// is accepted, and the value read from it, depend on the text alone.
#[verifier::external_body]
fn parse_value(text: &str) -> (r: Result<serde_json::Value, serde_json::Error>)
    ensures
        match r {
            Ok(value) => json_document(text@) == Some(json_content(value)),
            Err(_) => json_document(text@) is None,
        },
{
    serde_json::from_str::<serde_json::Value>(text)
}

/// Copies a `serde_json::Value` into a `JsonNode`, variant by variant: a
/// string, an array and an object with their contents, the members in the
/// order in which the map hands them out; null, booleans and numbers as
/// `Other`.
#[verifier::external_body]
fn node_of(value: &serde_json::Value) -> (node: JsonNode)
    ensures
        node@ == json_content(*value),
{
    match value {
        serde_json::Value::Null => JsonNode::Other,
        serde_json::Value::Bool(_) => JsonNode::Other,
        serde_json::Value::Number(_) => JsonNode::Other,
        serde_json::Value::String(s) => JsonNode::Text(s.clone()),
        serde_json::Value::Array(items) => JsonNode::List(items.iter().map(node_of).collect()),
        serde_json::Value::Object(members) => JsonNode::Table(
            members.iter().map(|(k, v)| (k.clone(), node_of(v))).collect(),
        ),
    }
}

/// The `Display` form of a `serde_json::Error`.
#[verifier::external_body]
fn parse_error_text(e: &serde_json::Error) -> String {
    e.to_string()
}

/// A configuration: the tree that the lookups walk.
#[derive(Debug)]
pub struct Config {
    inner: JsonNode,
}

impl View for Config {
    type V = JsonModel;

    closed spec fn view(&self) -> JsonModel {
        self.inner@
    }
}

/// Splits `key` at its dots.
pub fn split_key(key: &str) -> (names: Vec<String>)
    ensures
        names@.map_values(|s: String| s@) == path_of(key@),
{
    let mut names: Vec<String> = Vec::new();
    let mut name: Vec<char> = Vec::new();
    proof {
        assert(key@.take(0) =~= Seq::<char>::empty());
        assert(names@.map_values(|s: String| s@).push(name@) =~= path_of(key@.take(0)));
    }
    for c in it: key.chars()
        invariant
            it.seq() == key@,
            names@.map_values(|s: String| s@).push(name@) == path_of(
                key@.take(it.index() as int),
            ),
    {
        let ghost done = names@.map_values(|s: String| s@);
        let ghost before = name@;
        let ghost seen = key@.take(it.index() + 1);
        proof {
            assert(seen.drop_last() =~= key@.take(it.index() as int));
            assert(seen.last() == c);
            assert(done.push(before).drop_last() =~= done);
        }
        if c == '.' {
            names.push(to_text(&name));
            name = Vec::new();
            proof {
                assert(names@.map_values(|s: String| s@) =~= done.push(before));
            }
        } else {
            name.push(c);
        }
    }
    proof {
        assert(key@.take(key@.len() as int) =~= key@);
    }
    names.push(to_text(&name));
    proof {
        assert(names@.map_values(|s: String| s@) =~= path_of(key@));
    }
    names
}

fn find_member<'a>(members: &'a Vec<(String, JsonNode)>, name: &String) -> (found: Option<
    &'a JsonNode,
>)
    ensures
        match found {
            Some(child) => member(JsonNode::Table(*members)@->Table_0, name@) == Some(child@),
            None => member(JsonNode::Table(*members)@->Table_0, name@) is None,
        },
{
    let ghost all = JsonNode::Table(*members)@->Table_0;
    let mut i: usize = 0;
    proof {
        assert(all.skip(0) =~= all);
    }
    while i < members.len()
        invariant
            i <= members.len(),
            all == JsonNode::Table(*members)@->Table_0,
            all.len() == members@.len(),
            member(all.skip(i as int), name@) == member(all, name@),
        decreases members.len() - i,
    {
        proof {
            let rest = all.skip(i as int);
            assert(rest[0] == all[i as int]);
            assert(all[i as int] == (members@[i as int].0@, members@[i as int].1@));
            assert(rest.drop_first() =~= all.skip(i + 1));
        }
        if members[i].0 == *name {
            return Some(&members[i].1);
        }
        i += 1;
    }
    None
}

fn join_texts(items: &Vec<JsonNode>) -> (out: Option<String>)
    ensures
        match out {
            Some(text) => joined(JsonNode::List(*items)@->List_0) == Some(text@),
            None => joined(JsonNode::List(*items)@->List_0) is None,
        },
{
    let ghost all = JsonNode::List(*items)@->List_0;
    let mut out = String::new();
    let mut i: usize = 0;
    proof {
        assert(all.take(0) =~= Seq::<JsonModel>::empty());
    }
    while i < items.len()
        invariant
            i <= items.len(),
            all == JsonNode::List(*items)@->List_0,
            all.len() == items@.len(),
            joined(all.take(i as int)) == Some(out@),
        decreases items.len() - i,
    {
        proof {
            let seen = all.take(i + 1);
            assert(seen.drop_last() =~= all.take(i as int));
            assert(seen.last() == items@[i as int]@);
        }
        match &items[i] {
            JsonNode::Text(s) => {
                out.append(s.as_str());
            },
            _ => {
                proof {
                    lemma_joined_fails_on(all, i + 1);
                }
                return None;
            },
        }
        i += 1;
    }
    proof {
        assert(all.take(i as int) =~= all);
    }
    Some(out)
}

/// Once a stretch from the front of `items` has no joined text, neither has
/// the whole.
proof fn lemma_joined_fails_on(items: Seq<JsonModel>, n: int)
    requires
        0 <= n <= items.len(),
        joined(items.take(n)) is None,
    ensures
        joined(items) is None,
    decreases items.len() - n,
{
    if n < items.len() {
        let next = items.take(n + 1);
        assert(next.drop_last() =~= items.take(n));
        lemma_joined_fails_on(items, n + 1);
    } else {
        assert(items.take(n) =~= items);
    }
}

impl Config {
    /// The configuration whose tree is `root`.
    pub fn new(root: JsonNode) -> (config: Config)
        ensures
            config@ == root@,
    {
        Config { inner: root }
    }

    /// Reads a configuration from the JSON text `content`.
    ///
    /// The text is accepted exactly where the parser accepts it, and the
    /// configuration is then the value the parser read.
    pub fn load(content: &str) -> (r: Result<Config, ConfigError>)
        ensures
            match r {
                Ok(config) => json_document(content@) == Some(config@),
                Err(e) => json_document(content@) is None && e is CannotParseJson,
            },
    {
        match parse_value(content) {
            Ok(value) => Ok(Config { inner: node_of(&value) }),
            Err(e) => Err(ConfigError::CannotParseJson(parse_error_text(&e))),
        }
    }

    /// The text under the dotted key `key`.
    ///
    /// Each name of the key selects a member of the object reached so far.
    /// At the end must stand a string, or an array of strings, which is
    /// returned as one text. Anything else is reported as a missing key.
    pub fn get(&self, key: &str) -> (r: Result<String, ConfigError>)
        ensures
            match r {
                Ok(value) => lookup(self@, key@) == Some(value@),
                Err(e) => lookup(self@, key@) is None && (e matches ConfigError::ConfigNoSuchKey(k)
                    && k@ == key@),
            },
    {
        let names = split_key(key);
        let ghost path = path_of(key@);
        let mut current: &JsonNode = &self.inner;
        let mut i: usize = 0;
        proof {
            assert(path.skip(0) =~= path);
        }
        while i < names.len()
            invariant
                i <= names.len(),
                path == path_of(key@),
                names@.map_values(|s: String| s@) == path,
                descend(current@, path.skip(i as int)) == descend(self@, path),
            decreases names.len() - i,
        {
            proof {
                let rest = path.skip(i as int);
                assert(rest[0] == names@[i as int]@);
                assert(rest.drop_first() =~= path.skip(i + 1));
            }
            match current {
                JsonNode::Table(members) => match find_member(members, &names[i]) {
                    Some(child) => {
                        current = child;
                    },
                    None => {
                        return Err(ConfigError::ConfigNoSuchKey(key.to_owned()));
                    },
                },
                _ => {
                    return Err(ConfigError::ConfigNoSuchKey(key.to_owned()));
                },
            }
            i += 1;
        }
        match current {
            JsonNode::Text(s) => Ok(s.clone()),
            JsonNode::List(items) => match join_texts(items) {
                Some(text) => Ok(text),
                None => Err(ConfigError::ConfigNoSuchKey(key.to_owned())),
            },
            _ => Err(ConfigError::ConfigNoSuchKey(key.to_owned())),
        }
    }
}

} // verus!
