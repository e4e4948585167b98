//! JSON values: read from text and written to it by `serde_json`, looked
//! into here.

use vstd::prelude::*;

use crate::text::same;

verus! {

/// What a JSON value is. An object is a map: its names have no order, and
/// no name stands twice.
#[verifier::ext_equal]
pub enum Tree {
    Null,
    Bool(bool),
    Number(serde_json::Number),
    Text(Seq<char>),
    List(Seq<Tree>),
    Object(Map<Seq<char>, Tree>),
}

/// The map that `members` spell out, the last of equal names standing.
pub open spec fn object_of(members: Seq<(Seq<char>, Tree)>) -> Map<Seq<char>, Tree>
    decreases members.len(),
{
    if members.len() == 0 {
        Map::empty()
    } else {
        object_of(members.drop_last()).insert(members.last().0, members.last().1)
    }
}

/// No name stands twice in `members`.
pub open spec fn distinct(members: Seq<(Seq<char>, Tree)>) -> bool {
    forall|a: int, b: int|
        0 <= a < b < members.len() ==> (#[trigger] members[a]).0 != (#[trigger] members[b]).0
}

/// The map that members spell out is finite, holds every name among them, and
/// holds the member itself under a name that stands once.
pub proof fn lemma_object_of(members: Seq<(Seq<char>, Tree)>)
    ensures
        object_of(members).dom().finite(),
        forall|at: int|
            0 <= at < members.len() ==> object_of(members).contains_key(
                (#[trigger] members[at]).0,
            ),
        distinct(members) ==> forall|at: int|
            0 <= at < members.len() ==> object_of(members)[(#[trigger] members[at]).0]
                == members[at].1,
    decreases members.len(),
{
    if members.len() > 0 {
        let rest = members.drop_last();
        lemma_object_of(rest);
        assert forall|at: int| 0 <= at < members.len() implies object_of(members).contains_key(
            (#[trigger] members[at]).0,
        ) by {
            if at < rest.len() {
                assert(rest[at] == members[at]);
            }
        }
        if distinct(members) {
            assert(distinct(rest)) by {
                assert forall|a: int, b: int| 0 <= a < b < rest.len() implies (
                #[trigger] rest[a]).0 != (#[trigger] rest[b]).0 by {
                    assert(members[a].0 != members[b].0);
                }
            }
            assert forall|at: int| 0 <= at < members.len() implies object_of(members)[(
            #[trigger] members[at]).0] == members[at].1 by {
                if at < rest.len() {
                    assert(rest[at] == members[at]);
                    assert(members[at].0 != members[members.len() - 1].0);
                }
            }
        }
    }
}

/// The map that members spell out holds no name but theirs.
pub proof fn lemma_object_of_names(members: Seq<(Seq<char>, Tree)>)
    ensures
        forall|name: Seq<char>| #[trigger]
            object_of(members).contains_key(name) ==> exists|at: int|
                0 <= at < members.len() && (#[trigger] members[at]).0 == name,
    decreases members.len(),
{
    if members.len() > 0 {
        let rest = members.drop_last();
        lemma_object_of_names(rest);
        assert forall|name: Seq<char>| #[trigger]
            object_of(members).contains_key(name) implies exists|at: int|
            0 <= at < members.len() && (#[trigger] members[at]).0 == name by {
            if name == members.last().0 {
                assert(members[members.len() - 1].0 == name);
            } else {
                assert(object_of(rest).contains_key(name));
                let at = choose|at: int| 0 <= at < rest.len() && (#[trigger] rest[at]).0 == name;
                assert(members[at].0 == name);
            }
        }
    }
}

impl Tree {
    /// The member `name`: null where there is none, or where this is no
    /// object.
    pub open spec fn member(self, name: Seq<char>) -> Tree {
        match self {
            Tree::Object(members) => if members.contains_key(name) {
                members[name]
            } else {
                Tree::Null
            },
            _ => Tree::Null,
        }
    }

    /// The item at `at`: null where there is none, or where this is no list.
    pub open spec fn item(self, at: int) -> Tree {
        match self {
            Tree::List(items) => if 0 <= at < items.len() {
                items[at]
            } else {
                Tree::Null
            },
            _ => Tree::Null,
        }
    }

    /// The text this is, where it is one.
    pub open spec fn text(self) -> Option<Seq<char>> {
        match self {
            Tree::Text(text) => Some(text),
            _ => None,
        }
    }

    /// No number stands in this, and its lists and objects stand at most
    /// `depth` deep in each other.
    pub open spec fn plain(self, depth: nat) -> bool
        decreases depth,
    {
        match self {
            Tree::Number(_) => false,
            Tree::List(items) => depth > 0 && forall|at: int|
                0 <= at < items.len() ==> (#[trigger] items[at]).plain((depth - 1) as nat),
            Tree::Object(members) => depth > 0 && forall|name: Seq<char>|
                members.contains_key(name) ==> (#[trigger] members[name]).plain(
                    (depth - 1) as nat,
                ),
            _ => true,
        }
    }
}

/// `tree` is an object that holds the text `text` under `name`.
pub open spec fn says(tree: Tree, name: Seq<char>, text: Seq<char>) -> bool {
    tree matches Tree::Object(held) && held.contains_key(name) && held[name] == Tree::Text(text)
}

/// `tree` holds nothing under `name`, or null.
pub open spec fn silent(tree: Tree, name: Seq<char>) -> bool {
    tree matches Tree::Object(held) ==> held.contains_key(name) ==> held[name] == Tree::Null
}

/// An object of texts, none of whose names stands twice, is plain.
pub proof fn lemma_texts_plain(members: Seq<(Seq<char>, Tree)>)
    requires
        distinct(members),
        forall|at: int| 0 <= at < members.len() ==> (#[trigger] members[at]).1 is Text,
    ensures
        forall|depth: nat| depth > 0 ==> #[trigger] Tree::Object(object_of(members)).plain(depth),
{
    reveal_with_fuel(Tree::plain, 2);
    let object = object_of(members);
    lemma_object_of_names(members);
    lemma_object_of(members);
    assert forall|name: Seq<char>| object.contains_key(name) implies (
    #[trigger] object[name]) is Text by {
        let at = choose|at: int| 0 <= at < members.len() && (#[trigger] members[at]).0 == name;
        assert(object[members[at].0] == members[at].1);
    }
}

/// `text` stands in JSON as it is: it holds no control character, no quote and
/// no backslash.
pub open spec fn verbatim(text: Seq<char>) -> bool {
    forall|at: int|
        0 <= at < text.len() ==> ' ' <= #[trigger] text[at] && text[at] != '"' && text[at] != '\\'
}

/// `member` is a text, and it and its name stand in JSON as they are.
pub open spec fn verbatim_text(member: (Seq<char>, Tree)) -> bool {
    verbatim(member.0) && (member.1 matches Tree::Text(text) && verbatim(text))
}

/// The bytes of `text`, as UTF-8.
pub open spec fn bytes_in(text: Seq<char>) -> int {
    vstd::utf8::encode_utf8(text).len() as int
}

/// The bytes of the object that `members` spell out, where each is a text, and
/// it and its name stand as they are: the opening brace, and for each member
/// its name, its text, four quotes, the colon, and the comma or the closing
/// brace behind it.
pub open spec fn texts_size(members: Seq<(Seq<char>, Tree)>) -> int
    decreases members.len(),
{
    if members.len() == 0 {
        1
    } else {
        texts_size(members.drop_last()) + bytes_in(members.last().0) + bytes_in(
            members.last().1->Text_0,
        ) + 6
    }
}

/// `text` is as long as an object of texts is, where `tree` is one and all its
/// names and texts stand in JSON as they are.
pub open spec fn sized(text: Seq<char>, tree: Tree) -> bool {
    forall|members: Seq<(Seq<char>, Tree)>|
        {
            &&& tree == Tree::Object(#[trigger] object_of(members))
            &&& members.len() > 0
            &&& distinct(members)
            &&& forall|at: int| 0 <= at < members.len() ==> verbatim_text(#[trigger] members[at])
        } ==> bytes_in(text) == texts_size(members)
}

/// `serde_json::Value`, the tree that serde_json reads and writes.
#[verifier::external_type_specification]
#[verifier::external_body]
pub struct ExValue(serde_json::Value);

/// `serde_json::Number`, carried through and never looked into.
#[verifier::external_type_specification]
#[verifier::external_body]
pub struct ExNumber(serde_json::Number);

/// `serde_json::Map`, the members of an object.
#[verifier::external_type_specification]
#[verifier::external_body]
#[verifier::reject_recursive_types(K)]
#[verifier::reject_recursive_types(V)]
pub struct ExMembers<K, V>(serde_json::Map<K, V>);

/// What a `serde_json::Value` holds.
pub uninterp spec fn value_tree(value: serde_json::Value) -> Tree;

/// What a `serde_json::Map` of values holds.
pub uninterp spec fn map_tree(
    map: serde_json::Map<String, serde_json::Value>,
) -> Map<Seq<char>, Tree>;

/// What `serde_json::from_slice` reads in `text`: the value, or the words of
/// its error.
pub uninterp spec fn json_read(text: Seq<u8>) -> Result<Tree, Seq<char>>;

/// The compact text that `serde_json::Value` displays as.
pub uninterp spec fn json_write(tree: Tree) -> Seq<char>;

/// The text `text`, as UTF-8, is read as `tree`.
pub open spec fn reads_as(text: Seq<char>, tree: Tree) -> bool {
    json_read(vstd::utf8::encode_utf8(text)) == Ok::<Tree, Seq<char>>(tree)
}

/// A `serde_json::Value` taken apart by one step.
enum Node {
    Null,
    Bool(bool),
    Number(serde_json::Number),
    Text(String),
    List(Vec<serde_json::Value>),
    Object(serde_json::Map<String, serde_json::Value>),
}

impl Node {
    spec fn tree(self) -> Tree {
        match self {
            Node::Null => Tree::Null,
            Node::Bool(flag) => Tree::Bool(flag),
            Node::Number(number) => Tree::Number(number),
            Node::Text(text) => Tree::Text(text@),
            Node::List(items) => Tree::List(
                items@.map_values(|item: serde_json::Value| value_tree(item)),
            ),
            Node::Object(members) => Tree::Object(map_tree(members)),
        }
    }
}

/// `serde_json::from_slice`: the value the text holds, or why it holds none,
/// in the words of the error. Which of the two is a matter of the text
/// alone.
#[verifier::external_body]
fn from_slice(text: &[u8]) -> (value: Result<serde_json::Value, String>)
    ensures
        match value {
            Ok(value) => json_read(text@) == Ok::<Tree, Seq<char>>(value_tree(value)),
            Err(words) => json_read(text@) == Err::<Tree, Seq<char>>(words@),
        },
{
    serde_json::from_slice(text).map_err(|error| error.to_string())
}

/// `to_string` of a `serde_json::Value`: its compact text, a matter of what
/// the value holds alone, since an object's members are kept in the order of
/// their names: serde_json's feature `preserve_order` is off. `from_slice` reads the same value back in it, where no number
/// stands in the value (one with a fraction may come back another) and it
/// nests no deeper than `from_slice` follows. Of an object of texts that need
/// no escape it says how long that text is.
#[verifier::external_body]
fn to_text(value: &serde_json::Value) -> (text: String)
    ensures
        text@ == json_write(value_tree(*value)),
        value_tree(*value).plain(127) ==> reads_as(text@, value_tree(*value)),
        sized(text@, value_tree(*value)),
{
    value.to_string()
}

/// The variants of `serde_json::Value`, told apart.
#[verifier::external_body]
fn open(value: serde_json::Value) -> (node: Node)
    ensures
        node.tree() == value_tree(value),
{
    match value {
        serde_json::Value::Null => Node::Null,
        serde_json::Value::Bool(flag) => Node::Bool(flag),
        serde_json::Value::Number(number) => Node::Number(number),
        serde_json::Value::String(text) => Node::Text(text),
        serde_json::Value::Array(items) => Node::List(items),
        serde_json::Value::Object(members) => Node::Object(members),
    }
}

/// The variants of `serde_json::Value`, put together.
#[verifier::external_body]
fn close(node: Node) -> (value: serde_json::Value)
    ensures
        value_tree(value) == node.tree(),
{
    match node {
        Node::Null => serde_json::Value::Null,
        Node::Bool(flag) => serde_json::Value::Bool(flag),
        Node::Number(number) => serde_json::Value::Number(number),
        Node::Text(text) => serde_json::Value::String(text),
        Node::List(items) => serde_json::Value::Array(items),
        Node::Object(members) => serde_json::Value::Object(members),
    }
}

/// The names and values that `members` hold.
spec fn spelled(members: Seq<(String, serde_json::Value)>) -> Seq<(Seq<char>, Tree)> {
    members.map_values(|member: (String, serde_json::Value)| (member.0@, value_tree(member.1)))
}

/// `serde_json::Map::into_iter`: every member once, name and value.
#[verifier::external_body]
fn members(map: serde_json::Map<String, serde_json::Value>) -> (members: Vec<
    (String, serde_json::Value),
>)
    ensures
        object_of(spelled(members@)) == map_tree(map),
        distinct(spelled(members@)),
{
    map.into_iter().collect()
}

/// `serde_json::Map::new` holds no members.
pub assume_specification[ serde_json::Map::<String, serde_json::Value>::new ]() -> (map:
    serde_json::Map<String, serde_json::Value>)
    ensures
        map_tree(map) == object_of(Seq::empty()),
;

/// `serde_json::Map::insert` puts the value under the name, in the place of
/// the one that stood there.
pub assume_specification[ serde_json::Map::<String, serde_json::Value>::insert ](
    map: &mut serde_json::Map<String, serde_json::Value>,
    k: String,
    v: serde_json::Value,
) -> (replaced: Option<serde_json::Value>)
    ensures
        map_tree(*final(map)) == map_tree(*old(map)).insert(k@, value_tree(v)),
        match replaced {
            Some(replaced) => map_tree(*old(map)).contains_key(k@) && value_tree(replaced)
                == map_tree(*old(map))[k@],
            None => !map_tree(*old(map)).contains_key(k@),
        },
;

/// `serde_json::Number::clone` gives the same number.
pub assume_specification[ <serde_json::Number as Clone>::clone ](
    number: &serde_json::Number,
) -> (copy: serde_json::Number)
    ensures
        copy == *number,
;

/// One JSON value.
#[derive(Debug)]
pub enum Json {
    Null,
    Bool(bool),
    Number(serde_json::Number),
    Text(String),
    List(Vec<Json>),
    /// The members, the last of equal names standing.
    Object(Vec<(String, Json)>),
}

impl View for Json {
    type V = Tree;

    open spec fn view(&self) -> Tree {
        tree(*self)
    }
}

/// What `json` is.
pub open spec fn tree(json: Json) -> Tree
    decreases json,
{
    match json {
        Json::Null => Tree::Null,
        Json::Bool(flag) => Tree::Bool(flag),
        Json::Number(number) => Tree::Number(number),
        Json::Text(text) => Tree::Text(text@),
        Json::List(items) => Tree::List(trees(items@)),
        Json::Object(members) => Tree::Object(object_of(named_trees(members@))),
    }
}

/// What `items` are.
pub open spec fn trees(items: Seq<Json>) -> Seq<Tree>
    decreases items,
{
    Seq::new(
        items.len(),
        |at: int|
            if 0 <= at < items.len() {
                tree(items[at])
            } else {
                Tree::Null
            },
    )
}

/// What `members` are, each beside its name.
pub open spec fn named_trees(members: Seq<(String, Json)>) -> Seq<(Seq<char>, Tree)>
    decreases members,
{
    Seq::new(
        members.len(),
        |at: int|
            if 0 <= at < members.len() {
                (members[at].0@, tree(members[at].1))
            } else {
                (Seq::empty(), Tree::Null)
            },
    )
}

/// The value that a `serde_json::Value` holds.
fn lift(value: serde_json::Value) -> (json: Json)
    ensures
        json@ == value_tree(value),
    decreases value_tree(value),
{
    let ghost tree = value_tree(value);
    match open(value) {
        Node::Null => Json::Null,
        Node::Bool(flag) => Json::Bool(flag),
        Node::Number(number) => Json::Number(number),
        Node::Text(text) => Json::Text(text),
        Node::List(values) => {
            let ghost whole = tree->List_0;
            let mut items: Vec<Json> = Vec::new();
            for item in it: values
                invariant
                    tree == value_tree(value),
                    tree == Tree::List(whole),
                    it.seq().len() == whole.len(),
                    forall|at: int|
                        0 <= at < whole.len() ==> #[trigger] whole[at] == value_tree(it.seq()[at]),
                    items@.len() == it.index(),
                    forall|at: int|
                        0 <= at < items@.len() ==> (#[trigger] items@[at])@ == whole[at],
            {
                assert(whole[it.index()] == value_tree(item));
                assert(decreases_to!(tree => tree->List_0));
                assert(decreases_to!(tree->List_0 => tree->List_0[it.index()]));
                items.push(lift(item));
            }
            let json = Json::List(items);
            assert(trees(items@) =~= whole);
            json
        },
        Node::Object(map) => {
            let values = members(map);
            let ghost whole = spelled(values@);
            let mut members: Vec<(String, Json)> = Vec::new();
            proof {
                lemma_object_of(whole);
            }
            for member in it: values
                invariant
                    tree == value_tree(value),
                    tree == Tree::Object(object_of(whole)),
                    distinct(whole),
                    it.seq().len() == whole.len(),
                    forall|at: int|
                        0 <= at < whole.len() ==> #[trigger] whole[at] == (
                            it.seq()[at].0@,
                            value_tree(it.seq()[at].1),
                        ),
                    members@.len() == it.index(),
                    forall|at: int|
                        0 <= at < members@.len() ==> (#[trigger] members@[at]).0@ == whole[at].0
                            && members@[at].1@ == whole[at].1,
            {
                proof {
                    lemma_object_of(whole);
                    let name = whole[it.index()].0;
                    assert(object_of(whole)[name] == value_tree(member.1));
                    assert(decreases_to!(tree => tree->Object_0));
                    assert(decreases_to!(tree->Object_0 => tree->Object_0[name]));
                }
                members.push((member.0, lift(member.1)));
            }
            let json = Json::Object(members);
            assert(named_trees(members@) =~= whole);
            json
        },
    }
}

/// `json` as a `serde_json::Value`.
fn lower(json: &Json) -> (value: serde_json::Value)
    ensures
        value_tree(value) == json@,
    decreases json,
{
    match json {
        Json::Null => close(Node::Null),
        Json::Bool(flag) => close(Node::Bool(*flag)),
        Json::Number(number) => close(Node::Number(number.clone())),
        Json::Text(text) => close(Node::Text(text.clone())),
        Json::List(items) => {
            let mut values: Vec<serde_json::Value> = Vec::new();
            let mut at: usize = 0;
            while at < items.len()
                invariant
                    json == Json::List(*items),
                    at == values@.len(),
                    at <= items@.len(),
                    forall|at: int|
                        0 <= at < values@.len() ==> value_tree(#[trigger] values@[at])
                            == items@[at]@,
                decreases items@.len() - at,
            {
                proof {
                    assert(decreases_to!(*json => json->List_0));
                    assert(decreases_to!(json->List_0 => json->List_0[at as int]));
                }
                values.push(lower(&items[at]));
                at += 1;
            }
            let node = Node::List(values);
            assert(node.tree()->List_0 =~= trees(items@));
            close(node)
        },
        Json::Object(members) => {
            let ghost whole = named_trees(members@);
            let mut map = serde_json::Map::new();
            let mut at: usize = 0;
            assert(whole.take(0) =~= Seq::empty());
            while at < members.len()
                invariant
                    json == Json::Object(*members),
                    at <= members@.len(),
                    whole == named_trees(members@),
                    map_tree(map) == object_of(whole.take(at as int)),
                decreases members@.len() - at,
            {
                let member = &members[at];
                proof {
                    assert(decreases_to!(*json => json->Object_0));
                    assert(decreases_to!(json->Object_0 => json->Object_0[at as int]));
                    assert(decreases_to!(json->Object_0[at as int] => json->Object_0[at as int].1));
                }
                map.insert(member.0.clone(), lower(&member.1));
                assert(whole.take(at + 1).drop_last() =~= whole.take(at as int));
                at += 1;
            }
            assert(whole.take(at as int) =~= whole);
            close(Node::Object(map))
        },
    }
}

impl Json {
    /// The value that `text` holds.
    ///
    /// # Errors
    /// Where `text` is not JSON, with serde_json's words for why.
    pub fn read(text: &[u8]) -> (json: Result<Json, String>)
        ensures
            match json {
                Ok(json) => json_read(text@) == Ok::<Tree, Seq<char>>(json@),
                Err(words) => json_read(text@) == Err::<Tree, Seq<char>>(words@),
            },
    {
        match from_slice(text) {
            Ok(value) => Ok(lift(value)),
            Err(words) => Err(words),
        }
    }

    /// The value as compact text.
    #[must_use]
    pub fn write(&self) -> (text: String)
        ensures
            text@ == json_write(self@),
            self@.plain(127) ==> reads_as(text@, self@),
            sized(text@, self@),
    {
        to_text(&lower(self))
    }

    /// The member `name`, where this is an object that has one.
    #[must_use]
    pub fn member(&self, name: &str) -> (member: Option<&Json>)
        ensures
            match member {
                Some(member) => self@ is Object && self@->Object_0.contains_key(name@)
                    && member@ == self@->Object_0[name@],
                None => !(self@ is Object && self@->Object_0.contains_key(name@)),
            },
            self@.member(name@) == match member {
                Some(member) => member@,
                None => Tree::Null,
            },
    {
        match self {
            Json::Object(members) => {
                let ghost whole = named_trees(members@);
                let mut at: usize = members.len();
                assert(whole.take(at as int) =~= whole);
                while at > 0
                    invariant
                        self == Json::Object(*members),
                        at <= members@.len(),
                        whole == named_trees(members@),
                        object_of(whole).contains_key(name@) == object_of(
                            whole.take(at as int),
                        ).contains_key(name@),
                        object_of(whole)[name@] == object_of(whole.take(at as int))[name@],
                    decreases at,
                {
                    at -= 1;
                    assert(whole.take(at + 1).drop_last() =~= whole.take(at as int));
                    if same(members[at].0.as_str(), name) {
                        return Some(&members[at].1);
                    }
                }
                assert(whole.take(0) =~= Seq::empty());
                None
            },
            _ => None,
        }
    }

    /// The text of the member `name`, where this is an object that has one
    /// and it is text.
    #[must_use]
    pub fn member_text(&self, name: &str) -> (text: Option<&String>)
        ensures
            self@.member(name@).text() == match text {
                Some(text) => Some(text@),
                None => None,
            },
    {
        match self.member(name) {
            Some(Json::Text(text)) => Some(text),
            _ => None,
        }
    }
}

/// A value is what it holds: text the very text, a list its items in order.
pub proof fn law_a_value_is_what_it_holds(
    flag: bool,
    number: serde_json::Number,
    text: String,
    items: Vec<Json>,
)
    ensures
        Json::Null@ == Tree::Null,
        Json::Bool(flag)@ == Tree::Bool(flag),
        Json::Number(number)@ == Tree::Number(number),
        Json::Text(text)@ == Tree::Text(text@),
        Json::List(items)@ matches Tree::List(trees) && trees.len() == items@.len() && forall|
            at: int,
        |
            0 <= at < items@.len() ==> #[trigger] trees[at] == items@[at]@,
{
}

/// An object holds the names of its members and no others, and under each the
/// last member of that name.
pub proof fn law_an_object_holds_the_last_of_each_name(members: Vec<(String, Json)>)
    ensures
        Json::Object(members)@ matches Tree::Object(held) && {
            &&& forall|name: Seq<char>| #[trigger]
                held.contains_key(name) ==> exists|at: int|
                    0 <= at < members@.len() && (#[trigger] members@[at]).0@ == name
            &&& forall|at: int|
                0 <= at < members@.len() && (forall|later: int|
                    at < later < members@.len() ==> (#[trigger] members@[later]).0@
                        != members@[at].0@) ==> held.contains_key((#[trigger] members@[at]).0@)
                    && held[members@[at].0@] == members@[at].1@
        },
{
    let named = named_trees(members@);
    let held = object_of(named);
    lemma_object_of_names(named);
    assert forall|name: Seq<char>| #[trigger] held.contains_key(name) implies exists|at: int|
        0 <= at < members@.len() && (#[trigger] members@[at]).0@ == name by {
        let at = choose|at: int| 0 <= at < named.len() && (#[trigger] named[at]).0 == name;
        assert(members@[at].0@ == name);
    }
    assert forall|at: int|
        0 <= at < members@.len() && (forall|later: int|
            at < later < members@.len() ==> (#[trigger] members@[later]).0@
                != members@[at].0@) implies held.contains_key((#[trigger] members@[at]).0@)
        && held[members@[at].0@] == members@[at].1@ by {
        assert forall|later: int| at < later < named.len() implies (#[trigger] named[later]).0
            != named[at].0 by {
            assert(members@[later].0@ != members@[at].0@);
        }
        lemma_last_of_its_name(named, at);
    }
}

/// The last member of a name is the one an object holds.
proof fn lemma_last_of_its_name(members: Seq<(Seq<char>, Tree)>, at: int)
    requires
        0 <= at < members.len(),
        forall|later: int|
            at < later < members.len() ==> (#[trigger] members[later]).0 != members[at].0,
    ensures
        object_of(members).contains_key(members[at].0),
        object_of(members)[members[at].0] == members[at].1,
    decreases members.len(),
{
    if at < members.len() - 1 {
        let rest = members.drop_last();
        assert(forall|i: int| 0 <= i < rest.len() ==> #[trigger] rest[i] == members[i]);
        lemma_last_of_its_name(rest, at);
        assert(members[members.len() - 1].0 != members[at].0);
    }
}

/// Looking into a value: a member is what an object holds under that name, an
/// item what a list holds at that place, a text the text itself, and null or
/// nothing where there is none.
pub proof fn law_a_value_is_looked_into(
    held: Map<Seq<char>, Tree>,
    items: Seq<Tree>,
    text: Seq<char>,
    name: Seq<char>,
    at: int,
    other: Tree,
)
    ensures
        held.contains_key(name) ==> Tree::Object(held).member(name) == held[name],
        !held.contains_key(name) ==> Tree::Object(held).member(name) == Tree::Null,
        !(other is Object) ==> other.member(name) == Tree::Null,
        0 <= at < items.len() ==> Tree::List(items).item(at) == items[at],
        !(0 <= at < items.len()) ==> Tree::List(items).item(at) == Tree::Null,
        !(other is List) ==> other.item(at) == Tree::Null,
        Tree::Text(text).text() == Some(text),
        !(other is Text) ==> other.text() is None,
{
}

} // verus!
