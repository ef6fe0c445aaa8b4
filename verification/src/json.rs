//! JSON values: the type that the conversions read and build, its meaning as a
//! mathematical tree, and the passage to and from `serde_json`.

use vstd::prelude::*;

use crate::text::same_text;

verus! {

/// A number of `serde_json`: an integer or a finite fraction.
#[verifier::external_type_specification]
#[verifier::external_body]
pub struct ExNumber(serde_json::Number);

/// A JSON value of `serde_json`.
#[verifier::external_type_specification]
#[verifier::external_body]
pub struct ExValue(serde_json::Value);

/// What `serde_json::Number::as_i64` answers for a number.
pub uninterp spec fn number_as_i64(number: serde_json::Number) -> Option<i64>;

/// The tree that a `serde_json::Value` holds.
pub uninterp spec fn value_tree(value: serde_json::Value) -> Tree;

/// What `serde_json::from_str` reads out of a text: `None` where it rejects the
/// text.
pub uninterp spec fn parsed(text: Seq<char>) -> Option<Tree>;

/// The compact text that the `Display` of `serde_json::Value` writes for a tree.
pub uninterp spec fn rendered(tree: Tree) -> Seq<char>;

/// `serde_json::Number::as_i64`: the number as an `i64`, where it is an integer
/// in that range.
pub assume_specification[ serde_json::Number::as_i64 ](number: &serde_json::Number) -> (r: Option<
    i64,
>)
    ensures
        r == number_as_i64(*number),
;

/// The clone of a `serde_json::Number` is the same number.
pub assume_specification[ <serde_json::Number as Clone>::clone ](
    number: &serde_json::Number,
) -> (r: serde_json::Number)
    ensures
        r == *number,
;

/// `serde_json::Number::from` for an `i64`: an integer that reads back as the
/// same `i64`.
#[verifier::external_body]
fn number_from_i64(i: i64) -> (r: serde_json::Number)
    ensures
        number_as_i64(r) == Some(i),
{
    serde_json::Number::from(i)
}

/// `serde_json::Number::from` for a `usize` that no `i64` holds.
pub uninterp spec fn large_number(i: usize) -> serde_json::Number;

/// The number for a `usize`.
pub open spec fn index_num(i: usize) -> Num {
    if i <= i64::MAX {
        Num::Int(i as i64)
    } else {
        Num::Other(large_number(i))
    }
}

/// `serde_json::Number::from` for a `usize`: an integer that reads back as an
/// `i64` where one can hold it, and else does not.
#[verifier::external_body]
fn number_from_usize(i: usize) -> (r: serde_json::Number)
    ensures
        i <= i64::MAX ==> number_as_i64(r) == Some(i as i64),
        i > i64::MAX ==> number_as_i64(r) is None && r == large_number(i),
{
    serde_json::Number::from(i)
}

/// The number zero.
pub fn zero_number() -> (r: serde_json::Number)
    ensures
        number_tree(r) == Num::Int(0),
{
    number_from_i64(0)
}

/// Opens a `serde_json::Value` by one level: its variant, and what the variant
/// holds. The members of an object come out of `serde_json::Map::into_iter`,
/// each once, with its name.
#[verifier::external_body]
fn open_value(value: serde_json::Value) -> (r: Layer)
    ensures
        layer_tree(r) == value_tree(value),
        r matches Layer::Object(members) ==> distinct_names(members@),
{
    match value {
        serde_json::Value::Null => Layer::Null,
        serde_json::Value::Bool(b) => Layer::Bool(b),
        serde_json::Value::Number(n) => Layer::Number(n),
        serde_json::Value::String(s) => Layer::String(s),
        serde_json::Value::Array(items) => Layer::Array(items),
        serde_json::Value::Object(members) => Layer::Object(members.into_iter().collect()),
    }
}

/// Builds a `serde_json::Value` of the given variant. The members of an object,
/// whose names are all different, are collected into a `serde_json::Map`, each
/// under its name.
#[verifier::external_body]
fn close_value(layer: Layer) -> (r: serde_json::Value)
    requires
        layer matches Layer::Object(members) ==> distinct_names(members@),
    ensures
        value_tree(r) == layer_tree(layer),
{
    match layer {
        Layer::Null => serde_json::Value::Null,
        Layer::Bool(b) => serde_json::Value::Bool(b),
        Layer::Number(n) => serde_json::Value::Number(n),
        Layer::String(s) => serde_json::Value::String(s),
        Layer::Array(items) => serde_json::Value::Array(items),
        Layer::Object(members) => serde_json::Value::Object(members.into_iter().collect()),
    }
}

/// `serde_json::from_str` into a `serde_json::Value`: the value that the text
/// holds, or `None` where the text is rejected.
#[verifier::external_body]
fn read_value(text: &str) -> (r: Option<serde_json::Value>)
    ensures
        match r {
            Some(value) => parsed(text@) == Some(value_tree(value)),
            None => parsed(text@) is None,
        },
{
    serde_json::from_str(text).ok()
}

/// The `Display` of `serde_json::Value`: the compact text of the value. That of an
/// object starts with a brace.
#[verifier::external_body]
fn write_value(value: &serde_json::Value) -> (r: String)
    ensures
        r@ == rendered(value_tree(*value)),
        value_tree(*value) is Object ==> r@.len() > 0 && r@[0] == '{',
{
    value.to_string()
}

/// A JSON number: an integer in the range of `i64`, or any other number as
/// `serde_json` keeps it.
pub ghost enum Num {
    Int(i64),
    Other(serde_json::Number),
}

/// A JSON value as a mathematical tree. An object is a map from names to values:
/// the order of its members carries no meaning.
#[verifier::ext_equal]
pub ghost enum Tree {
    Null,
    Bool(bool),
    Number(Num),
    String(Seq<char>),
    Array(Seq<Tree>),
    Object(Map<Seq<char>, Tree>),
}

/// A JSON value.
pub enum Json {
    Null,
    Bool(bool),
    Number(serde_json::Number),
    String(String),
    Array(Vec<Json>),
    Object(JsonObject),
}

/// The members of a JSON object.
pub struct JsonObject {
    entries: Vec<(String, Json)>,
}

/// A value of `serde_json` opened by one level.
pub enum Layer {
    Null,
    Bool(bool),
    Number(serde_json::Number),
    String(String),
    Array(Vec<serde_json::Value>),
    Object(Vec<(String, serde_json::Value)>),
}

/// The number that a `serde_json::Number` stands for.
pub open spec fn number_tree(number: serde_json::Number) -> Num {
    match number_as_i64(number) {
        Some(i) => Num::Int(i),
        None => Num::Other(number),
    }
}

/// The last place in `entries` that carries `name`.
pub open spec fn find<V>(entries: Seq<(String, V)>, name: Seq<char>) -> Option<int>
    decreases entries.len(),
{
    if entries.len() == 0 {
        None
    } else if entries.last().0@ == name {
        Some(entries.len() - 1)
    } else {
        find(entries.drop_last(), name)
    }
}

/// No two entries carry the same name.
pub open spec fn distinct_names<V>(entries: Seq<(String, V)>) -> bool {
    forall|i: int, j: int|
        0 <= i < j < entries.len() ==> (#[trigger] entries[i]).0@ != (#[trigger] entries[j]).0@
}

/// The tree of a JSON value.
pub open spec fn json_tree(json: Json) -> Tree
    decreases json,
{
    match json {
        Json::Null => Tree::Null,
        Json::Bool(b) => Tree::Bool(b),
        Json::Number(n) => Tree::Number(number_tree(n)),
        Json::String(s) => Tree::String(s@),
        Json::Array(items) => Tree::Array(
            Seq::new(
                items@.len(),
                |i: int| if 0 <= i < items@.len() { json_tree(items@[i]) } else { Tree::Null },
            ),
        ),
        Json::Object(object) => Tree::Object(object_tree(object)),
    }
}

/// The members of an object, by name.
pub closed spec fn object_tree(object: JsonObject) -> Map<Seq<char>, Tree>
    decreases object,
{
    Map::new(
        |name: Seq<char>| find(object.entries@, name) is Some,
        |name: Seq<char>|
            {
                let i = find(object.entries@, name)->0;
                if 0 <= i < object.entries@.len() {
                    json_tree(object.entries@[i].1)
                } else {
                    Tree::Null
                }
            },
    )
}

impl View for Json {
    type V = Tree;

    open spec fn view(&self) -> Tree {
        json_tree(*self)
    }
}

impl View for JsonObject {
    type V = Map<Seq<char>, Tree>;

    open spec fn view(&self) -> Map<Seq<char>, Tree> {
        object_tree(*self)
    }
}

/// The trees of a sequence of values.
pub open spec fn trees(items: Seq<Json>) -> Seq<Tree> {
    items.map_values(|j: Json| j@)
}

/// The tree of a value that was opened by one level.
pub open spec fn layer_tree(layer: Layer) -> Tree {
    match layer {
        Layer::Null => Tree::Null,
        Layer::Bool(b) => Tree::Bool(b),
        Layer::Number(n) => Tree::Number(number_tree(n)),
        Layer::String(s) => Tree::String(s@),
        Layer::Array(items) => Tree::Array(items@.map_values(|v: serde_json::Value| value_tree(v))),
        Layer::Object(entries) => Tree::Object(
            Map::new(
                |name: Seq<char>| find(entries@, name) is Some,
                |name: Seq<char>| value_tree(entries@[find(entries@, name)->0].1),
            ),
        ),
    }
}

proof fn lemma_find<V>(entries: Seq<(String, V)>, name: Seq<char>)
    ensures
        match find(entries, name) {
            Some(i) => {
                &&& 0 <= i < entries.len()
                &&& entries[i].0@ == name
                &&& forall|j: int| i < j < entries.len() ==> (#[trigger] entries[j]).0@ != name
            },
            None => forall|j: int| 0 <= j < entries.len() ==> (#[trigger] entries[j]).0@ != name,
        },
    decreases entries.len(),
{
    if entries.len() > 0 && entries.last().0@ != name {
        lemma_find(entries.drop_last(), name);
        let shorter = entries.drop_last();
        assert forall|j: int| 0 <= j < shorter.len() implies entries[j] == #[trigger] shorter[j] by {}
        match find(entries, name) {
            Some(i) => {
                assert forall|j: int| i < j < entries.len() implies (#[trigger] entries[j]).0@
                    != name by {
                    if j < shorter.len() {
                        assert(shorter[j].0@ != name);
                    }
                }
            },
            None => {
                assert forall|j: int| 0 <= j < entries.len() implies (#[trigger] entries[j]).0@
                    != name by {
                    if j < shorter.len() {
                        assert(shorter[j].0@ != name);
                    }
                }
            },
        }
    }
}

/// Equal names in equal places are found in equal places.
proof fn lemma_find_names<V, W>(a: Seq<(String, V)>, b: Seq<(String, W)>, name: Seq<char>)
    requires
        a.len() == b.len(),
        forall|i: int| 0 <= i < a.len() ==> (#[trigger] a[i]).0@ == b[i].0@,
    ensures
        find(a, name) == find(b, name),
    decreases a.len(),
{
    if a.len() > 0 {
        assert forall|i: int| 0 <= i < a.len() - 1 implies (#[trigger] a.drop_last()[i]).0@
            == b.drop_last()[i].0@ by {
            assert(a[i].0@ == b[i].0@);
        }
        lemma_find_names(a.drop_last(), b.drop_last(), name);
    }
}

/// What is found by name in entries whose names stand in the same places.
proof fn lemma_same_names<V, W>(a: Seq<(String, V)>, b: Seq<(String, W)>)
    requires
        a.len() == b.len(),
        forall|i: int| 0 <= i < a.len() ==> (#[trigger] a[i]).0@ == b[i].0@,
    ensures
        forall|name: Seq<char>|
            #![trigger find(a, name)]
            #![trigger find(b, name)]
            find(a, name) == find(b, name) && (find(a, name) is Some ==> 0 <= find(a, name)->0
                < a.len()),
        distinct_names(b) ==> distinct_names(a),
{
    assert forall|name: Seq<char>|
        #![trigger find(a, name)]
        #![trigger find(b, name)]
        find(a, name) == find(b, name) && (find(a, name) is Some ==> 0 <= find(a, name)->0
            < a.len()) by {
        lemma_find_names(a, b, name);
        lemma_find(a, name);
    }
}

impl JsonObject {
    /// Every member has a name of its own.
    #[verifier::type_invariant]
    spec fn names_differ(self) -> bool {
        distinct_names(self.entries@)
    }

    /// An object without members.
    pub fn new() -> (r: Self)
        ensures
            r@ == Map::<Seq<char>, Tree>::empty(),
    {
        let r = JsonObject { entries: Vec::new() };
        assert(r@ =~= Map::<Seq<char>, Tree>::empty());
        r
    }

    /// The member of that name.
    pub fn get(&self, name: &str) -> (r: Option<&Json>)
        ensures
            match r {
                Some(json) => self@.dom().contains(name@) && self@[name@] == json@,
                None => !self@.dom().contains(name@),
            },
    {
        proof {
            lemma_find(self.entries@, name@);
        }
        let mut i: usize = self.entries.len();
        while i > 0
            invariant
                i <= self.entries.len(),
                forall|j: int| i <= j < self.entries.len() ==> (#[trigger] self.entries[j]).0@ != name@,
            decreases i,
        {
            i -= 1;
            if same_text(self.entries[i].0.as_str(), name) {
                proof {
                    lemma_find(self.entries@, name@);
                    assert(find(self.entries@, name@) == Some(i as int));
                }
                return Some(&self.entries[i].1);
            }
        }
        None
    }

    /// Sets the member of that name.
    pub fn insert(&mut self, name: &str, json: Json)
        ensures
            final(self)@ == old(self)@.insert(name@, json@),
    {
        proof {
            use_type_invariant(&*self);
        }
        let mut entries: Vec<(String, Json)> = Vec::new();
        std::mem::swap(&mut entries, &mut self.entries);
        let ghost before = entries@;
        let mut i: usize = entries.len();
        while i > 0
            invariant
                i <= entries.len(),
                entries@ == before,
                before == old(self).entries@,
                distinct_names(before),
                forall|j: int| i <= j < before.len() ==> (#[trigger] before[j]).0@ != name@,
            decreases i,
        {
            i -= 1;
            if same_text(entries[i].0.as_str(), name) {
                entries.set(i, (name.to_owned(), json));
                proof {
                    lemma_same_names(entries@, before);
                    lemma_find(before, name@);
                    assert(find(before, name@) == Some(i as int));
                    assert forall|n: Seq<char>| n != name@ && find(before, n) is Some implies find(
                        before,
                        n,
                    )->0 != i by {
                        lemma_find(before, n);
                    }
                }
                self.entries = entries;
                assert(self@ =~= old(self)@.insert(name@, json@));
                return;
            }
        }
        entries.push((name.to_owned(), json));
        proof {
            assert(entries@.drop_last() =~= before);
            assert forall|n: Seq<char>| n != name@ && find(before, n) is Some implies 0 <= find(
                before,
                n,
            )->0 < before.len() by {
                lemma_find(before, n);
            }
        }
        self.entries = entries;
        assert(self@ =~= old(self)@.insert(name@, json@));
    }
}

/// The member of that name, where the value is an object that has it.
pub open spec fn member(tree: Tree, name: Seq<char>) -> Option<Tree> {
    match tree {
        Tree::Object(members) => if members.dom().contains(name) {
            Some(members[name])
        } else {
            None
        },
        _ => None,
    }
}

/// The text of a value, where it is a string.
pub open spec fn string_of(tree: Option<Tree>) -> Option<Seq<char>> {
    match tree {
        Some(Tree::String(s)) => Some(s),
        _ => None,
    }
}

/// The items of a value, where it is an array.
pub open spec fn items_of(tree: Option<Tree>) -> Option<Seq<Tree>> {
    match tree {
        Some(Tree::Array(items)) => Some(items),
        _ => None,
    }
}

/// The integer of a value, where it is a number in the range of `i64`.
pub open spec fn integer_of(tree: Option<Tree>) -> Option<i64> {
    match tree {
        Some(Tree::Number(Num::Int(i))) => Some(i),
        _ => None,
    }
}

/// The truth value of a value, where it is one.
pub open spec fn bool_of(tree: Option<Tree>) -> Option<bool> {
    match tree {
        Some(Tree::Bool(b)) => Some(b),
        _ => None,
    }
}

impl Json {
    /// The member of that name, where the value is an object that has it.
    pub fn get(&self, name: &str) -> (r: Option<&Json>)
        ensures
            match r {
                Some(json) => member(self@, name@) == Some(json@),
                None => member(self@, name@) is None,
            },
    {
        match self {
            Json::Object(object) => object.get(name),
            _ => None,
        }
    }

    /// The text of a string.
    pub fn as_str(&self) -> (r: Option<&str>)
        ensures
            match r {
                Some(s) => string_of(Some(self@)) == Some(s@),
                None => string_of(Some(self@)) is None,
            },
    {
        match self {
            Json::String(s) => Some(s.as_str()),
            _ => None,
        }
    }

    /// The items of an array.
    pub fn as_array(&self) -> (r: Option<&Vec<Json>>)
        ensures
            match r {
                Some(items) => items_of(Some(self@)) == Some(trees(items@)),
                None => items_of(Some(self@)) is None,
            },
    {
        match self {
            Json::Array(items) => {
                assert(self@->Array_0 =~= trees(items@));
                Some(items)
            },
            _ => None,
        }
    }

    /// The integer of a number, where `i64` can hold it.
    pub fn as_i64(&self) -> (r: Option<i64>)
        ensures
            r == integer_of(Some(self@)),
    {
        match self {
            Json::Number(n) => n.as_i64(),
            _ => None,
        }
    }

    /// The truth value.
    pub fn as_bool(&self) -> (r: Option<bool>)
        ensures
            r == bool_of(Some(self@)),
    {
        match self {
            Json::Bool(b) => Some(*b),
            _ => None,
        }
    }

    /// A string.
    pub fn string(text: &str) -> (r: Json)
        ensures
            r@ == Tree::String(text@),
    {
        Json::String(text.to_owned())
    }

    /// An integer.
    pub fn integer(i: i64) -> (r: Json)
        ensures
            r@ == Tree::Number(Num::Int(i)),
    {
        Json::Number(number_from_i64(i))
    }

    /// An index.
    pub fn index(i: usize) -> (r: Json)
        ensures
            r@ == Tree::Number(index_num(i)),
    {
        Json::Number(number_from_usize(i))
    }

    /// An array.
    pub fn array(items: Vec<Json>) -> (r: Json)
        ensures
            r@ == Tree::Array(trees(items@)),
    {
        let r = Json::Array(items);
        assert(r@->Array_0 =~= trees(items@));
        r
    }

    /// The library's form of a `serde_json` value.
    pub fn from_serde(value: serde_json::Value) -> (r: Json)
        ensures
            r@ == value_tree(value),
        decreases value_tree(value),
    {
        match open_value(value) {
            Layer::Null => Json::Null,
            Layer::Bool(b) => Json::Bool(b),
            Layer::Number(n) => Json::Number(n),
            Layer::String(s) => Json::String(s),
            Layer::Array(values) => {
                let ghost all = values@;
                let mut items: Vec<Json> = Vec::new();
                for v in it: values
                    invariant
                        it.seq() == all,
                        value_tree(value) == Tree::Array(all.map_values(|v: serde_json::Value| value_tree(v))),
                        items@.len() == it.index(),
                        forall|i: int| 0 <= i < items@.len() ==> (#[trigger] items@[i])@ == value_tree(all[i]),
                {
                    proof {
                        assert(value_tree(value)->Array_0[it.index() as int] == value_tree(v));
                    }
                    items.push(Json::from_serde(v));
                }
                let r = Json::Array(items);
                assert(r@->Array_0 =~= value_tree(value)->Array_0);
                r
            },
            Layer::Object(members) => {
                let ghost all = members@;
                let mut entries: Vec<(String, Json)> = Vec::new();
                for m in it: members
                    invariant
                        it.seq() == all,
                        distinct_names(all),
                        value_tree(value) == layer_tree(Layer::Object(members)),
                        all == members@,
                        entries@.len() == it.index(),
                        forall|i: int| 0 <= i < entries@.len() ==> (#[trigger] entries@[i]).0@ == all[i].0@
                            && entries@[i].1@ == value_tree(all[i].1),
                {
                    proof {
                        lemma_find(all, m.0@);
                        let tree = value_tree(value)->Object_0;
                        assert(all[it.index() as int] == m);
                        assert(find(all, m.0@) == Some(it.index() as int));
                        assert(tree.dom().contains(m.0@));
                        assert(tree[m.0@] == value_tree(m.1));
                        assert(decreases_to!(value_tree(value) => tree[m.0@]));
                    }
                    let (name, v) = m;
                    entries.push((name, Json::from_serde(v)));
                }
                proof {
                    lemma_same_names(entries@, all);
                }
                let object = JsonObject { entries };
                assert(object@ =~= value_tree(value)->Object_0);
                Json::Object(object)
            },
        }
    }

    /// The `serde_json` form of the value.
    pub fn to_serde(&self) -> (r: serde_json::Value)
        ensures
            value_tree(r) == self@,
        decreases self,
    {
        match self {
            Json::Null => close_value(Layer::Null),
            Json::Bool(b) => close_value(Layer::Bool(*b)),
            Json::Number(n) => close_value(Layer::Number(n.clone())),
            Json::String(s) => close_value(Layer::String(s.clone())),
            Json::Array(items) => {
                let mut values: Vec<serde_json::Value> = Vec::new();
                let mut i: usize = 0;
                while i < items.len()
                    invariant
                        i <= items.len(),
                        *self == Json::Array(*items),
                        values@.len() == i,
                        forall|j: int| 0 <= j < i ==> value_tree(#[trigger] values@[j]) == items@[j]@,
                    decreases items.len() - i,
                {
                    assert(decreases_to!(self => self->Array_0@[i as int]));
                    values.push(items[i].to_serde());
                    i += 1;
                }
                assert(layer_tree(Layer::Array(values))->Array_0 =~= self@->Array_0);
                close_value(Layer::Array(values))
            },
            Json::Object(object) => {
                let mut members: Vec<(String, serde_json::Value)> = Vec::new();
                let mut i: usize = 0;
                while i < object.entries.len()
                    invariant
                        i <= object.entries.len(),
                        *self == Json::Object(*object),
                        members@.len() == i,
                        forall|j: int| 0 <= j < i ==> (#[trigger] members@[j]).0@ == object.entries@[j].0@
                            && value_tree(members@[j].1) == object.entries@[j].1@,
                    decreases object.entries.len() - i,
                {
                    assert(decreases_to!(self => self->Object_0.entries@[i as int].1));
                    members.push((object.entries[i].0.clone(), object.entries[i].1.to_serde()));
                    i += 1;
                }
                proof {
                    use_type_invariant(object);
                    lemma_same_names(members@, object.entries@);
                    assert(layer_tree(Layer::Object(members))->Object_0 =~= object@);
                }
                close_value(Layer::Object(members))
            },
        }
    }

    /// Reads a JSON text; `None` where it is not one.
    pub fn parse(text: &str) -> (r: Option<Json>)
        ensures
            match r {
                Some(json) => parsed(text@) == Some(json@),
                None => parsed(text@) is None,
            },
    {
        match read_value(text) {
            Some(value) => Some(Json::from_serde(value)),
            None => None,
        }
    }

    /// The compact JSON text of the value.
    pub fn to_text(&self) -> (r: String)
        ensures
            r@ == rendered(self@),
            self@ is Object ==> r@.len() > 0 && r@[0] == '{',
    {
        write_value(&self.to_serde())
    }
}

impl Clone for Json {
    fn clone(&self) -> (r: Self)
        ensures
            r@ == self@,
        decreases self,
    {
        match self {
            Json::Null => Json::Null,
            Json::Bool(b) => Json::Bool(*b),
            Json::Number(n) => Json::Number(n.clone()),
            Json::String(s) => Json::String(s.clone()),
            Json::Array(items) => {
                let mut copies: Vec<Json> = Vec::new();
                let mut i: usize = 0;
                while i < items.len()
                    invariant
                        i <= items.len(),
                        *self == Json::Array(*items),
                        copies@.len() == i,
                        forall|j: int| 0 <= j < i ==> (#[trigger] copies@[j])@ == items@[j]@,
                    decreases items.len() - i,
                {
                    assert(decreases_to!(self => self->Array_0@[i as int]));
                    copies.push(items[i].clone());
                    i += 1;
                }
                let r = Json::Array(copies);
                assert(r@->Array_0 =~= self@->Array_0);
                r
            },
            Json::Object(object) => {
                let mut entries: Vec<(String, Json)> = Vec::new();
                let mut i: usize = 0;
                while i < object.entries.len()
                    invariant
                        i <= object.entries.len(),
                        *self == Json::Object(*object),
                        entries@.len() == i,
                        forall|j: int| 0 <= j < i ==> (#[trigger] entries@[j]).0@ == object.entries@[j].0@
                            && entries@[j].1@ == object.entries@[j].1@,
                    decreases object.entries.len() - i,
                {
                    assert(decreases_to!(self => self->Object_0.entries@[i as int].1));
                    entries.push((object.entries[i].0.clone(), object.entries[i].1.clone()));
                    i += 1;
                }
                proof {
                    use_type_invariant(object);
                    lemma_same_names(entries@, object.entries@);
                }
                let copy = JsonObject { entries };
                assert(copy@ =~= object@);
                Json::Object(copy)
            },
        }
    }
}

} // verus!
