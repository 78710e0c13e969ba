//! JSON documents: the value type that the other modules work on, its
//! mathematical model, and reading and writing JSON text.

use serde_json::{Number, Value};
use vstd::prelude::*;

use crate::text::same;

verus! {

/// A JSON number as `serde_json` holds it.
#[verifier::external_type_specification]
#[verifier::external_body]
pub struct ExNumber(serde_json::Number);

/// A JSON value as `serde_json` holds it.
#[verifier::external_type_specification]
#[verifier::external_body]
pub struct ExValue(serde_json::Value);

/// The integer that a number is, or `None` for a number with a fraction or an
/// exponent: what `serde_json::Number::as_i128` returns.
pub uninterp spec fn number_int(n: serde_json::Number) -> Option<int>;

/// The document that a `serde_json::Value` holds.
pub uninterp spec fn value_tree(v: serde_json::Value) -> Tree;

/// What `serde_json::from_str` makes of a text: the document, or `None` where the
/// text is no JSON document.
pub uninterp spec fn json_parse(text: Seq<char>) -> Option<Tree>;

/// The text that `serde_json::to_string` writes for a document.
pub uninterp spec fn json_compact(t: Tree) -> Seq<char>;

/// The text that `serde_json::to_string_pretty` writes for a document.
pub uninterp spec fn json_pretty(t: Tree) -> Seq<char>;

/// The mathematical model of a JSON document.
#[verifier::ext_equal]
pub enum Tree {
    Null,
    Bool(bool),
    /// An integer.
    Int(int),
    /// A number that is no integer.
    Real(serde_json::Number),
    Text(Seq<char>),
    List(Seq<Tree>),
    Dict(Map<Seq<char>, Tree>),
}

/// A JSON document. Where a name occurs twice in a `Dict` the later entry counts.
pub enum Json {
    Null,
    Bool(bool),
    Num(serde_json::Number),
    Text(String),
    List(Vec<Json>),
    Dict(Vec<(String, Json)>),
}

/// One level of a `serde_json::Value`.
pub enum Node {
    Null,
    Bool(bool),
    Num(serde_json::Number),
    Text(String),
    List(Vec<serde_json::Value>),
    Dict(Vec<(String, serde_json::Value)>),
}

/// What a number stands for in a document.
pub open spec fn number_tree(n: serde_json::Number) -> Tree {
    match number_int(n) {
        Some(i) => Tree::Int(i),
        None => Tree::Real(n),
    }
}

impl Json {
    /// The document that this value holds.
    pub open spec fn tree(self) -> Tree
        decreases self,
    {
        match self {
            Json::Null => Tree::Null,
            Json::Bool(b) => Tree::Bool(b),
            Json::Num(n) => number_tree(n),
            Json::Text(s) => Tree::Text(s@),
            Json::List(a) => Tree::List(
                Seq::new(
                    a@.len(),
                    |i: int|
                        if 0 <= i < a@.len() {
                            a@[i].tree()
                        } else {
                            Tree::Null
                        },
                ),
            ),
            Json::Dict(m) => Tree::Dict(dict_map(m@, m@.len())),
        }
    }
}

/// The members that the first `n` entries of `m` make up.
pub open spec fn dict_map(m: Seq<(String, Json)>, n: nat) -> Map<Seq<char>, Tree>
    decreases m, n,
{
    if n == 0 || n > m.len() {
        Map::empty()
    } else {
        dict_map(m, (n - 1) as nat).insert(m[n - 1].0@, m[n - 1].1.tree())
    }
}

/// The members that the first `n` entries of `m` make up.
pub open spec fn value_map(m: Seq<(String, serde_json::Value)>, n: nat) -> Map<Seq<char>, Tree>
    decreases n,
{
    if n == 0 || n > m.len() {
        Map::empty()
    } else {
        value_map(m, (n - 1) as nat).insert(m[n - 1].0@, value_tree(m[n - 1].1))
    }
}

impl Node {
    /// The document whose outermost level this is.
    pub open spec fn tree(self) -> Tree {
        match self {
            Node::Null => Tree::Null,
            Node::Bool(b) => Tree::Bool(b),
            Node::Num(n) => number_tree(n),
            Node::Text(s) => Tree::Text(s@),
            Node::List(a) => Tree::List(a@.map_values(|v: serde_json::Value| value_tree(v))),
            Node::Dict(m) => Tree::Dict(value_map(m@, m@.len())),
        }
    }
}

/// Whether no two entries have one name.
pub open spec fn distinct_names(m: Seq<(String, serde_json::Value)>) -> bool {
    forall|i: int, j: int| 0 <= i < j < m.len() ==> m[i].0@ != m[j].0@
}

/// Takes a `serde_json::Value` apart by one level. The entries of an object come
/// in the order of its map's `into_iter`, each name once.
#[verifier::external_body]
fn open_value(v: Value) -> (r: Node)
    ensures
        r.tree() == value_tree(v),
        r matches Node::Dict(m) ==> distinct_names(m@),
{
    match v {
        Value::Null => Node::Null,
        Value::Bool(b) => Node::Bool(b),
        Value::Number(n) => Node::Num(n),
        Value::String(s) => Node::Text(s),
        Value::Array(a) => Node::List(a),
        Value::Object(o) => Node::Dict(o.into_iter().collect()),
    }
}

/// Puts a `serde_json::Value` together from one level; of entries with one name
/// `serde_json::Map` keeps the last.
#[verifier::external_body]
fn close_value(n: Node) -> (r: Value)
    ensures
        value_tree(r) == n.tree(),
{
    match n {
        Node::Null => Value::Null,
        Node::Bool(b) => Value::Bool(b),
        Node::Num(n) => Value::Number(n),
        Node::Text(s) => Value::String(s),
        Node::List(a) => Value::Array(a),
        Node::Dict(m) => Value::Object(m.into_iter().collect()),
    }
}

/// `serde_json::from_str` into a `serde_json::Value`: the document that the text
/// denotes, or `None` where it reports an error.
#[verifier::external_body]
fn read_value(text: &str) -> (r: Option<Value>)
    ensures
        match r {
            Some(v) => json_parse(text@) == Some(value_tree(v)),
            None => json_parse(text@) is None,
        },
{
    serde_json::from_str::<Value>(text).ok()
}

/// `serde_json::to_string` of a `serde_json::Value`, which has only text keys and
/// so never fails.
#[verifier::external_body]
fn write_value(v: &Value) -> (r: Option<String>)
    ensures
        r is Some,
        r->Some_0@ == json_compact(value_tree(*v)),
{
    serde_json::to_string(v).ok()
}

/// `serde_json::to_string_pretty` of a `serde_json::Value`, which has only text
/// keys and so never fails.
#[verifier::external_body]
fn write_value_pretty(v: &Value) -> (r: Option<String>)
    ensures
        r is Some,
        r->Some_0@ == json_pretty(value_tree(*v)),
{
    serde_json::to_string_pretty(v).ok()
}

/// `serde_json::Number::as_i64`: the integer, if the number is one in the range
/// of `i64`.
pub assume_specification[ serde_json::Number::as_i64 ](n: &serde_json::Number) -> (r: Option<i64>)
    ensures
        match number_int(*n) {
            Some(i) => if i64::MIN <= i <= i64::MAX {
                r == Some(i as i64)
            } else {
                r is None
            },
            None => r is None,
        },
;

/// `serde_json::Number` from an `i64`: that integer.
#[verifier::external_body]
fn number_from(i: i64) -> (r: Number)
    ensures
        number_int(r) == Some(i as int),
{
    Number::from(i)
}

/// A clone of a `serde_json::Number` is the same number.
#[verifier::external_body]
fn number_copy(n: &Number) -> (r: Number)
    ensures
        r == *n,
{
    n.clone()
}

/// With each name once, every entry is a member of `value_map`.
proof fn lemma_value_map(m: Seq<(String, serde_json::Value)>, n: nat)
    requires
        n <= m.len(),
        distinct_names(m),
    ensures
        value_map(m, n).dom().finite(),
        forall|k: Seq<char>|
            value_map(m, n).dom().contains(k) ==> exists|i: int| 0 <= i < n && m[i].0@ == k,
        forall|i: int|
            0 <= i < n ==> value_map(m, n).dom().contains(#[trigger] m[i].0@) && value_map(
                m,
                n,
            )[m[i].0@] == value_tree(m[i].1),
    decreases n,
{
    if n > 0 {
        lemma_value_map(m, (n - 1) as nat);
    }
}

/// The members do not depend on what follows the entries that count.
proof fn lemma_dict_map_prefix(a: Seq<(String, Json)>, b: Seq<(String, Json)>, n: nat)
    requires
        n <= a.len(),
        n <= b.len(),
        forall|i: int|
            0 <= i < n ==> (#[trigger] a[i]).0@ == b[i].0@ && a[i].1.tree() == b[i].1.tree(),
    ensures
        dict_map(a, n) == dict_map(b, n),
    decreases n,
{
    if n > 0 {
        lemma_dict_map_prefix(a, b, (n - 1) as nat);
    }
}

/// The document that a `serde_json::Value` holds.
pub fn from_value(v: Value) -> (r: Json)
    ensures
        r.tree() == value_tree(v),
    decreases value_tree(v),
{
    match open_value(v) {
        Node::Null => Json::Null,
        Node::Bool(b) => Json::Bool(b),
        Node::Num(n) => Json::Num(n),
        Node::Text(s) => Json::Text(s),
        Node::List(a) => {
            let ghost trees = a@.map_values(|v: serde_json::Value| value_tree(v));
            let ghost items = a@;
            let mut out: Vec<Json> = Vec::new();
            for x in it: a.into_iter()
                invariant
                    it.seq() == items,
                    trees == items.map_values(|v: serde_json::Value| value_tree(v)),
                    value_tree(v) == Tree::List(trees),
                    out@.len() == it.index(),
                    forall|i: int| 0 <= i < out@.len() ==> (#[trigger] out@[i]).tree() == trees[i],
            {
                proof {
                    assert(x == items[it.index()]);
                    assert(trees[it.index()] == value_tree(x));
                    assert(decreases_to!(value_tree(v) => value_tree(v)->List_0));
                    assert(decreases_to!(trees => trees[it.index()]));
                }
                out.push(from_value(x));
            }
            let r = Json::List(out);
            assert(r.tree()->List_0 =~= trees);
            r
        },
        Node::Dict(m) => {
            let ghost members = value_map(m@, m@.len());
            let ghost items = m@;
            proof {
                lemma_value_map(items, items.len());
            }
            let mut out: Vec<(String, Json)> = Vec::new();
            for x in it: m.into_iter()
                invariant
                    it.seq() == items,
                    distinct_names(items),
                    members == value_map(items, items.len()),
                    members.dom().finite(),
                    forall|i: int|
                        0 <= i < items.len() ==> members.dom().contains(#[trigger] items[i].0@)
                            && members[items[i].0@] == value_tree(items[i].1),
                    value_tree(v) == Tree::Dict(members),
                    out@.len() == it.index(),
                    dict_map(out@, out@.len()) == value_map(items, it.index() as nat),
            {
                let ghost before = out@;
                proof {
                    assert(x == items[it.index()]);
                    assert(members.dom().contains(items[it.index()].0@));
                    assert(decreases_to!(value_tree(v) => value_tree(v)->Dict_0));
                    assert(decreases_to!(members => members[x.0@]));
                }
                let (name, inner) = x;
                out.push((name, from_value(inner)));
                proof {
                    lemma_dict_map_prefix(before, out@, before.len());
                }
            }
            Json::Dict(out)
        },
    }
}

/// A `serde_json::Value` that holds the document.
pub fn to_value(j: &Json) -> (r: Value)
    ensures
        value_tree(r) == j.tree(),
    decreases j,
{
    match j {
        Json::Null => close_value(Node::Null),
        Json::Bool(b) => close_value(Node::Bool(*b)),
        Json::Num(n) => close_value(Node::Num(number_copy(n))),
        Json::Text(s) => close_value(Node::Text(s.clone())),
        Json::List(a) => {
            let mut out: Vec<Value> = Vec::new();
            let mut i: usize = 0;
            while i < a.len()
                invariant
                    j == Json::List(*a),
                    i <= a.len(),
                    out@.len() == i,
                    forall|k: int| 0 <= k < i ==> value_tree(#[trigger] out@[k]) == a@[k].tree(),
                decreases a.len() - i,
            {
                assert(decreases_to!(j => a@[i as int])) by {
                    assert(decreases_to!(j => j->List_0));
                    assert(decreases_to!(a => a@));
                    assert(decreases_to!(a@ => a@[i as int]));
                }
                out.push(to_value(&a[i]));
                i = i + 1;
            }
            let node = Node::List(out);
            assert(node.tree()->List_0 =~= j.tree()->List_0);
            close_value(node)
        },
        Json::Dict(m) => {
            let mut out: Vec<(String, Value)> = Vec::new();
            let mut i: usize = 0;
            while i < m.len()
                invariant
                    j == Json::Dict(*m),
                    i <= m.len(),
                    out@.len() == i,
                    value_map(out@, i as nat) == dict_map(m@, i as nat),
                decreases m.len() - i,
            {
                let ghost before = out@;
                assert(decreases_to!(j => m@[i as int].1)) by {
                    assert(decreases_to!(j => j->Dict_0));
                    assert(decreases_to!(m => m@));
                    assert(decreases_to!(m@ => m@[i as int]));
                    assert(decreases_to!(m@[i as int] => m@[i as int].1));
                }
                out.push((m[i].0.clone(), to_value(&m[i].1)));
                proof {
                    lemma_value_map_prefix(before, out@, i as nat);
                }
                i = i + 1;
            }
            close_value(Node::Dict(out))
        },
    }
}

/// The members do not depend on what follows the entries that count.
proof fn lemma_value_map_prefix(
    a: Seq<(String, serde_json::Value)>,
    b: Seq<(String, serde_json::Value)>,
    n: nat,
)
    requires
        n <= a.len(),
        n <= b.len(),
        forall|i: int| 0 <= i < n ==> a[i] == b[i],
    ensures
        value_map(a, n) == value_map(b, n),
    decreases n,
{
    if n > 0 {
        lemma_value_map_prefix(a, b, (n - 1) as nat);
    }
}

/// Reads a document from JSON text; `None` where the text is none.
pub fn parse(text: &str) -> (r: Option<Json>)
    ensures
        match r {
            Some(j) => json_parse(text@) == Some(j.tree()),
            None => json_parse(text@) is None,
        },
{
    match read_value(text) {
        Some(v) => Some(from_value(v)),
        None => None,
    }
}

/// The document as JSON text on one line.
pub fn to_text(j: &Json) -> (r: Option<String>)
    ensures
        r is Some,
        r->Some_0@ == json_compact(j.tree()),
{
    let v = to_value(j);
    write_value(&v)
}

/// The document as indented JSON text.
pub fn to_text_pretty(j: &Json) -> (r: Option<String>)
    ensures
        r is Some,
        r->Some_0@ == json_pretty(j.tree()),
{
    let v = to_value(j);
    write_value_pretty(&v)
}

impl Tree {
    /// The member with name `k`, if this is an object that has one.
    pub open spec fn get(self, k: Seq<char>) -> Option<Tree> {
        match self {
            Tree::Dict(m) => if m.dom().contains(k) {
                Some(m[k])
            } else {
                None
            },
            _ => None,
        }
    }

    /// The element at position `i`, if this is an array that has one.
    pub open spec fn at(self, i: int) -> Option<Tree> {
        match self {
            Tree::List(a) => if 0 <= i < a.len() {
                Some(a[i])
            } else {
                None
            },
            _ => None,
        }
    }

    /// The text, if this is one.
    pub open spec fn text(self) -> Option<Seq<char>> {
        match self {
            Tree::Text(s) => Some(s),
            _ => None,
        }
    }

    /// The integer, if this is one in the range of `i64`.
    pub open spec fn int64(self) -> Option<i64> {
        match self {
            Tree::Int(i) => if i64::MIN <= i <= i64::MAX {
                Some(i as i64)
            } else {
                None
            },
            _ => None,
        }
    }

    /// The truth value, if this is one.
    pub open spec fn flag(self) -> Option<bool> {
        match self {
            Tree::Bool(b) => Some(b),
            _ => None,
        }
    }

    /// The text of the member `k`, if there is such a member and it is a text.
    pub open spec fn text_of(self, k: Seq<char>) -> Option<Seq<char>> {
        match self.get(k) {
            Some(t) => t.text(),
            None => None,
        }
    }

    /// The text of the member `k`, or the empty text.
    pub open spec fn text_or_empty(self, k: Seq<char>) -> Seq<char> {
        match self.text_of(k) {
            Some(s) => s,
            None => Seq::empty(),
        }
    }

    /// The integer of the member `k`, if there is such a member and it is an
    /// integer in the range of `i64`.
    pub open spec fn int_of(self, k: Seq<char>) -> Option<i64> {
        match self.get(k) {
            Some(t) => t.int64(),
            None => None,
        }
    }

    /// The truth value of the member `k`, if there is such a member and it is one.
    pub open spec fn flag_of(self, k: Seq<char>) -> Option<bool> {
        match self.get(k) {
            Some(t) => t.flag(),
            None => None,
        }
    }

    /// This object with the member `k` set to `v`.
    pub open spec fn with(self, k: Seq<char>, v: Tree) -> Tree {
        match self {
            Tree::Dict(m) => Tree::Dict(m.insert(k, v)),
            _ => self,
        }
    }
}

/// The document of an optional value.
pub open spec fn opt_tree(j: Option<&Json>) -> Option<Tree> {
    match j {
        Some(x) => Some(x.tree()),
        None => None,
    }
}

/// The document of an optional value that is owned.
pub open spec fn kept(j: Option<Json>) -> Option<Tree> {
    match j {
        Some(x) => Some(x.tree()),
        None => None,
    }
}

/// The documents of a sequence of values.
pub open spec fn trees(s: Seq<Json>) -> Seq<Tree> {
    s.map_values(|j: Json| j.tree())
}

/// Entries with other names do not matter for `k`.
proof fn lemma_dict_tail(m: Seq<(String, Json)>, i: nat, n: nat, k: Seq<char>)
    requires
        i <= n <= m.len(),
        forall|j: int| i <= j < n ==> (#[trigger] m[j]).0@ != k,
    ensures
        dict_map(m, n).dom().contains(k) == dict_map(m, i).dom().contains(k),
        dict_map(m, n)[k] == dict_map(m, i)[k],
    decreases n,
{
    if i < n {
        lemma_dict_tail(m, i, (n - 1) as nat, k);
    }
}

/// Setting the value of the last entry with name `k` sets the member `k`.
proof fn lemma_dict_set(
    m: Seq<(String, Json)>,
    w: Seq<(String, Json)>,
    i: nat,
    n: nat,
    k: Seq<char>,
    v: Tree,
)
    requires
        i < n <= m.len(),
        m.len() == w.len(),
        m[i as int].0@ == k,
        w[i as int].0@ == k,
        w[i as int].1.tree() == v,
        forall|j: int| 0 <= j < n && j != i ==> m[j] == w[j],
        forall|j: int| i < j < n ==> (#[trigger] m[j]).0@ != k,
    ensures
        dict_map(w, n) =~= dict_map(m, n).insert(k, v),
    decreases n,
{
    if i + 1 == n {
        lemma_dict_map_prefix(m, w, i);
    } else {
        lemma_dict_set(m, w, i, (n - 1) as nat, k, v);
        assert(m[n - 1] == w[n - 1]);
    }
}

/// The position of the last entry with name `k`.
fn last_entry(m: &Vec<(String, Json)>, k: &str) -> (r: Option<usize>)
    ensures
        match r {
            Some(i) => i < m@.len() && m@[i as int].0@ == k@ && forall|j: int|
                i < j < m@.len() ==> (#[trigger] m@[j]).0@ != k@,
            None => forall|j: int| 0 <= j < m@.len() ==> (#[trigger] m@[j]).0@ != k@,
        },
{
    let mut i: usize = m.len();
    while i > 0
        invariant
            i <= m@.len(),
            forall|j: int| i <= j < m@.len() ==> (#[trigger] m@[j]).0@ != k@,
        decreases i,
    {
        i = i - 1;
        if same(m[i].0.as_str(), k) {
            return Some(i);
        }
    }
    None
}

impl Json {
    /// A text.
    pub fn text(s: &str) -> (r: Json)
        ensures
            r.tree() == Tree::Text(s@),
    {
        Json::Text(s.to_owned())
    }

    /// An integer.
    pub fn integer(i: i64) -> (r: Json)
        ensures
            r.tree() == Tree::Int(i as int),
    {
        Json::Num(number_from(i))
    }

    /// An object without members.
    pub fn dict() -> (r: Json)
        ensures
            r.tree() == Tree::Dict(Map::empty()),
    {
        let m: Vec<(String, Json)> = Vec::new();
        assert(dict_map(m@, 0) == Map::<Seq<char>, Tree>::empty());
        Json::Dict(m)
    }

    /// The member with name `k`, if this is an object that has one.
    pub fn get(&self, k: &str) -> (r: Option<&Json>)
        ensures
            opt_tree(r) == self.tree().get(k@),
            r matches Some(x) ==> decreases_to!(self => x),
    {
        match self {
            Json::Dict(m) => {
                match last_entry(m, k) {
                    Some(i) => {
                        proof {
                            lemma_dict_tail(m@, (i + 1) as nat, m@.len(), k@);
                            assert(decreases_to!(self => self->Dict_0));
                            assert(decreases_to!(m => m@));
                            assert(decreases_to!(m@ => m@[i as int]));
                            assert(decreases_to!(m@[i as int] => m@[i as int].1));
                        }
                        Some(&m[i].1)
                    },
                    None => {
                        proof {
                            lemma_dict_tail(m@, 0, m@.len(), k@);
                        }
                        None
                    },
                }
            },
            _ => None,
        }
    }

    /// The element at position `i`, if this is an array that has one.
    pub fn at(&self, i: usize) -> (r: Option<&Json>)
        ensures
            opt_tree(r) == self.tree().at(i as int),
    {
        match self {
            Json::List(a) => if i < a.len() {
                Some(&a[i])
            } else {
                None
            },
            _ => None,
        }
    }

    /// The text, if this is one.
    pub fn as_str(&self) -> (r: Option<&str>)
        ensures
            match r {
                Some(s) => self.tree().text() == Some(s@),
                None => self.tree().text() is None,
            },
    {
        match self {
            Json::Text(s) => Some(s.as_str()),
            _ => None,
        }
    }

    /// The integer, if this is one in the range of `i64`.
    pub fn as_i64(&self) -> (r: Option<i64>)
        ensures
            r == self.tree().int64(),
    {
        match self {
            Json::Num(n) => n.as_i64(),
            _ => None,
        }
    }

    /// The truth value, if this is one.
    pub fn as_bool(&self) -> (r: Option<bool>)
        ensures
            r == self.tree().flag(),
    {
        match self {
            Json::Bool(b) => Some(*b),
            _ => None,
        }
    }

    /// The elements, if this is an array.
    pub fn as_list(&self) -> (r: Option<&Vec<Json>>)
        ensures
            match r {
                Some(a) => self.tree() == Tree::List(trees(a@)),
                None => !(self.tree() is List),
            },
    {
        match self {
            Json::List(a) => {
                assert(self.tree()->List_0 =~= trees(a@));
                Some(a)
            },
            _ => None,
        }
    }

    /// Whether this is an object.
    pub fn is_dict(&self) -> (r: bool)
        ensures
            r == (self.tree() is Dict),
    {
        matches!(self, Json::Dict(_))
    }

    /// Whether this is `null`.
    pub fn is_null(&self) -> (r: bool)
        ensures
            r == (self.tree() is Null),
    {
        matches!(self, Json::Null)
    }

    /// The text of the member `k`, if there is such a member and it is a text.
    pub fn str_of(&self, k: &str) -> (r: Option<&str>)
        ensures
            match r {
                Some(s) => self.tree().text_of(k@) == Some(s@),
                None => self.tree().text_of(k@) is None,
            },
    {
        match self.get(k) {
            Some(j) => j.as_str(),
            None => None,
        }
    }

    /// The text of the member `k`, or the empty text.
    pub fn str_or_empty(&self, k: &str) -> (r: String)
        ensures
            r@ == self.tree().text_or_empty(k@),
    {
        match self.str_of(k) {
            Some(s) => s.to_owned(),
            None => String::new(),
        }
    }

    /// The integer of the member `k`, if there is such a member and it is an
    /// integer in the range of `i64`.
    pub fn int_of(&self, k: &str) -> (r: Option<i64>)
        ensures
            r == self.tree().int_of(k@),
    {
        match self.get(k) {
            Some(j) => j.as_i64(),
            None => None,
        }
    }

    /// The truth value of the member `k`, if there is such a member and it is one.
    pub fn flag_of(&self, k: &str) -> (r: Option<bool>)
        ensures
            r == self.tree().flag_of(k@),
    {
        match self.get(k) {
            Some(j) => j.as_bool(),
            None => None,
        }
    }

    /// Sets the member `k` to `v`; a value that is no object stays as it is.
    pub fn set(&mut self, k: &str, v: Json)
        ensures
            final(self).tree() == old(self).tree().with(k@, v.tree()),
    {
        match self {
            Json::Dict(m) => {
                let ghost before = m@;
                match last_entry(m, k) {
                    Some(i) => {
                        let entry = (k.to_owned(), v);
                        m.set(i, entry);
                        proof {
                            lemma_dict_set(before, m@, i as nat, before.len(), k@, v.tree());
                            assert(dict_map(m@, m@.len()) == dict_map(before, before.len()).insert(
                                k@,
                                v.tree(),
                            ));
                        }
                    },
                    None => {
                        m.push((k.to_owned(), v));
                        proof {
                            lemma_dict_map_prefix(before, m@, before.len());
                            assert(dict_map(m@, m@.len()) == dict_map(before, before.len()).insert(
                                k@,
                                v.tree(),
                            ));
                        }
                    },
                }
            },
            _ => {},
        }
    }

    /// The same document once more.
    pub fn copy(&self) -> (r: Json)
        ensures
            r.tree() == self.tree(),
        decreases self,
    {
        match self {
            Json::Null => Json::Null,
            Json::Bool(b) => Json::Bool(*b),
            Json::Num(n) => Json::Num(number_copy(n)),
            Json::Text(s) => Json::Text(s.clone()),
            Json::List(a) => {
                let mut out: Vec<Json> = Vec::new();
                let mut i: usize = 0;
                while i < a.len()
                    invariant
                        self == Json::List(*a),
                        i <= a.len(),
                        out@.len() == i,
                        forall|k: int| 0 <= k < i ==> (#[trigger] out@[k]).tree() == a@[k].tree(),
                    decreases a.len() - i,
                {
                    assert(decreases_to!(self => a@[i as int])) by {
                        assert(decreases_to!(self => self->List_0));
                        assert(decreases_to!(a => a@));
                        assert(decreases_to!(a@ => a@[i as int]));
                    }
                    out.push(a[i].copy());
                    i = i + 1;
                }
                let r = Json::List(out);
                assert(r.tree()->List_0 =~= self.tree()->List_0);
                r
            },
            Json::Dict(m) => {
                let mut out: Vec<(String, Json)> = Vec::new();
                let mut i: usize = 0;
                while i < m.len()
                    invariant
                        self == Json::Dict(*m),
                        i <= m.len(),
                        out@.len() == i,
                        forall|k: int|
                            0 <= k < i ==> (#[trigger] out@[k]).0@ == m@[k].0@ && out@[k].1.tree()
                                == m@[k].1.tree(),
                    decreases m.len() - i,
                {
                    assert(decreases_to!(self => m@[i as int].1)) by {
                        assert(decreases_to!(self => self->Dict_0));
                        assert(decreases_to!(m => m@));
                        assert(decreases_to!(m@ => m@[i as int]));
                        assert(decreases_to!(m@[i as int] => m@[i as int].1));
                    }
                    out.push((m[i].0.clone(), m[i].1.copy()));
                    i = i + 1;
                }
                proof {
                    lemma_dict_map_prefix(out@, m@, m@.len());
                }
                Json::Dict(out)
            },
        }
    }
}

/// Of an object that gets a member, that member is the one given and the others stay; what
/// is no object stays as it is.
pub proof fn members_are_set_one_by_one(t: Tree, k: Seq<char>, v: Tree, other: Seq<char>)
    ensures
        t is Dict ==> t.with(k, v).get(k) == Some(v),
        other != k ==> t.with(k, v).get(other) == t.get(other),
        !(t is Dict) ==> t.with(k, v) == t && t.get(k) is None,
{
}

/// A member is read as what it is, and as nothing if it is of another kind: a text, a truth
/// value, or an integer of 64 bits.
pub proof fn members_are_read_by_their_kind(t: Tree, k: Seq<char>)
    ensures
        match t.get(k) {
            Some(Tree::Text(s)) => t.text_of(k) == Some(s) && t.text_or_empty(k) == s && t.int_of(
                k,
            ) is None && t.flag_of(k) is None,
            Some(Tree::Int(n)) => t.text_of(k) is None && t.text_or_empty(k).len() == 0 && (
            -0x8000_0000_0000_0000 <= n <= 0x7fff_ffff_ffff_ffff ==> (t.int_of(k) matches Some(i)
                && i == n)) && (n
                < -0x8000_0000_0000_0000 || n > 0x7fff_ffff_ffff_ffff ==> t.int_of(k) is None)
                && t.flag_of(k) is None,
            Some(Tree::Bool(b)) => t.flag_of(k) == Some(b) && t.text_of(k) is None && t.int_of(
                k,
            ) is None,
            _ => t.text_of(k) is None && t.text_or_empty(k).len() == 0 && t.int_of(k) is None
                && t.flag_of(k) is None,
        },
{
}

/// An element of an array is the one at its position; nothing else has elements.
pub proof fn elements_are_read_by_position(t: Tree, i: int)
    ensures
        t matches Tree::List(a) ==> (0 <= i < a.len() ==> t.at(i) == Some(a[i])) && (i < 0 || i
            >= a.len() ==> t.at(i) is None),
        !(t is List) ==> t.at(i) is None,
{
}

} // verus!
