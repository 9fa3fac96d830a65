//! JSON documents, as the outside parser reads them.

use vstd::prelude::*;
use vstd::string::StringExecFns;
use crate::text::owned_pairs;

verus! {

#[verifier::external_type_specification]
#[verifier::external_body]
pub struct ExValue(serde_json::Value);

/// What stands at a place of a document.
#[derive(Debug)]
pub enum Leaf {
    /// Nothing.
    Absent,
    Null,
    Bool(bool),
    /// A number; its value where that is an integer that fits 64 bits.
    Number(Option<i64>),
    Text(String),
    /// A list with that many items.
    List(usize),
    /// An object.
    Dict,
}

/// A leaf as plain values.
pub enum LeafView {
    Absent,
    Null,
    Bool(bool),
    Number(Option<i64>),
    Text(Seq<char>),
    List(nat),
    Dict,
}

impl View for Leaf {
    type V = LeafView;

    open spec fn view(&self) -> LeafView {
        match *self {
            Leaf::Absent => LeafView::Absent,
            Leaf::Null => LeafView::Null,
            Leaf::Bool(b) => LeafView::Bool(b),
            Leaf::Number(n) => LeafView::Number(n),
            Leaf::Text(s) => LeafView::Text(s@),
            Leaf::List(n) => LeafView::List(n as nat),
            Leaf::Dict => LeafView::Dict,
        }
    }
}

/// A document as plain values: what stands at each place that has something, by its
/// JSON pointer.
pub type Doc = Map<Seq<char>, LeafView>;

/// What a parsed document holds at each JSON pointer (`serde_json::Value::pointer`).
pub uninterp spec fn json_doc(v: serde_json::Value) -> Map<Seq<char>, LeafView>;

/// The document that `serde_json::from_str` reads in a text; `None` where the text
/// is no JSON.
pub uninterp spec fn json_read(text: Seq<char>) -> Option<Map<Seq<char>, LeafView>>;

/// What stands at a place.
pub open spec fn leaf_at(d: Doc, pointer: Seq<char>) -> LeafView {
    if d.dom().contains(pointer) {
        d[pointer]
    } else {
        LeafView::Absent
    }
}

/// The text at a place; `None` where no text stands there.
pub open spec fn text_at(d: Doc, pointer: Seq<char>) -> Option<Seq<char>> {
    match leaf_at(d, pointer) {
        LeafView::Text(s) => Some(s),
        _ => None,
    }
}

/// The integer at a place; `None` where no integer of 64 bits stands there.
pub open spec fn int_at(d: Doc, pointer: Seq<char>) -> Option<i64> {
    match leaf_at(d, pointer) {
        LeafView::Number(n) => n,
        _ => None,
    }
}

/// The length of the list at a place; `None` where no list stands there.
pub open spec fn len_at(d: Doc, pointer: Seq<char>) -> Option<nat> {
    match leaf_at(d, pointer) {
        LeafView::List(n) => Some(n),
        _ => None,
    }
}

/// `serde_json::from_str` into a `serde_json::Value`: the document in a text, `None`
/// where the text is no JSON. Which texts are JSON, and what they hold, is only
/// named here.
#[verifier::external_body]
pub(crate) fn parse(text: &str) -> (r: Option<serde_json::Value>)
    ensures
        match r {
            Some(v) => json_read(text@) == Some(json_doc(v)),
            None => json_read(text@) is None,
        },
{
    serde_json::from_str::<serde_json::Value>(text).ok()
}

/// `serde_json::Value::pointer`: what stands at a place of the document. A number is
/// taken by `Number::as_i64`.
#[verifier::external_body]
pub(crate) fn at(v: &serde_json::Value, pointer: &str) -> (r: Leaf)
    ensures
        r@ == leaf_at(json_doc(*v), pointer@),
{
    match v.pointer(pointer) {
        None => Leaf::Absent,
        Some(serde_json::Value::Null) => Leaf::Null,
        Some(serde_json::Value::Bool(b)) => Leaf::Bool(*b),
        Some(serde_json::Value::Number(n)) => Leaf::Number(n.as_i64()),
        Some(serde_json::Value::String(s)) => Leaf::Text(s.clone()),
        Some(serde_json::Value::Array(a)) => Leaf::List(a.len()),
        Some(serde_json::Value::Object(_)) => Leaf::Dict,
    }
}

/// Reads the text at a place.
pub fn text(v: &serde_json::Value, pointer: &str) -> (r: Option<String>)
    ensures
        match r {
            Some(s) => text_at(json_doc(*v), pointer@) == Some(s@),
            None => text_at(json_doc(*v), pointer@) is None,
        },
{
    match at(v, pointer) {
        Leaf::Text(s) => Some(s),
        _ => None,
    }
}

/// Reads the integer at a place.
pub fn integer(v: &serde_json::Value, pointer: &str) -> (r: Option<i64>)
    ensures
        r == int_at(json_doc(*v), pointer@),
{
    match at(v, pointer) {
        Leaf::Number(n) => n,
        _ => None,
    }
}

/// Reads the length of the list at a place.
pub fn list_len(v: &serde_json::Value, pointer: &str) -> (r: Option<usize>)
    ensures
        match r {
            Some(n) => len_at(json_doc(*v), pointer@) == Some(n as nat),
            None => len_at(json_doc(*v), pointer@) is None,
        },
{
    match at(v, pointer) {
        Leaf::List(n) => Some(n),
        _ => None,
    }
}

// ------------------------------------------------------------------- writing

/// A member of an object.
pub open spec fn member_text(p: (Seq<char>, Seq<char>)) -> Seq<char> {
    seq!['"'] + p.0 + seq!['"', ':'] + p.1
}

/// Members with a comma between them.
pub open spec fn members_text(kv: Seq<(Seq<char>, Seq<char>)>) -> Seq<char>
    decreases kv.len(),
{
    if kv.len() == 0 {
        Seq::empty()
    } else if kv.len() == 1 {
        member_text(kv[0])
    } else {
        members_text(kv.drop_last()) + seq![','] + member_text(kv.last())
    }
}

/// An object.
pub open spec fn object_text(kv: Seq<(Seq<char>, Seq<char>)>) -> Seq<char> {
    seq!['{'] + members_text(kv) + seq!['}']
}

/// A text in quotes.
pub open spec fn quoted_text(s: Seq<char>) -> Seq<char> {
    seq!['"'] + s + seq!['"']
}

/// A truth value.
pub open spec fn bool_text(b: bool) -> Seq<char> {
    if b {
        "true"@
    } else {
        "false"@
    }
}

/// Writes an object. Values are written as they are.
pub fn object(kv: &Vec<(&str, String)>) -> (s: String)
    ensures
        s@ == object_text(owned_pairs(kv@)),
{
    let mut s = String::new();
    s.push('{');
    let ghost all = owned_pairs(kv@);
    let mut k: usize = 0;
    proof {
        assert(all.take(0) =~= Seq::<(Seq<char>, Seq<char>)>::empty());
        assert(s@ =~= seq!['{'] + members_text(all.take(0)));
    }
    while k < kv.len()
        invariant
            k <= kv@.len(),
            all == owned_pairs(kv@),
            s@ == seq!['{'] + members_text(all.take(k as int)),
        decreases kv@.len() - k,
    {
        let ghost before = s@;
        let ghost t = all.take(k + 1);
        proof {
            assert(t.drop_last() =~= all.take(k as int));
            assert(t.last() == all[k as int]);
        }
        if k > 0 {
            s.push(',');
        }
        s.push('"');
        s.append(kv[k].0);
        s.push('"');
        s.push(':');
        s.append(kv[k].1.as_str());
        proof {
            let m = member_text(all[k as int]);
            let lead = if k > 0 {
                before + seq![',']
            } else {
                before
            };
            assert(s@ =~= lead + m);
            assert(s@ =~= seq!['{'] + members_text(t));
        }
        k += 1;
    }
    s.push('}');
    proof {
        assert(all.take(k as int) =~= all);
        assert(s@ =~= object_text(all));
    }
    s
}

/// Writes a text in quotes, as it is.
pub fn quoted(t: &str) -> (s: String)
    ensures
        s@ == quoted_text(t@),
{
    let mut s = String::new();
    s.push('"');
    s.append(t);
    s.push('"');
    proof {
        assert(s@ =~= quoted_text(t@));
    }
    s
}

/// Writes a truth value.
pub fn boolean(b: bool) -> (s: String)
    ensures
        s@ == bool_text(b),
{
    if b {
        String::from_str("true")
    } else {
        String::from_str("false")
    }
}

// -------------------------------------------------------------------- laws

/// The members of an object are written one behind the other with a comma between
/// each two: two runs of members are joined by a comma, one member is its quoted
/// name, a colon and its value, and an object is its members in braces.
pub proof fn members_are_joined(a: Seq<(Seq<char>, Seq<char>)>, b: Seq<(Seq<char>, Seq<char>)>)
    requires
        a.len() > 0,
        b.len() > 0,
    ensures
        members_text(a + b) == members_text(a) + seq![','] + members_text(b),
        a.len() == 1 ==> members_text(a) == seq!['"'] + a[0].0 + seq!['"', ':'] + a[0].1,
        object_text(a) == seq!['{'] + members_text(a) + seq!['}'],
        object_text(Seq::empty()) == seq!['{', '}'],
    decreases b.len(),
{
    let s = a + b;
    assert(object_text(Seq::empty()) =~= seq!['{', '}']);
    if b.len() == 1 {
        assert(s.drop_last() =~= a);
    } else {
        members_are_joined(a, b.drop_last());
        assert(s.drop_last() =~= a + b.drop_last());
        assert(members_text(s) =~= members_text(a) + seq![','] + members_text(b));
    }
}

/// A value is read as what it is: a string only as text, a number only as a number,
/// a list only by its length, and what is not there as nothing.
pub proof fn values_are_read_as_they_are(d: Doc, at: Seq<char>)
    ensures
        text_at(d, at) is Some <==> d.dom().contains(at) && d[at] is Text,
        d.dom().contains(at) && d[at] is Text ==> text_at(d, at) == Some(d[at]->Text_0),
        int_at(d, at) is Some ==> d.dom().contains(at) && d[at] == LeafView::Number(int_at(d, at)),
        d.dom().contains(at) && d[at] is Number ==> int_at(d, at) == d[at]->Number_0,
        len_at(d, at) is Some <==> d.dom().contains(at) && d[at] is List,
        d.dom().contains(at) && d[at] is List ==> len_at(d, at) == Some(d[at]->List_0),
{
}

} // verus!
