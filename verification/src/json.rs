//! JSON values as the protocol carries them: request parameters, results,
//! prompt arguments and metadata.
//!
//! A value is a tree; an object keeps its members in order. The view of a
//! value (`JsonView`) is the same tree over mathematical sequences, and the
//! compact text of a value is defined on that view.

use vstd::prelude::*;
use vstd::string::StringExecFns;
use crate::text::decimal_text;
use crate::text::digit_char;
use crate::text::signed_decimal_text;
use crate::text::text_equal;

verus! {

broadcast use vstd::string::group_string_axioms;

/// A JSON number. Integers are held exactly; any other number is held as
/// its JSON literal.
#[derive(Debug)]
pub enum JsonNumber {
    PosInt(u64),
    NegInt(i64),
    Real(String),
}

/// A JSON value. An object holds its members as a list: they are written
/// in the order in which the list holds them, and where a name occurs more
/// than once, lookups read the first member of that name.
#[derive(Debug)]
pub enum JsonValue {
    Null,
    Bool(bool),
    Number(JsonNumber),
    String(String),
    Array(Vec<JsonValue>),
    Object(Vec<(String, JsonValue)>),
}

/// The mathematical value of a `JsonNumber`.
pub ghost enum NumberView {
    Int(int),
    Real(Seq<char>),
}

/// The mathematical value of a `JsonValue`.
pub ghost enum JsonView {
    Null,
    Bool(bool),
    Number(NumberView),
    String(Seq<char>),
    Array(Seq<JsonView>),
    Object(Seq<(Seq<char>, JsonView)>),
}

impl View for JsonNumber {
    type V = NumberView;

    open spec fn view(&self) -> NumberView {
        match self {
            JsonNumber::PosInt(n) => NumberView::Int(*n as int),
            JsonNumber::NegInt(n) => NumberView::Int(*n as int),
            JsonNumber::Real(literal) => NumberView::Real(literal@),
        }
    }
}

/// The views of a sequence of values, element by element.
pub open spec fn items_view(items: Seq<JsonValue>) -> Seq<JsonView>
    decreases items,
{
    Seq::new(
        items.len(),
        |i: int|
            if 0 <= i < items.len() {
                items[i]@
            } else {
                JsonView::Null
            },
    )
}

/// The views of a sequence of object members, member by member.
pub open spec fn members_view(members: Seq<(String, JsonValue)>) -> Seq<(Seq<char>, JsonView)>
    decreases members,
{
    Seq::new(
        members.len(),
        |i: int|
            if 0 <= i < members.len() {
                (members[i].0@, members[i].1@)
            } else {
                (Seq::empty(), JsonView::Null)
            },
    )
}

impl View for JsonValue {
    type V = JsonView;

    open spec fn view(&self) -> JsonView
        decreases self,
    {
        match self {
            JsonValue::Null => JsonView::Null,
            JsonValue::Bool(b) => JsonView::Bool(*b),
            JsonValue::Number(n) => JsonView::Number(n@),
            JsonValue::String(s) => JsonView::String(s@),
            JsonValue::Array(items) => JsonView::Array(items_view(items@)),
            JsonValue::Object(members) => JsonView::Object(members_view(members@)),
        }
    }
}

/// The text that `serde_json` writes for a string: the string between double
/// quotes, with the characters that JSON does not allow bare written as
/// escapes.
pub uninterp spec fn quoted_text(s: Seq<char>) -> Seq<char>;

/// The parts in order, with a comma between neighbours.
pub open spec fn comma_joined(parts: Seq<Seq<char>>) -> Seq<char>
    decreases parts.len(),
{
    if parts.len() == 0 {
        Seq::empty()
    } else if parts.len() == 1 {
        parts[0]
    } else {
        comma_joined(parts.drop_last()) + seq![','] + parts.last()
    }
}

/// The text of a number: decimal digits for an integer, the literal otherwise.
pub open spec fn number_text(n: NumberView) -> Seq<char> {
    match n {
        NumberView::Int(i) => signed_decimal_text(i),
        NumberView::Real(literal) => literal,
    }
}

/// `true` or `false`.
pub open spec fn bool_text(b: bool) -> Seq<char> {
    if b {
        seq!['t', 'r', 'u', 'e']
    } else {
        seq!['f', 'a', 'l', 's', 'e']
    }
}

/// The compact JSON text of a value: no whitespace, members and elements in
/// their order, strings and member names quoted.
pub open spec fn compact_text(v: JsonView) -> Seq<char>
    decreases v,
{
    match v {
        JsonView::Null => seq!['n', 'u', 'l', 'l'],
        JsonView::Bool(b) => bool_text(b),
        JsonView::Number(n) => number_text(n),
        JsonView::String(s) => quoted_text(s),
        JsonView::Array(items) => seq!['['] + comma_joined(element_texts(items)) + seq![']'],
        JsonView::Object(members) => seq!['{'] + comma_joined(member_texts(members)) + seq!['}'],
    }
}

/// The compact text of each element of an array.
pub open spec fn element_texts(items: Seq<JsonView>) -> Seq<Seq<char>>
    decreases items,
{
    Seq::new(
        items.len(),
        |i: int|
            if 0 <= i < items.len() {
                compact_text(items[i])
            } else {
                Seq::empty()
            },
    )
}

/// The compact text of each member of an object: the quoted name, a colon,
/// the value.
pub open spec fn member_texts(members: Seq<(Seq<char>, JsonView)>) -> Seq<Seq<char>>
    decreases members,
{
    Seq::new(
        members.len(),
        |i: int|
            if 0 <= i < members.len() {
                quoted_text(members[i].0) + seq![':'] + compact_text(members[i].1)
            } else {
                Seq::empty()
            },
    )
}

/// The text that stands for a value inside a rendered template: a string
/// verbatim, a number in decimal, a boolean as `true` or `false`, null as
/// nothing, an array or object as its compact JSON text.
pub open spec fn inline_text(v: JsonView) -> Seq<char> {
    match v {
        JsonView::Null => Seq::empty(),
        JsonView::Bool(b) => bool_text(b),
        JsonView::Number(n) => number_text(n),
        JsonView::String(s) => s,
        _ => compact_text(v),
    }
}

/// Index of the first member named `key`, if there is one.
pub open spec fn member_index(members: Seq<(Seq<char>, JsonView)>, key: Seq<char>) -> Option<int>
    decreases members.len(),
{
    if members.len() == 0 {
        None
    } else if members[0].0 == key {
        Some(0)
    } else {
        match member_index(members.drop_first(), key) {
            Some(i) => Some(i + 1),
            None => None,
        }
    }
}

/// The value of the first member named `key`, if there is one.
pub open spec fn member_value(members: Seq<(Seq<char>, JsonView)>, key: Seq<char>) -> Option<
    JsonView,
> {
    match member_index(members, key) {
        Some(i) => Some(members[i].1),
        None => None,
    }
}

/// What `member_index` finds is in range, carries the key, and no earlier
/// member does; it finds nothing only when no member carries the key.
pub proof fn lemma_member_index(members: Seq<(Seq<char>, JsonView)>, key: Seq<char>)
    ensures
        match member_index(members, key) {
            Some(i) => {
                &&& 0 <= i < members.len()
                &&& members[i].0 == key
                &&& forall|j: int| 0 <= j < i ==> members[j].0 != key
            },
            None => forall|j: int| 0 <= j < members.len() ==> members[j].0 != key,
        },
    decreases members.len(),
{
    if members.len() == 0 {
    } else if members[0].0 == key {
    } else {
        let rest = members.drop_first();
        lemma_member_index(rest, key);
        match member_index(rest, key) {
            Some(i) => {
                assert forall|j: int| 0 <= j < i + 1 implies members[j].0 != key by {
                    if j > 0 {
                        assert(members[j] == rest[j - 1]);
                    }
                }
            },
            None => {
                assert forall|j: int| 0 <= j < members.len() implies members[j].0 != key by {
                    if j > 0 {
                        assert(members[j] == rest[j - 1]);
                    }
                }
            },
        }
    }
}

/// Calls `serde_json::to_string` on a string slice. The contract names its
/// result: the JSON string literal for `s`.
#[verifier::external_body]
fn quote(s: &str) -> (out: String)
    ensures
        out@ == quoted_text(s@),
{
    serde_json::to_string(s).unwrap_or_default()
}

/// One decimal digit as text.
fn digit_text(d: u8) -> (out: &'static str)
    requires
        d < 10,
    ensures
        out@ == seq![digit_char(d as int)],
{
    proof {
        reveal_strlit("0");
        reveal_strlit("1");
        reveal_strlit("2");
        reveal_strlit("3");
        reveal_strlit("4");
        reveal_strlit("5");
        reveal_strlit("6");
        reveal_strlit("7");
        reveal_strlit("8");
        reveal_strlit("9");
    }
    let out = if d == 0 {
        "0"
    } else if d == 1 {
        "1"
    } else if d == 2 {
        "2"
    } else if d == 3 {
        "3"
    } else if d == 4 {
        "4"
    } else if d == 5 {
        "5"
    } else if d == 6 {
        "6"
    } else if d == 7 {
        "7"
    } else if d == 8 {
        "8"
    } else {
        "9"
    };
    assert(out@ =~= seq![digit_char(d as int)]);
    out
}

/// The decimal rendering of `n`.
pub fn decimal_string(n: u64) -> (out: String)
    ensures
        out@ == decimal_text(n as nat),
    decreases n,
{
    if n < 10 {
        digit_text(n as u8).to_owned()
    } else {
        let mut out = decimal_string(n / 10);
        out.append(digit_text((n % 10) as u8));
        out
    }
}

/// The decimal rendering of `n`, with a leading `-` when negative.
pub fn signed_decimal_string(n: i64) -> (out: String)
    ensures
        out@ == signed_decimal_text(n as int),
{
    if n < 0 {
        let magnitude: u64 = (-(n + 1)) as u64 + 1;
        let mut out = String::from_str("-");
        proof {
            reveal_strlit("-");
        }
        let digits = decimal_string(magnitude);
        out.append(digits.as_str());
        assert(out@ =~= seq!['-'] + decimal_text((-n) as nat));
        out
    } else {
        decimal_string(n as u64)
    }
}

impl Clone for JsonNumber {
    fn clone(&self) -> (copy: Self)
        ensures
            copy == *self,
    {
        match self {
            JsonNumber::PosInt(n) => JsonNumber::PosInt(*n),
            JsonNumber::NegInt(n) => JsonNumber::NegInt(*n),
            JsonNumber::Real(literal) => JsonNumber::Real(literal.clone()),
        }
    }
}

impl JsonNumber {
    /// The text of the number.
    pub fn to_text(&self) -> (out: String)
        ensures
            out@ == number_text(self@),
    {
        match self {
            JsonNumber::PosInt(n) => decimal_string(*n),
            JsonNumber::NegInt(n) => signed_decimal_string(*n),
            JsonNumber::Real(literal) => literal.clone(),
        }
    }
}

impl Clone for JsonValue {
    fn clone(&self) -> (copy: Self)
        ensures
            copy@ == self@,
        decreases self,
    {
        match self {
            JsonValue::Null => JsonValue::Null,
            JsonValue::Bool(b) => JsonValue::Bool(*b),
            JsonValue::Number(n) => JsonValue::Number(n.clone()),
            JsonValue::String(s) => JsonValue::String(s.clone()),
            JsonValue::Array(items) => {
                let mut out: Vec<JsonValue> = Vec::new();
                let mut i: usize = 0;
                while i < items.len()
                    invariant
                        i <= items.len(),
                        out.len() == i,
                        forall|k: int| 0 <= k < i ==> out@[k]@ == items@[k]@,
                        forall|k: int| 0 <= k < items.len() ==> decreases_to!(self => items@[k]),
                    decreases items.len() - i,
                {
                    out.push(items[i].clone());
                    i += 1;
                }
                assert(items_view(out@) =~= items_view(items@));
                JsonValue::Array(out)
            },
            JsonValue::Object(members) => {
                let mut out: Vec<(String, JsonValue)> = Vec::new();
                let mut i: usize = 0;
                while i < members.len()
                    invariant
                        i <= members.len(),
                        out.len() == i,
                        forall|k: int|
                            0 <= k < i ==> out@[k].0@ == members@[k].0@ && out@[k].1@
                                == members@[k].1@,
                        forall|k: int|
                            0 <= k < members.len() ==> decreases_to!(self => members@[k].1),
                    decreases members.len() - i,
                {
                    out.push((members[i].0.clone(), members[i].1.clone()));
                    i += 1;
                }
                assert(members_view(out@) =~= members_view(members@));
                JsonValue::Object(out)
            },
        }
    }
}

impl JsonValue {
    /// A JSON string holding the characters of `s`.
    pub fn string(s: &str) -> (v: JsonValue)
        ensures
            v@ == JsonView::String(s@),
    {
        JsonValue::String(s.to_owned())
    }

    /// Whether the value is `null`.
    pub fn is_null(&self) -> (yes: bool)
        ensures
            yes == (self@ is Null),
    {
        match self {
            JsonValue::Null => true,
            _ => false,
        }
    }

    /// The characters of a JSON string; `None` for any other value.
    pub fn as_str(&self) -> (out: Option<&str>)
        ensures
            match out {
                Some(s) => self@ == JsonView::String(s@),
                None => !(self@ is String),
            },
    {
        match self {
            JsonValue::String(s) => Some(s.as_str()),
            _ => None,
        }
    }

    /// The value of a non-negative integer that fits 64 bits; `None` for any
    /// other value.
    pub fn as_u64(&self) -> (out: Option<u64>)
        ensures
            out == unsigned_value(self@),
    {
        match self {
            JsonValue::Number(JsonNumber::PosInt(n)) => Some(*n),
            JsonValue::Number(JsonNumber::NegInt(n)) => if *n >= 0 {
                Some(*n as u64)
            } else {
                None
            },
            _ => None,
        }
    }

    /// The first member named `key` of an object; `None` where there is no
    /// such member or the value is no object.
    pub fn get(&self, key: &str) -> (out: Option<&JsonValue>)
        ensures
            match out {
                Some(v) => self@ is Object && member_value(self@->Object_0, key@) == Some(v@),
                None => !(self@ is Object) || member_value(self@->Object_0, key@) is None,
            },
    {
        match self {
            JsonValue::Object(members) => match find_member(members, key) {
                Some(i) => Some(&members[i].1),
                None => None,
            },
            _ => None,
        }
    }

    /// The compact JSON text of the value.
    pub fn to_compact(&self) -> (out: String)
        ensures
            out@ == compact_text(self@),
        decreases self,
    {
        match self {
            JsonValue::Null => {
                proof {
                    reveal_strlit("null");
                }
                let out = String::from_str("null");
                assert(out@ =~= seq!['n', 'u', 'l', 'l']);
                out
            },
            JsonValue::Bool(b) => bool_string(*b),
            JsonValue::Number(n) => n.to_text(),
            JsonValue::String(s) => quote(s.as_str()),
            JsonValue::Array(items) => {
                let ghost parts = element_texts(items_view(items@));
                let mut out = String::from_str("[");
                let mut i: usize = 0;
                proof {
                    reveal_strlit("[");
                    assert(out@ =~= seq!['['] + comma_joined(parts.take(0)));
                }
                while i < items.len()
                    invariant
                        i <= items.len(),
                        parts == element_texts(items_view(items@)),
                        forall|k: int| 0 <= k < items.len() ==> decreases_to!(self => items@[k]),
                        out@ == seq!['['] + comma_joined(parts.take(i as int)),
                    decreases items.len() - i,
                {
                    let ghost before = out@;
                    if i > 0 {
                        out.append(",");
                    }
                    let piece = items[i].to_compact();
                    out.append(piece.as_str());
                    proof {
                        reveal_strlit(",");
                        let done = parts.take(i + 1);
                        assert(done.drop_last() =~= parts.take(i as int));
                        assert(done.last() == compact_text(items@[i as int]@));
                        if i > 0 {
                            assert(out@ =~= before + seq![','] + done.last());
                        } else {
                            assert(comma_joined(parts.take(0)) =~= Seq::<char>::empty());
                        }
                        assert(out@ =~= seq!['['] + comma_joined(done));
                    }
                    i += 1;
                }
                out.append("]");
                proof {
                    reveal_strlit("]");
                    assert(parts.take(i as int) =~= parts);
                }
                out
            },
            JsonValue::Object(members) => {
                let ghost parts = member_texts(members_view(members@));
                let mut out = String::from_str("{");
                let mut i: usize = 0;
                proof {
                    reveal_strlit("{");
                    assert(out@ =~= seq!['{'] + comma_joined(parts.take(0)));
                }
                while i < members.len()
                    invariant
                        i <= members.len(),
                        parts == member_texts(members_view(members@)),
                        forall|k: int|
                            0 <= k < members.len() ==> decreases_to!(self => members@[k].1),
                        out@ == seq!['{'] + comma_joined(parts.take(i as int)),
                    decreases members.len() - i,
                {
                    let ghost before = out@;
                    if i > 0 {
                        out.append(",");
                    }
                    let name = quote(members[i].0.as_str());
                    out.append(name.as_str());
                    out.append(":");
                    let piece = members[i].1.to_compact();
                    out.append(piece.as_str());
                    proof {
                        reveal_strlit(",");
                        reveal_strlit(":");
                        let done = parts.take(i + 1);
                        assert(done.drop_last() =~= parts.take(i as int));
                        assert(done.last() == quoted_text(members@[i as int].0@) + seq![':']
                            + compact_text(members@[i as int].1@));
                        if i > 0 {
                            assert(out@ =~= before + seq![','] + done.last());
                        } else {
                            assert(comma_joined(parts.take(0)) =~= Seq::<char>::empty());
                            assert(out@ =~= before + done.last());
                        }
                        assert(out@ =~= seq!['{'] + comma_joined(done));
                    }
                    i += 1;
                }
                out.append("}");
                proof {
                    reveal_strlit("}");
                    assert(parts.take(i as int) =~= parts);
                }
                out
            },
        }
    }

    /// The text that stands for the value inside a rendered template.
    pub fn to_inline(&self) -> (out: String)
        ensures
            out@ == inline_text(self@),
    {
        match self {
            JsonValue::Null => String::new(),
            JsonValue::Bool(b) => bool_string(*b),
            JsonValue::Number(n) => n.to_text(),
            JsonValue::String(s) => s.clone(),
            _ => self.to_compact(),
        }
    }
}

/// The non-negative integer that a value holds, where it holds one that fits
/// 64 bits.
pub open spec fn unsigned_value(v: JsonView) -> Option<u64> {
    match v {
        JsonView::Number(NumberView::Int(i)) => if 0 <= i <= u64::MAX {
            Some(i as u64)
        } else {
            None
        },
        _ => None,
    }
}

/// `true` or `false` as text.
pub fn bool_string(b: bool) -> (out: String)
    ensures
        out@ == bool_text(b),
{
    proof {
        reveal_strlit("true");
        reveal_strlit("false");
    }
    let out = if b {
        String::from_str("true")
    } else {
        String::from_str("false")
    };
    assert(out@ =~= bool_text(b));
    out
}

/// Position of the first member named `key`.
pub fn find_member(members: &Vec<(String, JsonValue)>, key: &str) -> (found: Option<usize>)
    ensures
        match found {
            Some(i) => member_index(members_view(members@), key@) == Some(i as int) && i
                < members.len(),
            None => member_index(members_view(members@), key@) is None,
        },
{
    let ghost views = members_view(members@);
    let mut i: usize = 0;
    while i < members.len()
        invariant
            i <= members.len(),
            views == members_view(members@),
            forall|j: int| 0 <= j < i ==> views[j].0 != key@,
        decreases members.len() - i,
    {
        if text_equal(members[i].0.as_str(), key) {
            proof {
                lemma_member_index(views, key@);
                assert(views[i as int].0 == key@);
            }
            return Some(i);
        }
        assert(views[i as int].0 != key@);
        i += 1;
    }
    proof {
        lemma_member_index(views, key@);
    }
    None
}

/// A copy of a list of members.
pub fn clone_members(members: &Vec<(String, JsonValue)>) -> (copy: Vec<(String, JsonValue)>)
    ensures
        members_view(copy@) == members_view(members@),
{
    let mut out: Vec<(String, JsonValue)> = Vec::new();
    let mut i: usize = 0;
    while i < members.len()
        invariant
            i <= members.len(),
            out.len() == i,
            forall|k: int|
                0 <= k < i ==> out@[k].0@ == members@[k].0@ && out@[k].1@ == members@[k].1@,
        decreases members.len() - i,
    {
        out.push((members[i].0.clone(), members[i].1.clone()));
        i += 1;
    }
    assert(members_view(out@) =~= members_view(members@));
    out
}

} // verus!
