//! A JSON document as a tree of plain values, with the canonical form that
//! is hashed: members ordered by key, no insignificant whitespace.

use vstd::prelude::*;
use vstd::string::*;
use crate::order::{
    lemma_sort_commutes_with_map, sort_stable, stable_sort, KeyOrder, SortKey, SortKeyed,
};
use crate::text::{decimal_text, hex_digit, push_decimal, str_lt};

verus! {

/// A JSON number: an integer, or the literal text of any other number.
#[derive(Debug)]
pub enum JsonNumber {
    Unsigned(u64),
    Signed(i64),
    Literal(String),
}

/// One member of a JSON object.
#[derive(Debug)]
pub struct JsonMember {
    pub key: String,
    pub value: JsonValue,
}

/// A JSON document.
#[derive(Debug)]
pub enum JsonValue {
    Null,
    Bool(bool),
    Number(JsonNumber),
    Text(String),
    Array(Vec<JsonValue>),
    Object(Vec<JsonMember>),
}

/// The mathematical value of a [`JsonNumber`].
pub enum JsonNumberView {
    Unsigned(u64),
    Signed(i64),
    Literal(Seq<char>),
}

/// The mathematical value of a [`JsonMember`].
pub struct JsonMemberView {
    pub key: Seq<char>,
    pub value: JsonView,
}

/// The mathematical value of a [`JsonValue`].
pub enum JsonView {
    Null,
    Bool(bool),
    Number(JsonNumberView),
    Text(Seq<char>),
    Array(Seq<JsonView>),
    Object(Seq<JsonMemberView>),
}

impl View for JsonNumber {
    type V = JsonNumberView;

    open spec fn view(&self) -> JsonNumberView {
        match *self {
            JsonNumber::Unsigned(n) => JsonNumberView::Unsigned(n),
            JsonNumber::Signed(n) => JsonNumberView::Signed(n),
            JsonNumber::Literal(s) => JsonNumberView::Literal(s@),
        }
    }
}

impl View for JsonValue {
    type V = JsonView;

    open spec fn view(&self) -> JsonView
        decreases self,
    {
        match self {
            JsonValue::Null => JsonView::Null,
            JsonValue::Bool(b) => JsonView::Bool(*b),
            JsonValue::Number(n) => JsonView::Number(n@),
            JsonValue::Text(s) => JsonView::Text(s@),
            JsonValue::Array(items) => JsonView::Array(
                Seq::new(
                    items@.len(),
                    |i: int|
                        if 0 <= i < items@.len() {
                            items@[i]@
                        } else {
                            JsonView::Null
                        },
                ),
            ),
            JsonValue::Object(members) => JsonView::Object(
                Seq::new(
                    members@.len(),
                    |i: int|
                        if 0 <= i < members@.len() {
                            JsonMemberView { key: members@[i].key@, value: members@[i].value@ }
                        } else {
                            JsonMemberView { key: Seq::empty(), value: JsonView::Null }
                        },
                ),
            ),
        }
    }
}

impl View for JsonMember {
    type V = JsonMemberView;

    open spec fn view(&self) -> JsonMemberView {
        JsonMemberView { key: self.key@, value: self.value@ }
    }
}

/// The views of the members of an object, in order.
pub open spec fn member_views(members: Seq<JsonMember>) -> Seq<JsonMemberView> {
    members.map_values(|m: JsonMember| m@)
}

/// The views of the items of an array, in order.
pub open spec fn item_views(items: Seq<JsonValue>) -> Seq<JsonView> {
    items.map_values(|v: JsonValue| v@)
}

/// What the view of an array or an object is, over the views of its parts.
pub proof fn lemma_view_unfold(v: JsonValue)
    ensures
        v matches JsonValue::Array(items) ==> v@ == JsonView::Array(item_views(items@)),
        v matches JsonValue::Object(members) ==> v@ == JsonView::Object(member_views(members@)),
{
    reveal_with_fuel(<JsonValue as View>::view, 2);
    match v {
        JsonValue::Array(items) => {
            let a = v@->Array_0;
            assert(a.len() == items@.len());
            assert forall|i: int| 0 <= i < a.len() implies a[i] == item_views(items@)[i] by {}
            assert(a =~= item_views(items@));
        },
        JsonValue::Object(members) => {
            let a = v@->Object_0;
            assert(a.len() == members@.len());
            assert forall|i: int| 0 <= i < a.len() implies a[i] == member_views(members@)[i] by {}
            assert(a =~= member_views(members@));
        },
        _ => {},
    }
}

impl Clone for JsonNumber {
    fn clone(&self) -> (r: JsonNumber)
        ensures
            r@ == self@,
    {
        match self {
            JsonNumber::Unsigned(n) => JsonNumber::Unsigned(*n),
            JsonNumber::Signed(n) => JsonNumber::Signed(*n),
            JsonNumber::Literal(s) => JsonNumber::Literal(s.clone()),
        }
    }
}

impl Clone for JsonValue {
    fn clone(&self) -> (r: JsonValue)
        ensures
            r@ == self@,
        decreases self,
    {
        proof {
            lemma_view_unfold(*self);
        }
        let r = match self {
            JsonValue::Null => JsonValue::Null,
            JsonValue::Bool(b) => JsonValue::Bool(*b),
            JsonValue::Number(n) => JsonValue::Number(n.clone()),
            JsonValue::Text(s) => JsonValue::Text(s.clone()),
            JsonValue::Array(items) => {
                let mut out: Vec<JsonValue> = Vec::new();
                let mut i: usize = 0;
                assert(item_views(out@) =~= item_views(items@.take(0)));
                while i < items.len()
                    invariant
                        i <= items.len(),
                        decreases_to!(*self => *items),
                        out@.len() == i,
                        item_views(out@) == item_views(items@.take(i as int)),
                    decreases items.len() - i,
                {
                    proof {
                        assert(decreases_to!(*items => items[i as int]));
                    }
                    let ghost prev = out@;
                    let item = items[i].clone();
                    out.push(item);
                    assert(item_views(out@) =~= item_views(prev).push(item@));
                    assert(item_views(items@.take(i + 1)) =~= item_views(items@.take(i as int)).push(
                        items@[i as int]@,
                    ));
                    i += 1;
                }
                assert(items@.take(i as int) =~= items@);
                JsonValue::Array(out)
            },
            JsonValue::Object(members) => {
                let mut out: Vec<JsonMember> = Vec::new();
                let mut i: usize = 0;
                assert(member_views(out@) =~= member_views(members@.take(0)));
                while i < members.len()
                    invariant
                        i <= members.len(),
                        decreases_to!(*self => *members),
                        out@.len() == i,
                        member_views(out@) == member_views(members@.take(i as int)),
                    decreases members.len() - i,
                {
                    proof {
                        assert(decreases_to!(*members => members[i as int]));
                        assert(decreases_to!(members[i as int] => members[i as int].value));
                    }
                    let ghost prev = out@;
                    let m = &members[i];
                    let member = JsonMember { key: m.key.clone(), value: m.value.clone() };
                    out.push(member);
                    assert(member_views(out@) =~= member_views(prev).push(member@));
                    assert(member_views(members@.take(i + 1)) =~= member_views(
                        members@.take(i as int),
                    ).push(members@[i as int]@));
                    i += 1;
                }
                assert(members@.take(i as int) =~= members@);
                JsonValue::Object(out)
            },
        };
        proof {
            lemma_view_unfold(r);
        }
        r
    }
}

impl Clone for JsonMember {
    fn clone(&self) -> (r: JsonMember)
        ensures
            r@ == self@,
    {
        JsonMember { key: self.key.clone(), value: self.value.clone() }
    }
}

impl SortKeyed for JsonMemberView {
    /// Members are ordered by the bytes of their key alone.
    open spec fn sort_key(&self) -> SortKey {
        SortKey { slot: 0, hash: vstd::utf8::encode_utf8(self.key) }
    }
}

impl SortKeyed for JsonMember {
    open spec fn sort_key(&self) -> SortKey {
        self@.sort_key()
    }
}

impl KeyOrder for JsonMember {
    fn key_before(&self, other: &Self) -> (r: bool) {
        str_lt(self.key.as_str(), other.key.as_str())
    }
}

/// The first `n` items of an array, each with its members ordered by key.
pub open spec fn sorted_items(v: JsonView, n: nat) -> Seq<JsonView>
    decreases v, 0nat, n,
{
    match v {
        JsonView::Array(items) => if n == 0 || n > items.len() {
            Seq::empty()
        } else {
            sorted_items(v, (n - 1) as nat).push(sorted_keys(items[n - 1]))
        },
        _ => Seq::empty(),
    }
}

/// The first `n` members of an object as they stand, the value of each with
/// its members ordered by key.
pub open spec fn sorted_values(v: JsonView, n: nat) -> Seq<JsonMemberView>
    decreases v, 0nat, n,
{
    match v {
        JsonView::Object(members) => if n == 0 || n > members.len() {
            Seq::empty()
        } else {
            sorted_values(v, (n - 1) as nat).push(
                JsonMemberView {
                    key: members[n - 1].key,
                    value: sorted_keys(members[n - 1].value),
                },
            )
        },
        _ => Seq::empty(),
    }
}

/// The document with the members of every object ordered by key, byte by
/// byte. Arrays keep the order of their items. Members with the same key keep
/// their order.
pub open spec fn sorted_keys(v: JsonView) -> JsonView
    decreases v, 1nat, 0nat,
{
    match v {
        JsonView::Array(items) => JsonView::Array(sorted_items(v, items.len())),
        JsonView::Object(members) => JsonView::Object(
            stable_sort(sorted_values(v, members.len())),
        ),
        _ => v,
    }
}

/// Returns the document with the members of every object ordered by key.
pub fn sort_json_keys(v: &JsonValue) -> (r: JsonValue)
    ensures
        r@ == sorted_keys(v@),
    decreases v,
{
    proof {
        lemma_view_unfold(*v);
    }
    let r = match v {
        JsonValue::Array(items) => {
            let mut out: Vec<JsonValue> = Vec::new();
            let mut i: usize = 0;
            assert(item_views(out@) =~= sorted_items(v@, 0));
            while i < items.len()
                invariant
                    i <= items.len(),
                    decreases_to!(*v => *items),
                    v@ == JsonView::Array(item_views(items@)),
                    out@.len() == i,
                    item_views(out@) == sorted_items(v@, i as nat),
                decreases items.len() - i,
            {
                proof {
                    assert(decreases_to!(*items => items[i as int]));
                }
                let ghost prev = out@;
                let item = sort_json_keys(&items[i]);
                out.push(item);
                assert(item_views(out@) =~= item_views(prev).push(item@));
                i += 1;
            }
            JsonValue::Array(out)
        },
        JsonValue::Object(members) => {
            let mut out: Vec<JsonMember> = Vec::new();
            let mut i: usize = 0;
            assert(member_views(out@) =~= sorted_values(v@, 0));
            while i < members.len()
                invariant
                    i <= members.len(),
                    decreases_to!(*v => *members),
                    v@ == JsonView::Object(member_views(members@)),
                    out@.len() == i,
                    member_views(out@) == sorted_values(v@, i as nat),
                decreases members.len() - i,
            {
                proof {
                    assert(decreases_to!(*members => members[i as int]));
                    assert(decreases_to!(members[i as int] => members[i as int].value));
                }
                let ghost prev = out@;
                let m = &members[i];
                let member = JsonMember { key: m.key.clone(), value: sort_json_keys(&m.value) };
                out.push(member);
                assert(member_views(out@) =~= member_views(prev).push(member@));
                i += 1;
            }
            proof {
                lemma_sort_commutes_with_map(out@, |m: JsonMember| m@);
            }
            sort_stable(&mut out);
            JsonValue::Object(out)
        },
        _ => v.clone(),
    };
    proof {
        lemma_view_unfold(r);
    }
    r
}

impl JsonView {
    /// A string, or `null` where there is none.
    pub open spec fn opt_text(o: Option<Seq<char>>) -> JsonView {
        match o {
            Some(s) => JsonView::Text(s),
            None => JsonView::Null,
        }
    }

    /// An unsigned integer.
    pub open spec fn number(n: u64) -> JsonView {
        JsonView::Number(JsonNumberView::Unsigned(n))
    }

    /// An unsigned integer, or `null` where there is none.
    pub open spec fn opt_number(o: Option<u64>) -> JsonView {
        match o {
            Some(n) => JsonView::number(n),
            None => JsonView::Null,
        }
    }

    /// A signed integer.
    pub open spec fn signed(i: i64) -> JsonView {
        JsonView::Number(JsonNumberView::Signed(i))
    }

    /// An array of strings.
    pub open spec fn texts(list: Seq<Seq<char>>) -> JsonView {
        JsonView::Array(list.map_values(|s: Seq<char>| JsonView::Text(s)))
    }

    /// An array of unsigned integers.
    pub open spec fn numbers(list: Seq<u64>) -> JsonView {
        JsonView::Array(list.map_values(|n: u64| JsonView::number(n)))
    }
}

impl JsonValue {
    /// A string.
    pub fn text(s: &str) -> (r: JsonValue)
        ensures
            r@ == JsonView::Text(s@),
    {
        JsonValue::Text(String::from_str(s))
    }

    /// A string, or `null` where there is none.
    pub fn opt_text(o: &Option<String>) -> (r: JsonValue)
        ensures
            r@ == JsonView::opt_text(
                match *o {
                    Some(s) => Some(s@),
                    None => None,
                },
            ),
    {
        match o {
            Some(s) => JsonValue::Text(s.clone()),
            None => JsonValue::Null,
        }
    }

    /// An unsigned integer.
    pub fn number(n: u64) -> (r: JsonValue)
        ensures
            r@ == JsonView::number(n),
    {
        JsonValue::Number(JsonNumber::Unsigned(n))
    }

    /// An unsigned integer, or `null` where there is none.
    pub fn opt_number(o: Option<u64>) -> (r: JsonValue)
        ensures
            r@ == JsonView::opt_number(o),
    {
        match o {
            Some(n) => JsonValue::Number(JsonNumber::Unsigned(n)),
            None => JsonValue::Null,
        }
    }

    /// A signed integer.
    pub fn signed(i: i64) -> (r: JsonValue)
        ensures
            r@ == JsonView::signed(i),
    {
        JsonValue::Number(JsonNumber::Signed(i))
    }

    /// An object with the given members, in their order.
    pub fn object(members: Vec<JsonMember>) -> (r: JsonValue)
        ensures
            r@ == JsonView::Object(member_views(members@)),
    {
        let r = JsonValue::Object(members);
        proof {
            lemma_view_unfold(r);
        }
        r
    }

    /// An array with the given items, in their order.
    pub fn array(items: Vec<JsonValue>) -> (r: JsonValue)
        ensures
            r@ == JsonView::Array(item_views(items@)),
    {
        let r = JsonValue::Array(items);
        proof {
            lemma_view_unfold(r);
        }
        r
    }

    /// An array of strings.
    pub fn texts(list: &Vec<String>) -> (r: JsonValue)
        ensures
            r@ == JsonView::texts(list@.map_values(|s: String| s@)),
    {
        let mut items: Vec<JsonValue> = Vec::new();
        let mut i: usize = 0;
        while i < list.len()
            invariant
                i <= list.len(),
                items@.len() == i,
                forall|k: int| 0 <= k < i ==> (#[trigger] items@[k])@ == JsonView::Text(list@[k]@),
            decreases list.len() - i,
        {
            items.push(JsonValue::Text(list[i].clone()));
            i += 1;
        }
        assert(item_views(items@) =~= list@.map_values(|s: String| s@).map_values(
            |s: Seq<char>| JsonView::Text(s),
        ));
        JsonValue::array(items)
    }

    /// An array of unsigned integers.
    pub fn numbers(list: &Vec<u64>) -> (r: JsonValue)
        ensures
            r@ == JsonView::numbers(list@),
    {
        let mut items: Vec<JsonValue> = Vec::new();
        let mut i: usize = 0;
        while i < list.len()
            invariant
                i <= list.len(),
                items@.len() == i,
                forall|k: int| 0 <= k < i ==> (#[trigger] items@[k])@ == JsonView::number(list@[k]),
            decreases list.len() - i,
        {
            items.push(JsonValue::number(list[i]));
            i += 1;
        }
        assert(item_views(items@) =~= list@.map_values(|n: u64| JsonView::number(n)));
        JsonValue::array(items)
    }
}

/// No members yet: where the building of an object starts.
pub fn no_members() -> (r: Vec<JsonMember>)
    ensures
        member_views(r@) == Seq::<JsonMemberView>::empty(),
{
    let r: Vec<JsonMember> = Vec::new();
    assert(member_views(r@) =~= Seq::<JsonMemberView>::empty());
    r
}

/// Adds the member `key: value` behind those that `members` holds.
pub fn put(members: &mut Vec<JsonMember>, key: &str, value: JsonValue)
    ensures
        member_views(final(members)@) == member_views(old(members)@).push(
            JsonMemberView { key: key@, value: value@ },
        ),
{
    let member = JsonMember { key: String::from_str(key), value };
    members.push(member);
    assert(member_views(members@) =~= member_views(old(members)@).push(member@));
}

/// Adds `value` behind the items that `items` holds.
pub fn put_item(items: &mut Vec<JsonValue>, value: JsonValue)
    ensures
        item_views(final(items)@) == item_views(old(items)@).push(value@),
{
    items.push(value);
    assert(item_views(items@) =~= item_views(old(items)@).push(value@));
}

/// How one character stands inside a JSON string: the quote and the
/// backslash behind a backslash, a control character as its short escape or
/// as `\u00` and two lower-case hexadecimal digits, any other character as
/// itself.
pub open spec fn json_escape(c: char) -> Seq<char> {
    let u = c as u32;
    if c == '"' {
        seq!['\\', '"']
    } else if c == '\\' {
        seq!['\\', '\\']
    } else if u == 0x08 {
        seq!['\\', 'b']
    } else if u == 0x09 {
        seq!['\\', 't']
    } else if u == 0x0A {
        seq!['\\', 'n']
    } else if u == 0x0C {
        seq!['\\', 'f']
    } else if u == 0x0D {
        seq!['\\', 'r']
    } else if u < 0x20 {
        seq!['\\', 'u', '0', '0', hex_digit((u / 16) as nat), hex_digit((u % 16) as nat)]
    } else {
        seq![c]
    }
}

/// The characters of `s`, each as it stands inside a JSON string.
pub open spec fn json_escaped(s: Seq<char>) -> Seq<char>
    decreases s.len(),
{
    if s.len() == 0 {
        Seq::empty()
    } else {
        json_escaped(s.drop_last()) + json_escape(s.last())
    }
}

/// `s` as a JSON string: escaped, between double quotes.
pub open spec fn json_quoted(s: Seq<char>) -> Seq<char> {
    seq!['"'] + json_escaped(s) + seq!['"']
}

/// The error type of `serde_json`, carried through as it is.
#[verifier::external_type_specification]
#[verifier::external_body]
pub struct ExJsonError(serde_json::Error);

/// Calls `serde_json::to_string` on a string slice. The serializer writes the
/// string between double quotes and escapes the quote, the backslash and the
/// control characters below U+0020, nothing else; writing into memory, it
/// does not fail.
#[verifier::external_body]
fn quote(s: &str) -> (r: Result<String, serde_json::Error>)
    ensures
        r is Ok,
        r->Ok_0@ == json_quoted(s@),
{
    serde_json::to_string(s)
}

/// The text of a number: an integer in decimal, a literal as it stands.
pub open spec fn number_text(n: JsonNumberView) -> Seq<char> {
    match n {
        JsonNumberView::Unsigned(u) => decimal_text(u as nat),
        JsonNumberView::Signed(i) => if i < 0 {
            seq!['-'] + decimal_text((-i) as nat)
        } else {
            decimal_text(i as nat)
        },
        JsonNumberView::Literal(s) => s,
    }
}

/// The texts of the first `n` items of an array, with commas between them.
pub open spec fn items_text(v: JsonView, n: nat) -> Seq<char>
    decreases v, 0nat, n,
{
    match v {
        JsonView::Array(items) => if n == 0 || n > items.len() {
            Seq::empty()
        } else if n == 1 {
            compact_text(items[0])
        } else {
            items_text(v, (n - 1) as nat) + seq![','] + compact_text(items[n - 1])
        },
        _ => Seq::empty(),
    }
}

/// The texts of the first `n` members of an object, with commas between them.
pub open spec fn members_text(v: JsonView, n: nat) -> Seq<char>
    decreases v, 0nat, n,
{
    match v {
        JsonView::Object(members) => if n == 0 || n > members.len() {
            Seq::empty()
        } else if n == 1 {
            json_quoted(members[0].key) + seq![':'] + compact_text(members[0].value)
        } else {
            members_text(v, (n - 1) as nat) + seq![','] + json_quoted(members[n - 1].key) + seq![
                ':',
            ] + compact_text(members[n - 1].value)
        },
        _ => Seq::empty(),
    }
}

/// The document as JSON text without any whitespace between its tokens,
/// members and items in the order in which they stand.
pub open spec fn compact_text(v: JsonView) -> Seq<char>
    decreases v, 1nat, 0nat,
{
    match v {
        JsonView::Null => "null"@,
        JsonView::Bool(b) => if b {
            "true"@
        } else {
            "false"@
        },
        JsonView::Number(n) => number_text(n),
        JsonView::Text(s) => json_quoted(s),
        JsonView::Array(items) => seq!['['] + items_text(v, items.len()) + seq![']'],
        JsonView::Object(members) => seq!['{'] + members_text(v, members.len()) + seq!['}'],
    }
}

/// Appends `s` as a JSON string to `out`; `false`, and `out` as it was, if
/// the serializer refused.
fn push_quoted(out: &mut String, s: &str) -> (ok: bool)
    ensures
        ok,
        final(out)@ == old(out)@ + json_quoted(s@),
{
    match quote(s) {
        Ok(t) => {
            out.append(t.as_str());
            true
        },
        Err(_) => false,
    }
}

fn push_number(out: &mut String, n: &JsonNumber)
    ensures
        final(out)@ == old(out)@ + number_text(n@),
{
    proof {
        reveal_strlit("-");
    }
    match n {
        JsonNumber::Unsigned(u) => push_decimal(out, *u),
        JsonNumber::Signed(i) => {
            if *i < 0 {
                let magnitude: u64 = (-(*i as i128)) as u64;
                out.append("-");
                push_decimal(out, magnitude);
                assert(final(out)@ =~= old(out)@ + number_text(n@));
            } else {
                push_decimal(out, *i as u64);
            }
        },
        JsonNumber::Literal(s) => out.append(s.as_str()),
    }
}

/// Appends the compact text of `v` to `out`; `false` if the serializer
/// refused a string, which it does not.
pub fn write_compact(out: &mut String, v: &JsonValue) -> (ok: bool)
    ensures
        ok,
        final(out)@ == old(out)@ + compact_text(v@),
    decreases v,
{
    proof {
        lemma_view_unfold(*v);
        reveal_strlit("[");
        reveal_strlit("]");
        reveal_strlit("{");
        reveal_strlit("}");
        reveal_strlit(",");
        reveal_strlit(":");
    }
    let ghost start = out@;
    match v {
        JsonValue::Null => {
            out.append("null");
            true
        },
        JsonValue::Bool(b) => {
            if *b {
                out.append("true");
            } else {
                out.append("false");
            }
            true
        },
        JsonValue::Number(n) => {
            push_number(out, n);
            true
        },
        JsonValue::Text(s) => push_quoted(out, s.as_str()),
        JsonValue::Array(items) => {
            out.append("[");
            let mut i: usize = 0;
            assert(out@ =~= start + seq!['['] + items_text(v@, 0));
            while i < items.len()
                invariant
                    i <= items.len(),
                    decreases_to!(*v => *items),
                    v@ == JsonView::Array(item_views(items@)),
                    out@ == start + seq!['['] + items_text(v@, i as nat),
                decreases items.len() - i,
            {
                proof {
                    assert(decreases_to!(*items => items[i as int]));
                    reveal_strlit(",");
                    assert(item_views(items@)[i as int] == items@[i as int]@);
                }
                if i > 0 {
                    out.append(",");
                }
                if !write_compact(out, &items[i]) {
                    return false;
                }
                assert(out@ =~= start + seq!['['] + items_text(v@, (i + 1) as nat));
                i += 1;
            }
            out.append("]");
            assert(out@ =~= start + compact_text(v@));
            true
        },
        JsonValue::Object(members) => {
            out.append("{");
            let mut i: usize = 0;
            assert(out@ =~= start + seq!['{'] + members_text(v@, 0));
            while i < members.len()
                invariant
                    i <= members.len(),
                    decreases_to!(*v => *members),
                    v@ == JsonView::Object(member_views(members@)),
                    out@ == start + seq!['{'] + members_text(v@, i as nat),
                decreases members.len() - i,
            {
                proof {
                    assert(decreases_to!(*members => members[i as int]));
                    assert(decreases_to!(members[i as int] => members[i as int].value));
                    reveal_strlit(",");
                    reveal_strlit(":");
                    assert(member_views(members@)[i as int] == members@[i as int]@);
                }
                if i > 0 {
                    out.append(",");
                }
                let m = &members[i];
                if !push_quoted(out, m.key.as_str()) {
                    return false;
                }
                out.append(":");
                if !write_compact(out, &m.value) {
                    return false;
                }
                assert(out@ =~= start + seq!['{'] + members_text(v@, (i + 1) as nat));
                i += 1;
            }
            out.append("}");
            assert(out@ =~= start + compact_text(v@));
            true
        },
    }
}

/// The compact text of `v`.
pub fn to_compact_text(v: &JsonValue) -> (r: String)
    ensures
        r@ == compact_text(v@),
{
    let mut out = String::new();
    let ok = write_compact(&mut out, v);
    assert(out@ =~= compact_text(v@));
    out
}

} // verus!
