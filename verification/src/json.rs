//! JSON values as the library reads and builds them, with the accessors of a JSON
//! document model: field lookup, array indexing and the scalar views.
use vstd::prelude::*;
use crate::text::{decimal_seq, decimal_string, push_char, str_eq};

verus! {

/// A JSON number: a non-negative integer, a negative integer, or another number kept
/// as the text it is written with.
#[derive(Debug)]
pub enum JsonNumber {
    PosInt(u64),
    NegInt(i64),
    Float(String),
}

/// A JSON value. An object keeps its members in order. `Raw` is a value given by its
/// JSON text, written out as it stands.
#[derive(Debug)]
pub enum Json {
    Null,
    Bool(bool),
    Number(JsonNumber),
    Str(String),
    Array(Vec<Json>),
    Object(Vec<(String, Json)>),
    Raw(String),
}

/// A JSON value as a mathematical object: strings as characters, a number as its text.
#[verifier::ext_equal]
pub enum JsonView {
    Null,
    Bool(bool),
    Number(Seq<char>),
    Str(Seq<char>),
    Array(Seq<JsonView>),
    Object(Seq<(Seq<char>, JsonView)>),
    Raw(Seq<char>),
}

/// The views of array elements.
pub open spec fn items_view(a: Seq<Json>) -> Seq<JsonView> {
    Seq::new(a.len(), |i: int| json_view(a[i]))
}

/// The views of object members.
pub open spec fn members_view(m: Seq<(String, Json)>) -> Seq<(Seq<char>, JsonView)> {
    Seq::new(m.len(), |i: int| (m[i].0@, json_view(m[i].1)))
}

/// The mathematical view of a value.
pub open spec fn json_view(v: Json) -> JsonView
    decreases v,
{
    match v {
        Json::Null => JsonView::Null,
        Json::Bool(b) => JsonView::Bool(b),
        Json::Number(n) => JsonView::Number(number_text(n)),
        Json::Str(s) => JsonView::Str(s@),
        Json::Array(a) => JsonView::Array(
            Seq::new(
                a@.len(),
                |i: int|
                    if 0 <= i < a@.len() {
                        proof {
                            assert(decreases_to!(a => a@));
                        }
                        json_view(a@[i])
                    } else {
                        JsonView::Null
                    },
            ),
        ),
        Json::Object(m) => JsonView::Object(
            Seq::new(
                m@.len(),
                |i: int|
                    if 0 <= i < m@.len() {
                        proof {
                            assert(decreases_to!(m => m@));
                        }
                        (m@[i].0@, json_view(m@[i].1))
                    } else {
                        (Seq::empty(), JsonView::Null)
                    },
            ),
        ),
        Json::Raw(t) => JsonView::Raw(t@),
    }
}

/// The value of the first member named `key`.
pub open spec fn field_of(members: Seq<(String, Json)>, key: Seq<char>) -> Option<Json>
    decreases members.len(),
{
    if members.len() == 0 {
        None
    } else if members[0].0@ == key {
        Some(members[0].1)
    } else {
        field_of(members.drop_first(), key)
    }
}

impl Json {
    /// Member `key` of an object; `None` for other values.
    pub open spec fn get_spec(self, key: Seq<char>) -> Option<Json> {
        match self {
            Json::Object(m) => field_of(m@, key),
            _ => None,
        }
    }

    /// Element `i` of an array; `None` for other values or out of range.
    pub open spec fn at_spec(self, i: int) -> Option<Json> {
        match self {
            Json::Array(a) => if 0 <= i < a@.len() {
                Some(a@[i])
            } else {
                None
            },
            _ => None,
        }
    }

    /// The characters of a string value.
    pub open spec fn str_spec(self) -> Option<Seq<char>> {
        match self {
            Json::Str(s) => Some(s@),
            _ => None,
        }
    }

    /// A number that is an integer in `0..=u64::MAX`.
    pub open spec fn u64_spec(self) -> Option<u64> {
        match self {
            Json::Number(JsonNumber::PosInt(n)) => Some(n),
            _ => None,
        }
    }

    /// A number that is an integer in `i64::MIN..=i64::MAX`.
    pub open spec fn i64_spec(self) -> Option<i64> {
        match self {
            Json::Number(JsonNumber::PosInt(n)) => if n <= i64::MAX {
                Some(n as i64)
            } else {
                None
            },
            Json::Number(JsonNumber::NegInt(n)) => Some(n),
            _ => None,
        }
    }

    /// A boolean value.
    pub open spec fn bool_spec(self) -> Option<bool> {
        match self {
            Json::Bool(b) => Some(b),
            _ => None,
        }
    }

    /// The elements of an array.
    pub open spec fn array_spec(self) -> Option<Seq<Json>> {
        match self {
            Json::Array(a) => Some(a@),
            _ => None,
        }
    }

    /// Member `key` of an object.
    pub fn get(&self, key: &str) -> (r: Option<&Json>)
        ensures
            match r {
                Some(v) => self.get_spec(key@) == Some(*v),
                None => self.get_spec(key@) is None,
            },
    {
        match self {
            Json::Object(m) => {
                let mut k: usize = 0;
                assert(m@.subrange(0, m@.len() as int) =~= m@);
                while k < m.len()
                    invariant
                        k <= m.len(),
                        self.get_spec(key@) == field_of(m@, key@),
                        field_of(m@, key@) == field_of(m@.subrange(k as int, m@.len() as int), key@),
                    decreases m.len() - k,
                {
                    let ghost rest = m@.subrange(k as int, m@.len() as int);
                    assert(rest[0] == m@[k as int]);
                    if str_eq(m[k].0.as_str(), key) {
                        return Some(&m[k].1);
                    }
                    assert(rest.drop_first() =~= m@.subrange(k + 1, m@.len() as int));
                    k = k + 1;
                }
                assert(m@.subrange(k as int, m@.len() as int) =~= Seq::<(String, Json)>::empty());
                None
            },
            _ => None,
        }
    }

    /// Element `i` of an array.
    pub fn at(&self, i: usize) -> (r: Option<&Json>)
        ensures
            match r {
                Some(v) => self.at_spec(i as int) == Some(*v),
                None => self.at_spec(i as int) is None,
            },
    {
        match self {
            Json::Array(a) => {
                if i < a.len() {
                    Some(&a[i])
                } else {
                    None
                }
            },
            _ => None,
        }
    }

    /// A string value.
    pub fn as_str(&self) -> (r: Option<&str>)
        ensures
            match r {
                Some(s) => self.str_spec() == Some(s@),
                None => self.str_spec() is None,
            },
    {
        match self {
            Json::Str(s) => Some(s.as_str()),
            _ => None,
        }
    }

    /// An integer number in the `u64` range.
    pub fn as_u64(&self) -> (r: Option<u64>)
        ensures
            r == self.u64_spec(),
    {
        match self {
            Json::Number(JsonNumber::PosInt(n)) => Some(*n),
            _ => None,
        }
    }

    /// An integer number in the `i64` range.
    pub fn as_i64(&self) -> (r: Option<i64>)
        ensures
            r == self.i64_spec(),
    {
        match self {
            Json::Number(JsonNumber::PosInt(n)) => {
                if *n <= 9223372036854775807u64 {
                    Some(*n as i64)
                } else {
                    None
                }
            },
            Json::Number(JsonNumber::NegInt(n)) => Some(*n),
            _ => None,
        }
    }

    /// A boolean value.
    pub fn as_bool(&self) -> (r: Option<bool>)
        ensures
            r == self.bool_spec(),
    {
        match self {
            Json::Bool(b) => Some(*b),
            _ => None,
        }
    }

    /// The elements of an array.
    pub fn as_array(&self) -> (r: Option<&Vec<Json>>)
        ensures
            match r {
                Some(a) => self.array_spec() == Some(a@),
                None => self.array_spec() is None,
            },
    {
        match self {
            Json::Array(a) => Some(a),
            _ => None,
        }
    }
}

/// Lower-case hexadecimal digit.
pub open spec fn hex_char(d: nat) -> char {
    if d < 10 { ((48 + d) as u8) as char } else { ((87 + d) as u8) as char }
}

/// A character as it is written inside a JSON string: `"` and `\` escaped, the control
/// characters as `\b`, `\f`, `\n`, `\r`, `\t` or `\u00XX`, others unchanged.
pub open spec fn escape_char(c: char) -> Seq<char> {
    if c == '"' {
        seq!['\\', '"']
    } else if c == '\\' {
        seq!['\\', '\\']
    } else if c == '\n' {
        seq!['\\', 'n']
    } else if c == '\r' {
        seq!['\\', 'r']
    } else if c == '\t' {
        seq!['\\', 't']
    } else if c == '\x08' {
        seq!['\\', 'b']
    } else if c == '\x0c' {
        seq!['\\', 'f']
    } else if (c as u32) < 0x20 {
        seq!['\\', 'u', '0', '0', hex_char((c as u32 / 16) as nat), hex_char((c as u32 % 16) as nat)]
    } else {
        seq![c]
    }
}

/// The escaped characters of a string.
pub open spec fn escape_seq(s: Seq<char>) -> Seq<char>
    decreases s.len(),
{
    if s.len() == 0 {
        Seq::empty()
    } else {
        escape_seq(s.drop_last()) + escape_char(s.last())
    }
}

/// A JSON string literal.
pub open spec fn quoted(s: Seq<char>) -> Seq<char> {
    seq!['"'] + escape_seq(s) + seq!['"']
}

/// The text of a number: its decimal digits, with `-` when negative, or its written text.
pub open spec fn number_text(n: JsonNumber) -> Seq<char> {
    match n {
        JsonNumber::PosInt(x) => decimal_seq(x as nat),
        JsonNumber::NegInt(x) => if x < 0 { seq!['-'] + decimal_seq((-x) as nat) } else { decimal_seq(x as nat) },
        JsonNumber::Float(t) => t@,
    }
}

/// Compact JSON text of a value: no white space, members in their order.
pub open spec fn json_text(v: Json) -> Seq<char>
    decreases v,
{
    match v {
        Json::Null => "null"@,
        Json::Bool(b) => if b { "true"@ } else { "false"@ },
        Json::Number(n) => number_text(n),
        Json::Str(s) => quoted(s@),
        Json::Array(a) => {
            proof {
                assert(decreases_to!(a => a@));
            }
            seq!['['] + items_text(a@) + seq![']']
        },
        Json::Object(m) => {
            proof {
                assert(decreases_to!(m => m@));
            }
            seq!['{'] + members_text(m@) + seq!['}']
        },
        Json::Raw(t) => t@,
    }
}

/// Elements separated by commas.
pub open spec fn items_text(a: Seq<Json>) -> Seq<char>
    decreases a,
{
    if a.len() == 0 {
        Seq::empty()
    } else if a.len() == 1 {
        json_text(a[0])
    } else {
        items_text(a.subrange(0, a.len() - 1)) + seq![','] + json_text(a[a.len() - 1])
    }
}

/// Members `"key":value` separated by commas.
pub open spec fn members_text(m: Seq<(String, Json)>) -> Seq<char>
    decreases m,
{
    if m.len() == 0 {
        Seq::empty()
    } else if m.len() == 1 {
        quoted(m[0].0@) + seq![':'] + json_text(m[0].1)
    } else {
        members_text(m.subrange(0, m.len() - 1)) + seq![','] + quoted(m[m.len() - 1].0@) + seq![':'] + json_text(
            m[m.len() - 1].1,
        )
    }
}

/// A lower-case hexadecimal digit.
fn hex_char_exec(d: u32) -> (c: char)
    requires
        d < 16,
    ensures
        c == hex_char(d as nat),
{
    if d < 10 {
        ((48 + d) as u8) as char
    } else {
        ((87 + d) as u8) as char
    }
}

/// Appends the escaped form of `s` to `out`.
fn escape_into(out: &mut String, s: &str)
    ensures
        final(out)@ == old(out)@ + escape_seq(s@),
{
    let cv = crate::text::chars_of(s);
    let mut i: usize = 0;
    while i < cv.len()
        invariant
            i <= cv.len(),
            cv@ == s@,
            out@ == old(out)@ + escape_seq(cv@.subrange(0, i as int)),
        decreases cv.len() - i,
    {
        let c = cv[i];
        let ghost before = out@;
        if c == '"' {
            out.append("\\\"");
        } else if c == '\\' {
            out.append("\\\\");
        } else if c == '\n' {
            out.append("\\n");
        } else if c == '\r' {
            out.append("\\r");
        } else if c == '\t' {
            out.append("\\t");
        } else if c == '\x08' {
            out.append("\\b");
        } else if c == '\x0c' {
            out.append("\\f");
        } else if (c as u32) < 0x20 {
            out.append("\\u00");
            push_char(out, hex_char_exec((c as u32) / 16));
            push_char(out, hex_char_exec((c as u32) % 16));
        } else {
            push_char(out, c);
        }
        proof {
            reveal_strlit("\\\"");
            reveal_strlit("\\\\");
            reveal_strlit("\\n");
            reveal_strlit("\\r");
            reveal_strlit("\\t");
            reveal_strlit("\\b");
            reveal_strlit("\\f");
            reveal_strlit("\\u00");
            assert(out@ =~= before + escape_char(c));
            assert(cv@.subrange(0, i + 1).drop_last() =~= cv@.subrange(0, i as int));
        }
        i = i + 1;
    }
    assert(cv@.subrange(0, cv.len() as int) =~= cv@);
}

/// Appends the text of a number to `out`.
fn write_number(n: &JsonNumber, out: &mut String)
    ensures
        final(out)@ == old(out)@ + number_text(*n),
{
    match n {
        JsonNumber::PosInt(x) => {
            out.append(decimal_string(*x).as_str());
        },
        JsonNumber::NegInt(x) => {
            if *x < 0 {
                let m: u64 = if *x == i64::MIN {
                    9223372036854775808u64
                } else {
                    (-*x) as u64
                };
                push_char(out, '-');
                out.append(decimal_string(m).as_str());
            } else {
                out.append(decimal_string(*x as u64).as_str());
            }
        },
        JsonNumber::Float(t) => {
            out.append(t.as_str());
        },
    }
}

/// Appends the compact JSON text of `v` to `out`.
pub fn write_json(v: &Json, out: &mut String)
    ensures
        final(out)@ == old(out)@ + json_text(*v),
    decreases v,
{
    match v {
        Json::Null => {
            out.append("null");
        },
        Json::Bool(b) => {
            if *b {
                out.append("true");
            } else {
                out.append("false");
            }
        },
        Json::Number(n) => {
            write_number(n, out);
        },
        Json::Str(s) => {
            push_char(out, '"');
            escape_into(out, s.as_str());
            push_char(out, '"');
            assert(out@ =~= old(out)@ + quoted(s@));
        },
        Json::Array(a) => {
            push_char(out, '[');
            write_items(a, out);
            push_char(out, ']');
            assert(out@ =~= old(out)@ + (seq!['['] + items_text(a@) + seq![']']));
        },
        Json::Object(m) => {
            push_char(out, '{');
            write_members(m, out);
            push_char(out, '}');
            assert(out@ =~= old(out)@ + (seq!['{'] + members_text(m@) + seq!['}']));
        },
        Json::Raw(t) => {
            out.append(t.as_str());
        },
    }
}

/// Appends the elements of `a`, separated by commas.
fn write_items(a: &Vec<Json>, out: &mut String)
    ensures
        final(out)@ == old(out)@ + items_text(a@),
    decreases a,
{
    let mut i: usize = 0;
    while i < a.len()
        invariant
            i <= a.len(),
            out@ == old(out)@ + items_text(a@.subrange(0, i as int)),
        decreases a.len() - i,
    {
        let ghost before = out@;
        if i > 0 {
            push_char(out, ',');
        }
        proof {
            assert(decreases_to!(a => a[i as int]));
        }
        write_json(&a[i], out);
        proof {
            let t = a@.subrange(0, i + 1);
            assert(t.subrange(0, t.len() - 1) =~= a@.subrange(0, i as int));
            assert(t[t.len() - 1] == a@[i as int]);
            if i == 0 {
                assert(a@.subrange(0, 0) =~= Seq::<Json>::empty());
            }
        }
        i = i + 1;
        assert(out@ =~= old(out)@ + items_text(a@.subrange(0, i as int)));
    }
    assert(a@.subrange(0, a.len() as int) =~= a@);
}

/// Appends the members of `m`, separated by commas.
fn write_members(m: &Vec<(String, Json)>, out: &mut String)
    ensures
        final(out)@ == old(out)@ + members_text(m@),
    decreases m,
{
    let mut i: usize = 0;
    while i < m.len()
        invariant
            i <= m.len(),
            out@ == old(out)@ + members_text(m@.subrange(0, i as int)),
        decreases m.len() - i,
    {
        if i > 0 {
            push_char(out, ',');
        }
        push_char(out, '"');
        escape_into(out, m[i].0.as_str());
        push_char(out, '"');
        push_char(out, ':');
        proof {
            assert(decreases_to!(m => m[i as int]));
            assert(decreases_to!(m[i as int] => m[i as int].1));
        }
        write_json(&m[i].1, out);
        proof {
            let t = m@.subrange(0, i + 1);
            assert(t.subrange(0, t.len() - 1) =~= m@.subrange(0, i as int));
            assert(t[t.len() - 1] == m@[i as int]);
            if i == 0 {
                assert(m@.subrange(0, 0) =~= Seq::<(String, Json)>::empty());
            }
        }
        i = i + 1;
        assert(out@ =~= old(out)@ + members_text(m@.subrange(0, i as int)));
    }
    assert(m@.subrange(0, m.len() as int) =~= m@);
}

/// The view of an array is the views of its elements.
pub proof fn lemma_array_view(a: Vec<Json>)
    ensures
        json_view(Json::Array(a)) == JsonView::Array(items_view(a@)),
{
    let v = json_view(Json::Array(a));
    assert(v->Array_0 =~= items_view(a@));
}

/// The view of an object is the views of its members.
pub proof fn lemma_object_view(m: Vec<(String, Json)>)
    ensures
        json_view(Json::Object(m)) == JsonView::Object(members_view(m@)),
{
    let v = json_view(Json::Object(m));
    assert(v->Object_0 =~= members_view(m@));
}

/// A string value with the characters of `s`.
pub fn str_json(s: &str) -> (j: Json)
    ensures
        json_view(j) == JsonView::Str(s@),
{
    Json::Str(crate::text::owned(s))
}

/// Appends the member `key: value`.
pub fn push_member(m: &mut Vec<(String, Json)>, key: &str, value: Json)
    ensures
        members_view(final(m)@) == members_view(old(m)@).push((key@, json_view(value))),
{
    let k = crate::text::owned(key);
    m.push((k, value));
    assert(members_view(m@) =~= members_view(old(m)@).push((key@, json_view(value))));
}

/// Appends the element `value`.
pub fn push_item(a: &mut Vec<Json>, value: Json)
    ensures
        items_view(final(a)@) == items_view(old(a)@).push(json_view(value)),
{
    a.push(value);
    assert(items_view(a@) =~= items_view(old(a)@).push(json_view(value)));
}

/// An object with the given members.
pub fn object(m: Vec<(String, Json)>) -> (j: Json)
    ensures
        json_view(j) == JsonView::Object(members_view(m@)),
{
    proof {
        lemma_object_view(m);
    }
    Json::Object(m)
}

/// An array with the given elements.
pub fn array(a: Vec<Json>) -> (j: Json)
    ensures
        json_view(j) == JsonView::Array(items_view(a@)),
{
    proof {
        lemma_array_view(a);
    }
    Json::Array(a)
}

/// The compact JSON text of `v`.
pub fn to_json_text(v: &Json) -> (s: String)
    ensures
        s@ == json_text(*v),
{
    let mut s = String::new();
    write_json(v, &mut s);
    s
}

/// A borrowed optional value, as a value.
pub open spec fn deref_opt(o: Option<&Json>) -> Option<Json> {
    match o {
        Some(j) => Some(*j),
        None => None,
    }
}

/// Member `key` of an optional object.
pub open spec fn opt_get(o: Option<Json>, key: Seq<char>) -> Option<Json> {
    match o {
        Some(j) => j.get_spec(key),
        None => None,
    }
}

/// Element `i` of an optional array.
pub open spec fn opt_at(o: Option<Json>, i: int) -> Option<Json> {
    match o {
        Some(j) => j.at_spec(i),
        None => None,
    }
}

/// An optional string value.
pub open spec fn opt_str(o: Option<Json>) -> Option<Seq<char>> {
    match o {
        Some(j) => j.str_spec(),
        None => None,
    }
}

/// An optional integer in the `u64` range.
pub open spec fn opt_u64(o: Option<Json>) -> Option<u64> {
    match o {
        Some(j) => j.u64_spec(),
        None => None,
    }
}

/// The elements of an optional array.
pub open spec fn opt_array(o: Option<Json>) -> Option<Seq<Json>> {
    match o {
        Some(j) => j.array_spec(),
        None => None,
    }
}

/// Member `key` of an optional object.
pub fn get_in<'a>(o: Option<&'a Json>, key: &str) -> (r: Option<&'a Json>)
    ensures
        deref_opt(r) == opt_get(deref_opt(o), key@),
{
    match o {
        Some(j) => j.get(key),
        None => None,
    }
}

/// Element `i` of an optional array.
pub fn at_in<'a>(o: Option<&'a Json>, i: usize) -> (r: Option<&'a Json>)
    ensures
        deref_opt(r) == opt_at(deref_opt(o), i as int),
{
    match o {
        Some(j) => j.at(i),
        None => None,
    }
}

/// An optional string value, copied; empty when absent.
pub fn str_or_empty(o: Option<&Json>) -> (s: String)
    ensures
        s@ == match opt_str(deref_opt(o)) {
            Some(x) => x,
            None => Seq::<char>::empty(),
        },
{
    match o {
        Some(j) => match j.as_str() {
            Some(x) => crate::text::owned(x),
            None => String::new(),
        },
        None => String::new(),
    }
}

/// An optional integer in the `u64` range, or 0, cut to 32 bits.
pub open spec fn u32_or_zero(o: Option<Json>) -> u32 {
    match opt_u64(o) {
        Some(n) => n as u32,
        None => 0u32,
    }
}

/// An optional integer in the `u64` range, or 0, cut to 32 bits.
pub fn u32_or_zero_exec(o: Option<&Json>) -> (n: u32)
    ensures
        n == u32_or_zero(deref_opt(o)),
{
    match o {
        Some(j) => match j.as_u64() {
            Some(n) => n as u32,
            None => 0,
        },
        None => 0,
    }
}

/// What `serde_json` reports when it reads `s` as a JSON document: the text of its
/// error, or none when it reads it.
pub uninterp spec fn json_error_of(s: Seq<char>) -> Option<Seq<char>>;

/// Whether `serde_json` reads `s` as a JSON document.
pub open spec fn is_json_text(s: Seq<char>) -> bool {
    json_error_of(s) is None
}

/// Calls `serde_json::from_str` into a `serde_json::Value` and reports whether it
/// succeeded, which is when the error named by `json_error_of` is none.
#[verifier::external_body]
pub fn json_text_valid(s: &str) -> (b: bool)
    ensures
        b == (json_error_of(s@) is None),
{
    serde_json::from_str::<serde_json::Value>(s).is_ok()
}

/// Calls `serde_json::from_str` into a `serde_json::Value` and gives the text (`Display`)
/// of its error, if it fails; named by `json_error_of`.
#[verifier::external_body]
pub(crate) fn json_error_text(s: &str) -> (r: Option<String>)
    ensures
        match r {
            Some(e) => json_error_of(s@) == Some(e@),
            None => json_error_of(s@) is None,
        },
{
    match serde_json::from_str::<serde_json::Value>(s) {
        Ok(_) => None,
        Err(e) => Some(e.to_string()),
    }
}

/// The JSON string literal of `s`.
pub fn quote_json_string(s: &str) -> (r: String)
    ensures
        r@ == quoted(s@),
{
    let mut r = String::new();
    push_char(&mut r, '"');
    escape_into(&mut r, s);
    push_char(&mut r, '"');
    assert(r@ =~= quoted(s@));
    r
}

} // verus!
