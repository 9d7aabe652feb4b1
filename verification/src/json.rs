//! A JSON document model for payloads that the library reads and builds,
//! and the textual form of 128-bit identifiers.
use vstd::prelude::*;

use crate::common::Replicate;
use crate::text::same_text;

verus! {

broadcast use vstd::string::group_string_axioms;

/// A JSON value. Numbers that are not integers keep their text; object
/// members keep their order.
#[derive(Debug)]
pub enum Json {
    Null,
    Bool(bool),
    Int(i128),
    Decimal(String),
    Str(String),
    Array(Vec<Json>),
    Object(Vec<(String, Json)>),
}

/// A JSON value, by view.
pub enum JsonView {
    Null,
    Bool(bool),
    Int(i128),
    Decimal(Seq<char>),
    Str(Seq<char>),
    Array(Seq<JsonView>),
    Object(Seq<(Seq<char>, JsonView)>),
}

/// The view of a JSON value.
pub open spec fn json_view(j: Json) -> JsonView
    decreases j, 0nat,
{
    match j {
        Json::Null => JsonView::Null,
        Json::Bool(b) => JsonView::Bool(b),
        Json::Int(n) => JsonView::Int(n),
        Json::Decimal(t) => JsonView::Decimal(t@),
        Json::Str(s) => JsonView::Str(s@),
        Json::Array(items) => JsonView::Array(items_view(items@, items@.len())),
        Json::Object(fields) => JsonView::Object(members_view(fields@, fields@.len())),
    }
}

/// The views of the first `n` items.
pub open spec fn items_view(s: Seq<Json>, n: nat) -> Seq<JsonView>
    decreases s, n,
{
    if n == 0 || n > s.len() {
        Seq::empty()
    } else {
        items_view(s, (n - 1) as nat).push(json_view(s[n - 1]))
    }
}

/// The views of the first `n` members.
pub open spec fn members_view(s: Seq<(String, Json)>, n: nat) -> Seq<(Seq<char>, JsonView)>
    decreases s, n,
{
    if n == 0 || n > s.len() {
        Seq::empty()
    } else {
        members_view(s, (n - 1) as nat).push((s[n - 1].0@, json_view(s[n - 1].1)))
    }
}

pub proof fn lemma_items_view_prefix(s: Seq<Json>, t: Seq<Json>, n: nat)
    requires
        n <= s.len(),
        n <= t.len(),
        forall|i: int| 0 <= i < n ==> s[i] == t[i],
    ensures
        items_view(s, n) == items_view(t, n),
    decreases n,
{
    if n > 0 {
        lemma_items_view_prefix(s, t, (n - 1) as nat);
    }
}

pub proof fn lemma_members_view_prefix(s: Seq<(String, Json)>, t: Seq<(String, Json)>, n: nat)
    requires
        n <= s.len(),
        n <= t.len(),
        forall|i: int| 0 <= i < n ==> s[i] == t[i],
    ensures
        members_view(s, n) == members_view(t, n),
    decreases n,
{
    if n > 0 {
        lemma_members_view_prefix(s, t, (n - 1) as nat);
    }
}

/// The members' views, as a map over the members.
pub proof fn lemma_members_view_map(s: Seq<(String, Json)>, n: nat)
    requires
        n <= s.len(),
    ensures
        members_view(s, n) == s.take(n as int).map_values(|m: (String, Json)| (m.0@, json_view(m.1))),
    decreases n,
{
    if n > 0 {
        lemma_members_view_map(s, (n - 1) as nat);
        assert(s.take(n as int).map_values(|m: (String, Json)| (m.0@, json_view(m.1))) =~= s.take(
            (n - 1) as int,
        ).map_values(|m: (String, Json)| (m.0@, json_view(m.1))).push((s[n - 1].0@, json_view(s[n - 1].1))));
    } else {
        assert(s.take(0).map_values(|m: (String, Json)| (m.0@, json_view(m.1))) =~= Seq::empty());
    }
}

/// The items' views, as a map over the items.
pub proof fn lemma_items_view_map(s: Seq<Json>, n: nat)
    requires
        n <= s.len(),
    ensures
        items_view(s, n) == s.take(n as int).map_values(|j: Json| json_view(j)),
    decreases n,
{
    if n > 0 {
        lemma_items_view_map(s, (n - 1) as nat);
        assert(s.take(n as int).map_values(|j: Json| json_view(j)) =~= s.take((n - 1) as int).map_values(
            |j: Json| json_view(j),
        ).push(json_view(s[n - 1])));
    } else {
        assert(s.take(0).map_values(|j: Json| json_view(j)) =~= Seq::empty());
    }
}

impl View for Json {
    type V = JsonView;

    open spec fn view(&self) -> JsonView {
        json_view(*self)
    }
}

impl Json {
    /// A copy of this value.
    pub fn duplicate(&self) -> (r: Json)
        ensures
            json_view(r) == json_view(*self),
        decreases self,
    {
        match self {
            Json::Null => Json::Null,
            Json::Bool(b) => Json::Bool(*b),
            Json::Int(n) => Json::Int(*n),
            Json::Decimal(t) => Json::Decimal(t.clone()),
            Json::Str(t) => Json::Str(t.clone()),
            Json::Array(items) => {
                let mut out: Vec<Json> = Vec::new();
                let mut i: usize = 0;
                while i < items.len()
                    invariant
                        *self == Json::Array(*items),
                        i <= items@.len(),
                        out@.len() == i,
                        items_view(out@, i as nat) == items_view(items@, i as nat),
                    decreases items@.len() - i,
                {
                    proof {
                        vstd::std_specs::vec::axiom_vec_index_decreases(*items, i as int);
                        assert(decreases_to!(*self => (*self)->Array_0));
                        assert(decreases_to!(*self => items[i as int]));
                    }
                    let c = items[i].duplicate();
                    let ghost before = out@;
                    out.push(c);
                    proof {
                        lemma_items_view_prefix(before, out@, i as nat);
                    }
                    i = i + 1;
                }
                Json::Array(out)
            },
            Json::Object(fields) => {
                let mut out: Vec<(String, Json)> = Vec::new();
                let mut i: usize = 0;
                while i < fields.len()
                    invariant
                        *self == Json::Object(*fields),
                        i <= fields@.len(),
                        out@.len() == i,
                        members_view(out@, i as nat) == members_view(fields@, i as nat),
                    decreases fields@.len() - i,
                {
                    proof {
                        vstd::std_specs::vec::axiom_vec_index_decreases(*fields, i as int);
                        assert(decreases_to!(*self => (*self)->Object_0));
                        assert(decreases_to!(*self => fields[i as int]));
                        assert(decreases_to!(*self => fields[i as int].1));
                    }
                    let c = fields[i].1.duplicate();
                    let k = fields[i].0.clone();
                    let ghost before = out@;
                    out.push((k, c));
                    proof {
                        lemma_members_view_prefix(before, out@, i as nat);
                    }
                    i = i + 1;
                }
                Json::Object(out)
            },
        }
    }
}

impl Clone for Json {
    fn clone(&self) -> (r: Json)
        ensures
            r@ == self@,
    {
        self.duplicate()
    }
}

impl Replicate for Json {
    fn replicate(&self) -> (r: Json) {
        self.duplicate()
    }
}

/// The first member of `fields` named `key`, from position `i` on.
pub open spec fn member_from(fields: Seq<(String, Json)>, key: Seq<char>, i: int) -> Option<Json>
    decreases fields.len() - i,
{
    if i < 0 || i >= fields.len() {
        None
    } else if fields[i].0@ == key {
        Some(fields[i].1)
    } else {
        member_from(fields, key, i + 1)
    }
}

/// `value.get(key)`: the first member named `key` of an object; nothing for
/// any other value.
pub open spec fn spec_get(value: Json, key: Seq<char>) -> Option<Json> {
    match value {
        Json::Object(fields) => member_from(fields@, key, 0),
        _ => None,
    }
}

/// The name of the first member of an object.
pub open spec fn spec_first_key(value: Json) -> Option<Seq<char>> {
    match value {
        Json::Object(fields) => if fields@.len() > 0 {
            Some(fields@[0].0@)
        } else {
            None
        },
        _ => None,
    }
}

/// The text of a string value.
pub open spec fn spec_as_str(value: Json) -> Option<Seq<char>> {
    match value {
        Json::Str(s) => Some(s@),
        _ => None,
    }
}

impl Json {
    /// The first member named `key` of an object.
    pub fn get(&self, key: &str) -> (r: Option<&Json>)
        ensures
            match r {
                Some(v) => spec_get(*self, key@) == Some(*v),
                None => spec_get(*self, key@) is None,
            },
    {
        match self {
            Json::Object(fields) => {
                let mut i: usize = 0;
                while i < fields.len()
                    invariant
                        i <= fields@.len(),
                        spec_get(*self, key@) == member_from(fields@, key@, 0),
                        member_from(fields@, key@, 0) == member_from(fields@, key@, i as int),
                    decreases fields@.len() - i,
                {
                    if same_text(fields[i].0.as_str(), key) {
                        proof {
                            assert(fields@[i as int].0@ == key@);
                            assert(member_from(fields@, key@, i as int) == Some(fields@[i as int].1));
                        }
                        return Some(&fields[i].1);
                    }
                    i = i + 1;
                }
                None
            },
            _ => None,
        }
    }

    /// The name of the first member of an object.
    pub fn first_key(&self) -> (r: Option<&str>)
        ensures
            match r {
                Some(k) => spec_first_key(*self) == Some(k@),
                None => spec_first_key(*self) is None,
            },
    {
        match self {
            Json::Object(fields) => {
                if fields.len() > 0 {
                    Some(fields[0].0.as_str())
                } else {
                    None
                }
            },
            _ => None,
        }
    }

    /// The text of a string value.
    pub fn as_str(&self) -> (r: Option<&str>)
        ensures
            match r {
                Some(s) => spec_as_str(*self) == Some(s@),
                None => spec_as_str(*self) is None,
            },
    {
        match self {
            Json::Str(s) => Some(s.as_str()),
            _ => None,
        }
    }

    /// Whether an object has a member named `key`.
    pub fn contains_key(&self, key: &str) -> (r: bool)
        ensures
            r == (spec_get(*self, key@) is Some),
    {
        self.get(key).is_some()
    }

    /// An empty object.
    pub fn empty_object() -> (r: Json)
        ensures
            r matches Json::Object(f) && f@.len() == 0,
    {
        Json::Object(Vec::new())
    }
}

/// The lowercase hexadecimal digit of a value below 16.
pub open spec fn hex_digit(d: u128) -> char {
    "0123456789abcdef"@[d as int]
}

/// Nibble `i` of a 128-bit value, most significant first.
pub open spec fn nibble(v: u128, i: int) -> u128 {
    (v >> (((31 - i) * 4) as u32)) & 15u128
}

/// The hyphenated form of a 128-bit identifier: 32 lowercase hex digits,
/// most significant first, grouped 8-4-4-4-12.
pub open spec fn uuid_chars(v: u128) -> Seq<char> {
    Seq::new(36, |k: int| if k == 8 || k == 13 || k == 18 || k == 23 {
        '-'
    } else {
        hex_digit(nibble(v, uuid_digit_index(k)))
    })
}

/// Which hex digit sits at position `k` of the hyphenated form.
pub open spec fn uuid_digit_index(k: int) -> int {
    if k < 8 {
        k
    } else if k < 13 {
        k - 1
    } else if k < 18 {
        k - 2
    } else if k < 23 {
        k - 3
    } else {
        k - 4
    }
}

/// The hyphenated form of a 128-bit identifier, as uuid's `Display` writes it.
pub fn uuid_text(v: u128) -> (r: String)
    ensures
        r@ == uuid_chars(v),
{
    let digits = "0123456789abcdef";
    proof {
        reveal_strlit("0123456789abcdef");
    }
    let mut out = String::new();
    let mut k: usize = 0;
    while k < 36
        invariant
            k <= 36,
            digits@ == "0123456789abcdef"@,
            digits@.len() == 16,
            out@ == uuid_chars(v).take(k as int),
        decreases 36 - k,
    {
        let ghost before = out@;
        if k == 8 || k == 13 || k == 18 || k == 23 {
            proof {
                reveal_strlit("-");
            }
            out.append("-");
        } else {
            let i: usize = if k < 8 {
                k
            } else if k < 13 {
                k - 1
            } else if k < 18 {
                k - 2
            } else if k < 23 {
                k - 3
            } else {
                k - 4
            };
            let shift: u32 = ((31 - i) * 4) as u32;
            let d = (v >> shift) & 15u128;
            assert(d < 16) by (bit_vector)
                requires
                    d == (v >> shift) & 15u128,
            ;
            let du = d as usize;
            out.append(digits.substring_char(du, du + 1));
            proof {
                assert(digits@.subrange(du as int, du + 1) =~= seq![digits@[du as int]]);
            }
        }
        proof {
            assert(uuid_chars(v).take(k + 1) =~= uuid_chars(v).take(k as int).push(uuid_chars(v)[k as int]));
        }
        k = k + 1;
    }
    assert(uuid_chars(v).take(36) =~= uuid_chars(v));
    out
}

/// The identifier that `uuid::Uuid::parse_str` reads from a text, if it is
/// one of the forms that uuid accepts.
pub uninterp spec fn parsed_uuid(text: Seq<char>) -> Option<u128>;

/// `uuid::Uuid::parse_str`, as a 128-bit value or the text of its error.
/// Which texts it accepts depends on the text alone and is named here, not
/// spelled out, except that the lowercase hyphenated form of a value (what
/// `uuid_text` writes, and what the uuid crate documents as accepted) reads
/// back as that value. The error's text is not stated.
#[verifier::external_body]
pub fn parse_uuid(text: &str) -> (r: Result<u128, String>)
    ensures
        r.is_ok() == parsed_uuid(text@).is_some(),
        r matches Ok(v) ==> parsed_uuid(text@) == Some(v),
        forall|v: u128| text@ == #[trigger] uuid_chars(v) ==> r.is_ok() && r.unwrap() == v,
{
    match uuid::Uuid::parse_str(text) {
        Ok(u) => Ok(u.as_u128()),
        Err(e) => Err(e.to_string()),
    }
}

} // verus!
