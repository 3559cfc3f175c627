//! Records on the wire: how a record of the catalog is written as a value
//! of the wire form and read back from one.

use crate::number::Number;
use crate::value::{
    fits, lemma_parse_value_text, members_view, parse, parse_text, to_text, value_text, Json,
    JsonValue, Members, MAX_DEPTH,
};
use vstd::prelude::*;
use vstd::string::*;
use vstd::utf8::*;

verus! {

/// Whether a member of `m` has the name `key`.
pub open spec fn has_key(m: Members, key: Seq<char>) -> bool {
    exists|i: int| 0 <= i < m.len() && (#[trigger] m[i]).0 == key
}

/// The value of the member of `m` with the name `key`, if there is one.
/// Where several members have the name, it is one of them.
pub open spec fn field(m: Members, key: Seq<char>) -> Option<JsonValue> {
    if has_key(m, key) {
        Some(m[choose|i: int| 0 <= i < m.len() && (#[trigger] m[i]).0 == key].1)
    } else {
        None
    }
}

/// Whether no two members of `m` have the same name.
pub open spec fn keys_distinct(m: Members) -> bool {
    forall|i: int, j: int|
        0 <= i < j < m.len() ==> (#[trigger] m[i]).0 != (#[trigger] m[j]).0
}

/// Whether every member of `m` has one of the names in `allowed`.
pub open spec fn keys_within(m: Members, allowed: Seq<Seq<char>>) -> bool {
    forall|i: int| 0 <= i < m.len() ==> allowed.contains((#[trigger] m[i]).0)
}

/// The members of `v`, if it is an object whose members have names of
/// `allowed` only, each at most once.
pub open spec fn record(v: JsonValue, allowed: Seq<Seq<char>>) -> Option<Members> {
    match v {
        JsonValue::Object(m) => if keys_distinct(m) && keys_within(m, allowed) {
            Some(m)
        } else {
            None
        },
        _ => None,
    }
}

/// The names that `keys` hold.
pub open spec fn key_views(keys: Seq<&str>) -> Seq<Seq<char>> {
    Seq::new(keys.len(), |i: int| keys[i]@)
}

/// The number that `v` stands for as an unsigned integer of 64 bits: a
/// number without a minus sign.
pub open spec fn as_u64(v: JsonValue) -> Option<u64> {
    match v {
        JsonValue::Number(n) => if n.negative {
            None
        } else {
            Some(n.magnitude)
        },
        _ => None,
    }
}

/// The number that `v` stands for as an unsigned integer of 32 bits.
pub open spec fn as_u32(v: JsonValue) -> Option<u32> {
    match as_u64(v) {
        Some(n) => if n <= u32::MAX {
            Some(n as u32)
        } else {
            None
        },
        None => None,
    }
}

/// The number that `v` stands for as a signed integer of 32 bits.
pub open spec fn as_i32(v: JsonValue) -> Option<i32> {
    match v {
        JsonValue::Number(n) => if n.negative {
            if n.magnitude <= 0x8000_0000 {
                Some((-n.magnitude) as i32)
            } else {
                None
            }
        } else {
            if n.magnitude <= 0x7FFF_FFFF {
                Some(n.magnitude as i32)
            } else {
                None
            }
        },
        _ => None,
    }
}

/// The string that `v` stands for.
pub open spec fn as_text(v: JsonValue) -> Option<Seq<char>> {
    match v {
        JsonValue::Text(s) => Some(s),
        _ => None,
    }
}

/// The wire value of an unsigned integer.
pub open spec fn unsigned(n: u64) -> JsonValue {
    JsonValue::Number(Number { negative: false, magnitude: n })
}

/// The wire value of a signed integer of 32 bits.
pub open spec fn signed(n: i32) -> JsonValue {
    if n < 0 {
        JsonValue::Number(Number { negative: true, magnitude: (-n) as u64 })
    } else {
        JsonValue::Number(Number { negative: false, magnitude: n as u64 })
    }
}

/// The member `key` of `m` as an unsigned integer of 64 bits.
pub open spec fn field_u64(m: Members, key: Seq<char>) -> Option<u64> {
    match field(m, key) {
        Some(v) => as_u64(v),
        None => None,
    }
}

/// The member `key` of `m` as an unsigned integer of 32 bits.
pub open spec fn field_u32(m: Members, key: Seq<char>) -> Option<u32> {
    match field(m, key) {
        Some(v) => as_u32(v),
        None => None,
    }
}

/// The member `key` of `m` as a signed integer of 32 bits.
pub open spec fn field_i32(m: Members, key: Seq<char>) -> Option<i32> {
    match field(m, key) {
        Some(v) => as_i32(v),
        None => None,
    }
}

/// The member `key` of `m` as a string.
pub open spec fn field_text(m: Members, key: Seq<char>) -> Option<Seq<char>> {
    match field(m, key) {
        Some(v) => as_text(v),
        None => None,
    }
}

/// The member `key` of `m` as a record.
pub open spec fn field_record<T: Wire>(m: Members, key: Seq<char>) -> Option<T::V> {
    match field(m, key) {
        Some(v) => T::from_json(v),
        None => None,
    }
}

/// A record that has a wire form.
pub trait Wire: Sized + View {
    /// The wire value of a record.
    spec fn to_json(v: Self::V) -> JsonValue;

    /// The record that a wire value stands for, if it stands for one.
    spec fn from_json(j: JsonValue) -> Option<Self::V>;

    /// How deep objects stand in the wire value of a record, at most.
    spec fn depth() -> nat;

    /// Writes the record as a wire value.
    fn encode(&self) -> (j: Json)
        ensures
            j.value() == Self::to_json(self@),
    ;

    /// Reads the record from a wire value.
    fn decode(j: &Json) -> (r: Option<Self>)
        ensures
            match Self::from_json(j.value()) {
                Some(v) => r matches Some(x) && x@ == v,
                None => r is None,
            },
    ;

    /// The wire value of a record stands for that record, and its objects
    /// are not too deep to be read.
    proof fn lemma_round_trip(v: Self::V)
        ensures
            Self::from_json(Self::to_json(v)) == Some(v),
            fits(Self::to_json(v), Self::depth()),
            Self::depth() <= MAX_DEPTH,
    ;
}

/// The bytes of a record on the wire.
pub open spec fn wire_text<T: Wire>(v: T::V) -> Seq<u8> {
    value_text(T::to_json(v))
}

/// The record that the bytes `s` stand for, if they stand for one.
pub open spec fn wire_value<T: Wire>(s: Seq<u8>) -> Option<T::V> {
    match parse_text(s) {
        Some(j) => T::from_json(j),
        None => None,
    }
}

/// Writes a record as bytes.
pub fn to_json_vec<T: Wire>(x: &T) -> (bytes: Vec<u8>)
    ensures
        bytes@ == wire_text::<T>(x@),
{
    let j = x.encode();
    to_text(&j)
}

/// Reads a record from bytes. Gives `None` where the bytes are not the wire
/// form of such a record.
pub fn from_json<T: Wire>(bytes: &[u8]) -> (r: Option<T>)
    ensures
        match wire_value::<T>(bytes@) {
            Some(v) => r matches Some(x) && x@ == v,
            None => r is None,
        },
{
    match parse(bytes) {
        Some(j) => T::decode(&j),
        None => None,
    }
}

/// A value that fits in a depth fits in every greater one.
pub proof fn lemma_fits_deeper(v: JsonValue, a: nat, b: nat)
    requires
        fits(v, a),
        a <= b,
    ensures
        fits(v, b),
    decreases v,
{
    match v {
        JsonValue::Object(m) => {
            assert forall|i: int| 0 <= i < m.len() implies fits(
                (#[trigger] m[i]).1,
                (b - 1) as nat,
            ) by {
                lemma_fits_deeper(m[i].1, (a - 1) as nat, (b - 1) as nat);
            }
        },
        _ => {},
    }
}

/// Written to bytes and read back, every record is what it was.
pub proof fn lemma_wire_round_trip<T: Wire>(v: T::V)
    ensures
        wire_value::<T>(wire_text::<T>(v)) == Some(v),
{
    T::lemma_round_trip(v);
    lemma_fits_deeper(T::to_json(v), T::depth(), MAX_DEPTH as nat);
    lemma_parse_value_text(T::to_json(v));
}

/// Two records with the same bytes on the wire are the same record.
pub proof fn lemma_wire_text_tells_records_apart<T: Wire>(a: T::V, b: T::V)
    requires
        wire_text::<T>(a) == wire_text::<T>(b),
    ensures
        a == b,
{
    lemma_wire_round_trip::<T>(a);
    lemma_wire_round_trip::<T>(b);
}

/// Where names are distinct, the member with a name is the one that has it.
pub proof fn lemma_field_at(m: Members, i: int)
    requires
        keys_distinct(m),
        0 <= i < m.len(),
    ensures
        field(m, m[i].0) == Some(m[i].1),
{
    let key = m[i].0;
    let c = choose|k: int| 0 <= k < m.len() && (#[trigger] m[k]).0 == key;
    assert(0 <= c < m.len() && m[c].0 == key);
    if c < i {
        assert(m[c].0 != m[i].0);
    } else if i < c {
        assert(m[i].0 != m[c].0);
    }
}

/// Whether two strings are the same.
pub fn str_eq(a: &str, b: &str) -> (r: bool)
    ensures
        r == (a@ == b@),
{
    let x = a.as_bytes();
    let y = b.as_bytes();
    proof {
        encode_utf8_decode_utf8(a@);
        encode_utf8_decode_utf8(b@);
    }
    if x.len() != y.len() {
        return false;
    }
    let mut i: usize = 0;
    while i < x.len()
        invariant
            i <= x@.len(),
            x@.len() == y@.len(),
            x@ == encode_utf8(a@),
            y@ == encode_utf8(b@),
            forall|k: int| 0 <= k < i ==> x@[k] == y@[k],
        decreases x.len() - i,
    {
        if x[i] != y[i] {
            return false;
        }
        i += 1;
    }
    assert(x@ =~= y@);
    true
}

/// The place of the first member with the name `key`.
pub fn find(members: &Vec<(String, Json)>, key: &str) -> (r: Option<usize>)
    ensures
        match r {
            Some(i) => i < members@.len() && members@[i as int].0@ == key@ && forall|k: int|
                0 <= k < i ==> members@[k].0@ != key@,
            None => !has_key(members_view(members@), key@),
        },
{
    let mut i: usize = 0;
    while i < members.len()
        invariant
            i <= members@.len(),
            forall|k: int| 0 <= k < i ==> members@[k].0@ != key@,
        decreases members.len() - i,
    {
        if str_eq(members[i].0.as_str(), key) {
            return Some(i);
        }
        i += 1;
    }
    proof {
        let m = members_view(members@);
        assert forall|k: int| 0 <= k < m.len() implies (#[trigger] m[k]).0 != key@ by {
            assert(m[k].0 == members@[k].0@);
        }
    }
    None
}

/// The member with the name `key`, where names are distinct.
pub(crate) fn get<'a>(members: &'a Vec<(String, Json)>, key: &str) -> (r: Option<&'a Json>)
    requires
        keys_distinct(members_view(members@)),
    ensures
        match field(members_view(members@), key@) {
            Some(v) => r matches Some(j) && j.value() == v,
            None => r is None,
        },
{
    match find(members, key) {
        Some(i) => {
            proof {
                let m = members_view(members@);
                assert(m[i as int].0 == key@);
                lemma_field_at(m, i as int);
            }
            Some(&members[i].1)
        },
        None => None,
    }
}

/// Whether `key` is one of `allowed`.
fn is_allowed(key: &str, allowed: &Vec<&str>) -> (r: bool)
    ensures
        r == key_views(allowed@).contains(key@),
{
    let mut i: usize = 0;
    while i < allowed.len()
        invariant
            i <= allowed@.len(),
            forall|k: int| 0 <= k < i ==> allowed@[k]@ != key@,
        decreases allowed.len() - i,
    {
        if str_eq(allowed[i], key) {
            assert(key_views(allowed@)[i as int] == key@);
            return true;
        }
        i += 1;
    }
    proof {
        let views = key_views(allowed@);
        assert forall|k: int| 0 <= k < views.len() implies views[k] != key@ by {
            assert(views[k] == allowed@[k]@);
        }
    }
    false
}

/// The members of `j`, if it is an object whose members have names of
/// `allowed` only, each at most once.
pub fn as_record<'a>(j: &'a Json, allowed: &Vec<&str>) -> (r: Option<&'a Vec<(String, Json)>>)
    ensures
        match record(j.value(), key_views(allowed@)) {
            Some(m) => r matches Some(members) && members_view(members@) == m && keys_distinct(m),
            None => r is None,
        },
{
    let members = match j {
        Json::Object(members) => members,
        _ => {
            return None;
        },
    };
    let ghost m = members_view(members@);
    assert(j.value()->Object_0 =~= m);
    let mut i: usize = 0;
    while i < members.len()
        invariant
            i <= members@.len(),
            m == members_view(members@),
            j.value() == JsonValue::Object(m),
            forall|k: int| 0 <= k < i ==> key_views(allowed@).contains((#[trigger] m[k]).0),
            forall|a: int, b: int| 0 <= a < b < i ==> (#[trigger] m[a]).0 != (#[trigger] m[b]).0,
        decreases members.len() - i,
    {
        let key = members[i].0.as_str();
        assert(m[i as int].0 == key@);
        if !is_allowed(key, allowed) {
            return None;
        }
        let mut k: usize = 0;
        while k < i
            invariant
                k <= i < members@.len(),
                m == members_view(members@),
                j.value() == JsonValue::Object(m),
                key@ == m[i as int].0,
                forall|a: int| 0 <= a < k ==> (#[trigger] m[a]).0 != m[i as int].0,
            decreases i - k,
        {
            assert(m[k as int].0 == members@[k as int].0@);
            if str_eq(members[k].0.as_str(), key) {
                return None;
            }
            k += 1;
        }
        i += 1;
    }
    Some(members)
}

/// The member `key` as an unsigned integer of 64 bits.
pub(crate) fn get_u64(members: &Vec<(String, Json)>, key: &str) -> (r: Option<u64>)
    requires
        keys_distinct(members_view(members@)),
    ensures
        r == field_u64(members_view(members@), key@),
{
    match get(members, key) {
        Some(j) => read_u64(j),
        None => None,
    }
}

/// The member `key` as an unsigned integer of 32 bits.
pub(crate) fn get_u32(members: &Vec<(String, Json)>, key: &str) -> (r: Option<u32>)
    requires
        keys_distinct(members_view(members@)),
    ensures
        r == field_u32(members_view(members@), key@),
{
    match get(members, key) {
        Some(j) => read_u32(j),
        None => None,
    }
}

/// The member `key` as a signed integer of 32 bits.
pub(crate) fn get_i32(members: &Vec<(String, Json)>, key: &str) -> (r: Option<i32>)
    requires
        keys_distinct(members_view(members@)),
    ensures
        r == field_i32(members_view(members@), key@),
{
    match get(members, key) {
        Some(j) => read_i32(j),
        None => None,
    }
}

/// The member `key` as a string.
pub(crate) fn get_text(members: &Vec<(String, Json)>, key: &str) -> (r: Option<String>)
    requires
        keys_distinct(members_view(members@)),
    ensures
        match field_text(members_view(members@), key@) {
            Some(s) => r matches Some(text) && text@ == s,
            None => r is None,
        },
{
    match get(members, key) {
        Some(j) => read_text(j),
        None => None,
    }
}

/// The member `key` as a record.
pub(crate) fn get_record<T: Wire>(members: &Vec<(String, Json)>, key: &str) -> (r: Option<T>)
    requires
        keys_distinct(members_view(members@)),
    ensures
        match field_record::<T>(members_view(members@), key@) {
            Some(v) => r matches Some(x) && x@ == v,
            None => r is None,
        },
{
    match get(members, key) {
        Some(j) => T::decode(j),
        None => None,
    }
}

/// The unsigned integer of 64 bits that `j` stands for.
pub fn read_u64(j: &Json) -> (r: Option<u64>)
    ensures
        r == as_u64(j.value()),
{
    match j {
        Json::Number(n) => if n.negative {
            None
        } else {
            Some(n.magnitude)
        },
        _ => None,
    }
}

/// The unsigned integer of 32 bits that `j` stands for.
pub fn read_u32(j: &Json) -> (r: Option<u32>)
    ensures
        r == as_u32(j.value()),
{
    match read_u64(j) {
        Some(n) => if n <= 0xFFFF_FFFF {
            Some(n as u32)
        } else {
            None
        },
        None => None,
    }
}

/// The signed integer of 32 bits that `j` stands for.
pub fn read_i32(j: &Json) -> (r: Option<i32>)
    ensures
        r == as_i32(j.value()),
{
    match j {
        Json::Number(n) => if n.negative {
            if n.magnitude <= 0x8000_0000 {
                Some((0 - (n.magnitude as i64)) as i32)
            } else {
                None
            }
        } else {
            if n.magnitude <= 0x7FFF_FFFF {
                Some(n.magnitude as i32)
            } else {
                None
            }
        },
        _ => None,
    }
}

/// The string that `j` stands for.
pub fn read_text(j: &Json) -> (r: Option<String>)
    ensures
        match as_text(j.value()) {
            Some(s) => r matches Some(text) && text@ == s,
            None => r is None,
        },
{
    match j {
        Json::Text(s) => Some(s.clone()),
        _ => None,
    }
}

/// The wire value of an unsigned integer.
pub fn write_unsigned(n: u64) -> (j: Json)
    ensures
        j.value() == unsigned(n),
{
    Json::Number(Number { negative: false, magnitude: n })
}

/// The wire value of a signed integer of 32 bits.
pub fn write_signed(n: i32) -> (j: Json)
    ensures
        j.value() == signed(n),
{
    if n < 0 {
        Json::Number(Number { negative: true, magnitude: (0 - (n as i64)) as u64 })
    } else {
        Json::Number(Number { negative: false, magnitude: n as u64 })
    }
}

/// The wire value of a string.
pub fn write_text(s: &str) -> (j: Json)
    ensures
        j.value() == JsonValue::Text(s@),
{
    Json::Text(String::from_str(s))
}

/// A member with the name `key` and the value `value`.
pub fn member(key: &str, value: Json) -> (r: (String, Json))
    ensures
        r.0@ == key@,
        r.1 == value,
{
    (String::from_str(key), value)
}

/// The object with the members `members`.
pub fn object(members: Vec<(String, Json)>) -> (j: Json)
    ensures
        j.value() == JsonValue::Object(members_view(members@)),
{
    let j = Json::Object(members);
    assert(j.value()->Object_0 =~= members_view(members@));
    j
}

} // verus!
