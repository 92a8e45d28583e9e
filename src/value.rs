use vstd::prelude::*;
use vstd::utf8::encode_utf8;

use crate::error::CodecError;
use crate::json::{json_quoted, quote_json_string};
use crate::number::{Number, NumberKind, TypeDescriptor};
use crate::bytes::{decimal_text, push_text_bytes};

verus! {

/// A dynamically shaped field value.
#[derive(Debug, PartialEq)]
pub enum Value {
    Null,
    Bool(bool),
    Number(Number),
    String(String),
    Array(Vec<Value>),
    /// Named entries, sent as a JSON object in the order held. Their keys
    /// are distinct: a value that repeats one is refused by `encode`.
    Object(Vec<(String, Value)>),
}

/// The kind of a present value; two numbers share a kind only when they
/// share a representation.
#[derive(Clone, Copy, Debug, PartialEq, Eq, Structural)]
pub enum ValueKind {
    Bool,
    Number(NumberKind),
    String,
    Array,
    Object,
}

/// Whether an encoded value stands for SQL `NULL`.
#[derive(Clone, Copy, Debug, PartialEq, Eq, Structural)]
pub enum IsNull {
    Yes,
    No,
}

/// The kind of a value; `None` has none.
pub open spec fn kind_of(v: Value) -> Option<ValueKind> {
    match v {
        Value::Null => None,
        Value::Bool(_) => Some(ValueKind::Bool),
        Value::Number(n) => Some(ValueKind::Number(n.kind())),
        Value::String(_) => Some(ValueKind::String),
        Value::Array(_) => Some(ValueKind::Array),
        Value::Object(_) => Some(ValueKind::Object),
    }
}

/// All present elements of a sequence share one kind.
pub open spec fn homogeneous(items: Seq<Value>) -> bool {
    forall|i: int, j: int|
        0 <= i < items.len() && 0 <= j < items.len() && kind_of(items[i]) is Some && kind_of(
            items[j],
        ) is Some ==> #[trigger] kind_of(items[i]) == #[trigger] kind_of(items[j])
}

/// The number of children of a value.
pub open spec fn arity(v: Value) -> nat {
    match v {
        Value::Array(items) => items@.len(),
        Value::Object(entries) => entries@.len(),
        _ => 0,
    }
}

/// Every non-empty sequence within the value, outside of JSON documents,
/// is homogeneous.
pub open spec fn well_typed(v: Value) -> bool
    decreases v, arity(v) + 1,
{
    match v {
        Value::Array(items) => items@.len() == 0 || (homogeneous(items@) && elements_well_typed(
            v,
            items@.len(),
        )),
        _ => true,
    }
}

/// No two entries share a key.
pub open spec fn distinct_keys(entries: Seq<(String, Value)>) -> bool {
    forall|i: int, j: int|
        0 <= i < j < entries.len() ==> #[trigger] entries[i].0@ != #[trigger] entries[j].0@
}

/// Every object within the value, at any depth, has distinct keys.
pub open spec fn keys_unique(v: Value) -> bool
    decreases v, arity(v) + 1,
{
    match v {
        Value::Array(_) => children_keys_unique(v, arity(v)),
        Value::Object(entries) => distinct_keys(entries@) && children_keys_unique(v, arity(v)),
        _ => true,
    }
}

/// The first `n` children of a value have unique keys throughout.
pub open spec fn children_keys_unique(v: Value, n: nat) -> bool
    decreases v, n,
{
    if 0 < n <= arity(v) {
        children_keys_unique(v, (n - 1) as nat) && match v {
            Value::Array(items) => keys_unique(items@[n - 1]),
            Value::Object(entries) => keys_unique(entries@[n - 1].1),
            _ => true,
        }
    } else {
        true
    }
}

/// The first `n` elements of an array are well typed.
pub open spec fn elements_well_typed(v: Value, n: nat) -> bool
    decreases v, n,
{
    match v {
        Value::Array(items) => if 0 < n <= items@.len() {
            elements_well_typed(v, (n - 1) as nat) && well_typed(items@[n - 1])
        } else {
            true
        },
        _ => true,
    }
}

pub open spec fn null_token() -> Seq<u8> {
    seq![78u8, 85u8, 76u8, 76u8]
}

/// The bytes sent for a value, or `None` where it is sent as SQL `NULL`.
pub open spec fn wire(v: Value) -> Option<Seq<u8>>
    decreases v, arity(v) + 1,
{
    match v {
        Value::Null => None,
        Value::Bool(b) => Some(seq![if b { 1u8 } else { 0u8 }]),
        Value::Number(n) => Some(n.wire_bytes()),
        Value::String(s) => Some(encode_utf8(s@)),
        Value::Array(items) => if items@.len() == 0 {
            None
        } else {
            Some(seq![123u8] + wire_elements(v, items@.len()) + seq![125u8])
        },
        Value::Object(_) => Some(seq![1u8] + json_bytes(v)),
    }
}

/// The comma-separated wire forms of the first `n` elements of an array,
/// with the `NULL` token for null elements.
pub open spec fn wire_elements(v: Value, n: nat) -> Seq<u8>
    decreases v, n,
{
    match v {
        Value::Array(items) => if 0 < n <= items@.len() {
            let sep = if n > 1 { seq![44u8] } else { Seq::empty() };
            let elem = match wire(items@[n - 1]) {
                Some(b) => b,
                None => null_token(),
            };
            wire_elements(v, (n - 1) as nat) + sep + elem
        } else {
            Seq::empty()
        },
        _ => Seq::empty(),
    }
}

/// The compact JSON text of a value, as bytes.
pub open spec fn json_bytes(v: Value) -> Seq<u8>
    decreases v, arity(v) + 1,
{
    match v {
        Value::Null => seq![110u8, 117u8, 108u8, 108u8],
        Value::Bool(b) => if b {
            seq![116u8, 114u8, 117u8, 101u8]
        } else {
            seq![102u8, 97u8, 108u8, 115u8, 101u8]
        },
        Value::Number(n) => decimal_text(n.value()),
        Value::String(s) => encode_utf8(json_quoted(s@)),
        Value::Array(_) => seq![91u8] + json_elements(v, arity(v)) + seq![93u8],
        Value::Object(_) => seq![123u8] + json_elements(v, arity(v)) + seq![125u8],
    }
}

/// The comma-separated JSON texts of the first `n` children: elements of an
/// array, or `"key":value` members of a map.
pub open spec fn json_elements(v: Value, n: nat) -> Seq<u8>
    decreases v, n,
{
    if 0 < n <= arity(v) {
        let sep = if n > 1 { seq![44u8] } else { Seq::empty() };
        let elem = match v {
            Value::Array(items) => json_bytes(items@[n - 1]),
            Value::Object(entries) => encode_utf8(json_quoted(entries@[n - 1].0@)) + seq![58u8]
                + json_bytes(entries@[n - 1].1),
            _ => Seq::empty(),
        };
        json_elements(v, (n - 1) as nat) + sep + elem
    } else {
        Seq::empty()
    }
}

/// Whether an update should treat the value as absent: `Null`, an empty
/// text, sequence or map.
pub open spec fn is_empty_value(v: Value) -> bool {
    match v {
        Value::Null => true,
        Value::String(s) => s@.len() == 0,
        Value::Array(items) => items@.len() == 0,
        Value::Object(entries) => entries@.len() == 0,
        _ => false,
    }
}

/// Whether the value is a number equal to zero.
pub open spec fn is_zero_value(v: Value) -> bool {
    match v {
        Value::Number(n) => n.value() == 0,
        _ => false,
    }
}

/// What an optional field update keeps: the value, unless it is absent,
/// empty or zero.
pub open spec fn kept_update(option: Option<Value>) -> Option<Value> {
    match option {
        Some(v) => if is_empty_value(v) || is_zero_value(v) {
            None
        } else {
            Some(v)
        },
        None => None,
    }
}

/// The parameter type a value announces, where it announces one.
pub open spec fn descriptor_of(v: Value) -> Option<TypeDescriptor> {
    match v {
        Value::Bool(_) => Some(TypeDescriptor::Bool),
        Value::Number(n) => Some(n.kind().descriptor()),
        Value::String(_) => Some(TypeDescriptor::Text),
        Value::Object(_) => Some(TypeDescriptor::Jsonb),
        _ => None,
    }
}

/// What encoding a value gives: its bytes, `None` for SQL `NULL`, the
/// error for an object that repeats a key, or the error for a sequence that
/// mixes kinds.
pub open spec fn encode_result(v: Value) -> Result<Option<Seq<u8>>, CodecError> {
    if !keys_unique(v) {
        Err(CodecError::DuplicateField)
    } else if well_typed(v) {
        Ok(wire(v))
    } else {
        Err(CodecError::HeterogeneousArray)
    }
}

proof fn lemma_children_keys_unique(v: Value, n: nat, i: int)
    requires
        children_keys_unique(v, n),
        0 <= i < n <= arity(v),
    ensures
        v matches Value::Array(items) ==> keys_unique(items@[i]),
        v matches Value::Object(entries) ==> keys_unique(entries@[i].1),
    decreases n,
{
    if i < n - 1 {
        lemma_children_keys_unique(v, (n - 1) as nat, i);
    }
}

proof fn lemma_elements_well_typed(v: Value, n: nat, i: int)
    requires
        v is Array,
        elements_well_typed(v, n),
        0 <= i < n <= arity(v),
    ensures
        well_typed(v->Array_0@[i]),
    decreases n,
{
    if i < n - 1 {
        lemma_elements_well_typed(v, (n - 1) as nat, i);
    }
}

/// A sequence holding two present elements of different kinds, such as a
/// text and a number, fails to encode with `HeterogeneousArray`.
pub proof fn lemma_mixed_sequence_rejected(items: Vec<Value>, i: int, j: int)
    requires
        keys_unique(Value::Array(items)),
        0 <= i < items@.len(),
        0 <= j < items@.len(),
        kind_of(items@[i]) is Some,
        kind_of(items@[j]) is Some,
        kind_of(items@[i]) != kind_of(items@[j]),
    ensures
        encode_result(Value::Array(items)) == Err::<Option<Seq<u8>>, CodecError>(
            CodecError::HeterogeneousArray,
        ),
{
    assert(!homogeneous(items@));
}

proof fn lemma_numbers_well_typed(v: Value, n: nat)
    requires
        v is Array,
        n <= arity(v),
        forall|i: int| 0 <= i < arity(v) ==> #[trigger] v->Array_0@[i] is Number,
    ensures
        elements_well_typed(v, n),
        children_keys_unique(v, n),
    decreases n,
{
    if n > 0 {
        lemma_numbers_well_typed(v, (n - 1) as nat);
        assert(v->Array_0@[n - 1] is Number);
        assert(well_typed(v->Array_0@[n - 1]));
        assert(keys_unique(v->Array_0@[n - 1]));
    }
}

/// A non-empty sequence of numbers that share one representation encodes
/// successfully, to a value other than `NULL`.
pub proof fn lemma_same_kind_numbers_accepted(items: Vec<Value>, kind: NumberKind)
    requires
        items@.len() > 0,
        forall|i: int|
            0 <= i < items@.len() ==> (#[trigger] items@[i] matches Value::Number(n) && n.kind()
                == kind),
    ensures
        encode_result(Value::Array(items)) is Ok,
        encode_result(Value::Array(items))->Ok_0 is Some,
{
    let v = Value::Array(items);
    assert forall|i: int| 0 <= i < arity(v) implies #[trigger] v->Array_0@[i] is Number by {
        assert(items@[i] is Number);
    }
    lemma_numbers_well_typed(v, items@.len());
    assert forall|i: int, j: int|
        0 <= i < items@.len() && 0 <= j < items@.len() && kind_of(items@[i]) is Some && kind_of(
            items@[j],
        ) is Some implies #[trigger] kind_of(items@[i]) == #[trigger] kind_of(items@[j]) by {
        assert(items@[i] is Number);
        assert(items@[j] is Number);
    }
}

/// An empty sequence goes over the wire exactly as an absent value does.
pub proof fn lemma_empty_sequence_is_null(items: Vec<Value>)
    requires
        items@.len() == 0,
    ensures
        encode_result(Value::Array(items)) == encode_result(Value::Null),
        encode_result(Value::Null) == Ok::<Option<Seq<u8>>, CodecError>(None),
{
    assert(keys_unique(Value::Array(items)));
}

impl Value {
    /// The kind of the value, `None` for `Null`.
    pub fn type_id(&self) -> (r: Option<ValueKind>)
        ensures
            r == kind_of(*self),
    {
        match self {
            Value::Null => None,
            Value::Bool(_) => Some(ValueKind::Bool),
            Value::Number(n) => Some(ValueKind::Number(n.kind())),
            Value::String(_) => Some(ValueKind::String),
            Value::Array(_) => Some(ValueKind::Array),
            Value::Object(_) => Some(ValueKind::Object),
        }
    }

    pub fn is_map(&self) -> (r: bool)
        ensures
            r == (*self is Object),
    {
        match self {
            Value::Object(_) => true,
            _ => false,
        }
    }

    pub fn is_empty(&self) -> (r: bool)
        ensures
            r == is_empty_value(*self),
    {
        match self {
            Value::Null => true,
            Value::String(s) => s.as_str().is_empty(),
            Value::Array(items) => items.len() == 0,
            Value::Object(entries) => entries.len() == 0,
            _ => false,
        }
    }

    pub fn is_zero(&self) -> (r: bool)
        ensures
            r == is_zero_value(*self),
    {
        match self {
            Value::Number(n) => n.is_zero(),
            _ => false,
        }
    }

    /// Keeps an optional update only where it carries something: an absent,
    /// empty or zero value gives `None`.
    pub fn as_option_from_option(option: Option<Value>) -> (r: Option<Value>)
        ensures
            r == kept_update(option),
    {
        match option {
            Some(value) => {
                if value.is_empty() || value.is_zero() {
                    None
                } else {
                    Some(value)
                }
            },
            None => None,
        }
    }

    /// The parameter type the value is sent as, where it announces one.
    pub fn produces(&self) -> (r: Option<TypeDescriptor>)
        ensures
            r == descriptor_of(*self),
    {
        match self {
            Value::Bool(_) => Some(TypeDescriptor::Bool),
            Value::Number(n) => Some(n.type_info()),
            Value::String(_) => Some(TypeDescriptor::Text),
            Value::Object(_) => Some(TypeDescriptor::Jsonb),
            _ => None,
        }
    }

    /// The wire form of the value: `Ok(None)` for SQL `NULL`, which is also
    /// what an empty sequence gives.
    pub fn encode(&self) -> (r: Result<Option<Vec<u8>>, CodecError>)
        ensures
            match r {
                Ok(Some(b)) => encode_result(*self) == Ok::<Option<Seq<u8>>, CodecError>(Some(b@)),
                Ok(None) => encode_result(*self) == Ok::<Option<Seq<u8>>, CodecError>(None),
                Err(e) => encode_result(*self) == Err::<Option<Seq<u8>>, CodecError>(e),
            },
    {
        if !check_keys_unique(self) {
            return Err(CodecError::DuplicateField);
        }
        if !check_well_typed(self) {
            return Err(CodecError::HeterogeneousArray);
        }
        let mut buf: Vec<u8> = Vec::new();
        let null = write_wire(self, &mut buf);
        if null {
            Ok(None)
        } else {
            assert(buf@ == Seq::<u8>::empty() + wire(*self)->Some_0);
            Ok(Some(buf))
        }
    }

    /// Appends the wire form of the value. On an error the buffer is left
    /// as it was.
    pub fn encode_by_ref(&self, buf: &mut Vec<u8>) -> (r: Result<IsNull, CodecError>)
        ensures
            match encode_result(*self) {
                Ok(Some(b)) => r == Ok::<IsNull, CodecError>(IsNull::No) && final(buf)@ == old(buf)@ + b,
                Ok(None) => r == Ok::<IsNull, CodecError>(IsNull::Yes) && final(buf)@ == old(buf)@,
                Err(e) => r == Err::<IsNull, CodecError>(e) && final(buf)@ == old(buf)@,
            },
    {
        match self.encode() {
            Ok(Some(mut bytes)) => {
                buf.append(&mut bytes);
                Ok(IsNull::No)
            },
            Ok(None) => Ok(IsNull::Yes),
            Err(e) => Err(e),
        }
    }

    /// The compact JSON text of the value.
    pub fn to_json(&self) -> (r: Vec<u8>)
        ensures
            r@ == json_bytes(*self),
    {
        let mut buf: Vec<u8> = Vec::new();
        write_json(self, &mut buf);
        assert(buf@ == Seq::<u8>::empty() + json_bytes(*self));
        buf
    }
}

/// Whether all present elements share one kind.
pub fn is_homogeneous(items: &Vec<Value>) -> (r: bool)
    ensures
        r == homogeneous(items@),
{
    let mut first: Option<ValueKind> = None;
    let mut i: usize = 0;
    while i < items.len()
        invariant
            i <= items@.len(),
            first is None ==> forall|j: int| 0 <= j < i ==> kind_of(#[trigger] items@[j]) is None,
            first is Some ==> exists|j: int| 0 <= j < i && kind_of(#[trigger] items@[j]) == first,
            first is Some ==> forall|j: int|
                0 <= j < i && kind_of(#[trigger] items@[j]) is Some ==> kind_of(items@[j]) == first,
        decreases items@.len() - i,
    {
        match items[i].type_id() {
            Some(k) => match first {
                None => {
                    first = Some(k);
                },
                Some(f) => {
                    if k != f {
                        let ghost j = choose|j: int| 0 <= j < i && kind_of(#[trigger] items@[j]) == first;
                        assert(kind_of(items@[j]) != kind_of(items@[i as int]));
                        return false;
                    }
                },
            },
            None => {},
        }
        i = i + 1;
    }
    true
}

/// Whether no two entries share a key.
pub fn has_distinct_keys(entries: &Vec<(String, Value)>) -> (r: bool)
    ensures
        r == distinct_keys(entries@),
{
    let mut j: usize = 0;
    while j < entries.len()
        invariant
            j <= entries@.len(),
            forall|a: int, b: int|
                0 <= a < b < j ==> #[trigger] entries@[a].0@ != #[trigger] entries@[b].0@,
        decreases entries@.len() - j,
    {
        let mut i: usize = 0;
        while i < j
            invariant
                i <= j < entries@.len(),
                forall|a: int, b: int|
                    0 <= a < b < j ==> #[trigger] entries@[a].0@ != #[trigger] entries@[b].0@,
                forall|a: int| 0 <= a < i ==> #[trigger] entries@[a].0@ != entries@[j as int].0@,
            decreases j - i,
        {
            if entries[i].0.eq(&entries[j].0) {
                assert(entries@[i as int].0@ == entries@[j as int].0@);
                return false;
            }
            i = i + 1;
        }
        j = j + 1;
    }
    true
}

/// Whether every object within the value has distinct keys.
fn check_keys_unique(v: &Value) -> (r: bool)
    ensures
        r == keys_unique(*v),
    decreases v,
{
    match v {
        Value::Array(items) => {
            let mut i: usize = 0;
            while i < items.len()
                invariant
                    *v == Value::Array(*items),
                    i <= items@.len(),
                    children_keys_unique(*v, i as nat),
                decreases items@.len() - i,
            {
                assert(decreases_to!(*v => items@[i as int])) by {
                    assert(decreases_to!(*v => v->Array_0));
                    assert(decreases_to!(v->Array_0 => v->Array_0@));
                    assert(decreases_to!(v->Array_0@ => v->Array_0@[i as int]));
                };
                if !check_keys_unique(&items[i]) {
                    proof {
                        if keys_unique(*v) {
                            lemma_children_keys_unique(*v, items@.len(), i as int);
                        }
                    }
                    return false;
                }
                i = i + 1;
            }
            true
        },
        Value::Object(entries) => {
            if !has_distinct_keys(entries) {
                return false;
            }
            let mut i: usize = 0;
            while i < entries.len()
                invariant
                    *v == Value::Object(*entries),
                    i <= entries@.len(),
                    children_keys_unique(*v, i as nat),
                decreases entries@.len() - i,
            {
                assert(decreases_to!(*v => entries@[i as int].1)) by {
                    assert(decreases_to!(*v => v->Object_0));
                    assert(decreases_to!(v->Object_0 => v->Object_0@));
                    assert(decreases_to!(v->Object_0@ => v->Object_0@[i as int]));
                    assert(decreases_to!(v->Object_0@[i as int] => v->Object_0@[i as int].1));
                };
                if !check_keys_unique(&entries[i].1) {
                    proof {
                        if keys_unique(*v) {
                            lemma_children_keys_unique(*v, entries@.len(), i as int);
                        }
                    }
                    return false;
                }
                i = i + 1;
            }
            true
        },
        _ => true,
    }
}

/// Whether every non-empty sequence within the value is homogeneous.
fn check_well_typed(v: &Value) -> (r: bool)
    ensures
        r == well_typed(*v),
    decreases v,
{
    match v {
        Value::Array(items) => {
            if items.len() == 0 {
                return true;
            }
            if !is_homogeneous(items) {
                return false;
            }
            let mut i: usize = 0;
            while i < items.len()
                invariant
                    *v == Value::Array(*items),
                    i <= items@.len(),
                    elements_well_typed(*v, i as nat),
                decreases items@.len() - i,
            {
                assert(decreases_to!(*v => items@[i as int])) by {
                    assert(decreases_to!(*v => v->Array_0));
                    assert(decreases_to!(v->Array_0 => v->Array_0@));
                    assert(decreases_to!(v->Array_0@ => v->Array_0@[i as int]));
                };
                if !check_well_typed(&items[i]) {
                    proof {
                        if well_typed(*v) {
                            lemma_elements_well_typed(*v, items@.len(), i as int);
                        }
                    }
                    return false;
                }
                i = i + 1;
            }
            true
        },
        _ => true,
    }
}

/// Appends the wire bytes of a well-typed value and tells whether it is
/// SQL `NULL`, in which case nothing is appended.
fn write_wire(v: &Value, buf: &mut Vec<u8>) -> (null: bool)
    requires
        well_typed(*v),
    ensures
        match wire(*v) {
            Some(b) => !null && final(buf)@ == old(buf)@ + b,
            None => null && final(buf)@ == old(buf)@,
        },
    decreases v,
{
    match v {
        Value::Null => true,
        Value::Bool(b) => {
            buf.push(if *b { 1u8 } else { 0u8 });
            false
        },
        Value::Number(n) => {
            n.encode_by_ref(buf);
            false
        },
        Value::String(s) => {
            push_text_bytes(buf, s.as_str());
            false
        },
        Value::Array(items) => {
            if items.len() == 0 {
                return true;
            }
            let ghost start = buf@;
            buf.push(123u8);
            let mut i: usize = 0;
            while i < items.len()
                invariant
                    *v == Value::Array(*items),
                    well_typed(*v),
                    i <= items@.len(),
                    buf@ == start + seq![123u8] + wire_elements(*v, i as nat),
                decreases items@.len() - i,
            {
                if i > 0 {
                    buf.push(44u8);
                }
                proof {
                    lemma_elements_well_typed(*v, items@.len(), i as int);
                }
                assert(decreases_to!(*v => items@[i as int])) by {
                    assert(decreases_to!(*v => v->Array_0));
                    assert(decreases_to!(v->Array_0 => v->Array_0@));
                    assert(decreases_to!(v->Array_0@ => v->Array_0@[i as int]));
                };
                let null = write_wire(&items[i], buf);
                if null {
                    buf.push(78u8);
                    buf.push(85u8);
                    buf.push(76u8);
                    buf.push(76u8);
                }
                i = i + 1;
            }
            buf.push(125u8);
            false
        },
        Value::Object(_) => {
            buf.push(1u8);
            write_json(v, buf);
            false
        },
    }
}

/// Appends the compact JSON text of a value.
fn write_json(v: &Value, buf: &mut Vec<u8>)
    ensures
        final(buf)@ == old(buf)@ + json_bytes(*v),
    decreases v,
{
    let ghost start = buf@;
    match v {
        Value::Null => {
            buf.push(110u8);
            buf.push(117u8);
            buf.push(108u8);
            buf.push(108u8);
        },
        Value::Bool(b) => {
            if *b {
                buf.push(116u8);
                buf.push(114u8);
                buf.push(117u8);
                buf.push(101u8);
            } else {
                buf.push(102u8);
                buf.push(97u8);
                buf.push(108u8);
                buf.push(115u8);
                buf.push(101u8);
            }
        },
        Value::Number(n) => n.push_decimal(buf),
        Value::String(s) => {
            let quoted = quote_json_string(s.as_str());
            push_text_bytes(buf, quoted.as_str());
        },
        Value::Array(items) => {
            buf.push(91u8);
            let mut i: usize = 0;
            while i < items.len()
                invariant
                    *v == Value::Array(*items),
                    i <= items@.len(),
                    buf@ == start + seq![91u8] + json_elements(*v, i as nat),
                decreases items@.len() - i,
            {
                if i > 0 {
                    buf.push(44u8);
                }
                assert(decreases_to!(*v => items@[i as int])) by {
                    assert(decreases_to!(*v => v->Array_0));
                    assert(decreases_to!(v->Array_0 => v->Array_0@));
                    assert(decreases_to!(v->Array_0@ => v->Array_0@[i as int]));
                };
                write_json(&items[i], buf);
                i = i + 1;
            }
            buf.push(93u8);
        },
        Value::Object(entries) => {
            buf.push(123u8);
            let mut i: usize = 0;
            while i < entries.len()
                invariant
                    *v == Value::Object(*entries),
                    i <= entries@.len(),
                    buf@ == start + seq![123u8] + json_elements(*v, i as nat),
                decreases entries@.len() - i,
            {
                if i > 0 {
                    buf.push(44u8);
                }
                let entry = &entries[i];
                let quoted = quote_json_string(entry.0.as_str());
                push_text_bytes(buf, quoted.as_str());
                buf.push(58u8);
                assert(decreases_to!(*v => entries@[i as int].1)) by {
                    assert(decreases_to!(*v => v->Object_0));
                    assert(decreases_to!(v->Object_0 => v->Object_0@));
                    assert(decreases_to!(v->Object_0@ => v->Object_0@[i as int]));
                    assert(decreases_to!(v->Object_0@[i as int] => v->Object_0@[i as int].1));
                };
                write_json(&entry.1, buf);
                i = i + 1;
            }
            buf.push(125u8);
        },
    }
}

} // verus!
