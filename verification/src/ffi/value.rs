//! Values handed across the foreign-function boundary, and the helpers
//! that read and update their properties and elements.

use vstd::prelude::*;
use vstd::string::*;
use crate::error::TsError;
use crate::compiler::push_char;

verus! {

/// A value of the language. Numbers are kept as the bit pattern of their
/// 64-bit floating-point value.
pub enum Value {
    /// `undefined`.
    Undefined,
    /// `null`.
    Null,
    /// A boolean.
    Boolean(bool),
    /// A number, as its bit pattern.
    Number(u64),
    /// A string.
    String(String),
    /// An object: its properties in order.
    Object(Vec<(String, Value)>),
    /// An array.
    Array(Vec<Value>),
    /// An error with its message.
    Error(String),
    /// A value of one of several types.
    Union(Vec<Value>),
    /// A function.
    Function,
    /// A value of another kind (a symbol, a date, ...), by the kind's name.
    Other(String),
}

/// A value as a mathematical value.
pub enum VValue {
    /// `undefined`.
    Undefined,
    /// `null`.
    Null,
    /// A boolean.
    Boolean(bool),
    /// A number, as its bit pattern.
    Number(u64),
    /// A string.
    Str(Seq<char>),
    /// An object's properties.
    Object(Seq<(Seq<char>, VValue)>),
    /// An array's elements.
    Array(Seq<VValue>),
    /// An error's message.
    Error(Seq<char>),
    /// A union's alternatives.
    Union(Seq<VValue>),
    /// A function.
    Function,
    /// Another kind of value, by name.
    Other(Seq<char>),
}

/// The value `v` as a mathematical value.
pub open spec fn vview(v: Value) -> VValue
    decreases v,
{
    match v {
        Value::Undefined => VValue::Undefined,
        Value::Null => VValue::Null,
        Value::Boolean(b) => VValue::Boolean(b),
        Value::Number(n) => VValue::Number(n),
        Value::String(s) => VValue::Str(s@),
        Value::Object(props) => VValue::Object(props_view(props@)),
        Value::Array(items) => VValue::Array(items_view(items@)),
        Value::Error(s) => VValue::Error(s@),
        Value::Union(items) => VValue::Union(items_view(items@)),
        Value::Function => VValue::Function,
        Value::Other(s) => VValue::Other(s@),
    }
}

/// Properties as mathematical values.
pub open spec fn props_view(props: Seq<(String, Value)>) -> Seq<(Seq<char>, VValue)>
    decreases props,
{
    if props.len() == 0 {
        Seq::empty()
    } else {
        props_view(props.drop_last()).push((props.last().0@, vview(props.last().1)))
    }
}

/// Values as mathematical values.
pub open spec fn items_view(items: Seq<Value>) -> Seq<VValue>
    decreases items,
{
    if items.len() == 0 {
        Seq::empty()
    } else {
        items_view(items.drop_last()).push(vview(items.last()))
    }
}

/// The view of a sequence keeps its length and views each element.
pub(crate) proof fn lemma_items_view(items: Seq<Value>)
    ensures
        items_view(items).len() == items.len(),
        forall|i: int| 0 <= i < items.len() ==> #[trigger] items_view(items)[i] == vview(items[i]),
    decreases items.len(),
{
    if items.len() > 0 {
        lemma_items_view(items.drop_last());
    }
}

/// The view of properties keeps their length and views each property.
pub(crate) proof fn lemma_props_view(props: Seq<(String, Value)>)
    ensures
        props_view(props).len() == props.len(),
        forall|i: int| 0 <= i < props.len() ==> #[trigger] props_view(props)[i] == (props[i].0@, vview(props[i].1)),
    decreases props.len(),
{
    if props.len() > 0 {
        lemma_props_view(props.drop_last());
    }
}

/// A copy of `v`.
pub fn copy_value(v: &Value) -> (r: Value)
    ensures
        vview(r) == vview(*v),
    decreases v,
{
    match v {
        Value::Undefined => Value::Undefined,
        Value::Null => Value::Null,
        Value::Boolean(b) => Value::Boolean(*b),
        Value::Number(n) => Value::Number(*n),
        Value::String(s) => Value::String(s.clone()),
        Value::Object(props) => {
            let mut out: Vec<(String, Value)> = Vec::new();
            let mut i: usize = 0;
            proof {
                lemma_props_view(props@);
            }
            while i < props.len()
                invariant
                    i <= props@.len(),
                    *v == Value::Object(*props),
                    props_view(out@) == props_view(props@).take(i as int),
                    props_view(props@).len() == props@.len(),
                    forall|k: int| 0 <= k < props@.len() ==> #[trigger] props_view(props@)[k] == (props@[k].0@, vview(props@[k].1)),
                decreases props@.len() - i,
            {
                proof {
                    assert(decreases_to!(*v => (*v)->Object_0));
                    assert(decreases_to!(*props => props@));
                    assert(decreases_to!(props@ => props@[i as int]));
                    assert(decreases_to!(props@[i as int] => props@[i as int].1));
                    assert(decreases_to!(*v => props@[i as int].1));
                }
                let value = copy_value(&props[i].1);
                let ghost prev = out@;
                out.push((props[i].0.clone(), value));
                proof {
                    assert(out@.drop_last() =~= prev);
                    assert(props_view(out@) =~= props_view(props@).take(i + 1));
                }
                i = i + 1;
            }
            assert(props_view(props@).take(props@.len() as int) =~= props_view(props@));
            Value::Object(out)
        },
        Value::Array(items) => Value::Array(copy_items(items, Ghost(*v))),
        Value::Error(s) => Value::Error(s.clone()),
        Value::Union(items) => Value::Union(copy_items(items, Ghost(*v))),
        Value::Function => Value::Function,
        Value::Other(s) => Value::Other(s.clone()),
    }
}

/// A copy of the values `items`, which are those of `whole`.
fn copy_items(items: &Vec<Value>, Ghost(whole): Ghost<Value>) -> (r: Vec<Value>)
    requires
        whole == Value::Array(*items) || whole == Value::Union(*items),
    ensures
        items_view(r@) == items_view(items@),
    decreases whole, 0nat,
{
    let mut out: Vec<Value> = Vec::new();
    let mut i: usize = 0;
    proof {
        lemma_items_view(items@);
    }
    while i < items.len()
        invariant
            i <= items@.len(),
            whole == Value::Array(*items) || whole == Value::Union(*items),
            items_view(out@) == items_view(items@).take(i as int),
            items_view(items@).len() == items@.len(),
            forall|k: int| 0 <= k < items@.len() ==> #[trigger] items_view(items@)[k] == vview(items@[k]),
        decreases items@.len() - i,
    {
        proof {
            if whole is Array {
                assert(decreases_to!(whole => whole->Array_0));
            } else {
                assert(decreases_to!(whole => whole->Union_0));
            }
            assert(decreases_to!(*items => items@));
            assert(decreases_to!(items@ => items@[i as int]));
            assert(decreases_to!(whole => items@[i as int]));
        }
        let value = copy_value(&items[i]);
        let ghost prev = out@;
        out.push(value);
        proof {
            assert(out@.drop_last() =~= prev);
            assert(items_view(out@) =~= items_view(items@).take(i + 1));
        }
        i = i + 1;
    }
    assert(items_view(items@).take(items@.len() as int) =~= items_view(items@));
    out
}


/// The position of the first property named `key`; the number of
/// properties where there is none.
pub open spec fn key_index(props: Seq<(Seq<char>, VValue)>, key: Seq<char>) -> int
    decreases props.len(),
{
    if props.len() == 0 {
        0
    } else if props[0].0 == key {
        0
    } else {
        1 + key_index(props.drop_first(), key)
    }
}

/// `key_index` is the first position whose name is `key`.
pub(crate) proof fn lemma_key_index(props: Seq<(Seq<char>, VValue)>, key: Seq<char>, i: int)
    requires
        0 <= i <= props.len(),
        forall|j: int| 0 <= j < i ==> props[j].0 != key,
        i == props.len() || props[i].0 == key,
    ensures
        key_index(props, key) == i,
    decreases i,
{
    if i > 0 {
        lemma_key_index(props.drop_first(), key, i - 1);
    }
}

/// The decimal digits of `n`.
pub open spec fn decimal(n: nat) -> Seq<char>
    decreases n,
{
    if n < 10 {
        seq![digit_char(n)]
    } else {
        decimal(n / 10).push(digit_char(n % 10))
    }
}

/// The decimal digit `d`.
pub open spec fn digit_char(d: nat) -> char {
    if d == 0 { '0' } else if d == 1 { '1' } else if d == 2 { '2' } else if d == 3 { '3' } else if d == 4 { '4' }
    else if d == 5 { '5' } else if d == 6 { '6' } else if d == 7 { '7' } else if d == 8 { '8' } else { '9' }
}

/// The decimal digit `d`.
fn digit(d: usize) -> (c: char)
    requires
        d < 10,
    ensures
        c == digit_char(d as nat),
{
    if d == 0 { '0' } else if d == 1 { '1' } else if d == 2 { '2' } else if d == 3 { '3' } else if d == 4 { '4' }
    else if d == 5 { '5' } else if d == 6 { '6' } else if d == 7 { '7' } else if d == 8 { '8' } else { '9' }
}

/// Appends the decimal digits of `n` to `s`.
pub(crate) fn push_decimal(s: &mut String, n: usize)
    ensures
        final(s)@ == old(s)@ + decimal(n as nat),
    decreases n,
{
    if n < 10 {
        push_char(s, digit(n));
    } else {
        push_decimal(s, n / 10);
        push_char(s, digit(n % 10));
    }
    proof {
        assert(final(s)@ =~= old(s)@ + decimal(n as nat));
    }
}

/// The message of a missing property.
pub open spec fn missing_property_message(key: Seq<char>) -> Seq<char> {
    "Property '"@ + key + "' not found"@
}

/// The message of an index past the end.
pub open spec fn out_of_bounds_message(index: usize) -> Seq<char> {
    "Index "@ + decimal(index as nat) + " out of bounds"@
}

/// The position of the first property of `props` named `key`.
pub(crate) fn find_key(props: &Vec<(String, Value)>, key: &str) -> (i: usize)
    ensures
        i as int == key_index(props_view(props@), key@),
        i <= props@.len(),
        i < props@.len() ==> props_view(props@)[i as int].0 == key@,
{
    proof {
        lemma_props_view(props@);
    }
    let name = String::from_str(key);
    let mut i: usize = 0;
    while i < props.len()
        invariant
            i <= props@.len(),
            name@ == key@,
            props_view(props@).len() == props@.len(),
            forall|k: int| 0 <= k < props@.len() ==> #[trigger] props_view(props@)[k] == (props@[k].0@, vview(props@[k].1)),
            forall|j: int| 0 <= j < i ==> props_view(props@)[j].0 != key@,
        decreases props@.len() - i,
    {
        if props[i].0 == name {
            proof {
                lemma_key_index(props_view(props@), key@, i as int);
            }
            return i;
        }
        i = i + 1;
    }
    proof {
        lemma_key_index(props_view(props@), key@, i as int);
    }
    i
}

/// Reads the property `key` of the object `obj`: its first property of
/// that name.
pub fn get_object_property(obj: &Value, key: &str) -> (r: Result<Value, TsError>)
    ensures
        match vview(*obj) {
            VValue::Object(props) => if key_index(props, key@) < props.len() {
                r matches Ok(v) && vview(v) == props[key_index(props, key@)].1
            } else {
                r matches Err(TsError::ReferenceError(m)) && m@ == missing_property_message(key@)
            },
            _ => r matches Err(TsError::TypeError(m)) && m@ == "Expected object"@,
        },
{
    match obj {
        Value::Object(props) => {
            proof {
                lemma_props_view(props@);
            }
            let i = find_key(props, key);
            if i < props.len() {
                Ok(copy_value(&props[i].1))
            } else {
                let mut m = String::from_str("Property '");
                m.append(key);
                m.append("' not found");
                Err(TsError::ReferenceError(m))
            }
        },
        _ => Err(TsError::TypeError(String::from_str("Expected object"))),
    }
}

/// Sets the property `key` of the object `obj` to `value`: the first
/// property of that name takes the value, or the property is added at the
/// end. Returns the updated object.
pub fn set_object_property(obj: &Value, key: &str, value: Value) -> (r: Result<Value, TsError>)
    ensures
        match vview(*obj) {
            VValue::Object(props) => r matches Ok(v) && vview(v) == VValue::Object(props_set(props, key@, vview(value))),
            _ => r matches Err(TsError::TypeError(m)) && m@ == "Expected object"@,
        },
{
    match obj {
        Value::Object(props) => {
            proof {
                lemma_props_view(props@);
            }
            let i = find_key(props, key);
            let ghost pv = props_view(props@);
            let ghost nv = vview(value);
            let mut out: Vec<(String, Value)> = Vec::new();
            let mut j: usize = 0;
            let mut value = Some(value);
            while j < props.len()
                invariant
                    j <= props@.len(),
                    i <= props@.len(),
                    pv == props_view(props@),
                    pv.len() == props@.len(),
                    forall|k: int| 0 <= k < props@.len() ==> #[trigger] pv[k] == (props@[k].0@, vview(props@[k].1)),
                    i as int == key_index(pv, key@),
                    i < props@.len() ==> pv[i as int].0 == key@,
                    value is Some ==> vview(value->0) == nv,
                    j <= i ==> value is Some,
                    props_view(out@) == (if i < j {
                        pv.update(i as int, (key@, nv)).take(j as int)
                    } else {
                        pv.take(j as int)
                    }),
                decreases props@.len() - j,
            {
                let ghost prev = out@;
                if j == i {
                    let v = value.take().unwrap();
                    out.push((props[j].0.clone(), v));
                } else {
                    out.push((props[j].0.clone(), copy_value(&props[j].1)));
                }
                proof {
                    assert(out@.drop_last() =~= prev);
                    if i < j + 1 {
                        assert(props_view(out@) =~= pv.update(i as int, (key@, nv)).take(j + 1));
                    } else {
                        assert(props_view(out@) =~= pv.take(j + 1));
                    }
                }
                j = j + 1;
            }
            if i == props.len() {
                let ghost prev = out@;
                let v = value.take().unwrap();
                out.push((String::from_str(key), v));
                proof {
                    assert(out@.drop_last() =~= prev);
                    assert(pv.take(j as int) =~= pv);
                    assert(props_view(out@) =~= pv.push((key@, nv)));
                }
            } else {
                assert(pv.update(i as int, (key@, nv)).take(j as int) =~= pv.update(i as int, (key@, nv)));
            }
            Ok(Value::Object(out))
        },
        _ => Err(TsError::TypeError(String::from_str("Expected object"))),
    }
}


/// The error of an index past the end of an array.
fn out_of_bounds(index: usize) -> (e: TsError)
    ensures
        e matches TsError::RangeError(m) && m@ == out_of_bounds_message(index),
{
    let mut m = String::from_str("Index ");
    push_decimal(&mut m, index);
    m.append(" out of bounds");
    TsError::RangeError(m)
}

/// Reads the element `index` of the array `arr`.
pub fn get_array_element(arr: &Value, index: usize) -> (r: Result<Value, TsError>)
    ensures
        match vview(*arr) {
            VValue::Array(items) => if index < items.len() {
                r matches Ok(v) && vview(v) == items[index as int]
            } else {
                r matches Err(TsError::RangeError(m)) && m@ == out_of_bounds_message(index)
            },
            _ => r matches Err(TsError::TypeError(m)) && m@ == "Expected array"@,
        },
{
    match arr {
        Value::Array(items) => {
            proof {
                lemma_items_view(items@);
            }
            if index < items.len() {
                Ok(copy_value(&items[index]))
            } else {
                Err(out_of_bounds(index))
            }
        },
        _ => Err(TsError::TypeError(String::from_str("Expected array"))),
    }
}

/// Sets the element `index` of the array `arr` to `value`. Returns the
/// updated array.
pub fn set_array_element(arr: &Value, index: usize, value: Value) -> (r: Result<Value, TsError>)
    ensures
        match vview(*arr) {
            VValue::Array(items) => if index < items.len() {
                r matches Ok(v) && vview(v) == VValue::Array(items.update(index as int, vview(value)))
            } else {
                r matches Err(TsError::RangeError(m)) && m@ == out_of_bounds_message(index)
            },
            _ => r matches Err(TsError::TypeError(m)) && m@ == "Expected array"@,
        },
{
    match arr {
        Value::Array(items) => {
            proof {
                lemma_items_view(items@);
            }
            if index >= items.len() {
                return Err(out_of_bounds(index));
            }
            let mut copy = copy_items(items, Ghost(*arr));
            proof {
                lemma_items_view(copy@);
            }
            copy.set(index, value);
            proof {
                lemma_items_view(copy@);
                assert(items_view(copy@) =~= items_view(items@).update(index as int, vview(value)));
            }
            Ok(Value::Array(copy))
        },
        _ => Err(TsError::TypeError(String::from_str("Expected array"))),
    }
}

/// The message of the first error that handing `v` to native code meets:
/// an error value's own message; for a union, that of its first
/// alternative.
pub open spec fn napi_error(v: VValue) -> Option<Seq<char>>
    decreases v,
{
    match v {
        VValue::Error(m) => Some(m),
        VValue::Union(items) => if items.len() == 0 {
            None
        } else {
            napi_error(items[0])
        },
        _ => None,
    }
}

/// Checks that `value` can be handed to native code: an error value, or
/// a union whose first alternative is one, fails with the error's message;
/// any other value is handed over as the empty native value.
pub fn ts_value_to_napi(value: &Value) -> (r: Result<(), TsError>)
    ensures
        match napi_error(vview(*value)) {
            Some(m) => r matches Err(TsError::Other(e)) && e@ == m,
            None => r is Ok,
        },
    decreases value,
{
    match value {
        Value::Error(s) => Err(TsError::Other(s.clone())),
        Value::Union(items) => {
            if items.len() == 0 {
                Ok(())
            } else {
                proof {
                    lemma_items_view(items@);
                    assert(decreases_to!(*value => (*value)->Union_0));
                    assert(decreases_to!(*items => items@));
                    assert(decreases_to!(items@ => items@[0]));
                }
                ts_value_to_napi(&items[0])
            }
        },
        _ => Ok(()),
    }
}


/// What `key_index` says: no property before it has the name, and the
/// property there, if any, has it.
pub(crate) proof fn lemma_key_index_facts(props: Seq<(Seq<char>, VValue)>, key: Seq<char>)
    ensures
        0 <= key_index(props, key) <= props.len(),
        forall|j: int| 0 <= j < key_index(props, key) ==> props[j].0 != key,
        key_index(props, key) < props.len() ==> props[key_index(props, key)].0 == key,
    decreases props.len(),
{
    if props.len() > 0 && props[0].0 != key {
        let rest = props.drop_first();
        lemma_key_index_facts(rest, key);
        assert forall|j: int| 0 <= j < key_index(props, key) implies props[j].0 != key by {
            if j > 0 {
                assert(props[j] == rest[j - 1]);
            }
        }
    }
}

/// The properties after setting `key` to `v`.
pub open spec fn props_set(props: Seq<(Seq<char>, VValue)>, key: Seq<char>, v: VValue) -> Seq<(Seq<char>, VValue)> {
    if key_index(props, key) < props.len() {
        props.update(key_index(props, key), (key, v))
    } else {
        props.push((key, v))
    }
}

/// Reading a property just set gives back the value set, and setting
/// leaves every other name's value as it was.
pub proof fn lemma_get_after_set(props: Seq<(Seq<char>, VValue)>, key: Seq<char>, v: VValue, other: Seq<char>)
    ensures
        key_index(props_set(props, key, v), key) < props_set(props, key, v).len(),
        props_set(props, key, v)[key_index(props_set(props, key, v), key)].1 == v,
        other != key ==> (key_index(props_set(props, key, v), other) < props_set(props, key, v).len()
            <==> key_index(props, other) < props.len()),
        other != key && key_index(props, other) < props.len() ==> key_index(props_set(props, key, v), other)
            == key_index(props, other) && props_set(props, key, v)[key_index(props, other)].1
            == props[key_index(props, other)].1,
{
    lemma_key_index_facts(props, key);
    lemma_key_index_facts(props, other);
    let i = key_index(props, key);
    let np = props_set(props, key, v);
    assert forall|j: int| 0 <= j < i implies np[j].0 != key by {
        assert(np[j] == props[j]);
    }
    lemma_key_index(np, key, i);
    if other != key {
        let o = key_index(props, other);
        assert forall|j: int| 0 <= j < o implies np[j].0 != other by {
            if j < props.len() {
                assert(np[j].0 == props[j].0 || j == i);
            }
        }
        if o < props.len() {
            assert(np[o] == props[o]);
            lemma_key_index(np, other, o);
        } else if np.len() == props.len() {
            lemma_key_index(np, other, o);
        } else {
            assert(np[o].0 == key);
            lemma_key_index(np, other, o + 1);
        }
    }
}

/// Reading an element just set gives back the value set, and setting
/// leaves every other element as it was.
pub proof fn lemma_get_after_set_element(items: Seq<VValue>, index: int, v: VValue, other: int)
    requires
        0 <= index < items.len(),
    ensures
        items.update(index, v)[index] == v,
        items.update(index, v).len() == items.len(),
        0 <= other < items.len() && other != index ==> items.update(index, v)[other] == items[other],
{
}


/// The standard module's `throw_error`: always fails; with the first
/// argument as the message when it is a string, else with a type error.
pub fn throw_error(args: &[Value]) -> (r: Result<Value, TsError>)
    ensures
        r is Err,
        (args@.len() > 0 && args@[0] is String) ==> (r matches Err(TsError::Other(m))
            && vview(args@[0]) == VValue::Str(m@)),
        !(args@.len() > 0 && args@[0] is String) ==> (r matches Err(TsError::TypeError(m))
            && m@ == "Expected error message"@),
{
    if args.len() > 0 {
        if let Value::String(msg) = &args[0] {
            return Err(TsError::Other(msg.clone()));
        }
    }
    Err(TsError::TypeError(String::from_str("Expected error message")))
}

} // verus!
