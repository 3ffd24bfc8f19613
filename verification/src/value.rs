//! The values that flow through the bridge, and their mathematical models.

use crate::time::{Span, Timestamp};
use vstd::prelude::*;

verus! {

/// The identifier the host assigns to one live topic.
#[derive(Clone, Copy, Debug, PartialEq, Eq, Hash, Structural)]
pub struct TopicId(pub i32);

/// The identifier of one underlying subscription; topics that share a
/// subscription share its identifier.
#[derive(Clone, Copy, Debug, PartialEq, Eq, Hash, Structural)]
pub struct SubId(pub u64);

/// A published value. Floats are held by their bit patterns, so that every
/// value is carried through unchanged.
#[derive(Debug, PartialEq, Eq)]
pub enum Value {
    I32(i32),
    Z32(i32),
    U32(u32),
    V32(u32),
    I64(i64),
    Z64(i64),
    U64(u64),
    V64(u64),
    F32(u32),
    F64(u64),
    True,
    False,
    String(String),
    Bytes(Vec<u8>),
    Null,
    Okay,
    Error(String),
    Array(Vec<Value>),
    DateTime(Timestamp),
    Duration(Span),
}

/// The model of a `Value`: the same union over mathematical sequences.
pub enum ValueView {
    I32(i32),
    Z32(i32),
    U32(u32),
    V32(u32),
    I64(i64),
    Z64(i64),
    U64(u64),
    V64(u64),
    F32(u32),
    F64(u64),
    True,
    False,
    String(Seq<char>),
    Bytes(Seq<u8>),
    Null,
    Okay,
    Error(Seq<char>),
    Array(Seq<ValueView>),
    DateTime(Timestamp),
    Duration(Span),
}

impl View for Value {
    type V = ValueView;

    open spec fn view(&self) -> ValueView
        decreases self,
    {
        match self {
            Value::I32(v) => ValueView::I32(*v),
            Value::Z32(v) => ValueView::Z32(*v),
            Value::U32(v) => ValueView::U32(*v),
            Value::V32(v) => ValueView::V32(*v),
            Value::I64(v) => ValueView::I64(*v),
            Value::Z64(v) => ValueView::Z64(*v),
            Value::U64(v) => ValueView::U64(*v),
            Value::V64(v) => ValueView::V64(*v),
            Value::F32(v) => ValueView::F32(*v),
            Value::F64(v) => ValueView::F64(*v),
            Value::True => ValueView::True,
            Value::False => ValueView::False,
            Value::String(s) => ValueView::String(s@),
            Value::Bytes(b) => ValueView::Bytes(b@),
            Value::Null => ValueView::Null,
            Value::Okay => ValueView::Okay,
            Value::Error(s) => ValueView::Error(s@),
            Value::Array(a) => ValueView::Array(
                Seq::new(
                    a.len() as nat,
                    |i: int|
                        if 0 <= i < a.len() {
                            a[i].view()
                        } else {
                            ValueView::Null
                        },
                ),
            ),
            Value::DateTime(t) => ValueView::DateTime(*t),
            Value::Duration(d) => ValueView::Duration(*d),
        }
    }
}

/// What a subscription reports.
#[derive(Debug, PartialEq, Eq)]
pub enum Event {
    /// The underlying subscription was torn down.
    Unsubscribed,
    /// The subscription has a new value.
    Update(Value),
}

/// The model of an `Event`.
pub enum EventView {
    Unsubscribed,
    Update(ValueView),
}

impl View for Event {
    type V = EventView;

    open spec fn view(&self) -> EventView {
        match self {
            Event::Unsubscribed => EventView::Unsubscribed,
            Event::Update(v) => EventView::Update(v@),
        }
    }
}

impl Clone for Value {
    fn clone(&self) -> (r: Self)
        ensures
            r@ == self@,
        decreases self,
    {
        match self {
            Value::I32(v) => Value::I32(*v),
            Value::Z32(v) => Value::Z32(*v),
            Value::U32(v) => Value::U32(*v),
            Value::V32(v) => Value::V32(*v),
            Value::I64(v) => Value::I64(*v),
            Value::Z64(v) => Value::Z64(*v),
            Value::U64(v) => Value::U64(*v),
            Value::V64(v) => Value::V64(*v),
            Value::F32(v) => Value::F32(*v),
            Value::F64(v) => Value::F64(*v),
            Value::True => Value::True,
            Value::False => Value::False,
            Value::String(s) => Value::String(s.clone()),
            Value::Bytes(b) => {
                let c = b.clone();
                assert(c@ =~= b@);
                Value::Bytes(c)
            },
            Value::Null => Value::Null,
            Value::Okay => Value::Okay,
            Value::Error(s) => Value::Error(s.clone()),
            Value::Array(a) => {
                let mut out: Vec<Value> = Vec::with_capacity(a.len());
                let mut i: usize = 0;
                while i < a.len()
                    invariant
                        i <= a.len(),
                        out.len() == i,
                        *self == Value::Array(*a),
                        forall|j: int| 0 <= j < i ==> out[j]@ == a[j]@,
                    decreases a.len() - i,
                {
                    proof {
                        assert(decreases_to!(*self => self->Array_0));
                    }
                    let c = a[i].clone();
                    out.push(c);
                    i += 1;
                }
                let r = Value::Array(out);
                assert(r@->Array_0 =~= self@->Array_0);
                r
            },
            Value::DateTime(t) => Value::DateTime(*t),
            Value::Duration(d) => Value::Duration(*d),
        }
    }
}

impl Clone for Event {
    fn clone(&self) -> (r: Self)
        ensures
            r@ == self@,
    {
        match self {
            Event::Unsubscribed => Event::Unsubscribed,
            Event::Update(v) => Event::Update(v.clone()),
        }
    }
}

} // verus!
