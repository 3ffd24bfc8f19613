//! The cell values the host understands, and the encoding of events into
//! them.

use crate::value::{Event, EventView, Value, ValueView};
use vstd::prelude::*;
use vstd::string::StringExecFns;

verus! {

/// The UTF-16 code units of one character: the character itself where it
/// fits in one unit, a surrogate pair otherwise.
pub open spec fn utf16_of_char(c: char) -> Seq<u16> {
    let n = c as u32;
    if n < 0x10000 {
        seq![n as u16]
    } else {
        seq![
            (0xD800 + (n - 0x10000) / 0x400) as u16,
            (0xDC00 + (n - 0x10000) % 0x400) as u16,
        ]
    }
}

/// The UTF-16 encoding of a text.
pub open spec fn utf16(s: Seq<char>) -> Seq<u16>
    decreases s.len(),
{
    if s.len() == 0 {
        Seq::empty()
    } else {
        utf16(s.drop_last()) + utf16_of_char(s.last())
    }
}

/// Encodes `s` as the host's wide string: its UTF-16 code units and a
/// closing zero.
pub fn str_to_wstr(s: &str) -> (r: Vec<u16>)
    ensures
        r@ == utf16(s@).push(0),
{
    let mut v: Vec<u16> = Vec::new();
    for c in it: s.chars()
        invariant
            it.seq() == s@,
            v@ == utf16(s@.take(it.index() as int)),
    {
        let ghost k = it.index() as int;
        let ghost before = v@;
        proof {
            assert(s@.take(k + 1).drop_last() =~= s@.take(k));
            assert(s@.take(k + 1).last() == c);
        }
        let n: u32 = c as u32;
        if n < 0x10000 {
            v.push(n as u16);
        } else {
            let m: u32 = n - 0x10000;
            v.push((0xD800 + m / 0x400) as u16);
            v.push((0xDC00 + m % 0x400) as u16);
        }
        assert(v@ =~= before + utf16_of_char(c));
    }
    proof {
        assert(s@.take(s@.len() as int) =~= s@);
    }
    v.push(0);
    v
}

/// A dynamically typed cell value of the host. Floats are held by their bit
/// patterns.
#[derive(Debug, Clone, PartialEq, Eq)]
pub enum Variant {
    /// A freshly made cell that holds nothing yet.
    Empty,
    /// No data.
    Null,
    /// The host's error marker.
    Error,
    I4(i32),
    UI4(u32),
    I8(i64),
    UI8(u64),
    R4(u32),
    R8(u64),
    Bool(bool),
    Bstr(String),
}

/// The model of a `Variant`.
pub enum VariantView {
    Empty,
    Null,
    Error,
    I4(i32),
    UI4(u32),
    I8(i64),
    UI8(u64),
    R4(u32),
    R8(u64),
    Bool(bool),
    Bstr(Seq<char>),
}

impl View for Variant {
    type V = VariantView;

    open spec fn view(&self) -> VariantView {
        match self {
            Variant::Empty => VariantView::Empty,
            Variant::Null => VariantView::Null,
            Variant::Error => VariantView::Error,
            Variant::I4(v) => VariantView::I4(*v),
            Variant::UI4(v) => VariantView::UI4(*v),
            Variant::I8(v) => VariantView::I8(*v),
            Variant::UI8(v) => VariantView::UI8(*v),
            Variant::R4(v) => VariantView::R4(*v),
            Variant::R8(v) => VariantView::R8(*v),
            Variant::Bool(v) => VariantView::Bool(*v),
            Variant::Bstr(s) => VariantView::Bstr(s@),
        }
    }
}

impl Variant {
    /// An empty cell.
    pub fn new() -> (r: Variant)
        ensures
            r@ == VariantView::Empty,
    {
        Variant::Empty
    }

    /// The cell that says "no data".
    pub fn null() -> (r: Variant)
        ensures
            r@ == VariantView::Null,
    {
        Variant::Null
    }

    /// The cell that marks a failed call.
    pub fn error() -> (r: Variant)
        ensures
            r@ == VariantView::Error,
    {
        Variant::Error
    }
}

/// The cell a value is shown as. Integers, floats, booleans and strings keep
/// their payload; every other kind becomes a fixed marker or its text.
pub open spec fn cell_of_value(v: ValueView) -> VariantView {
    match v {
        ValueView::I32(x) | ValueView::Z32(x) => VariantView::I4(x),
        ValueView::U32(x) | ValueView::V32(x) => VariantView::UI4(x),
        ValueView::I64(x) | ValueView::Z64(x) => VariantView::I8(x),
        ValueView::U64(x) | ValueView::V64(x) => VariantView::UI8(x),
        ValueView::F32(bits) => VariantView::R4(bits),
        ValueView::F64(bits) => VariantView::R8(bits),
        ValueView::True => VariantView::Bool(true),
        ValueView::False => VariantView::Bool(false),
        ValueView::String(s) => VariantView::Bstr(s),
        ValueView::Bytes(_) => VariantView::Bstr("#BIN"@),
        ValueView::Null => VariantView::Null,
        ValueView::Okay => VariantView::Bstr("OK"@),
        ValueView::Error(msg) => VariantView::Bstr("#ERR "@ + msg),
        ValueView::Array(_) => VariantView::Bstr("#ARRAY"@),
        ValueView::DateTime(t) => VariantView::Bstr(
            crate::time::timestamp_text(t.spec_secs(), t.spec_nanos())->Some_0,
        ),
        ValueView::Duration(d) => VariantView::Bstr(
            crate::time::seconds_text(d.spec_secs(), d.spec_nanos()) + "s"@,
        ),
    }
}

/// The cell an event is shown as.
pub open spec fn cell_of_event(e: EventView) -> VariantView {
    match e {
        EventView::Unsubscribed => VariantView::Bstr("#SUB"@),
        EventView::Update(v) => cell_of_value(v),
    }
}

/// Whether the host can hold a value of this kind as it is: integers, floats,
/// booleans and strings.
pub open spec fn representable(v: ValueView) -> bool {
    match v {
        ValueView::I32(_) | ValueView::Z32(_) | ValueView::U32(_) | ValueView::V32(_) => true,
        ValueView::I64(_) | ValueView::Z64(_) | ValueView::U64(_) | ValueView::V64(_) => true,
        ValueView::F32(_) | ValueView::F64(_) => true,
        ValueView::True | ValueView::False | ValueView::String(_) => true,
        _ => false,
    }
}

/// The same value in the plain encoding of its kind.
pub open spec fn plain(v: ValueView) -> ValueView {
    match v {
        ValueView::Z32(x) => ValueView::I32(x),
        ValueView::V32(x) => ValueView::U32(x),
        ValueView::Z64(x) => ValueView::I64(x),
        ValueView::V64(x) => ValueView::U64(x),
        _ => v,
    }
}

/// The value a cell holds, read back in plain encoding; none for a cell
/// that is empty or marks an error.
pub open spec fn value_of_cell(c: VariantView) -> Option<ValueView> {
    match c {
        VariantView::Empty | VariantView::Error => None,
        VariantView::Null => Some(ValueView::Null),
        VariantView::I4(x) => Some(ValueView::I32(x)),
        VariantView::UI4(x) => Some(ValueView::U32(x)),
        VariantView::I8(x) => Some(ValueView::I64(x)),
        VariantView::UI8(x) => Some(ValueView::U64(x)),
        VariantView::R4(bits) => Some(ValueView::F32(bits)),
        VariantView::R8(bits) => Some(ValueView::F64(bits)),
        VariantView::Bool(b) => Some(
            if b {
                ValueView::True
            } else {
                ValueView::False
            },
        ),
        VariantView::Bstr(s) => Some(ValueView::String(s)),
    }
}

/// Encoding loses nothing of a representable value: read back from its cell
/// it is the same value, bit for bit, in the plain encoding of its kind.
pub proof fn lemma_representable_round_trip(v: ValueView)
    requires
        representable(v),
    ensures
        value_of_cell(cell_of_value(v)) == Some(plain(v)),
        representable(plain(v)),
        cell_of_value(plain(v)) == cell_of_value(v),
{
}

/// Two representable values share a cell only if they are the same value up
/// to encoding.
pub proof fn lemma_cells_tell_values_apart(a: ValueView, b: ValueView)
    requires
        representable(a),
        representable(b),
        cell_of_value(a) == cell_of_value(b),
    ensures
        plain(a) == plain(b),
{
    lemma_representable_round_trip(a);
    lemma_representable_round_trip(b);
}

/// Encodes a value as a cell.
pub fn variant_of_value(v: &Value) -> (r: Variant)
    ensures
        r@ == cell_of_value(v@),
{
    match v {
        Value::I32(x) | Value::Z32(x) => Variant::I4(*x),
        Value::U32(x) | Value::V32(x) => Variant::UI4(*x),
        Value::I64(x) | Value::Z64(x) => Variant::I8(*x),
        Value::U64(x) | Value::V64(x) => Variant::UI8(*x),
        Value::F32(bits) => Variant::R4(*bits),
        Value::F64(bits) => Variant::R8(*bits),
        Value::True => Variant::Bool(true),
        Value::False => Variant::Bool(false),
        Value::String(s) => Variant::Bstr(s.clone()),
        Value::Bytes(_) => Variant::Bstr(String::from_str("#BIN")),
        Value::Null => Variant::null(),
        Value::Okay => Variant::Bstr(String::from_str("OK")),
        Value::Error(msg) => Variant::Bstr(String::from_str("#ERR ").concat(msg.as_str())),
        Value::Array(_) => Variant::Bstr(String::from_str("#ARRAY")),
        Value::DateTime(t) => Variant::Bstr(t.text()),
        Value::Duration(d) => Variant::Bstr(d.seconds_text().concat("s")),
    }
}

/// Encodes an event as a cell.
pub fn variant_of_event(e: &Event) -> (r: Variant)
    ensures
        r@ == cell_of_event(e@),
{
    match e {
        Event::Unsubscribed => Variant::Bstr(String::from_str("#SUB")),
        Event::Update(v) => variant_of_value(v),
    }
}

} // verus!
