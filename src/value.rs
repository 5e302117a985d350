use vstd::prelude::*;
use crate::cow_string::CowString;

verus! {

/// What a recorded field value means, independent of who owns its text.
pub enum ValueModel {
    Debug(Seq<char>),
    Str(Seq<char>),
    F64(u64),
    I64(i64),
    U64(u64),
    Bool(bool),
}

/// A value recorded through its debug formatting.
///
/// The text is formatted when the field is visited, since the value itself
/// may not outlive the callback; `Ser` borrows that text, `De` holds a
/// string read back or copied.
#[derive(Debug)]
pub enum DebugRecord<'a> {
    Ser(&'a str),
    De(CowString<'a>),
}

impl<'a> View for DebugRecord<'a> {
    type V = Seq<char>;

    open spec fn view(&self) -> Seq<char> {
        match self {
            DebugRecord::Ser(s) => s@,
            DebugRecord::De(c) => c@,
        }
    }
}

impl<'a> DebugRecord<'a> {
    /// Owns its text outright.
    pub open spec fn is_owned(&self) -> bool {
        self matches DebugRecord::De(CowString::Owned(_))
    }

    /// The formatted text.
    pub fn as_str(&self) -> (r: &str)
        ensures
            r@ == self@,
    {
        match self {
            DebugRecord::Ser(s) => s,
            DebugRecord::De(c) => c.as_str(),
        }
    }

    /// A snapshot of the formatted text that owns it.
    pub fn to_owned(&self) -> (r: DebugRecord<'static>)
        ensures
            r.is_owned(),
            r@ == self@,
    {
        match self {
            DebugRecord::Ser(s) => DebugRecord::De(CowString::Owned((*s).to_owned())),
            DebugRecord::De(d) => DebugRecord::De(d.to_owned()),
        }
    }
}

impl<'a> From<CowString<'a>> for DebugRecord<'a> {
    fn from(other: CowString<'a>) -> (r: Self) {
        DebugRecord::De(other)
    }
}

impl<'a> vstd::std_specs::convert::FromSpecImpl<CowString<'a>> for DebugRecord<'a> {
    open spec fn obeys_from_spec() -> bool {
        true
    }

    open spec fn from_spec(other: CowString<'a>) -> Self {
        DebugRecord::De(other)
    }
}

/// One recorded field value.
///
/// A floating-point value is kept as its IEEE 754 bit pattern, so that it
/// comes back bit for bit.
#[derive(Debug)]
#[non_exhaustive]
pub enum SerializeValue<'a> {
    Debug(DebugRecord<'a>),
    Str(CowString<'a>),
    F64(u64),
    I64(i64),
    U64(u64),
    Bool(bool),
}

impl<'a> SerializeValue<'a> {
    pub open spec fn model(&self) -> ValueModel {
        match self {
            SerializeValue::Debug(d) => ValueModel::Debug(d@),
            SerializeValue::Str(s) => ValueModel::Str(s@),
            SerializeValue::F64(x) => ValueModel::F64(*x),
            SerializeValue::I64(x) => ValueModel::I64(*x),
            SerializeValue::U64(x) => ValueModel::U64(*x),
            SerializeValue::Bool(x) => ValueModel::Bool(*x),
        }
    }

    /// Holds no borrowed text.
    pub open spec fn is_owned(&self) -> bool {
        match self {
            SerializeValue::Debug(d) => d.is_owned(),
            SerializeValue::Str(s) => s is Owned,
            _ => true,
        }
    }

    /// A deep copy that owns all of its text; numbers and flags are kept.
    pub fn to_owned(&self) -> (r: SerializeValue<'static>)
        ensures
            r.model() == self.model(),
            r.is_owned(),
    {
        match self {
            SerializeValue::Debug(dr) => SerializeValue::Debug(dr.to_owned()),
            SerializeValue::Str(s) => SerializeValue::Str(s.to_owned()),
            SerializeValue::F64(x) => SerializeValue::F64(*x),
            SerializeValue::I64(x) => SerializeValue::I64(*x),
            SerializeValue::U64(x) => SerializeValue::U64(*x),
            SerializeValue::Bool(x) => SerializeValue::Bool(*x),
        }
    }
}

} // verus!
