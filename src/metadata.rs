use vstd::prelude::*;
use crate::cow_string::CowString;
use crate::fields::{SerializeRecordFields, SerializeSpanFields, materialized};
use crate::id::SerializeId;
use crate::level::SerializeLevel;
use crate::visitor::{CapacityError, ElementAnswers, ElementSink, same_outcome, write_elements};

verus! {

/// The names of a callsite's fields in declaration order: borrowed from the
/// callsite, or held as a list of their own.
#[derive(Debug)]
pub enum SerializeFieldSet<'a> {
    Ser(&'a [&'a str]),
    De(Vec<CowString<'a>>),
}

impl<'a> View for SerializeFieldSet<'a> {
    type V = Seq<Seq<char>>;

    open spec fn view(&self) -> Seq<Seq<char>> {
        match self {
            SerializeFieldSet::Ser(names) => names@.map_values(|n: &'a str| n@),
            SerializeFieldSet::De(names) => names@.map_values(|n: CowString<'a>| n@),
        }
    }
}

impl<'a> SerializeFieldSet<'a> {
    /// Owns all of its names.
    pub open spec fn is_owned(&self) -> bool {
        self matches SerializeFieldSet::De(names) && forall|i: int|
            0 <= i < names@.len() ==> #[trigger] names@[i] is Owned
    }

    pub fn len(&self) -> (r: usize)
        ensures
            r == self@.len(),
    {
        match self {
            SerializeFieldSet::Ser(names) => names.len(),
            SerializeFieldSet::De(names) => names.len(),
        }
    }

    /// A copy that owns every name, in the same order.
    pub fn to_owned(&self) -> (r: SerializeFieldSet<'static>)
        ensures
            r@ == self@,
            r.is_owned(),
    {
        let mut out: Vec<CowString<'static>> = Vec::new();
        let n = self.len();
        let mut i: usize = 0;
        while i < n
            invariant
                n == self@.len(),
                i <= n,
                out@.len() == i,
                forall|j: int| 0 <= j < i ==> (#[trigger] out@[j])@ == self@[j],
                forall|j: int| 0 <= j < i ==> #[trigger] out@[j] is Owned,
            decreases n - i,
        {
            let copy = match self {
                SerializeFieldSet::Ser(names) => CowString::Owned(names[i].to_owned()),
                SerializeFieldSet::De(names) => names[i].to_owned(),
            };
            out.push(copy);
            i = i + 1;
        }
        let r = SerializeFieldSet::De(out);
        assert(r@ =~= self@);
        r
    }
}

/// What writing `names` as one sequence into the freshly opened sink `s`
/// gives: the first refusal, or else what closing gives once every name was
/// taken.
pub open spec fn names_serialized<S: ElementSink>(
    s: S,
    names: Seq<Seq<char>>,
    r: Result<S::Output, S::Error>,
) -> bool {
    let w = write_elements(s.element_answers(), s.elements(), names);
    match w.1 {
        Err(e) => r == Err::<S::Output, S::Error>(e),
        Ok(_) => (s.seq_closing())(w.0, r),
    }
}

/// Once writing has stopped at a refusal, further elements change nothing.
proof fn lemma_elements_frozen<E>(
    answers: ElementAnswers<E>,
    h: Seq<Seq<char>>,
    vs: Seq<Seq<char>>,
    j: int,
    m: int,
)
    requires
        0 <= j <= m <= vs.len(),
        write_elements(answers, h, vs.take(j)).1 is Err,
    ensures
        write_elements(answers, h, vs.take(m)) == write_elements(answers, h, vs.take(j)),
    decreases m - j,
{
    if m > j {
        lemma_elements_frozen(answers, h, vs, j, m - 1);
        assert(vs.take(m).drop_last() =~= vs.take(m - 1));
    }
}

impl<'a> SerializeFieldSet<'a> {
    /// The name at position `i`.
    pub fn name_at(&self, i: usize) -> (r: &str)
        requires
            i < self@.len(),
        ensures
            r@ == self@[i as int],
    {
        match self {
            SerializeFieldSet::Ser(names) => names[i],
            SerializeFieldSet::De(names) => names[i].as_str(),
        }
    }

    /// Writes the names into an open sequence, in order, stopping at the
    /// first one the sink refuses and returning its answer.
    pub fn write_names<S: ElementSink>(&self, seq: &mut S) -> (r: Result<(), S::Error>)
        ensures
            same_outcome(
                final(seq).elements(),
                r,
                write_elements(old(seq).element_answers(), old(seq).elements(), self@),
            ),
            final(seq).element_answers() == old(seq).element_answers(),
            final(seq).seq_closing() == old(seq).seq_closing(),
    {
        let ghost answers = seq.element_answers();
        let ghost h0 = seq.elements();
        let n = self.len();
        let mut i: usize = 0;
        assert(self@.take(0) =~= Seq::<Seq<char>>::empty());
        assert(write_elements(answers, h0, self@.take(0)).0 == h0);
        while i < n
            invariant
                n == self@.len(),
                i <= n,
                answers == old(seq).element_answers(),
                h0 == old(seq).elements(),
                seq.element_answers() == answers,
                seq.seq_closing() == old(seq).seq_closing(),
                seq.elements() == write_elements(answers, h0, self@.take(i as int)).0,
                write_elements(answers, h0, self@.take(i as int)).1 is Ok,
            decreases n - i,
        {
            let name = self.name_at(i);
            let step = seq.serialize_element(name);
            assert(self@.take(i as int + 1).drop_last() =~= self@.take(i as int));
            assert(self@.take(i as int + 1).last() == self@[i as int]);
            assert(same_outcome(seq.elements(), step, write_elements(answers, h0, self@.take(i as int + 1))));
            if let Err(e) = step {
                proof {
                    lemma_elements_frozen(answers, h0, self@, i as int + 1, n as int);
                    assert(self@.take(n as int) =~= self@);
                }
                return Err(e);
            }
            i = i + 1;
        }
        assert(self@.take(n as int) =~= self@);
        Ok(())
    }

    /// Writes the names as a sequence, in order. The first element the sink
    /// refuses ends the sequence, unclosed, with that error; otherwise the
    /// result is what closing the sequence gives.
    pub fn serialize<S: ElementSink>(&self, serializer: S) -> (r: Result<S::Output, S::Error>)
        ensures
            names_serialized(serializer, self@, r),
    {
        let mut seq = serializer;
        match self.write_names(&mut seq) {
            Ok(()) => seq.end(),
            Err(e) => Err(e),
        }
    }
}

impl<'a> SerializeFieldSet<'a> {
    /// An owned field set in a list with room for at most `capacity` names.
    /// Names that do not fit are refused whole, never truncated.
    pub fn from_names_bounded(names: Vec<CowString<'a>>, capacity: usize) -> (r: Result<
        SerializeFieldSet<'a>,
        CapacityError,
    >)
        ensures
            names@.len() <= capacity ==> r == Ok::<SerializeFieldSet<'a>, CapacityError>(
                SerializeFieldSet::De(names),
            ),
            names@.len() > capacity ==> r == Err::<SerializeFieldSet<'a>, CapacityError>(
                CapacityError { capacity },
            ),
    {
        if names.len() > capacity {
            Err(CapacityError { capacity })
        } else {
            Ok(SerializeFieldSet::De(names))
        }
    }
}

impl<'a> From<Vec<CowString<'a>>> for SerializeFieldSet<'a> {
    fn from(other: Vec<CowString<'a>>) -> (r: Self) {
        SerializeFieldSet::De(other)
    }
}

impl<'a> vstd::std_specs::convert::FromSpecImpl<Vec<CowString<'a>>> for SerializeFieldSet<'a> {
    open spec fn obeys_from_spec() -> bool {
        true
    }

    open spec fn from_spec(other: Vec<CowString<'a>>) -> Self {
        SerializeFieldSet::De(other)
    }
}

/// A callsite's description: where it is, how severe, and what fields it
/// declares.
#[derive(Debug)]
pub struct SerializeMetadata<'a> {
    pub name: CowString<'a>,
    pub target: CowString<'a>,
    pub level: SerializeLevel,
    pub module: Option<CowString<'a>>,
    pub file: Option<CowString<'a>>,
    pub line: Option<u32>,
    pub fields: SerializeFieldSet<'a>,
    pub is_span: bool,
    pub is_event: bool,
}

pub open spec fn opt_view<'a>(o: Option<CowString<'a>>) -> Option<Seq<char>> {
    match o {
        Some(s) => Some(s@),
        None => None,
    }
}

pub open spec fn opt_owned<'a>(o: Option<CowString<'a>>) -> bool {
    o matches Some(s) ==> s is Owned
}

fn opt_to_owned(o: &Option<CowString<'_>>) -> (r: Option<CowString<'static>>)
    ensures
        opt_view(r) == opt_view(*o),
        opt_owned(r),
{
    match o {
        Some(s) => Some(s.to_owned()),
        None => None,
    }
}

impl<'a> SerializeMetadata<'a> {
    /// Both describe the same callsite, whoever owns the text.
    pub open spec fn same_as<'b>(&self, other: &SerializeMetadata<'b>) -> bool {
        &&& self.name@ == other.name@
        &&& self.target@ == other.target@
        &&& self.level == other.level
        &&& opt_view(self.module) == opt_view(other.module)
        &&& opt_view(self.file) == opt_view(other.file)
        &&& self.line == other.line
        &&& self.fields@ == other.fields@
        &&& self.is_span == other.is_span
        &&& self.is_event == other.is_event
    }

    /// Owns all of its text.
    pub open spec fn is_owned(&self) -> bool {
        &&& self.name is Owned
        &&& self.target is Owned
        &&& opt_owned(self.module)
        &&& opt_owned(self.file)
        &&& self.fields.is_owned()
    }

    /// A copy that owns all of its text.
    pub fn to_owned(&self) -> (r: SerializeMetadata<'static>)
        ensures
            r.same_as(self),
            r.is_owned(),
    {
        SerializeMetadata {
            name: self.name.to_owned(),
            target: self.target.to_owned(),
            level: self.level,
            module: opt_to_owned(&self.module),
            file: opt_to_owned(&self.file),
            line: self.line,
            fields: self.fields.to_owned(),
            is_span: self.is_span,
            is_event: self.is_event,
        }
    }
}

/// An event: its fields, its callsite, and the span it belongs to, if any.
#[derive(Debug)]
pub struct SerializeEvent<'a> {
    pub fields: SerializeRecordFields<'a>,
    pub metadata: SerializeMetadata<'a>,
    pub parent: Option<SerializeId>,
}

impl<'a> SerializeEvent<'a> {
    /// A copy that owns all of its data; live fields are materialized.
    pub fn to_owned(&self) -> (r: SerializeEvent<'static>)
        ensures
            r.fields.is_owned(),
            r.fields.model() == match self.fields {
                SerializeRecordFields::Ser(_) => materialized(self.fields.model()),
                SerializeRecordFields::De(_) => self.fields.model(),
            },
            r.metadata.same_as(&self.metadata),
            r.metadata.is_owned(),
            r.parent == self.parent,
    {
        SerializeEvent {
            fields: self.fields.to_owned(),
            metadata: self.metadata.to_owned(),
            parent: self.parent,
        }
    }
}

/// A new span: its callsite, its parent, whether it is a root, and the
/// fields it was created with.
#[derive(Debug)]
pub struct SerializeAttributes<'a> {
    pub metadata: SerializeMetadata<'a>,
    pub parent: Option<SerializeId>,
    pub is_root: bool,
    pub fields: SerializeSpanFields<'a>,
}

impl<'a> SerializeAttributes<'a> {
    /// A copy that owns all of its data; live fields are materialized.
    pub fn to_owned(&self) -> (r: SerializeAttributes<'static>)
        ensures
            r.fields.is_owned(),
            r.fields.model() == match self.fields {
                SerializeSpanFields::Ser(_) => materialized(self.fields.model()),
                SerializeSpanFields::De(_) => self.fields.model(),
            },
            r.metadata.same_as(&self.metadata),
            r.metadata.is_owned(),
            r.parent == self.parent,
            r.is_root == self.is_root,
    {
        SerializeAttributes {
            metadata: self.metadata.to_owned(),
            parent: self.parent,
            is_root: self.is_root,
            fields: self.fields.to_owned(),
        }
    }
}

} // verus!
