use vstd::prelude::*;
use vstd::std_specs::cmp::PartialEqSpec;

verus! {

/// Whether two string slices hold the same characters.
pub(crate) fn str_eq(a: &str, b: &str) -> (r: bool)
    ensures
        r == (a@ == b@),
{
    let x: String = a.to_owned();
    let y: String = b.to_owned();
    x == y
}

/// A string that either borrows its text from a short-lived source or owns it.
///
/// Equality and hashing look at the text only, never at which variant holds it.
#[derive(Debug)]
pub enum CowString<'a> {
    Borrowed(&'a str),
    Owned(String),
}

impl<'a> View for CowString<'a> {
    type V = Seq<char>;

    open spec fn view(&self) -> Seq<char> {
        match self {
            CowString::Borrowed(b) => b@,
            CowString::Owned(o) => o@,
        }
    }
}

impl<'a> CowString<'a> {
    /// The text, whichever variant holds it.
    pub fn as_str(&self) -> (r: &str)
        ensures
            r@ == self@,
    {
        match self {
            CowString::Borrowed(b) => b,
            CowString::Owned(o) => o.as_str(),
        }
    }

    /// A copy that owns its text and so outlives the source it was read from.
    pub fn to_owned(&self) -> (r: CowString<'static>)
        ensures
            r is Owned,
            r@ == self@,
    {
        CowString::Owned(self.as_str().to_owned())
    }
}

impl<'a> PartialEq for CowString<'a> {
    fn eq(&self, other: &Self) -> (r: bool) {
        str_eq(self.as_str(), other.as_str())
    }
}

impl<'a> vstd::std_specs::cmp::PartialEqSpecImpl for CowString<'a> {
    open spec fn obeys_eq_spec() -> bool {
        true
    }

    open spec fn eq_spec(&self, other: &Self) -> bool {
        self@ == other@
    }
}

impl<'a> Eq for CowString<'a> {
}

impl<'a> From<&'a str> for CowString<'a> {
    fn from(other: &'a str) -> (r: Self) {
        CowString::Borrowed(other)
    }
}

impl<'a> vstd::std_specs::convert::FromSpecImpl<&'a str> for CowString<'a> {
    open spec fn obeys_from_spec() -> bool {
        true
    }

    open spec fn from_spec(other: &'a str) -> Self {
        CowString::Borrowed(other)
    }
}

/// Relies on `<str as Hash>::hash`: feeds the text to the hasher.
impl<'a> core::hash::Hash for CowString<'a> {
    #[verifier::external_body]
    fn hash<H: core::hash::Hasher>(&self, state: &mut H) {
        core::hash::Hash::hash(self.as_str(), state)
    }
}

/// Representation does not matter: a borrowed and an owned string with the
/// same text are equal.
pub proof fn lemma_representation_independent(s: &str, o: String)
    requires
        s@ == o@,
    ensures
        CowString::Borrowed(s).eq_spec(&CowString::Owned(o)),
        CowString::Borrowed(s)@ == CowString::<'static>::Owned(o)@,
{
}

} // verus!
