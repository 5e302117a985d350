use vstd::prelude::*;
use core::cmp::Ordering;
use vstd::std_specs::cmp::PartialOrdSpec;
use crate::cow_string::str_eq;

verus! {

/// How severe a record is, from the most verbose to the most serious.
#[derive(Copy, Clone, Debug, Hash, PartialEq, Eq, Structural)]
pub enum SerializeLevel {
    /// Very low priority, often extremely verbose, information.
    Trace,
    /// Lower priority information.
    Debug,
    /// Useful information.
    Info,
    /// Hazardous situations.
    Warn,
    /// Very serious errors.
    Error,
}

impl SerializeLevel {
    /// Position on the severity scale: `Trace` is 0, `Error` is 4.
    pub open spec fn rank(self) -> int {
        match self {
            SerializeLevel::Trace => 0,
            SerializeLevel::Debug => 1,
            SerializeLevel::Info => 2,
            SerializeLevel::Warn => 3,
            SerializeLevel::Error => 4,
        }
    }

    /// The literal token a level is written as.
    pub open spec fn token(self) -> Seq<char> {
        match self {
            SerializeLevel::Trace => "TRACE"@,
            SerializeLevel::Debug => "DEBUG"@,
            SerializeLevel::Info => "INFO"@,
            SerializeLevel::Warn => "WARN"@,
            SerializeLevel::Error => "ERROR"@,
        }
    }

    pub fn severity(&self) -> (r: u8)
        ensures
            r == self.rank(),
    {
        match self {
            SerializeLevel::Trace => 0,
            SerializeLevel::Debug => 1,
            SerializeLevel::Info => 2,
            SerializeLevel::Warn => 3,
            SerializeLevel::Error => 4,
        }
    }

    /// The token this level is written as: `"TRACE"`, `"DEBUG"`, `"INFO"`,
    /// `"WARN"` or `"ERROR"`.
    pub fn as_token(&self) -> (r: &'static str)
        ensures
            r@ == self.token(),
    {
        match self {
            SerializeLevel::Trace => "TRACE",
            SerializeLevel::Debug => "DEBUG",
            SerializeLevel::Info => "INFO",
            SerializeLevel::Warn => "WARN",
            SerializeLevel::Error => "ERROR",
        }
    }

    /// Reads a level back from its token; any other text is no level.
    pub fn from_token(s: &str) -> (r: Option<SerializeLevel>)
        ensures
            r matches Some(l) ==> l.token() == s@,
            r is None ==> forall|l: SerializeLevel| l.token() != s@,
    {
        proof {
            lemma_tokens_distinct();
        }
        if str_eq(s, "TRACE") {
            Some(SerializeLevel::Trace)
        } else if str_eq(s, "DEBUG") {
            Some(SerializeLevel::Debug)
        } else if str_eq(s, "INFO") {
            Some(SerializeLevel::Info)
        } else if str_eq(s, "WARN") {
            Some(SerializeLevel::Warn)
        } else if str_eq(s, "ERROR") {
            Some(SerializeLevel::Error)
        } else {
            None
        }
    }

    pub fn to_owned(&self) -> (r: Self)
        ensures
            r == *self,
    {
        *self
    }
}

/// Different levels are written as different tokens.
pub proof fn lemma_tokens_distinct()
    ensures
        forall|a: SerializeLevel, b: SerializeLevel| a.token() == b.token() ==> a == b,
{
    reveal_strlit("TRACE");
    reveal_strlit("DEBUG");
    reveal_strlit("INFO");
    reveal_strlit("WARN");
    reveal_strlit("ERROR");
    assert forall|a: SerializeLevel, b: SerializeLevel| a.token() == b.token() implies a == b by {
        if a != b {
            assert(a.token().len() != b.token().len() || a.token()[0] != b.token()[0]
                || a.token()[1] != b.token()[1]);
        }
    }
}

/// A level read back from its own token is the same level.
pub proof fn lemma_token_round_trip(l: SerializeLevel, s: &str, r: Option<SerializeLevel>)
    requires
        s@ == l.token(),
        r matches Some(x) ==> x.token() == s@,
        r is None ==> forall|x: SerializeLevel| x.token() != s@,
    ensures
        r == Some(l),
{
    lemma_tokens_distinct();
}

impl PartialOrd for SerializeLevel {
    fn partial_cmp(&self, other: &Self) -> (r: Option<Ordering>) {
        let a = self.severity();
        let b = other.severity();
        if a < b {
            Some(Ordering::Less)
        } else if a > b {
            Some(Ordering::Greater)
        } else {
            Some(Ordering::Equal)
        }
    }
}

impl vstd::std_specs::cmp::PartialOrdSpecImpl for SerializeLevel {
    open spec fn obeys_partial_cmp_spec() -> bool {
        true
    }

    open spec fn partial_cmp_spec(&self, other: &Self) -> Option<Ordering> {
        if self.rank() < other.rank() {
            Some(Ordering::Less)
        } else if self.rank() > other.rank() {
            Some(Ordering::Greater)
        } else {
            Some(Ordering::Equal)
        }
    }
}

/// Levels are totally ordered by ascending severity:
/// `Trace < Debug < Info < Warn < Error`, and one level is below another
/// exactly when its rank is lower.
pub proof fn lemma_level_order(a: SerializeLevel, b: SerializeLevel)
    ensures
        SerializeLevel::Trace.rank() < SerializeLevel::Debug.rank(),
        SerializeLevel::Debug.rank() < SerializeLevel::Info.rank(),
        SerializeLevel::Info.rank() < SerializeLevel::Warn.rank(),
        SerializeLevel::Warn.rank() < SerializeLevel::Error.rank(),
        (a.partial_cmp_spec(&b) == Some(Ordering::Less)) == (a.rank() < b.rank()),
        (a.partial_cmp_spec(&b) == Some(Ordering::Equal)) == (a == b),
        a.rank() < b.rank() || a.rank() > b.rank() || a == b,
{
}

} // verus!
