//! The closed enumeration of fund tickers this service knows, with a
//! verified mapping between tickers and their canonical names. The
//! enumeration is the single source of truth for which datasets exist:
//! any name outside it is rejected before any dataset access.

use vstd::prelude::*;
use vstd::string::StringExecFns;

verus! {

/// The closed, versioned set of fund/strategy identifiers.
#[allow(non_camel_case_types)]
#[derive(Clone, Copy, PartialEq, Eq, Structural, Debug)]
pub enum TypeTicker {
    ARKVX,
    ARKF,
    ARKG,
    ARKK,
    ARKQ,
    ARKW,
    ARKX,
    ARKA,
    ARKZ,
    ARKC,
    ARKD,
    ARKY,
    ARKB,
    PRNT,
    IZRL,
    EUROPE_ARKI,
    EUROPE_ARKG,
    EUROPE_ARKK,
    CYBR,
    CYCL,
    FOOD,
    LIFE,
    LUSA,
    NFRA,
    PMNT,
}

impl TypeTicker {
    /// The canonical (case-sensitive) name of a ticker.
    pub open spec fn spec_name(self) -> Seq<char> {
        match self {
            TypeTicker::ARKVX => "ARKVX"@,
            TypeTicker::ARKF => "ARKF"@,
            TypeTicker::ARKG => "ARKG"@,
            TypeTicker::ARKK => "ARKK"@,
            TypeTicker::ARKQ => "ARKQ"@,
            TypeTicker::ARKW => "ARKW"@,
            TypeTicker::ARKX => "ARKX"@,
            TypeTicker::ARKA => "ARKA"@,
            TypeTicker::ARKZ => "ARKZ"@,
            TypeTicker::ARKC => "ARKC"@,
            TypeTicker::ARKD => "ARKD"@,
            TypeTicker::ARKY => "ARKY"@,
            TypeTicker::ARKB => "ARKB"@,
            TypeTicker::PRNT => "PRNT"@,
            TypeTicker::IZRL => "IZRL"@,
            TypeTicker::EUROPE_ARKI => "EUROPE_ARKI"@,
            TypeTicker::EUROPE_ARKG => "EUROPE_ARKG"@,
            TypeTicker::EUROPE_ARKK => "EUROPE_ARKK"@,
            TypeTicker::CYBR => "CYBR"@,
            TypeTicker::CYCL => "CYCL"@,
            TypeTicker::FOOD => "FOOD"@,
            TypeTicker::LIFE => "LIFE"@,
            TypeTicker::LUSA => "LUSA"@,
            TypeTicker::NFRA => "NFRA"@,
            TypeTicker::PMNT => "PMNT"@,
        }
    }

    /// Returns the canonical name of the ticker.
    pub fn name(&self) -> (s: String)
        ensures
            s@ == self.spec_name(),
    {
        match self {
            TypeTicker::ARKVX => String::from_str("ARKVX"),
            TypeTicker::ARKF => String::from_str("ARKF"),
            TypeTicker::ARKG => String::from_str("ARKG"),
            TypeTicker::ARKK => String::from_str("ARKK"),
            TypeTicker::ARKQ => String::from_str("ARKQ"),
            TypeTicker::ARKW => String::from_str("ARKW"),
            TypeTicker::ARKX => String::from_str("ARKX"),
            TypeTicker::ARKA => String::from_str("ARKA"),
            TypeTicker::ARKZ => String::from_str("ARKZ"),
            TypeTicker::ARKC => String::from_str("ARKC"),
            TypeTicker::ARKD => String::from_str("ARKD"),
            TypeTicker::ARKY => String::from_str("ARKY"),
            TypeTicker::ARKB => String::from_str("ARKB"),
            TypeTicker::PRNT => String::from_str("PRNT"),
            TypeTicker::IZRL => String::from_str("IZRL"),
            TypeTicker::EUROPE_ARKI => String::from_str("EUROPE_ARKI"),
            TypeTicker::EUROPE_ARKG => String::from_str("EUROPE_ARKG"),
            TypeTicker::EUROPE_ARKK => String::from_str("EUROPE_ARKK"),
            TypeTicker::CYBR => String::from_str("CYBR"),
            TypeTicker::CYCL => String::from_str("CYCL"),
            TypeTicker::FOOD => String::from_str("FOOD"),
            TypeTicker::LIFE => String::from_str("LIFE"),
            TypeTicker::LUSA => String::from_str("LUSA"),
            TypeTicker::NFRA => String::from_str("NFRA"),
            TypeTicker::PMNT => String::from_str("PMNT"),
        }
    }
}

/// The ticker query parameter of a request, once resolved against the
/// closed enumeration.
#[derive(Clone, Copy, PartialEq, Eq, Structural, Debug)]
pub struct Ticker {
    pub ticker: TypeTicker,
}

/// Which ticker, if any, a parameter string names. Exact, case-sensitive
/// match against the canonical names; anything else is outside the
/// enumeration.
pub open spec fn spec_parse_ticker(s: Seq<char>) -> Option<TypeTicker> {
    if s == "ARKVX"@ {
        Some(TypeTicker::ARKVX)
    } else if s == "ARKF"@ {
        Some(TypeTicker::ARKF)
    } else if s == "ARKG"@ {
        Some(TypeTicker::ARKG)
    } else if s == "ARKK"@ {
        Some(TypeTicker::ARKK)
    } else if s == "ARKQ"@ {
        Some(TypeTicker::ARKQ)
    } else if s == "ARKW"@ {
        Some(TypeTicker::ARKW)
    } else if s == "ARKX"@ {
        Some(TypeTicker::ARKX)
    } else if s == "ARKA"@ {
        Some(TypeTicker::ARKA)
    } else if s == "ARKZ"@ {
        Some(TypeTicker::ARKZ)
    } else if s == "ARKC"@ {
        Some(TypeTicker::ARKC)
    } else if s == "ARKD"@ {
        Some(TypeTicker::ARKD)
    } else if s == "ARKY"@ {
        Some(TypeTicker::ARKY)
    } else if s == "ARKB"@ {
        Some(TypeTicker::ARKB)
    } else if s == "PRNT"@ {
        Some(TypeTicker::PRNT)
    } else if s == "IZRL"@ {
        Some(TypeTicker::IZRL)
    } else if s == "EUROPE_ARKI"@ {
        Some(TypeTicker::EUROPE_ARKI)
    } else if s == "EUROPE_ARKG"@ {
        Some(TypeTicker::EUROPE_ARKG)
    } else if s == "EUROPE_ARKK"@ {
        Some(TypeTicker::EUROPE_ARKK)
    } else if s == "CYBR"@ {
        Some(TypeTicker::CYBR)
    } else if s == "CYCL"@ {
        Some(TypeTicker::CYCL)
    } else if s == "FOOD"@ {
        Some(TypeTicker::FOOD)
    } else if s == "LIFE"@ {
        Some(TypeTicker::LIFE)
    } else if s == "LUSA"@ {
        Some(TypeTicker::LUSA)
    } else if s == "NFRA"@ {
        Some(TypeTicker::NFRA)
    } else if s == "PMNT"@ {
        Some(TypeTicker::PMNT)
    } else {
        None
    }
}

/// Decides character-for-character equality of two strings.
fn str_eq(a: &str, b: &str) -> (r: bool)
    ensures
        r == (a@ == b@),
{
    let n = a.unicode_len();
    if n != b.unicode_len() {
        return false;
    }
    let mut i: usize = 0;
    while i < n
        invariant
            i <= n,
            n == a@.len(),
            n == b@.len(),
            forall|j: int| 0 <= j < i ==> a@[j] == b@[j],
        decreases n - i,
    {
        if a.get_char(i) != b.get_char(i) {
            return false;
        }
        i = i + 1;
    }
    proof {
        assert(a@ =~= b@);
    }
    true
}

/// Resolves a parameter string against the closed enumeration; `None`
/// exactly when the string names no known ticker.
pub fn parse_ticker(s: &str) -> (r: Option<TypeTicker>)
    ensures
        r == spec_parse_ticker(s@),
{
    if str_eq(s, "ARKVX") {
        Some(TypeTicker::ARKVX)
    } else if str_eq(s, "ARKF") {
        Some(TypeTicker::ARKF)
    } else if str_eq(s, "ARKG") {
        Some(TypeTicker::ARKG)
    } else if str_eq(s, "ARKK") {
        Some(TypeTicker::ARKK)
    } else if str_eq(s, "ARKQ") {
        Some(TypeTicker::ARKQ)
    } else if str_eq(s, "ARKW") {
        Some(TypeTicker::ARKW)
    } else if str_eq(s, "ARKX") {
        Some(TypeTicker::ARKX)
    } else if str_eq(s, "ARKA") {
        Some(TypeTicker::ARKA)
    } else if str_eq(s, "ARKZ") {
        Some(TypeTicker::ARKZ)
    } else if str_eq(s, "ARKC") {
        Some(TypeTicker::ARKC)
    } else if str_eq(s, "ARKD") {
        Some(TypeTicker::ARKD)
    } else if str_eq(s, "ARKY") {
        Some(TypeTicker::ARKY)
    } else if str_eq(s, "ARKB") {
        Some(TypeTicker::ARKB)
    } else if str_eq(s, "PRNT") {
        Some(TypeTicker::PRNT)
    } else if str_eq(s, "IZRL") {
        Some(TypeTicker::IZRL)
    } else if str_eq(s, "EUROPE_ARKI") {
        Some(TypeTicker::EUROPE_ARKI)
    } else if str_eq(s, "EUROPE_ARKG") {
        Some(TypeTicker::EUROPE_ARKG)
    } else if str_eq(s, "EUROPE_ARKK") {
        Some(TypeTicker::EUROPE_ARKK)
    } else if str_eq(s, "CYBR") {
        Some(TypeTicker::CYBR)
    } else if str_eq(s, "CYCL") {
        Some(TypeTicker::CYCL)
    } else if str_eq(s, "FOOD") {
        Some(TypeTicker::FOOD)
    } else if str_eq(s, "LIFE") {
        Some(TypeTicker::LIFE)
    } else if str_eq(s, "LUSA") {
        Some(TypeTicker::LUSA)
    } else if str_eq(s, "NFRA") {
        Some(TypeTicker::NFRA)
    } else if str_eq(s, "PMNT") {
        Some(TypeTicker::PMNT)
    } else {
        None
    }
}

/// A string that parses to no ticker matches no ticker's canonical name:
/// the enumeration is exactly the set of accepted names.
pub proof fn lemma_parse_none_outside_enumeration(s: Seq<char>)
    requires
        spec_parse_ticker(s) is None,
    ensures
        forall|t: TypeTicker| s != t.spec_name(),
{
}

/// Parsing a ticker's own canonical name gives that ticker back: canonical
/// names are unambiguous.
pub proof fn lemma_name_parse_round_trip(t: TypeTicker)
    ensures
        spec_parse_ticker(t.spec_name()) == Some(t),
{
    reveal_strlit("ARKVX");
    reveal_strlit("ARKF");
    reveal_strlit("ARKG");
    reveal_strlit("ARKK");
    reveal_strlit("ARKQ");
    reveal_strlit("ARKW");
    reveal_strlit("ARKX");
    reveal_strlit("ARKA");
    reveal_strlit("ARKZ");
    reveal_strlit("ARKC");
    reveal_strlit("ARKD");
    reveal_strlit("ARKY");
    reveal_strlit("ARKB");
    reveal_strlit("PRNT");
    reveal_strlit("IZRL");
    reveal_strlit("EUROPE_ARKI");
    reveal_strlit("EUROPE_ARKG");
    reveal_strlit("EUROPE_ARKK");
    reveal_strlit("CYBR");
    reveal_strlit("CYCL");
    reveal_strlit("FOOD");
    reveal_strlit("LIFE");
    reveal_strlit("LUSA");
    reveal_strlit("NFRA");
    reveal_strlit("PMNT");
    assert("ARKVX"@.len() == 5);
    assert("ARKVX"@[0] == 'A');
    assert("ARKVX"@[1] == 'R');
    assert("ARKVX"@[2] == 'K');
    assert("ARKVX"@[3] == 'V');
    assert("ARKVX"@[4] == 'X');
    assert("ARKF"@.len() == 4);
    assert("ARKF"@[0] == 'A');
    assert("ARKF"@[1] == 'R');
    assert("ARKF"@[2] == 'K');
    assert("ARKF"@[3] == 'F');
    assert("ARKG"@.len() == 4);
    assert("ARKG"@[0] == 'A');
    assert("ARKG"@[1] == 'R');
    assert("ARKG"@[2] == 'K');
    assert("ARKG"@[3] == 'G');
    assert("ARKK"@.len() == 4);
    assert("ARKK"@[0] == 'A');
    assert("ARKK"@[1] == 'R');
    assert("ARKK"@[2] == 'K');
    assert("ARKK"@[3] == 'K');
    assert("ARKQ"@.len() == 4);
    assert("ARKQ"@[0] == 'A');
    assert("ARKQ"@[1] == 'R');
    assert("ARKQ"@[2] == 'K');
    assert("ARKQ"@[3] == 'Q');
    assert("ARKW"@.len() == 4);
    assert("ARKW"@[0] == 'A');
    assert("ARKW"@[1] == 'R');
    assert("ARKW"@[2] == 'K');
    assert("ARKW"@[3] == 'W');
    assert("ARKX"@.len() == 4);
    assert("ARKX"@[0] == 'A');
    assert("ARKX"@[1] == 'R');
    assert("ARKX"@[2] == 'K');
    assert("ARKX"@[3] == 'X');
    assert("ARKA"@.len() == 4);
    assert("ARKA"@[0] == 'A');
    assert("ARKA"@[1] == 'R');
    assert("ARKA"@[2] == 'K');
    assert("ARKA"@[3] == 'A');
    assert("ARKZ"@.len() == 4);
    assert("ARKZ"@[0] == 'A');
    assert("ARKZ"@[1] == 'R');
    assert("ARKZ"@[2] == 'K');
    assert("ARKZ"@[3] == 'Z');
    assert("ARKC"@.len() == 4);
    assert("ARKC"@[0] == 'A');
    assert("ARKC"@[1] == 'R');
    assert("ARKC"@[2] == 'K');
    assert("ARKC"@[3] == 'C');
    assert("ARKD"@.len() == 4);
    assert("ARKD"@[0] == 'A');
    assert("ARKD"@[1] == 'R');
    assert("ARKD"@[2] == 'K');
    assert("ARKD"@[3] == 'D');
    assert("ARKY"@.len() == 4);
    assert("ARKY"@[0] == 'A');
    assert("ARKY"@[1] == 'R');
    assert("ARKY"@[2] == 'K');
    assert("ARKY"@[3] == 'Y');
    assert("ARKB"@.len() == 4);
    assert("ARKB"@[0] == 'A');
    assert("ARKB"@[1] == 'R');
    assert("ARKB"@[2] == 'K');
    assert("ARKB"@[3] == 'B');
    assert("PRNT"@.len() == 4);
    assert("PRNT"@[0] == 'P');
    assert("PRNT"@[1] == 'R');
    assert("PRNT"@[2] == 'N');
    assert("PRNT"@[3] == 'T');
    assert("IZRL"@.len() == 4);
    assert("IZRL"@[0] == 'I');
    assert("IZRL"@[1] == 'Z');
    assert("IZRL"@[2] == 'R');
    assert("IZRL"@[3] == 'L');
    assert("EUROPE_ARKI"@.len() == 11);
    assert("EUROPE_ARKI"@[0] == 'E');
    assert("EUROPE_ARKI"@[1] == 'U');
    assert("EUROPE_ARKI"@[2] == 'R');
    assert("EUROPE_ARKI"@[3] == 'O');
    assert("EUROPE_ARKI"@[4] == 'P');
    assert("EUROPE_ARKI"@[5] == 'E');
    assert("EUROPE_ARKI"@[6] == '_');
    assert("EUROPE_ARKI"@[7] == 'A');
    assert("EUROPE_ARKI"@[8] == 'R');
    assert("EUROPE_ARKI"@[9] == 'K');
    assert("EUROPE_ARKI"@[10] == 'I');
    assert("EUROPE_ARKG"@.len() == 11);
    assert("EUROPE_ARKG"@[0] == 'E');
    assert("EUROPE_ARKG"@[1] == 'U');
    assert("EUROPE_ARKG"@[2] == 'R');
    assert("EUROPE_ARKG"@[3] == 'O');
    assert("EUROPE_ARKG"@[4] == 'P');
    assert("EUROPE_ARKG"@[5] == 'E');
    assert("EUROPE_ARKG"@[6] == '_');
    assert("EUROPE_ARKG"@[7] == 'A');
    assert("EUROPE_ARKG"@[8] == 'R');
    assert("EUROPE_ARKG"@[9] == 'K');
    assert("EUROPE_ARKG"@[10] == 'G');
    assert("EUROPE_ARKK"@.len() == 11);
    assert("EUROPE_ARKK"@[0] == 'E');
    assert("EUROPE_ARKK"@[1] == 'U');
    assert("EUROPE_ARKK"@[2] == 'R');
    assert("EUROPE_ARKK"@[3] == 'O');
    assert("EUROPE_ARKK"@[4] == 'P');
    assert("EUROPE_ARKK"@[5] == 'E');
    assert("EUROPE_ARKK"@[6] == '_');
    assert("EUROPE_ARKK"@[7] == 'A');
    assert("EUROPE_ARKK"@[8] == 'R');
    assert("EUROPE_ARKK"@[9] == 'K');
    assert("EUROPE_ARKK"@[10] == 'K');
    assert("CYBR"@.len() == 4);
    assert("CYBR"@[0] == 'C');
    assert("CYBR"@[1] == 'Y');
    assert("CYBR"@[2] == 'B');
    assert("CYBR"@[3] == 'R');
    assert("CYCL"@.len() == 4);
    assert("CYCL"@[0] == 'C');
    assert("CYCL"@[1] == 'Y');
    assert("CYCL"@[2] == 'C');
    assert("CYCL"@[3] == 'L');
    assert("FOOD"@.len() == 4);
    assert("FOOD"@[0] == 'F');
    assert("FOOD"@[1] == 'O');
    assert("FOOD"@[2] == 'O');
    assert("FOOD"@[3] == 'D');
    assert("LIFE"@.len() == 4);
    assert("LIFE"@[0] == 'L');
    assert("LIFE"@[1] == 'I');
    assert("LIFE"@[2] == 'F');
    assert("LIFE"@[3] == 'E');
    assert("LUSA"@.len() == 4);
    assert("LUSA"@[0] == 'L');
    assert("LUSA"@[1] == 'U');
    assert("LUSA"@[2] == 'S');
    assert("LUSA"@[3] == 'A');
    assert("NFRA"@.len() == 4);
    assert("NFRA"@[0] == 'N');
    assert("NFRA"@[1] == 'F');
    assert("NFRA"@[2] == 'R');
    assert("NFRA"@[3] == 'A');
    assert("PMNT"@.len() == 4);
    assert("PMNT"@[0] == 'P');
    assert("PMNT"@[1] == 'M');
    assert("PMNT"@[2] == 'N');
    assert("PMNT"@[3] == 'T');
    match t {
        TypeTicker::ARKVX => assert(spec_parse_ticker(t.spec_name()) == Some(t)),
        TypeTicker::ARKF => assert(spec_parse_ticker(t.spec_name()) == Some(t)),
        TypeTicker::ARKG => assert(spec_parse_ticker(t.spec_name()) == Some(t)),
        TypeTicker::ARKK => assert(spec_parse_ticker(t.spec_name()) == Some(t)),
        TypeTicker::ARKQ => assert(spec_parse_ticker(t.spec_name()) == Some(t)),
        TypeTicker::ARKW => assert(spec_parse_ticker(t.spec_name()) == Some(t)),
        TypeTicker::ARKX => assert(spec_parse_ticker(t.spec_name()) == Some(t)),
        TypeTicker::ARKA => assert(spec_parse_ticker(t.spec_name()) == Some(t)),
        TypeTicker::ARKZ => assert(spec_parse_ticker(t.spec_name()) == Some(t)),
        TypeTicker::ARKC => assert(spec_parse_ticker(t.spec_name()) == Some(t)),
        TypeTicker::ARKD => assert(spec_parse_ticker(t.spec_name()) == Some(t)),
        TypeTicker::ARKY => assert(spec_parse_ticker(t.spec_name()) == Some(t)),
        TypeTicker::ARKB => assert(spec_parse_ticker(t.spec_name()) == Some(t)),
        TypeTicker::PRNT => assert(spec_parse_ticker(t.spec_name()) == Some(t)),
        TypeTicker::IZRL => assert(spec_parse_ticker(t.spec_name()) == Some(t)),
        TypeTicker::EUROPE_ARKI => assert(spec_parse_ticker(t.spec_name()) == Some(t)),
        TypeTicker::EUROPE_ARKG => assert(spec_parse_ticker(t.spec_name()) == Some(t)),
        TypeTicker::EUROPE_ARKK => assert(spec_parse_ticker(t.spec_name()) == Some(t)),
        TypeTicker::CYBR => assert(spec_parse_ticker(t.spec_name()) == Some(t)),
        TypeTicker::CYCL => assert(spec_parse_ticker(t.spec_name()) == Some(t)),
        TypeTicker::FOOD => assert(spec_parse_ticker(t.spec_name()) == Some(t)),
        TypeTicker::LIFE => assert(spec_parse_ticker(t.spec_name()) == Some(t)),
        TypeTicker::LUSA => assert(spec_parse_ticker(t.spec_name()) == Some(t)),
        TypeTicker::NFRA => assert(spec_parse_ticker(t.spec_name()) == Some(t)),
        TypeTicker::PMNT => assert(spec_parse_ticker(t.spec_name()) == Some(t)),
    }
}

} // verus!
