//! The two scales of the token, and their names: under a ticker, where
//! people read them, and in a record, where programs do.

use vstd::prelude::*;
use vstd::string::*;
use crate::error::{outcome, CoinError, Fault};

verus! {

/// The two scales an amount is counted in.
#[derive(Clone, Copy, Debug, PartialEq, Eq, Structural)]
pub enum Denom {
    Major,
    Minor,
}

impl View for Denom {
    type V = Denom;

    open spec fn view(&self) -> Denom {
        *self
    }
}

/// How many minor units make one major unit.
pub const MINOR_IN_MAJOR: u64 = 1_000_000;

/// The word that names the minor scale whatever the ticker is.
pub open spec fn minor_word() -> Seq<char> {
    seq!['m', 'i', 'n', 'o', 'r']
}

/// The word that names the major scale whatever the ticker is.
pub open spec fn major_word() -> Seq<char> {
    seq!['m', 'a', 'j', 'o', 'r']
}

/// The ticker of the major scale: the configured ticker without its first
/// character.
pub open spec fn major_ticker(ticker: Seq<char>) -> Seq<char> {
    if ticker.len() > 0 {
        ticker.skip(1)
    } else {
        ticker
    }
}

/// The lowercase equivalent of a text, as `str::to_lowercase` gives it.
pub uninterp spec fn lowercase(s: Seq<char>) -> Seq<char>;

/// Calls `str::to_lowercase` of the standard library. Its result is a
/// function of the text alone; nothing else is claimed of it.
#[verifier::external_body]
fn lowered(s: &str) -> (r: String)
    ensures
        r@ == lowercase(s@),
{
    s.to_lowercase()
}

/// Whether two texts hold the same characters.
fn same_text(a: &str, b: &str) -> (r: bool)
    ensures
        r == (a@ == b@),
{
    a.to_owned() == b.to_owned()
}

impl Denom {
    /// How many digits a magnitude of this scale may have behind its point.
    pub open spec fn places_spec(self) -> nat {
        match self {
            Denom::Major => 6,
            Denom::Minor => 0,
        }
    }

    /// How many digits a magnitude of this scale may have behind its point.
    pub fn places(&self) -> (n: usize)
        ensures
            n == self.places_spec(),
    {
        match self {
            Denom::Major => 6,
            Denom::Minor => 0,
        }
    }

    /// The name of this scale in a record: the name of the variant, whatever
    /// the ticker is.
    pub open spec fn tag_spec(self) -> Seq<char> {
        match self {
            Denom::Major => seq!['M', 'a', 'j', 'o', 'r'],
            Denom::Minor => seq!['M', 'i', 'n', 'o', 'r'],
        }
    }

    /// The scale that a record names: the one whose tag `s` is, letter for
    /// letter, or the fault that carries `s`.
    pub open spec fn from_tag_spec(s: Seq<char>) -> Result<Denom, Fault> {
        if s == Denom::Major.tag_spec() {
            Ok(Denom::Major)
        } else if s == Denom::Minor.tag_spec() {
            Ok(Denom::Minor)
        } else {
            Err(Fault::InvalidDenomination(s))
        }
    }

    /// The name of this scale under `ticker`.
    pub open spec fn format_spec(self, ticker: Seq<char>) -> Seq<char> {
        match self {
            Denom::Major => major_ticker(ticker),
            Denom::Minor => ticker,
        }
    }

    /// The scale that a text names, given that text in lowercase and the
    /// lowercase names of both scales. The minor scale is tried first.
    pub open spec fn classify_spec(text: Seq<char>, minor: Seq<char>, major: Seq<char>) -> Option<
        Denom,
    > {
        if text == minor || text == minor_word() {
            Some(Denom::Minor)
        } else if text == major || text == major_word() {
            Some(Denom::Major)
        } else {
            None
        }
    }

    /// The scale that `s` names under `ticker`, whatever the case of its
    /// letters, or the fault that carries `s`.
    pub open spec fn parse_spec(s: Seq<char>, ticker: Seq<char>) -> Result<Denom, Fault> {
        match Self::classify_spec(lowercase(s), lowercase(ticker), lowercase(major_ticker(ticker))) {
            Some(denom) => Ok(denom),
            None => Err(Fault::InvalidDenomination(s)),
        }
    }

    /// The name of this scale in a record. It is not the name that `format`
    /// writes: a record does not depend on the ticker.
    pub fn tag(&self) -> (s: &'static str)
        ensures
            s@ == self.tag_spec(),
    {
        proof {
            reveal_strlit("Major");
            reveal_strlit("Minor");
        }
        let s = match self {
            Denom::Major => "Major",
            Denom::Minor => "Minor",
        };
        assert(s@ =~= self.tag_spec());
        s
    }

    /// Reads the name of a scale in a record, letter for letter.
    pub fn from_tag(s: &str) -> (r: Result<Denom, CoinError>)
        ensures
            outcome(r) == Self::from_tag_spec(s@),
    {
        if same_text(s, Denom::Major.tag()) {
            Ok(Denom::Major)
        } else if same_text(s, Denom::Minor.tag()) {
            Ok(Denom::Minor)
        } else {
            Err(CoinError::InvalidDenomination(s.to_owned()))
        }
    }

    /// Writes the name of this scale: the ticker for the minor scale, the
    /// ticker without its first character for the major one.
    pub fn format(&self, ticker: &str) -> (s: String)
        ensures
            s@ == self.format_spec(ticker@),
    {
        match self {
            Denom::Minor => ticker.to_owned(),
            Denom::Major => {
                let n = ticker.unicode_len();
                if n > 0 {
                    ticker.substring_char(1, n).to_owned()
                } else {
                    ticker.to_owned()
                }
            },
        }
    }

    /// Tells which scale a lowercase text names, given the lowercase names of
    /// both scales.
    pub fn classify(text: &str, minor: &str, major: &str) -> (r: Option<Denom>)
        ensures
            r == Self::classify_spec(text@, minor@, major@),
    {
        proof {
            reveal_strlit("minor");
            reveal_strlit("major");
            assert("minor"@ =~= minor_word());
            assert("major"@ =~= major_word());
        }
        if same_text(text, minor) || same_text(text, "minor") {
            Some(Denom::Minor)
        } else if same_text(text, major) || same_text(text, "major") {
            Some(Denom::Major)
        } else {
            None
        }
    }

    /// Whether both scales read back from their names under `ticker`. The
    /// minor scale always does. The major one does unless its name, in
    /// lowercase, is the lowercase ticker or the word "minor", which name
    /// the minor scale.
    pub open spec fn reads_back_spec(ticker: Seq<char>) -> bool {
        &&& Self::parse_spec(Denom::Minor.format_spec(ticker), ticker) == Ok::<Denom, Fault>(
            Denom::Minor,
        )
        &&& Self::parse_spec(Denom::Major.format_spec(ticker), ticker) == Ok::<Denom, Fault>(
            Denom::Major,
        )
    }

    /// Tells whether both scales read back from their names under `ticker`:
    /// whether `parse` undoes `format` there.
    pub fn reads_back(ticker: &str) -> (r: bool)
        ensures
            r == Self::reads_back_spec(ticker@),
    {
        let name = Denom::Major.format(ticker);
        match Self::parse(name.as_str(), ticker) {
            Ok(denom) => denom == Denom::Major,
            Err(_) => false,
        }
    }

    /// Reads the name of a scale under `ticker`, whatever the case of its
    /// letters: the ticker or "minor" for the minor scale, the ticker without
    /// its first character or "major" for the major one.
    pub fn parse(s: &str, ticker: &str) -> (r: Result<Denom, CoinError>)
        ensures
            outcome(r) == Self::parse_spec(s@, ticker@),
    {
        let text = lowered(s);
        let minor = lowered(ticker);
        let major = lowered(Denom::Major.format(ticker).as_str());
        match Self::classify(text.as_str(), minor.as_str(), major.as_str()) {
            Some(denom) => Ok(denom),
            None => Err(CoinError::InvalidDenomination(s.to_owned())),
        }
    }
}

} // verus!
