use unicode_segmentation::UnicodeSegmentation;
use vstd::prelude::*;
use vstd::string::StringExecFns;

verus! {

/// The characters that no name may hold.
pub const FORBIDDEN_CHARS: [char; 9] = ['/', '(', ')', '"', '<', '>', '\\', '{', '}'];

/// The greatest number of graphemes a name may have.
pub const MAX_NAME_GRAPHEMES: usize = 256;

/// What is told about a blank name.
pub const NAME_IS_EMPTY: &'static str = "Invalid name: name is empty";

/// What is told about a name with a forbidden character.
pub const NAME_HAS_FORBIDDEN_CHARACTER: &'static str =
    "Invalid name: name contains forbidden character";

/// What is told about a name that is too long.
pub const NAME_IS_TOO_LONG: &'static str = "Invalid name: name is too long";

/// Why a string was refused as a name.
#[derive(Debug, Clone, Copy, PartialEq, Eq, Structural)]
pub enum NameValidationError {
    TooLong,
    Empty,
    ForbiddenCharacter,
}

impl NameValidationError {
    /// The text shown for this refusal.
    pub open spec fn spec_message(self) -> Seq<char> {
        match self {
            NameValidationError::Empty => NAME_IS_EMPTY@,
            NameValidationError::ForbiddenCharacter => NAME_HAS_FORBIDDEN_CHARACTER@,
            NameValidationError::TooLong => NAME_IS_TOO_LONG@,
        }
    }

    /// The text shown for this refusal.
    pub fn to_string(&self) -> (text: String)
        ensures
            text@ == self.spec_message(),
    {
        match self {
            NameValidationError::Empty => String::from_str(NAME_IS_EMPTY),
            NameValidationError::ForbiddenCharacter => String::from_str(
                NAME_HAS_FORBIDDEN_CHARACTER,
            ),
            NameValidationError::TooLong => String::from_str(NAME_IS_TOO_LONG),
        }
    }
}

/// Whether `c` has the Unicode property `White_Space`: the controls from
/// tab to carriage return, the space, next line, the no-break spaces, the
/// ogham space mark, the spaces of fixed width, the line and paragraph
/// separators, the medium mathematical space and the ideographic space.
pub open spec fn is_whitespace(c: char) -> bool {
    ||| '\u{9}' <= c <= '\u{d}'
    ||| c == ' '
    ||| c == '\u{85}'
    ||| c == '\u{a0}'
    ||| c == '\u{1680}'
    ||| '\u{2000}' <= c <= '\u{200a}'
    ||| c == '\u{2028}'
    ||| c == '\u{2029}'
    ||| c == '\u{202f}'
    ||| c == '\u{205f}'
    ||| c == '\u{3000}'
}

/// The number of grapheme clusters of `s`, as
/// [`UnicodeSegmentation::graphemes`] cuts them: extended clusters where
/// `is_extended` holds, legacy clusters where it does not.
pub uninterp spec fn grapheme_count(s: Seq<char>, is_extended: bool) -> nat;

/// Calls [`char::is_whitespace`], which tells whether a character has the
/// Unicode property `White_Space`.
#[verifier::external_body]
fn char_is_whitespace(c: char) -> (b: bool)
    ensures
        b == is_whitespace(c),
{
    c.is_whitespace()
}

/// Calls [`UnicodeSegmentation::graphemes`] and counts what it yields.
#[verifier::external_body]
fn count_graphemes(s: &str, is_extended: bool) -> (n: usize)
    ensures
        n == grapheme_count(s@, is_extended),
{
    s.graphemes(is_extended).count()
}

/// Whether `c` is one of [`FORBIDDEN_CHARS`].
pub open spec fn is_forbidden(c: char) -> bool {
    ||| c == '/'
    ||| c == '('
    ||| c == ')'
    ||| c == '"'
    ||| c == '<'
    ||| c == '>'
    ||| c == '\\'
    ||| c == '{'
    ||| c == '}'
}

/// Whether `s` holds nothing but white space. The empty string does.
pub open spec fn is_blank(s: Seq<char>) -> bool {
    forall|i: int| 0 <= i < s.len() ==> is_whitespace(#[trigger] s[i])
}

/// Whether `s` holds a forbidden character.
pub open spec fn has_forbidden_char(s: Seq<char>) -> bool {
    exists|i: int| 0 <= i < s.len() && is_forbidden(#[trigger] s[i])
}

/// What is answered when `s` is checked as a name. Blank is looked for
/// first, then the length in extended grapheme clusters, then forbidden
/// characters.
pub open spec fn name_check(s: Seq<char>) -> Result<(), NameValidationError> {
    name_verdict_of(is_blank(s), grapheme_count(s, true), has_forbidden_char(s))
}

/// What is answered to a name, once it is known whether it is blank, how
/// many extended grapheme clusters it has, and whether it holds a forbidden
/// character: blank comes first, then the length, then the characters.
pub open spec fn name_verdict_of(blank: bool, graphemes: nat, forbidden: bool) -> Result<
    (),
    NameValidationError,
> {
    if blank {
        Err(NameValidationError::Empty)
    } else if graphemes > MAX_NAME_GRAPHEMES {
        Err(NameValidationError::TooLong)
    } else if forbidden {
        Err(NameValidationError::ForbiddenCharacter)
    } else {
        Ok(())
    }
}

/// Decides what is answered to a name, once it is known whether it is
/// blank, how many extended grapheme clusters it has, and whether it holds
/// a forbidden character.
pub fn name_verdict(blank: bool, graphemes: usize, forbidden: bool) -> (res: Result<
    (),
    NameValidationError,
>)
    ensures
        res == name_verdict_of(blank, graphemes as nat, forbidden),
{
    if blank {
        Err(NameValidationError::Empty)
    } else if graphemes > MAX_NAME_GRAPHEMES {
        Err(NameValidationError::TooLong)
    } else if forbidden {
        Err(NameValidationError::ForbiddenCharacter)
    } else {
        Ok(())
    }
}

/// Whether `c` is one of [`FORBIDDEN_CHARS`].
pub fn char_is_forbidden(c: char) -> (b: bool)
    ensures
        b == is_forbidden(c),
{
    c == '/' || c == '(' || c == ')' || c == '"' || c == '<' || c == '>' || c == '\\' || c == '{'
        || c == '}'
}

/// Whether `s` holds nothing but white space.
pub fn str_is_blank(s: &str) -> (b: bool)
    ensures
        b == is_blank(s@),
{
    let mut chars = s.chars();
    for c in it: chars
        invariant
            it.seq() == s@,
            forall|j: int| 0 <= j < it.index() ==> is_whitespace(#[trigger] s@[j]),
    {
        if !char_is_whitespace(c) {
            return false;
        }
    }
    true
}

/// Whether `s` holds a forbidden character.
pub fn str_has_forbidden_char(s: &str) -> (b: bool)
    ensures
        b == has_forbidden_char(s@),
{
    let mut chars = s.chars();
    for c in it: chars
        invariant
            it.seq() == s@,
            forall|j: int| 0 <= j < it.index() ==> !is_forbidden(#[trigger] s@[j]),
    {
        if char_is_forbidden(c) {
            return true;
        }
    }
    false
}

/// A name that has passed validation.
#[derive(Debug)]
pub struct SubscriberName(String);

impl View for SubscriberName {
    type V = Seq<char>;

    closed spec fn view(&self) -> Seq<char> {
        self.0@
    }
}

impl SubscriberName {
    #[verifier::type_invariant]
    spec fn inv(self) -> bool {
        name_check(self.0@) is Ok
    }

    /// Accepts `s` as a name unless it is blank, has more than 256
    /// graphemes, or holds a forbidden character; the first of these that
    /// holds is the refusal.
    pub fn parse(s: String) -> (res: Result<SubscriberName, NameValidationError>)
        ensures
            res is Ok <==> name_check(s@) is Ok,
            res matches Ok(name) ==> name@ == s@,
            res matches Err(e) ==> name_check(s@) == Err::<(), NameValidationError>(e),
    {
        let blank = str_is_blank(s.as_str());
        let graphemes: usize = count_graphemes(s.as_str(), true);
        let forbidden = str_has_forbidden_char(s.as_str());
        match name_verdict(blank, graphemes, forbidden) {
            Ok(_) => Ok(SubscriberName(s)),
            Err(e) => Err(e),
        }
    }

    /// The same as [`SubscriberName::parse`].
    pub fn try_from(value: String) -> (res: Result<SubscriberName, NameValidationError>)
        ensures
            res is Ok <==> name_check(value@) is Ok,
            res matches Ok(name) ==> name@ == value@,
            res matches Err(e) ==> name_check(value@) == Err::<(), NameValidationError>(e),
    {
        SubscriberName::parse(value)
    }

    /// Gives the name's text back.
    pub fn inner(self) -> (s: String)
        ensures
            s@ == self@,
            name_check(s@) is Ok,
    {
        proof {
            use_type_invariant(&self);
        }
        self.0
    }

    /// The name as text.
    pub fn as_ref(&self) -> (s: &str)
        ensures
            s@ == self@,
            name_check(s@) is Ok,
    {
        proof {
            use_type_invariant(self);
        }
        self.0.as_str()
    }

    /// The name as a string of its own.
    pub fn to_string(&self) -> (s: String)
        ensures
            s@ == self@,
    {
        self.0.clone()
    }
}

} // verus!
