//! Subscriber names: non-blank, at most 256 grapheme clusters, and free of
//! characters that would be dangerous in markup or paths.
use unicode_segmentation::UnicodeSegmentation;
use vstd::prelude::*;
use vstd::string::*;

verus! {

/// The number of extended grapheme clusters of a string, as
/// `UnicodeSegmentation::graphemes(s, true).count()` computes it.
pub uninterp spec fn grapheme_count(s: Seq<char>) -> nat;

/// The longest name accepted, in grapheme clusters.
pub const MAX_NAME_GRAPHEMES: usize = 256;

/// Whether a character has the Unicode `White_Space` property.
pub open spec fn is_whitespace(c: char) -> bool {
    let n = c as u32;
    ||| 0x09 <= n <= 0x0D
    ||| n == 0x20
    ||| n == 0x85
    ||| n == 0xA0
    ||| n == 0x1680
    ||| 0x2000 <= n <= 0x200A
    ||| n == 0x2028
    ||| n == 0x2029
    ||| n == 0x202F
    ||| n == 0x205F
    ||| n == 0x3000
}

/// Whether a character may not occur in a name.
pub open spec fn is_forbidden(c: char) -> bool {
    ||| c == '/'
    ||| c == '('
    ||| c == ')'
    ||| c == '"'
    ||| c == '<'
    ||| c == '>'
    ||| c == '\\'
    ||| c == '{'
    ||| c == '}'
}

/// A string with nothing in it but white space (the empty one included).
pub open spec fn is_blank(s: Seq<char>) -> bool {
    forall|i: int| 0 <= i < s.len() ==> is_whitespace(#[trigger] s[i])
}

/// A string that holds at least one forbidden character.
pub open spec fn has_forbidden(s: Seq<char>) -> bool {
    exists|i: int| 0 <= i < s.len() && is_forbidden(#[trigger] s[i])
}

/// Why a name is refused, if it is, given what is known of it; the checks
/// apply in this order.
pub open spec fn rejection_of(blank: bool, graphemes: nat, forbidden: bool) -> Option<NameError> {
    if blank {
        Some(NameError::Blank)
    } else if graphemes > MAX_NAME_GRAPHEMES {
        Some(NameError::TooLong)
    } else if forbidden {
        Some(NameError::ForbiddenCharacter)
    } else {
        None
    }
}

/// Why a name is refused, if it is.
pub open spec fn name_rejection(s: Seq<char>) -> Option<NameError> {
    rejection_of(is_blank(s), grapheme_count(s), has_forbidden(s))
}

/// The three ways in which a name can be invalid.
#[derive(Clone, Copy, Debug, PartialEq, Eq, Structural)]
pub enum NameError {
    Blank,
    TooLong,
    ForbiddenCharacter,
}

impl NameError {
    /// The message reported for this error.
    pub open spec fn message(self) -> Seq<char> {
        match self {
            NameError::Blank => "subscriber name is either empty or just whitespaces"@,
            NameError::TooLong => "subscriber name is too long"@,
            NameError::ForbiddenCharacter => "subscriber name contains invalid characters"@,
        }
    }

    /// The message reported for this error.
    pub fn to_message(&self) -> (s: String)
        ensures
            s@ == self.message(),
    {
        match self {
            NameError::Blank => "subscriber name is either empty or just whitespaces".to_string(),
            NameError::TooLong => "subscriber name is too long".to_string(),
            NameError::ForbiddenCharacter => {
                "subscriber name contains invalid characters".to_string()
            },
        }
    }
}

/// Decides `rejection_of`: the first check that fails, in the order blank,
/// too long, forbidden character.
pub fn classify_name(blank: bool, graphemes: usize, forbidden: bool) -> (r: Option<NameError>)
    ensures
        r == rejection_of(blank, graphemes as nat, forbidden),
{
    if blank {
        Some(NameError::Blank)
    } else if graphemes > MAX_NAME_GRAPHEMES {
        Some(NameError::TooLong)
    } else if forbidden {
        Some(NameError::ForbiddenCharacter)
    } else {
        None
    }
}

/// A subscriber's name that passed validation.
#[derive(Debug)]
pub struct SubscriberName(String);

impl View for SubscriberName {
    type V = Seq<char>;

    closed spec fn view(&self) -> Seq<char> {
        self.0@
    }
}

/// Counts grapheme clusters with `UnicodeSegmentation::graphemes(s, true)`:
/// the count is the named function of the string's characters.
#[verifier::external_body]
fn count_graphemes(s: &str) -> (n: usize)
    ensures
        n as nat == grapheme_count(s@),
{
    s.graphemes(true).count()
}

/// Decides `is_whitespace` for one character.
pub fn char_is_whitespace(c: char) -> (b: bool)
    ensures
        b == is_whitespace(c),
{
    let n: u32 = c as u32;
    (0x09 <= n && n <= 0x0D) || n == 0x20 || n == 0x85 || n == 0xA0 || n == 0x1680 || (0x2000 <= n
        && n <= 0x200A) || n == 0x2028 || n == 0x2029 || n == 0x202F || n == 0x205F || n == 0x3000
}

/// Decides `is_forbidden` for one character.
pub fn char_is_forbidden(c: char) -> (b: bool)
    ensures
        b == is_forbidden(c),
{
    c == '/' || c == '(' || c == ')' || c == '"' || c == '<' || c == '>' || c == '\\' || c == '{'
        || c == '}'
}

/// Decides `is_blank`.
pub fn str_is_blank(s: &str) -> (b: bool)
    ensures
        b == is_blank(s@),
{
    let n: usize = s.unicode_len();
    let mut i: usize = 0;
    while i < n
        invariant
            n == s@.len(),
            i <= n,
            forall|j: int| 0 <= j < i ==> is_whitespace(#[trigger] s@[j]),
        decreases n - i,
    {
        if !char_is_whitespace(s.get_char(i)) {
            return false;
        }
        i += 1;
    }
    true
}

/// Decides `has_forbidden`.
pub fn str_has_forbidden(s: &str) -> (b: bool)
    ensures
        b == has_forbidden(s@),
{
    let n: usize = s.unicode_len();
    let mut i: usize = 0;
    while i < n
        invariant
            n == s@.len(),
            i <= n,
            forall|j: int| 0 <= j < i ==> !is_forbidden(#[trigger] s@[j]),
        decreases n - i,
    {
        if char_is_forbidden(s.get_char(i)) {
            return true;
        }
        i += 1;
    }
    false
}

impl SubscriberName {
    /// Every value of this type holds a name that passes validation.
    #[verifier::type_invariant]
    pub closed spec fn valid(&self) -> bool {
        name_rejection(self.0@) is None
    }

    /// Validates a name. It is accepted exactly when `name_rejection` finds
    /// nothing; otherwise the message of the first failing check comes back.
    pub fn parse(s: &str) -> (r: Result<SubscriberName, String>)
        ensures
            match name_rejection(s@) {
                None => r is Ok && r.unwrap()@ == s@,
                Some(e) => r is Err && r.unwrap_err()@ == e.message(),
            },
    {
        let blank = str_is_blank(s);
        let graphemes: usize = if blank { 0 } else { count_graphemes(s) };
        let forbidden = !blank && graphemes <= MAX_NAME_GRAPHEMES && str_has_forbidden(s);
        match classify_name(blank, graphemes, forbidden) {
            Some(e) => Err(e.to_message()),
            None => Ok(SubscriberName(s.to_string())),
        }
    }

    /// The name as it was given; it is one that passes validation.
    pub fn as_ref(&self) -> (s: &str)
        ensures
            s@ == self@,
            name_rejection(s@) is None,
    {
        proof {
            use_type_invariant(self);
        }
        self.0.as_str()
    }
}

} // verus!
