//! Validated text of the canonical model: normalized strings and URIs.
use vstd::prelude::*;

verus! {

/// Why a piece of text was refused by a constructor of the canonical model.
#[derive(Debug, Clone, Copy, PartialEq, Eq, Structural)]
pub enum ValidationError {
    /// A required field was given the empty string.
    EmptyRequiredField,
    /// The text holds a control character, or begins or ends with a space.
    InvalidCharacter,
    /// The text is no URI: it is empty, or holds a space or a control character.
    InvalidUri,
}

/// A control character: U+0000 to U+001F and U+007F to U+009F.
pub open spec fn is_control(c: char) -> bool {
    (c as u32) < 0x20 || (0x7f <= (c as u32) && (c as u32) <= 0x9f)
}

/// No character of `s` is a control character.
pub open spec fn no_control(s: Seq<char>) -> bool {
    forall|i: int| 0 <= i < s.len() ==> !is_control(#[trigger] s[i])
}

/// `s` neither begins nor ends with a space.
pub open spec fn is_trimmed(s: Seq<char>) -> bool {
    s.len() > 0 ==> s[0] != ' ' && s[s.len() - 1] != ' '
}

/// What a normalized string may hold: no control character, no space at
/// either end.
pub open spec fn is_normalized(s: Seq<char>) -> bool {
    no_control(s) && is_trimmed(s)
}

/// What a URI may hold: at least one character, none of them a space or a
/// control character.
pub open spec fn is_uri(s: Seq<char>) -> bool {
    s.len() > 0 && forall|i: int| 0 <= i < s.len() ==> !is_control(#[trigger] s[i]) && s[i] != ' '
}

fn char_is_control(c: char) -> (r: bool)
    ensures
        r == is_control(c),
{
    let code: u32 = c as u32;
    code < 0x20 || (0x7f <= code && code <= 0x9f)
}

/// Whether `value` meets `is_normalized`.
pub fn check_normalized(value: &str) -> (r: bool)
    ensures
        r == is_normalized(value@),
{
    let mut clean = true;
    let mut seen = false;
    let mut first_is_space = false;
    let mut last_is_space = false;
    for c in it: value.chars()
        invariant
            it.seq() == value@,
            seen == (it.index() > 0),
            !seen ==> !first_is_space && !last_is_space,
            clean == no_control(value@.take(it.index() as int)),
            it.index() > 0 ==> first_is_space == (value@[0] == ' ') && last_is_space == (value@[
                it.index() - 1
            ] == ' '),
    {
        proof {
            let done = value@.take(it.index() as int);
            let next = value@.take(it.index() + 1);
            assert(forall|j: int| 0 <= j < done.len() ==> done[j] == next[j]);
            assert(next[it.index() as int] == c);
            if no_control(next) {
                assert forall|j: int| 0 <= j < done.len() implies !is_control(#[trigger] done[j]) by {
                    assert(!is_control(next[j]));
                }
            }
        }
        if char_is_control(c) {
            clean = false;
        }
        last_is_space = c == ' ';
        if !seen {
            first_is_space = last_is_space;
            seen = true;
        }
    }
    assert(value@.take(value@.len() as int) =~= value@);
    clean && !first_is_space && !last_is_space
}

/// Whether `value` meets `is_uri`.
pub fn check_uri(value: &str) -> (r: bool)
    ensures
        r == is_uri(value@),
{
    let mut clean = true;
    let mut any = false;
    for c in it: value.chars()
        invariant
            it.seq() == value@,
            any == (it.index() > 0),
            clean == (forall|j: int|
                0 <= j < it.index() ==> !is_control(#[trigger] value@[j]) && value@[j] != ' '),
    {
        if char_is_control(c) || c == ' ' {
            clean = false;
        }
        any = true;
    }
    clean && any
}

/// Text without control characters and without a space at either end.
#[derive(Debug, Clone, PartialEq, Eq)]
pub struct NormalizedString(pub String);

impl View for NormalizedString {
    type V = Seq<char>;

    open spec fn view(&self) -> Seq<char> {
        self.0@
    }
}

impl NormalizedString {
    /// The text is what a normalized string may hold. The checking
    /// constructors establish this; `new_unchecked` takes its caller's word.
    pub open spec fn is_valid(&self) -> bool {
        is_normalized(self@)
    }

    /// Takes `value` if it is normalized.
    pub fn new(value: &str) -> (r: Result<NormalizedString, ValidationError>)
        ensures
            is_normalized(value@) ==> (r matches Ok(s) && s@ == value@ && s.is_valid()),
            !is_normalized(value@) ==> r == Err::<NormalizedString, _>(
                ValidationError::InvalidCharacter,
            ),
    {
        if check_normalized(value) {
            Ok(NormalizedString(String::from_str(value)))
        } else {
            Err(ValidationError::InvalidCharacter)
        }
    }

    /// Takes `value` for a required field: it must be normalized and hold at
    /// least one character.
    pub fn new_required(value: &str) -> (r: Result<NormalizedString, ValidationError>)
        ensures
            value@.len() == 0 ==> r == Err::<NormalizedString, _>(
                ValidationError::EmptyRequiredField,
            ),
            value@.len() > 0 && !is_normalized(value@) ==> r == Err::<NormalizedString, _>(
                ValidationError::InvalidCharacter,
            ),
            value@.len() > 0 && is_normalized(value@) ==> (r matches Ok(s) && s@ == value@
                && s.is_valid()),
    {
        if value.unicode_len() == 0 {
            Err(ValidationError::EmptyRequiredField)
        } else {
            NormalizedString::new(value)
        }
    }

    /// Takes `value` as it is, for text that was validated before.
    pub fn new_unchecked(value: String) -> (s: NormalizedString)
        ensures
            s@ == value@,
            s.0 == value,
    {
        NormalizedString(value)
    }

    /// The text.
    pub fn as_str(&self) -> (s: &str)
        ensures
            s@ == self@,
    {
        self.0.as_str()
    }
}

/// A URI, kept as the text it was given as.
#[derive(Debug, Clone, PartialEq, Eq)]
pub struct Uri(pub String);

impl View for Uri {
    type V = Seq<char>;

    open spec fn view(&self) -> Seq<char> {
        self.0@
    }
}

impl Uri {
    /// The text is what a URI may hold. `new` establishes this.
    pub open spec fn is_valid(&self) -> bool {
        is_uri(self@)
    }

    /// Takes `value` if it is a URI.
    pub fn new(value: &str) -> (r: Result<Uri, ValidationError>)
        ensures
            is_uri(value@) ==> (r matches Ok(u) && u@ == value@ && u.is_valid()),
            !is_uri(value@) ==> r == Err::<Uri, _>(ValidationError::InvalidUri),
    {
        if check_uri(value) {
            Ok(Uri(String::from_str(value)))
        } else {
            Err(ValidationError::InvalidUri)
        }
    }

    /// The text.
    pub fn as_str(&self) -> (s: &str)
        ensures
            s@ == self@,
    {
        self.0.as_str()
    }
}

} // verus!
