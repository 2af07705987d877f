//! Value objects: types whose construction enforces validity, so that no
//! invalid instance can exist.

use vstd::prelude::*;

use crate::text::{
    dec_str, lemma_lower_idempotent_char, lemma_lower_space, lemma_trim_of_trimmed,
    lemma_trim_props, lower_char, lower_seq, lower_trim, trim_spec, usize_to_string,
};

verus! {

/// How email input is normalized before validation and storage: surrounding
/// whitespace removed, then ASCII-lowercased. Normalization works on the
/// ASCII repertoire by design (see `text`): a character outside it passes
/// through unchanged.
pub open spec fn normalize_email(s: Seq<char>) -> Seq<char> {
    lower_seq(trim_spec(s))
}

/// `i` is the position of the only `@`, both sides around it are non-empty,
/// and the domain side holds at least one `.`.
pub open spec fn email_sep_at(s: Seq<char>, i: int) -> bool {
    &&& 0 < i < s.len() - 1
    &&& s[i] == '@'
    &&& forall|j: int| 0 <= j < s.len() && j != i ==> s[j] != '@'
    &&& exists|k: int| i < k < s.len() && s[k] == '.'
}

/// A well-formed email: exactly one `@` with non-empty parts on both sides,
/// and a `.` somewhere in the domain part.
pub open spec fn valid_email(s: Seq<char>) -> bool {
    exists|i: int| email_sep_at(s, i)
}

/// Normalization is idempotent: normalizing an already-normalized email
/// changes nothing, so a stored email can be passed back in as it is.
pub proof fn lemma_normalize_email_idempotent(s: Seq<char>)
    ensures
        normalize_email(normalize_email(s)) == normalize_email(s),
{
    let t = trim_spec(s);
    let l = lower_seq(t);
    lemma_trim_props(s);
    if l.len() > 0 {
        lemma_lower_space(t[0]);
        lemma_lower_space(t.last());
        assert(l.last() == lower_char(t.last()));
    }
    lemma_trim_of_trimmed(l);
    assert forall|j: int| 0 <= j < l.len() implies lower_seq(l)[j] == l[j] by {
        lemma_lower_idempotent_char(t[j]);
    }
    assert(lower_seq(l) =~= l);
}

/// Minimum password length, in characters of the supplied text.
pub const MIN_PASSWORD_LENGTH: usize = 6;

/// Errors raised when a value object rejects its input.
#[derive(Debug, Clone)]
pub enum ValidationError {
    /// The input was not a well-formed email address; carries the raw input.
    InvalidEmail(String),
    /// The password was shorter than the minimum; carries the bound and the
    /// actual length.
    PasswordTooShort { min: usize, actual: usize },
}

impl ValidationError {
    /// The message each variant renders to.
    pub open spec fn message_spec(&self) -> Seq<char> {
        match self {
            ValidationError::InvalidEmail(s) => "Invalid email format: "@ + s@,
            ValidationError::PasswordTooShort { min, actual } => "Password must be at least "@
                + dec_str(*min as nat) + " characters, got "@ + dec_str(*actual as nat),
        }
    }

    /// Renders the error as text.
    pub fn message(&self) -> (r: String)
        ensures
            r@ == self.message_spec(),
    {
        match self {
            ValidationError::InvalidEmail(s) => {
                let mut r = String::from_str("Invalid email format: ");
                r.append(s.as_str());
                r
            },
            ValidationError::PasswordTooShort { min, actual } => {
                let mut r = String::from_str("Password must be at least ");
                let m = usize_to_string(*min);
                r.append(m.as_str());
                r.append(" characters, got ");
                let a = usize_to_string(*actual);
                r.append(a.as_str());
                r
            },
        }
    }
}

/// A validated email address, held in normalized (trimmed, lower-cased)
/// form. Construction is the only way to obtain one, so every value is
/// well-formed.
#[derive(Debug)]
pub struct Email {
    text: String,
}

impl View for Email {
    type V = Seq<char>;

    closed spec fn view(&self) -> Seq<char> {
        self.text@
    }
}

impl Clone for Email {
    fn clone(&self) -> (r: Self)
        ensures
            r@ == self@,
    {
        Email { text: self.text.clone() }
    }
}

impl Email {
    /// Every constructed email satisfies the format rule and is held in
    /// normalized form: normalizing it again changes nothing.
    pub open spec fn wf(&self) -> bool {
        valid_email(self@) && normalize_email(self@) == self@
    }

    /// Normalizes the input, then accepts it exactly when the normalized form
    /// is a well-formed email; the error carries the raw input.
    pub fn new(value: &str) -> (r: Result<Self, ValidationError>)
        ensures
            r is Ok <==> valid_email(normalize_email(value@)),
            r matches Ok(e) ==> e@ == normalize_email(value@) && e.wf(),
            r matches Err(er) ==> er matches ValidationError::InvalidEmail(raw) && raw@ == value@,
    {
        let norm = lower_trim(value);
        let s = norm.as_str();
        let n = s.unicode_len();
        let mut at_pos: usize = 0;
        let mut at_count: usize = 0;
        let ghost mut second_at: int = 0;
        let mut i: usize = 0;
        while i < n
            invariant
                0 <= i <= n,
                n == s@.len(),
                at_count <= i,
                at_count == 0 ==> forall|j: int| 0 <= j < i ==> s@[j] != '@',
                at_count >= 1 ==> at_pos < i && s@[at_pos as int] == '@',
                at_count == 1 ==> forall|j: int| 0 <= j < i && j != at_pos ==> s@[j] != '@',
                at_count >= 2 ==> at_pos < second_at < i && s@[second_at] == '@',
            decreases n - i,
        {
            if s.get_char(i) == '@' {
                if at_count == 0 {
                    at_pos = i;
                } else if at_count == 1 {
                    proof {
                        second_at = i as int;
                    }
                }
                at_count = at_count + 1;
            }
            i = i + 1;
        }
        if at_count != 1 || at_pos == 0 || at_pos + 1 == n {
            proof {
                if valid_email(s@) {
                    let i0 = choose|i0: int| email_sep_at(s@, i0);
                    assert(s@[i0] == '@');
                    if at_count == 1 {
                        assert(i0 == at_pos);
                    }
                }
            }
            return Err(ValidationError::InvalidEmail(String::from_str(value)));
        }
        let mut k: usize = at_pos + 1;
        let mut has_dot = false;
        while k < n && !has_dot
            invariant
                at_pos < k <= n,
                n == s@.len(),
                has_dot ==> k < n && s@[k as int] == '.',
                !has_dot ==> forall|j: int| at_pos < j < k ==> s@[j] != '.',
            decreases n - k + (if has_dot {
                0int
            } else {
                1int
            }),
        {
            if s.get_char(k) == '.' {
                has_dot = true;
            } else {
                k = k + 1;
            }
        }
        if !has_dot {
            proof {
                if valid_email(s@) {
                    let i0 = choose|i0: int| email_sep_at(s@, i0);
                    assert(s@[i0] == '@');
                    assert(i0 == at_pos);
                    let k0 = choose|k0: int| i0 < k0 < s@.len() && s@[k0] == '.';
                    assert(s@[k0] != '.');
                }
            }
            return Err(ValidationError::InvalidEmail(String::from_str(value)));
        }
        proof {
            assert(email_sep_at(s@, at_pos as int));
            lemma_normalize_email_idempotent(value@);
        }
        Ok(Email { text: norm })
    }

    /// Hands the normalized text back.
    pub fn into_inner(self) -> (r: String)
        ensures
            r@ == self@,
    {
        self.text
    }

    /// The normalized text, borrowed.
    pub fn as_str(&self) -> (r: &str)
        ensures
            r@ == self@,
    {
        self.text.as_str()
    }
}

/// What every password prints as, whatever its content: no function of the
/// content reaches the representation.
pub open spec fn password_debug_repr() -> Seq<char> {
    "Password(***)"@
}

/// A validated password input (never the hash). At least
/// [`MIN_PASSWORD_LENGTH`] characters. Its textual representation never shows the
/// content; see [`Password::debug_repr`].
#[derive(Clone)]
pub struct Password {
    text: String,
}

impl View for Password {
    type V = Seq<char>;

    closed spec fn view(&self) -> Seq<char> {
        self.text@
    }
}

impl Password {
    /// Accepts exactly the inputs of at least [`MIN_PASSWORD_LENGTH`]
    /// characters.
    pub fn new(value: &str) -> (r: Result<Self, ValidationError>)
        ensures
            r is Ok <==> value@.len() >= MIN_PASSWORD_LENGTH,
            r matches Ok(p) ==> p@ == value@,
            r matches Err(e) ==> e matches ValidationError::PasswordTooShort { min, actual }
                && min == MIN_PASSWORD_LENGTH && actual == value@.len(),
    {
        let actual = value.unicode_len();
        if actual < MIN_PASSWORD_LENGTH {
            return Err(ValidationError::PasswordTooShort { min: MIN_PASSWORD_LENGTH, actual });
        }
        Ok(Self { text: String::from_str(value) })
    }

    /// Hands the raw text back; the only way to read a password's content.
    pub fn into_inner(self) -> (r: String)
        ensures
            r@ == self@,
    {
        self.text
    }

    /// The raw text, borrowed.
    pub fn as_str(&self) -> (r: &str)
        ensures
            r@ == self@,
    {
        self.text.as_str()
    }

    /// Textual stand-in used wherever the password would be printed: the one
    /// fixed string [`password_debug_repr`], the same for every password, so
    /// the content never leaks into logs or error output.
    pub fn debug_repr(&self) -> (r: String)
        ensures
            r@ == password_debug_repr(),
    {
        String::from_str("Password(***)")
    }
}

} // verus!
