//! Credential handling.
//!
//! HiveMind Chat never stores an API key. A provider entry holds only the
//! *name* of an environment variable; the value is looked up at request time
//! and dropped immediately afterwards. That keeps keys out of the config file,
//! out of the database and out of any backup of either.

use vstd::prelude::*;

use crate::error::{ErrorView, HiveError};
use crate::text::{blank, chars_of, is_blank, string_from, vec_slice};

verus! {

pub open spec fn is_var_char(c: char) -> bool {
    ('A' <= c && c <= 'Z') || ('0' <= c && c <= '9') || c == '_'
}

pub open spec fn is_digit(c: char) -> bool {
    '0' <= c && c <= '9'
}

/// Environment variable names are restricted to the POSIX-portable set so a
/// config file cannot smuggle shell syntax into a variable lookup.
pub open spec fn valid_var_name(name: Seq<char>) -> bool {
    &&& name.len() > 0
    &&& name.len() <= 128
    &&& forall|i: int| 0 <= i < name.len() ==> is_var_char(#[trigger] name[i])
    &&& !is_digit(name[0])
}

pub open spec fn var_name_error(name: Seq<char>) -> ErrorView {
    ErrorView::Config(
        "'"@ + name + "' is not a valid environment variable name (expected A-Z, 0-9 and underscore)"@,
    )
}

/// A reference to a credential, not the credential itself.
#[derive(Debug)]
pub struct SecretRef {
    name: String,
}

impl View for SecretRef {
    type V = Seq<char>;

    closed spec fn view(&self) -> Seq<char> {
        self.name@
    }
}

impl Clone for SecretRef {
    fn clone(&self) -> (r: Self)
        ensures
            r@ == self@,
    {
        SecretRef { name: self.name.clone() }
    }
}

impl SecretRef {
    /// A reference to the variable `var_name`, if the name is acceptable.
    pub fn new(var_name: &str) -> (r: Result<SecretRef, HiveError>)
        ensures
            valid_var_name(var_name@) ==> (r matches Ok(s) && s@ == var_name@),
            !valid_var_name(var_name@) ==> (r matches Err(e) && e@ == var_name_error(var_name@)),
    {
        let v = chars_of(var_name);
        let mut ok = v.len() > 0 && v.len() <= 128;
        if ok {
            let mut i: usize = 0;
            while i < v.len()
                invariant
                    i <= v@.len(),
                    ok ==> forall|k: int| 0 <= k < i ==> is_var_char(#[trigger] v@[k]),
                    !ok ==> exists|k: int| 0 <= k < v@.len() && !is_var_char(#[trigger] v@[k]),
                decreases v@.len() - i,
            {
                let c = v[i];
                if !(('A' <= c && c <= 'Z') || ('0' <= c && c <= '9') || c == '_') {
                    ok = false;
                }
                i = i + 1;
            }
            if '0' <= v[0] && v[0] <= '9' {
                ok = false;
            }
        }
        if !ok {
            let mut m = "'".to_owned();
            m.append(var_name);
            m.append(
                "' is not a valid environment variable name (expected A-Z, 0-9 and underscore)",
            );
            return Err(HiveError::Config(m));
        }
        Ok(SecretRef { name: var_name.to_owned() })
    }

    pub fn var_name(&self) -> (s: &str)
        ensures
            s@ == self@,
    {
        self.name.as_str()
    }

    /// Turns what the environment holds under this name into the credential.
    ///
    /// `value` is the variable's content, or `None` when it is unset. A blank
    /// value counts as unset. The returned value is the secret itself, so it
    /// must never be logged, serialised or returned over the API.
    pub fn resolve(&self, value: Option<String>) -> (r: Result<String, HiveError>)
        ensures
            match value {
                Some(v) => if !blank(v@) {
                    r == Ok::<String, HiveError>(v)
                } else {
                    r matches Err(e) && e@ == ErrorView::MissingCredential(self@)
                },
                None => r matches Err(e) && e@ == ErrorView::MissingCredential(self@),
            },
    {
        match value {
            Some(v) => {
                if !is_blank(v.as_str()) {
                    Ok(v)
                } else {
                    Err(HiveError::MissingCredential(self.name.clone()))
                }
            },
            None => Err(HiveError::MissingCredential(self.name.clone())),
        }
    }

    /// Whether the credential is available, for status displays that must not
    /// reveal the value.
    pub fn is_available(&self, value: Option<String>) -> (b: bool)
        ensures
            b == (value matches Some(v) && !blank(v@)),
    {
        self.resolve(value).is_ok()
    }
}

/// The short fingerprint of a secret: `****` followed by its last four
/// characters, or only `****` for a secret of at most eight characters.
pub open spec fn redacted(secret: Seq<char>) -> Seq<char> {
    if secret.len() <= 8 {
        "****"@
    } else {
        "****"@ + secret.skip(secret.len() - 4)
    }
}

/// Renders a secret as a short fingerprint for logs and status output.
///
/// Only the last four characters survive, which is enough to tell two keys
/// apart during setup without putting a usable secret into a log file.
pub fn redact(secret: &str) -> (r: String)
    ensures
        r@ == redacted(secret@),
{
    let v = chars_of(secret);
    let mut out = "****".to_owned();
    if v.len() <= 8 {
        return out;
    }
    let tail = vec_slice(v.as_slice(), v.len() - 4, v.len());
    let tail_text = string_from(tail.as_slice());
    out.append(tail_text.as_str());
    assert(v@.subrange(v@.len() - 4, v@.len() as int) =~= v@.skip(v@.len() - 4));
    out
}

} // verus!
