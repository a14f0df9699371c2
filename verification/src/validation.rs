use vstd::prelude::*;

use crate::text::{all_whitespace, lemma_trim_empty_iff_all_whitespace, str_trim, trim_spec};

verus! {

/// Permissions a user account can hold.
#[derive(Debug, Clone, Copy, PartialEq, Eq, Hash)]
pub enum UserPermission {
    Read,
    Write,
    Repo,
}

/// Why a user-supplied account field was refused.
#[derive(Debug, Clone, Copy, PartialEq, Eq)]
pub enum ValidationError {
    EmptyHandle,
    InvalidHandleCharacters,
    EmptyDisplayName,
    EmptyPassword,
    NoPermissions,
}

impl ValidationError {
    /// The message the daemon reports for this refusal.
    pub fn message(&self) -> (res: &'static str)
        ensures
            res@ == match *self {
                ValidationError::EmptyHandle => "user handle must not be empty"@,
                ValidationError::InvalidHandleCharacters => "user handle may only contain letters, digits, '.', '_' and '-'"@,
                ValidationError::EmptyDisplayName => "display_name must not be empty"@,
                ValidationError::EmptyPassword => "password must not be empty"@,
                ValidationError::NoPermissions => "at least one permission is required"@,
            },
    {
        match self {
            ValidationError::EmptyHandle => "user handle must not be empty",
            ValidationError::InvalidHandleCharacters => "user handle may only contain letters, digits, '.', '_' and '-'",
            ValidationError::EmptyDisplayName => "display_name must not be empty",
            ValidationError::EmptyPassword => "password must not be empty",
            ValidationError::NoPermissions => "at least one permission is required",
        }
    }
}

/// ASCII letters and digits.
pub open spec fn is_ascii_alphanumeric_spec(c: char) -> bool {
    ('a' <= c && c <= 'z') || ('A' <= c && c <= 'Z') || ('0' <= c && c <= '9')
}

/// Characters a user handle may contain.
pub open spec fn is_handle_char(c: char) -> bool {
    is_ascii_alphanumeric_spec(c) || c == '.' || c == '_' || c == '-'
}

/// Every character of `s` may appear in a handle.
pub open spec fn all_handle_chars(s: Seq<char>) -> bool {
    forall|i: int| 0 <= i < s.len() ==> is_handle_char(#[trigger] s[i])
}

/// What `validate_user_handle` decides for a handle.
pub open spec fn handle_verdict(s: Seq<char>) -> Result<(), ValidationError> {
    if s.len() == 0 {
        Err(ValidationError::EmptyHandle)
    } else if !all_handle_chars(s) {
        Err(ValidationError::InvalidHandleCharacters)
    } else {
        Ok(())
    }
}

fn is_handle_char_exec(c: char) -> (res: bool)
    ensures
        res == is_handle_char(c),
{
    ('a' <= c && c <= 'z') || ('A' <= c && c <= 'Z') || ('0' <= c && c <= '9') || c == '.' || c
        == '_' || c == '-'
}

/// A handle must be non-empty and made of ASCII letters, digits, '.', '_'
/// and '-'.
pub fn validate_user_handle(handle: &str) -> (res: Result<(), ValidationError>)
    ensures
        res == handle_verdict(handle@),
{
    let mut nonempty = false;
    let mut all_ok = true;
    for c in it: handle.chars()
        invariant
            it.seq() == handle@,
            nonempty == (it.index() > 0),
            all_ok == all_handle_chars(it.seq().take(it.index() as int)),
    {
        let ok = is_handle_char_exec(c);
        proof {
            let before = it.seq().take(it.index() as int);
            let after = it.seq().take(it.index() as int + 1);
            assert(after =~= before.push(c));
            if all_ok && ok {
                assert forall|i: int| 0 <= i < after.len() implies is_handle_char(
                    #[trigger] after[i],
                ) by {
                    if i < before.len() {
                        assert(after[i] == before[i]);
                    }
                }
            }
            if !ok {
                assert(!is_handle_char(after[after.len() - 1]));
            }
            if !all_ok {
                let k = choose|k: int| 0 <= k < before.len() && !is_handle_char(#[trigger] before[k]);
                assert(after[k] == before[k]);
            }
        }
        all_ok = all_ok && ok;
        nonempty = true;
    }
    proof {
        assert(handle@.take(handle@.len() as int) =~= handle@);
    }
    if !nonempty {
        return Err(ValidationError::EmptyHandle);
    }
    if !all_ok {
        return Err(ValidationError::InvalidHandleCharacters);
    }
    Ok(())
}

/// A display name must hold at least one non-whitespace character.
pub fn validate_display_name(display_name: &str) -> (res: Result<(), ValidationError>)
    ensures
        res is Err <==> all_whitespace(display_name@),
        res is Err ==> res == Err::<(), ValidationError>(ValidationError::EmptyDisplayName),
{
    let trimmed = str_trim(display_name);
    proof {
        lemma_trim_empty_iff_all_whitespace(display_name@);
    }
    if trimmed.is_empty() {
        Err(ValidationError::EmptyDisplayName)
    } else {
        Ok(())
    }
}

/// A password must not be empty.
pub fn validate_password(password: &str) -> (res: Result<(), ValidationError>)
    ensures
        res is Err <==> password@.len() == 0,
        res is Err ==> res == Err::<(), ValidationError>(ValidationError::EmptyPassword),
{
    if password.is_empty() {
        Err(ValidationError::EmptyPassword)
    } else {
        Ok(())
    }
}

/// An account must be granted at least one permission.
pub fn validate_permissions(permissions: &[UserPermission]) -> (res: Result<(), ValidationError>)
    ensures
        res is Err <==> permissions@.len() == 0,
        res is Err ==> res == Err::<(), ValidationError>(ValidationError::NoPermissions),
{
    if permissions.len() == 0 {
        Err(ValidationError::NoPermissions)
    } else {
        Ok(())
    }
}

} // verus!
