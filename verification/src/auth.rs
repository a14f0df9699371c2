use vstd::prelude::*;

use argon2::{PasswordHasher, PasswordVerifier};

use crate::validation::{
    handle_verdict, validate_display_name, validate_password, validate_permissions, validate_user_handle,
    UserPermission, ValidationError,
};
use crate::text::all_whitespace;

verus! {

/// What Argon2 verification says of `password` against the PHC string
/// `hash`: `Some(true)` when it matches, `Some(false)` when it does not,
/// `None` when the check fails otherwise (the string is no usable password
/// hash, or the password is too long to hash).
pub uninterp spec fn argon2_verdict(hash: Seq<char>, password: Seq<char>) -> Option<bool>;

/// Hashes a password with `Argon2::default()` (Argon2id, version 19, the
/// crate's default cost) under a fresh random salt from `OsRng`, and gives
/// the PHC string. The salt makes each result different; what every
/// result shares, as the argon2 crate documents, is that verifying the
/// same password against it succeeds. The salt `SaltString::generate`
/// draws is always of a valid length, so hashing fails only for a password
/// over `MAX_PWD_LEN` (0xFFFF_FFFF) bytes; a password of at most
/// 0x3FFF_FFFF characters (four bytes each at most) is always hashed. The
/// PHC string made names a valid salt and Argon2 parameters, so checking
/// any password of that size against it gives a verdict, `true` or
/// `false`, and never an error. The error's text is not stated. Drawing
/// the salt panics only when the operating system's random source fails,
/// which no argument decides.
#[verifier::external_body]
pub(crate) fn hash_password(password: &str) -> (res: Result<String, String>)
    ensures
        res matches Ok(hash) ==> argon2_verdict(hash@, password@) == Some(true),
        password@.len() <= 0x3fff_ffff ==> res is Ok,
        res matches Ok(hash) ==> forall|q: Seq<char>|
            q.len() <= 0x3fff_ffff ==> (#[trigger] argon2_verdict(hash@, q)) is Some,
{
    let salt = argon2::password_hash::SaltString::generate(&mut rand_core::OsRng);
    match argon2::Argon2::default().hash_password(password.as_bytes(), &salt) {
        Ok(hash) => Ok(hash.to_string()),
        Err(error) => Err(error.to_string()),
    }
}

/// Parses `hash` with `PasswordHash::new` and checks `password` against
/// it with `Argon2::default().verify_password`: a mismatch
/// (`Error::Password`) is `Ok(false)`, any other failure is an error whose
/// text is not stated. A PHC string begins with `$`, so an empty string or
/// one that begins otherwise fails to parse and is an error.
#[verifier::external_body]
pub(crate) fn verify_password(hash: &str, password: &str) -> (res: Result<bool, String>)
    ensures
        match res {
            Ok(matches) => argon2_verdict(hash@, password@) == Some(matches),
            Err(_) => argon2_verdict(hash@, password@) is None,
        },
        hash@.len() == 0 || hash@[0] != '$' ==> res is Err,
{
    let parsed = match argon2::PasswordHash::new(hash) {
        Ok(parsed) => parsed,
        Err(error) => return Err(error.to_string()),
    };
    match argon2::Argon2::default().verify_password(password.as_bytes(), &parsed) {
        Ok(()) => Ok(true),
        Err(argon2::password_hash::Error::Password) => Ok(false),
        Err(error) => Err(error.to_string()),
    }
}

/// Why a password could not be given a hash.
#[derive(Debug, Clone, PartialEq, Eq)]
pub enum PasswordHashError {
    /// The password breaks an account rule.
    Invalid(ValidationError),
    /// The hasher failed; the text says why.
    Hashing(String),
}

/// The hash to store for a new password: the password is checked first,
/// then hashed. Whatever salt was drawn, the stored hash verifies the
/// password it was made from; any non-empty password of at most
/// 0x3FFF_FFFF characters gets a hash.
pub fn new_password_hash(password: &str) -> (res: Result<String, PasswordHashError>)
    ensures
        0 < password@.len() <= 0x3fff_ffff ==> res is Ok,
        res matches Ok(hash) ==> forall|q: Seq<char>|
            q.len() <= 0x3fff_ffff ==> (#[trigger] argon2_verdict(hash@, q)) is Some,
        password@.len() == 0 <==> res == Err::<String, PasswordHashError>(
            PasswordHashError::Invalid(ValidationError::EmptyPassword),
        ),
        res matches Ok(hash) ==> argon2_verdict(hash@, password@) == Some(true),
{
    if let Err(error) = validate_password(password) {
        return Err(PasswordHashError::Invalid(error));
    }
    match hash_password(password) {
        Ok(hash) => Ok(hash),
        Err(message) => Err(PasswordHashError::Hashing(message)),
    }
}

/// Why a request was not let in.
#[derive(Debug, Clone, PartialEq, Eq)]
pub enum AuthError {
    /// Unknown or inactive account, wrong password, or missing permission.
    Unauthorized,
    /// The stored password hash could not be used; the text says why.
    StoredHash(String),
}

/// The stored sign-in data of an account.
#[derive(Debug, Clone)]
pub struct Credentials {
    pub active: bool,
    pub password_hash: String,
    /// Whether the account holds the permission the request needs.
    pub permitted: bool,
}

/// Whether signing in with `password` succeeds, given the account found
/// for the handle: it exists and is active, the password verifies against
/// its stored hash, and it holds the permission.
pub open spec fn sign_in_allowed(record: Option<Credentials>, password: Seq<char>) -> bool {
    match record {
        None => false,
        Some(r) => r.active && argon2_verdict(r.password_hash@, password) == Some(true) && r.permitted,
    }
}

/// Whether the sign-in stops at a stored hash that cannot be used.
pub open spec fn stored_hash_unusable(record: Option<Credentials>, password: Seq<char>) -> bool {
    match record {
        None => false,
        Some(r) => r.active && argon2_verdict(r.password_hash@, password) is None,
    }
}

/// Signs a user in: the account must exist and be active, the password
/// must verify against its stored hash, and it must hold the required
/// permission. A stored hash that cannot be parsed is an error of its own.
pub fn check_credentials(record: Option<Credentials>, password: &str) -> (res: Result<(), AuthError>)
    ensures
        res is Ok <==> sign_in_allowed(record, password@),
        res matches Err(AuthError::StoredHash(_)) <==> stored_hash_unusable(record, password@),
        res == Err::<(), AuthError>(AuthError::Unauthorized) <==> (!sign_in_allowed(record, password@)
            && !stored_hash_unusable(record, password@)),
{
    let record = match record {
        None => return Err(AuthError::Unauthorized),
        Some(record) => record,
    };
    if !record.active {
        return Err(AuthError::Unauthorized);
    }
    match verify_password(record.password_hash.as_str(), password) {
        Err(message) => Err(AuthError::StoredHash(message)),
        Ok(false) => Err(AuthError::Unauthorized),
        Ok(true) => if record.permitted {
            Ok(())
        } else {
            Err(AuthError::Unauthorized)
        },
    }
}

/// Lets a signed-in account through when it still exists, is active and
/// holds the required permission.
pub fn authorize_account(found: bool, active: bool, permitted: bool) -> (res: Result<(), AuthError>)
    ensures
        res is Ok <==> (found && active && permitted),
        res is Err ==> res == Err::<(), AuthError>(AuthError::Unauthorized),
{
    if found && active && permitted {
        Ok(())
    } else {
        Err(AuthError::Unauthorized)
    }
}

/// A password stored by `new_password_hash` lets its owner in: signing in
/// with the same password to an active account holding the permission
/// succeeds.
pub proof fn lemma_new_hash_signs_in(password: Seq<char>, hash: String, permitted: bool)
    requires
        argon2_verdict(hash@, password) == Some(true),
        permitted,
    ensures
        sign_in_allowed(Some(Credentials { active: true, password_hash: hash, permitted }), password),
{
}

/// The first rule a new account breaks: handle, display name, password,
/// then permissions.
pub open spec fn new_user_verdict(
    handle: Seq<char>,
    display_name: Seq<char>,
    password: Seq<char>,
    permission_count: nat,
) -> Result<(), ValidationError> {
    if handle_verdict(handle) is Err {
        handle_verdict(handle)
    } else if all_whitespace(display_name) {
        Err(ValidationError::EmptyDisplayName)
    } else if password.len() == 0 {
        Err(ValidationError::EmptyPassword)
    } else if permission_count == 0 {
        Err(ValidationError::NoPermissions)
    } else {
        Ok(())
    }
}

/// Checks the fields of a new account, reporting the first rule broken.
pub fn validate_new_user(
    handle: &str,
    display_name: &str,
    password: &str,
    permissions: &[UserPermission],
) -> (res: Result<(), ValidationError>)
    ensures
        res == new_user_verdict(handle@, display_name@, password@, permissions@.len()),
{
    validate_user_handle(handle)?;
    validate_display_name(display_name)?;
    validate_password(password)?;
    validate_permissions(permissions)?;
    Ok(())
}

/// The first rule an account update breaks: handle, display name, then
/// permissions.
pub open spec fn user_update_verdict(handle: Seq<char>, display_name: Seq<char>, permission_count: nat) -> Result<
    (),
    ValidationError,
> {
    if handle_verdict(handle) is Err {
        handle_verdict(handle)
    } else if all_whitespace(display_name) {
        Err(ValidationError::EmptyDisplayName)
    } else if permission_count == 0 {
        Err(ValidationError::NoPermissions)
    } else {
        Ok(())
    }
}

/// Checks the fields of an account update, reporting the first rule
/// broken: handle, display name, then permissions (the password is not
/// part of an update).
pub fn validate_user_update(
    handle: &str,
    display_name: &str,
    permissions: &[UserPermission],
) -> (res: Result<(), ValidationError>)
    ensures
        res == user_update_verdict(handle@, display_name@, permissions@.len()),
{
    validate_user_handle(handle)?;
    validate_display_name(display_name)?;
    validate_permissions(permissions)?;
    Ok(())
}

/// Why an account could not be removed.
#[derive(Debug, Clone, Copy, PartialEq, Eq)]
pub enum UserRemovalError {
    NotFound,
    LastUser,
}

impl UserRemovalError {
    /// The message the daemon reports for refusing to remove the last
    /// account. An unknown account is reported as not found, under its id.
    pub fn message(&self) -> (res: Option<&'static str>)
        ensures
            match *self {
                UserRemovalError::LastUser => res matches Some(m) && m@ == "cannot delete the last user"@,
                UserRemovalError::NotFound => res is None,
            },
    {
        match self {
            UserRemovalError::LastUser => Some("cannot delete the last user"),
            UserRemovalError::NotFound => None,
        }
    }
}

/// An account may be removed when it exists and is not the only one left.
pub fn check_user_removal(exists: bool, user_count: u64) -> (res: Result<(), UserRemovalError>)
    ensures
        !exists ==> res == Err::<(), UserRemovalError>(UserRemovalError::NotFound),
        exists && user_count <= 1 ==> res == Err::<(), UserRemovalError>(UserRemovalError::LastUser),
        exists && user_count > 1 ==> res is Ok,
{
    if !exists {
        return Err(UserRemovalError::NotFound);
    }
    if user_count <= 1 {
        return Err(UserRemovalError::LastUser);
    }
    Ok(())
}

/// Whether `perms` holds `p`.
pub open spec fn holds_permission(perms: Seq<UserPermission>, p: UserPermission) -> bool {
    exists|i: int| 0 <= i < perms.len() && perms[i] == p
}

/// The permissions as they are stored: each one once, in the order
/// read, write, repository.
pub open spec fn stored_permissions(perms: Seq<UserPermission>) -> Seq<UserPermission> {
    let read: Seq<UserPermission> = if holds_permission(perms, UserPermission::Read) {
        seq![UserPermission::Read]
    } else {
        seq![]
    };
    let write: Seq<UserPermission> = if holds_permission(perms, UserPermission::Write) {
        seq![UserPermission::Write]
    } else {
        seq![]
    };
    let repo: Seq<UserPermission> = if holds_permission(perms, UserPermission::Repo) {
        seq![UserPermission::Repo]
    } else {
        seq![]
    };
    read + write + repo
}

/// Sorts the permissions and drops repeats, as they are written to the
/// store.
pub fn normalize_permissions(perms: &[UserPermission]) -> (res: Vec<UserPermission>)
    ensures
        res@ == stored_permissions(perms@),
{
    let mut read = false;
    let mut write = false;
    let mut repo = false;
    let mut i: usize = 0;
    while i < perms.len()
        invariant
            i <= perms@.len(),
            read == holds_permission(perms@.take(i as int), UserPermission::Read),
            write == holds_permission(perms@.take(i as int), UserPermission::Write),
            repo == holds_permission(perms@.take(i as int), UserPermission::Repo),
        decreases perms@.len() - i,
    {
        let ghost pre = perms@.take(i as int);
        let ghost next = perms@.take(i as int + 1);
        assert(next =~= pre.push(perms@[i as int]));
        proof {
            assert forall|p: UserPermission| holds_permission(next, p) == (holds_permission(pre, p) || perms@[i as int] == p) by {
                if holds_permission(next, p) && perms@[i as int] != p {
                    let k = choose|k: int| 0 <= k < next.len() && next[k] == p;
                    assert(k < pre.len());
                    assert(pre[k] == p);
                }
                if holds_permission(pre, p) {
                    let k = choose|k: int| 0 <= k < pre.len() && pre[k] == p;
                    assert(next[k] == p);
                }
                if perms@[i as int] == p {
                    assert(next[i as int] == p);
                }
            }
        }
        match perms[i] {
            UserPermission::Read => read = true,
            UserPermission::Write => write = true,
            UserPermission::Repo => repo = true,
        }
        i = i + 1;
    }
    assert(perms@.take(perms@.len() as int) =~= perms@);
    let mut out: Vec<UserPermission> = Vec::new();
    if read {
        out.push(UserPermission::Read);
    }
    if write {
        out.push(UserPermission::Write);
    }
    if repo {
        out.push(UserPermission::Repo);
    }
    assert(out@ =~= stored_permissions(perms@));
    out
}

/// Storing permissions keeps exactly the permissions given, each once:
/// storing them again changes nothing.
pub proof fn lemma_stored_permissions_canonical(perms: Seq<UserPermission>)
    ensures
        forall|p: UserPermission| holds_permission(stored_permissions(perms), p) == holds_permission(perms, p),
        stored_permissions(stored_permissions(perms)) == stored_permissions(perms),
        stored_permissions(perms).no_duplicates(),
{
    let s = stored_permissions(perms);
    assert forall|p: UserPermission| holds_permission(s, p) == holds_permission(perms, p) by {
        if holds_permission(perms, p) {
            match p {
                UserPermission::Read => assert(s[0] == p),
                UserPermission::Write => {
                    if holds_permission(perms, UserPermission::Read) {
                        assert(s[1] == p);
                    } else {
                        assert(s[0] == p);
                    }
                },
                UserPermission::Repo => assert(s[s.len() - 1] == p),
            }
        }
    }
    assert(stored_permissions(s) =~= s);
}

} // verus!
