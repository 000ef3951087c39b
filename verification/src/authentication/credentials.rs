use crate::store::users_unique;
use crate::store::users_view;
use crate::store::Store;
use crate::store::Tables;
use crate::store::User;
use crate::store::UserRow;
use argon2::PasswordHasher;
use argon2::PasswordVerifier;
use vstd::prelude::*;
use vstd::string::StringExecFns;
use vstd::utf8::encode_utf8;

verus! {

/// What is told about credentials that were not accepted.
pub const INVALID_CREDENTIALS: &'static str = "Invalid credentials.";

/// What is told about a password that does not match.
pub const INVALID_PASSWORD: &'static str = "Invalid password";

/// What is told about a stored hash that is no PHC string.
pub const MALFORMED_HASH: &'static str = "Failed to parse hash PHC string";

/// What is told when a password could not be hashed.
pub const HASHING_FAILED: &'static str = "Failed to hash password";

/// The hash that a password is checked against when the name is unknown, so
/// that the check takes its time whether or not the user exists.
pub const FALLBACK_HASH: &'static str =
    "$argon2id$v=19$m=15000,t=2,p=1$gZiV/M1gPc22ElAH/Jh1Hw$CWOrkoo7oJBQ/iyh7uJ0LO2aLEfrHwTWllSAxT0zRno";

/// What is told about a password that is too short.
pub const PASSWORD_TOO_SHORT: &'static str = "Password has to be at least 12 symbols long.";

/// What is told about a password that is too long.
pub const PASSWORD_TOO_LONG: &'static str = "Password can not be longer than 128 symblols.";

/// Why credentials could not be checked, or were not accepted.
#[derive(Debug)]
pub enum AuthError {
    /// The password is not the user's. Holds what the check said.
    InvalidCredentials(String),
    /// The check itself failed. Holds why.
    UnexpectedError(String),
}

/// A failure to authenticate as a mathematical value.
pub enum AuthFailure {
    InvalidCredentials(Seq<char>),
    UnexpectedError(Seq<char>),
}

impl View for AuthError {
    type V = AuthFailure;

    open spec fn view(&self) -> AuthFailure {
        match self {
            AuthError::InvalidCredentials(cause) => AuthFailure::InvalidCredentials(cause@),
            AuthError::UnexpectedError(cause) => AuthFailure::UnexpectedError(cause@),
        }
    }
}

impl AuthFailure {
    /// The text that tells of this failure.
    pub open spec fn message(self) -> Seq<char> {
        match self {
            AuthFailure::InvalidCredentials(_) => INVALID_CREDENTIALS@,
            AuthFailure::UnexpectedError(cause) => cause,
        }
    }
}

impl AuthError {
    /// The text that tells of this failure.
    pub fn to_string(&self) -> (text: String)
        ensures
            text@ == self@.message(),
    {
        match self {
            AuthError::InvalidCredentials(_) => String::from_str(INVALID_CREDENTIALS),
            AuthError::UnexpectedError(cause) => cause.clone(),
        }
    }
}

/// A name and the password that is claimed to go with it. The password is
/// kept out of every log: the type cannot be printed.
pub struct Credentials {
    pub username: String,
    pub password: String,
}

/// The variants of Argon2.
#[derive(Debug, Clone, Copy, PartialEq, Eq, Structural)]
pub enum HashAlgorithm {
    Argon2d,
    Argon2i,
    Argon2id,
}

/// The versions of Argon2.
#[derive(Debug, Clone, Copy, PartialEq, Eq, Structural)]
pub enum HashVersion {
    /// Version 1.0, written `16` in a PHC string.
    V0x10,
    /// Version 1.3, written `19` in a PHC string.
    V0x13,
}

/// How new passwords are hashed: the variant and the version of Argon2, the
/// memory in KiB, the number of passes, the number of lanes.
#[derive(Debug, Clone, Copy, PartialEq, Eq, Structural)]
pub struct HashingPolicy {
    pub algorithm: HashAlgorithm,
    pub version: HashVersion,
    pub memory_kib: u32,
    pub iterations: u32,
    pub parallelism: u32,
}

impl HashingPolicy {
    /// Argon2d in version 1.3 over 150000 KiB, in two passes, on one lane.
    pub open spec fn standard() -> HashingPolicy {
        HashingPolicy {
            algorithm: HashAlgorithm::Argon2d,
            version: HashVersion::V0x13,
            memory_kib: 150000,
            iterations: 2,
            parallelism: 1,
        }
    }
}

impl Default for HashingPolicy {
    fn default() -> (policy: HashingPolicy)
        ensures
            policy == HashingPolicy::standard(),
    {
        HashingPolicy {
            algorithm: HashAlgorithm::Argon2d,
            version: HashVersion::V0x13,
            memory_kib: 150000,
            iterations: 2,
            parallelism: 1,
        }
    }
}

/// The greatest number of lanes that Argon2 takes.
pub const MAX_PARALLELISM: u32 = 0xFF_FFFF;

/// The name under which a PHC string gives the number of lanes.
pub const LANES_PARAMETER: &'static str = "p";

/// The parameters that the PHC string `hash` names, in their order, each
/// with its name and, where its value is a decimal number, that number.
/// Nothing where the string is no PHC string.
pub uninterp spec fn phc_parameters(hash: Seq<char>) -> Option<Seq<(Seq<char>, Option<u32>)>>;

/// What comes of checking the password `candidate` against the PHC string
/// `hash`: nothing where the string is no PHC string, else whether Argon2,
/// run with the parameters and the salt that the string names, arrives at
/// the output that the string holds.
pub uninterp spec fn password_check(hash: Seq<char>, candidate: Seq<u8>) -> Option<bool>;

/// Parameters as mathematical values.
pub open spec fn parameters_view(params: Seq<(String, Option<u32>)>) -> Seq<
    (Seq<char>, Option<u32>),
> {
    params.map_values(|p: (String, Option<u32>)| (p.0@, p.1))
}

/// The number of lanes that `params` name: the number of the last of them
/// that is named `p`. A check runs Argon2 on that many lanes, each parameter
/// overriding the ones of its name before it.
pub open spec fn named_lanes(params: Seq<(Seq<char>, Option<u32>)>) -> Option<u32>
    decreases params.len(),
{
    if params.len() == 0 {
        None
    } else if params.last().0 == LANES_PARAMETER@ {
        params.last().1
    } else {
        named_lanes(params.drop_last())
    }
}

/// Whether the PHC string `hash` asks for more lanes than Argon2 takes. No
/// password passes the check against such a string.
pub open spec fn has_too_many_lanes(hash: Seq<char>) -> bool {
    phc_parameters(hash) matches Some(params) && named_lanes(params) matches Some(lanes) && lanes
        > MAX_PARALLELISM
}

/// What comes of checking the password `candidate` against the PHC string
/// `hash`: a string that asks for more lanes than Argon2 takes is looked at
/// no further, and the password does not pass; else it is as
/// [`password_check`] says.
pub open spec fn checked(hash: Seq<char>, candidate: Seq<u8>) -> Option<bool> {
    if has_too_many_lanes(hash) {
        Some(false)
    } else {
        password_check(hash, candidate)
    }
}

/// Parses `hash` with [`argon2::PasswordHash::new`] and hands out the
/// parameters of what was parsed, in the order in which
/// [`argon2::password_hash::ParamsString::iter`] yields them: the name of
/// each, and its value as [`argon2::password_hash::Value::decimal`] reads
/// it.
#[verifier::external_body]
fn read_parameters(hash: &str) -> (params: Option<Vec<(String, Option<u32>)>>)
    ensures
        match params {
            Some(list) => phc_parameters(hash@) == Some(parameters_view(list@)),
            None => phc_parameters(hash@) is None,
        },
{
    let parsed = argon2::PasswordHash::new(hash).ok()?;
    Some(
        parsed.params.iter().map(|(name, value)| (name.as_str().to_owned(), value.decimal().ok()))
            .collect(),
    )
}

/// Parses `hash` with [`argon2::PasswordHash::new`] and, where that
/// succeeds, checks `candidate` against it with
/// [`argon2::PasswordVerifier::verify_password`] of the default Argon2.
/// Every failure of the check counts as a password that does not match.
///
/// The check multiplies the number of lanes that the string names by eight
/// before it holds it against [`MAX_PARALLELISM`]; a string that names more
/// lanes is kept away from it.
#[verifier::external_body]
fn check_password(hash: &str, candidate: &[u8]) -> (verdict: Option<bool>)
    requires
        !has_too_many_lanes(hash@),
    ensures
        verdict == password_check(hash@, candidate@),
{
    match argon2::PasswordHash::new(hash) {
        Err(_) => None,
        Ok(parsed) => match argon2::Argon2::default().verify_password(candidate, &parsed) {
            Ok(_) => Some(true),
            Err(_) => Some(false),
        },
    }
}

/// Hashes `password` with [`argon2::PasswordHasher::hash_password`] under a
/// salt from [`argon2::password_hash::SaltString::generate`] and gives the
/// PHC string. The salt is left to chance, so the string is; whichever
/// comes, it names the lanes of the policy, once, and the password passes
/// the check against it, since the check runs the same function with the
/// parameters and the salt that the string names. Nothing comes back where
/// the parameters are refused or the hashing fails.
#[verifier::external_body]
fn hash_password(password: &[u8], policy: &HashingPolicy) -> (phc: Option<String>)
    requires
        policy.parallelism <= MAX_PARALLELISM,
    ensures
        phc matches Some(hash) ==> password_check(hash@, password@) == Some(true)
            && !has_too_many_lanes(hash@),
{
    let algorithm = match policy.algorithm {
        HashAlgorithm::Argon2d => argon2::Algorithm::Argon2d,
        HashAlgorithm::Argon2i => argon2::Algorithm::Argon2i,
        HashAlgorithm::Argon2id => argon2::Algorithm::Argon2id,
    };
    let version = match policy.version {
        HashVersion::V0x10 => argon2::Version::V0x10,
        HashVersion::V0x13 => argon2::Version::V0x13,
    };
    let salt = argon2::password_hash::SaltString::generate(&mut rand::thread_rng());
    let params = argon2::Params::new(policy.memory_kib, policy.iterations, policy.parallelism, None);
    let hasher = argon2::Argon2::new(algorithm, version, params.ok()?);
    hasher.hash_password(password, &salt).ok().map(|hash| hash.to_string())
}

/// [`FALLBACK_HASH`] as a mathematical value.
pub open spec fn fallback_hash() -> Seq<char> {
    FALLBACK_HASH@
}

/// Whether a user named `username` is among `rows`.
pub open spec fn has_user_named(rows: Seq<UserRow>, username: Seq<char>) -> bool {
    exists|k: int| 0 <= k < rows.len() && (#[trigger] rows[k]).username == username
}

/// The place of the user named `username`.
pub open spec fn user_index(rows: Seq<UserRow>, username: Seq<char>) -> int {
    choose|k: int| 0 <= k < rows.len() && (#[trigger] rows[k]).username == username
}

/// The user named `username`, if there is one.
pub open spec fn stored_credentials(rows: Seq<UserRow>, username: Seq<char>) -> Option<UserRow> {
    if has_user_named(rows, username) {
        Some(rows[user_index(rows, username)])
    } else {
        None
    }
}

/// An optional user as a mathematical value.
pub open spec fn user_view(user: Option<User>) -> Option<UserRow> {
    match user {
        Some(u) => Some(u@),
        None => None,
    }
}

/// What the check of a password says, as a result: a PHC string that does
/// not parse is an unexpected failure, a password that does not match is
/// invalid credentials.
pub open spec fn verified(hash: Seq<char>, candidate: Seq<u8>) -> Result<(), AuthFailure> {
    check_result(checked(hash, candidate))
}

/// What a check that ended as `verdict` says, as a result: a PHC string
/// that does not parse is an unexpected failure, a password that does not
/// match is invalid credentials.
pub open spec fn check_result(verdict: Option<bool>) -> Result<(), AuthFailure> {
    match verdict {
        None => Err(AuthFailure::UnexpectedError(MALFORMED_HASH@)),
        Some(true) => Ok(()),
        Some(false) => Err(AuthFailure::InvalidCredentials(INVALID_PASSWORD@)),
    }
}

/// What comes of validating credentials against the users `rows`. The
/// password is checked against the hash of the user of that name, or, where
/// there is none, against the fallback hash. A password that passes gives
/// the user; one that does not gives nobody; a hash that does not parse is
/// a failure.
pub open spec fn validated(rows: Seq<UserRow>, username: Seq<char>, password: Seq<u8>) -> Result<
    Option<UserRow>,
    AuthFailure,
> {
    let stored = stored_credentials(rows, username);
    let expected = match stored {
        Some(user) => user.password_hash,
        None => fallback_hash(),
    };
    match verified(expected, password) {
        Ok(_) => Ok(stored),
        Err(AuthFailure::InvalidCredentials(_)) => Ok(None),
        Err(e) => Err(e),
    }
}

/// The number of lanes that `params` name: the number of the last of them
/// that is named `p`, where that is a decimal number.
pub fn lanes_named(params: &Vec<(String, Option<u32>)>) -> (lanes: Option<u32>)
    ensures
        lanes == named_lanes(parameters_view(params@)),
{
    let ghost all = parameters_view(params@);
    let wanted = String::from_str(LANES_PARAMETER);
    let mut i: usize = params.len();
    proof {
        assert(all.take(i as int) =~= all);
    }
    while i > 0
        invariant
            i <= params.len(),
            all == parameters_view(params@),
            wanted@ == LANES_PARAMETER@,
            named_lanes(all) == named_lanes(all.take(i as int)),
        decreases i,
    {
        proof {
            assert(all.take(i as int).drop_last() =~= all.take(i - 1));
            assert(all.take(i as int).last() == all[i - 1]);
        }
        if params[i - 1].0 == wanted {
            return params[i - 1].1;
        }
        i -= 1;
    }
    None
}

/// Whether the parameters read from a PHC string ask for more lanes than
/// Argon2 takes. `params` is nothing where the string did not parse.
pub fn asks_too_many_lanes(params: &Option<Vec<(String, Option<u32>)>>) -> (too_many: bool)
    ensures
        too_many == match params {
            Some(list) => named_lanes(parameters_view(list@)) matches Some(lanes) && lanes
                > MAX_PARALLELISM,
            None => false,
        },
{
    match params {
        None => false,
        Some(list) => match lanes_named(list) {
            Some(lanes) => lanes > MAX_PARALLELISM,
            None => false,
        },
    }
}

/// Says what a check that ended as `verdict` means: a PHC string that does
/// not parse is an unexpected failure, a password that does not match is
/// invalid credentials.
pub fn password_verdict(verdict: Option<bool>) -> (res: Result<(), AuthError>)
    ensures
        check_view(res) == check_result(verdict),
{
    match verdict {
        None => Err(AuthError::UnexpectedError(String::from_str(MALFORMED_HASH))),
        Some(true) => Ok(()),
        Some(false) => Err(AuthError::InvalidCredentials(String::from_str(INVALID_PASSWORD))),
    }
}

/// Checks `password_candidate` against the PHC string `password_hash`. A
/// string that asks for more lanes than Argon2 takes is not handed to the
/// check: no password passes against it.
pub fn verify_password_hash(password_hash: &str, password_candidate: &str) -> (res: Result<
    (),
    AuthError,
>)
    ensures
        check_view(res) == verified(password_hash@, encode_utf8(password_candidate@)),
{
    let params = read_parameters(password_hash);
    if asks_too_many_lanes(&params) {
        return password_verdict(Some(false));
    }
    password_verdict(check_password(password_hash, password_candidate.as_bytes()))
}

/// The user named `username`, if there is one.
pub fn get_stored_credentials(username: &str, store: &Store) -> (found: Option<User>)
    requires
        store@.wf(),
    ensures
        user_view(found) == stored_credentials(store@.users, username@),
{
    let wanted = username.to_owned();
    let ghost rows = store@.users;
    let mut i: usize = 0;
    while i < store.users.len()
        invariant
            i <= store.users.len(),
            rows == users_view(store.users@),
            users_unique(rows),
            wanted@ == username@,
            forall|j: int| 0 <= j < i ==> (#[trigger] rows[j]).username != username@,
        decreases store.users.len() - i,
    {
        if store.users[i].username == wanted {
            proof {
                assert(rows[i as int].username == username@);
            }
            return Some(store.users[i].clone());
        }
        i += 1;
    }
    None
}

/// The hash that the password is checked against: the one of the user that
/// was found, or the fallback where none was.
pub fn expected_password_hash(stored: &Option<User>) -> (hash: String)
    ensures
        hash@ == match user_view(*stored) {
            Some(user) => user.password_hash,
            None => fallback_hash(),
        },
{
    match stored {
        Some(user) => user.password_hash.clone(),
        None => String::from_str(FALLBACK_HASH),
    }
}

/// A result of the check as a mathematical value.
pub open spec fn check_view(check: Result<(), AuthError>) -> Result<(), AuthFailure> {
    match check {
        Ok(_) => Ok(()),
        Err(e) => Err(e@),
    }
}

/// What the validation gives once the password was checked: the user that
/// was found where the password passed, nobody where it did not, and the
/// failure where the check itself failed.
pub open spec fn verdict(stored: Option<UserRow>, check: Result<(), AuthFailure>) -> Result<
    Option<UserRow>,
    AuthFailure,
> {
    match check {
        Ok(_) => Ok(stored),
        Err(AuthFailure::InvalidCredentials(_)) => Ok(None),
        Err(e) => Err(e),
    }
}

/// Decides what the validation gives once the password was checked.
pub fn credentials_verdict(stored: Option<User>, check: Result<(), AuthError>) -> (res: Result<
    Option<User>,
    AuthError,
>)
    ensures
        match verdict(user_view(stored), check_view(check)) {
            Ok(user) => res matches Ok(found) && user_view(found) == user,
            Err(e) => res matches Err(failure) && failure@ == e,
        },
{
    match check {
        Ok(_) => Ok(stored),
        Err(AuthError::InvalidCredentials(_)) => Ok(None),
        Err(e) => Err(e),
    }
}

/// Validates credentials: gives the user whose name and password they are,
/// or nobody. The password is checked even when the name is unknown.
pub fn validate_credentials(credentials: Credentials, store: &Store) -> (res: Result<
    Option<User>,
    AuthError,
>)
    requires
        store@.wf(),
    ensures
        match validated(store@.users, credentials.username@, encode_utf8(credentials.password@)) {
            Ok(user) => res matches Ok(found) && user_view(found) == user,
            Err(e) => res matches Err(failure) && failure@ == e,
        },
{
    let stored = get_stored_credentials(credentials.username.as_str(), store);
    let expected = expected_password_hash(&stored);
    let check = verify_password_hash(expected.as_str(), credentials.password.as_str());
    credentials_verdict(stored, check)
}

/// `u` with `password_hash` as its hash, if its identifier is `user_id`.
pub open spec fn rehashed_row(u: UserRow, user_id: u128, password_hash: Seq<char>) -> UserRow {
    if u.user_id == user_id {
        UserRow { password_hash, ..u }
    } else {
        u
    }
}

/// The function that gives the user `user_id` the hash `password_hash` and
/// leaves the others as they are.
pub open spec fn rehasher(user_id: u128, password_hash: Seq<char>) -> spec_fn(UserRow) -> UserRow {
    |u: UserRow| rehashed_row(u, user_id, password_hash)
}

/// The users once `user_id` has the hash `password_hash`.
pub open spec fn rehashed(rows: Seq<UserRow>, user_id: u128, password_hash: Seq<char>) -> Seq<
    UserRow,
> {
    rows.map_values(rehasher(user_id, password_hash))
}

/// `tables` with `rows` as its users.
pub open spec fn with_users(tables: Tables, rows: Seq<UserRow>) -> Tables {
    Tables { users: rows, ..tables }
}

/// Hashes `password` under a fresh salt, as the policy says. A policy that
/// Argon2 refuses, such as one with more lanes than it takes, fails the
/// hashing.
pub fn compute_password_hash(password: &str, policy: &HashingPolicy) -> (res: Result<
    String,
    AuthError,
>)
    ensures
        res matches Ok(hash) ==> checked(hash@, encode_utf8(password@)) == Some(true),
        res matches Err(e) ==> e@ == AuthFailure::UnexpectedError(HASHING_FAILED@),
        policy.parallelism > MAX_PARALLELISM ==> res is Err,
{
    if policy.parallelism > MAX_PARALLELISM {
        return Err(AuthError::UnexpectedError(String::from_str(HASHING_FAILED)));
    }
    match hash_password(password.as_bytes(), policy) {
        Some(hash) => Ok(hash),
        None => Err(AuthError::UnexpectedError(String::from_str(HASHING_FAILED))),
    }
}

/// Gives the user `user_id` the hash `password_hash`.
pub fn set_password_hash(user_id: u128, password_hash: &String, store: &mut Store)
    requires
        old(store)@.wf(),
    ensures
        final(store)@.wf(),
        final(store)@ == with_users(
            old(store)@,
            rehashed(old(store)@.users, user_id, password_hash@),
        ),
{
    let ghost before = store@;
    let ghost rows = before.users;
    let n: usize = store.users.len();
    let mut i: usize = 0;
    while i < n
        invariant
            i <= n,
            n == store.users.len(),
            rows.len() == n,
            store@ == with_users(before, store@.users),
            forall|j: int|
                0 <= j < i ==> (#[trigger] store@.users[j]) == rehashed_row(
                    rows[j],
                    user_id,
                    password_hash@,
                ),
            forall|j: int| i <= j < n ==> (#[trigger] store@.users[j]) == rows[j],
        decreases n - i,
    {
        if store.users[i].user_id == user_id {
            let ghost so_far = store@.users;
            proof {
                assert(so_far[i as int] == store.users@[i as int]@);
            }
            let row = User {
                user_id,
                username: store.users[i].username.clone(),
                password_hash: password_hash.clone(),
            };
            store.users.set(i, row);
            proof {
                assert(store@.users =~= so_far.update(
                    i as int,
                    rehashed_row(rows[i as int], user_id, password_hash@),
                ));
            }
        }
        i += 1;
    }
    proof {
        let after = store@.users;
        assert(after =~= rehashed(rows, user_id, password_hash@));
    }
}

/// Changes the password of the user `user_id`: hashes `password` under a
/// fresh salt and stores the hash. Where the hashing fails, nothing is
/// stored. The new password passes the check against what is stored.
pub fn change_password(user_id: u128, password: String, store: &mut Store, policy: &HashingPolicy) -> (res:
    Result<(), AuthError>)
    requires
        old(store)@.wf(),
    ensures
        final(store)@.wf(),
        res is Ok ==> exists|hash: Seq<char>|
            checked(hash, encode_utf8(password@)) == Some(true) && final(store)@
                == with_users(old(store)@, #[trigger] rehashed(old(store)@.users, user_id, hash)),
        res matches Err(e) ==> e@ == AuthFailure::UnexpectedError(HASHING_FAILED@)
            && final(store)@ == old(store)@,
{
    match compute_password_hash(password.as_str(), policy) {
        Err(e) => Err(e),
        Ok(hash) => {
            set_password_hash(user_id, &hash, store);
            Ok(())
        },
    }
}

/// Why a password is not accepted as a new password.
#[non_exhaustive]
#[derive(Debug, Clone, Copy, PartialEq, Eq, Structural)]
pub enum ValidationError {
    ToShort,
    ToLong,
}

/// The least number of bytes of a password.
pub const MIN_PASSWORD_BYTES: usize = 12;

/// The greatest number of bytes of a password.
pub const MAX_PASSWORD_BYTES: usize = 128;

impl ValidationError {
    /// The text shown for this refusal.
    pub open spec fn spec_message(self) -> Seq<char> {
        match self {
            ValidationError::ToShort => PASSWORD_TOO_SHORT@,
            ValidationError::ToLong => PASSWORD_TOO_LONG@,
        }
    }

    /// The text shown for this refusal.
    pub fn to_string(&self) -> (text: String)
        ensures
            text@ == self.spec_message(),
    {
        match self {
            ValidationError::ToShort => String::from_str(PASSWORD_TOO_SHORT),
            ValidationError::ToLong => String::from_str(PASSWORD_TOO_LONG),
        }
    }
}

/// What is answered when a password of `bytes` bytes is checked.
pub open spec fn password_length_check(bytes: nat) -> Result<(), ValidationError> {
    if bytes < MIN_PASSWORD_BYTES {
        Err(ValidationError::ToShort)
    } else if bytes > MAX_PASSWORD_BYTES {
        Err(ValidationError::ToLong)
    } else {
        Ok(())
    }
}

/// Accepts a password of 12 to 128 bytes.
pub fn validate_password(password: &str) -> (res: Result<(), ValidationError>)
    ensures
        res == password_length_check(encode_utf8(password@).len()),
{
    let n: usize = password.as_bytes().len();
    if n < MIN_PASSWORD_BYTES {
        Err(ValidationError::ToShort)
    } else if n > MAX_PASSWORD_BYTES {
        Err(ValidationError::ToLong)
    } else {
        Ok(())
    }
}

} // verus!
