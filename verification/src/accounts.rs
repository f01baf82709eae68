//! Registration, login and the lookup of the current identity.
//!
//! Emails are compared without regard to case: they are stored in lower case,
//! and a lookup lowers the email it is given. A failed login says the same
//! whether the email is unknown or the password is wrong.

use crate::dates::Date;
use crate::error::{AppError, AuthFailure};
use crate::identity::{
    bearer_prefix, extract_at, generate_token_at, recognised_until, spec_bearer_token,
    spec_extract_at, RequestMetadata,
};
use crate::ids::{spec_hyphenated, Id};
use crate::models::user::{AuthResponse, LoginCredentials, RegisterRequest, User};
use crate::password::{argon2_accepts, argon2_digest, draw_salt, hash_with_salt, verify};
use crate::token::{clock_reading, TokenService, TOKEN_LIFETIME};
use vstd::prelude::*;
use vstd::utf8::encode_utf8;

verus! {

/// The least number of bytes of a password.
pub const MIN_PASSWORD_LENGTH: usize = 8;

/// The lower-case form of a text, as `str::to_lowercase` gives it.
pub uninterp spec fn lowercased(text: Seq<char>) -> Seq<char>;

/// Calls `str::to_lowercase`. Trusted: the result depends on the text alone.
#[verifier::external_body]
fn to_lowercase(text: &str) -> (lower: String)
    ensures
        lower@ == lowercased(text@),
{
    text.to_lowercase()
}

/// The form of an email under which it is stored and looked up.
pub fn normalize_email(email: &str) -> (lower: String)
    ensures
        lower@ == lowercased(email@),
{
    to_lowercase(email)
}

/// Why a registration is refused.
#[derive(Clone, Copy, Debug, PartialEq, Eq, Structural)]
pub enum RegistrationFault {
    /// The email has no `@`.
    InvalidEmail,
    /// The password is shorter than eight bytes.
    ShortPassword,
    /// An identity with this email exists.
    EmailTaken,
    /// The hashing engine failed.
    HashingFailed,
    /// The birth date is not a date written as year, month and day.
    InvalidBirthDate,
    /// The store refused the new identity.
    StoreRefused,
}

impl RegistrationFault {
    /// The error that reports this fault.
    pub open spec fn spec_error(&self, e: AppError) -> bool {
        match self {
            RegistrationFault::InvalidEmail => e matches AppError::Validation(m) && m@
                == "Invalid email format"@,
            RegistrationFault::ShortPassword => e matches AppError::Validation(m) && m@
                == "Password must be at least 8 characters"@,
            RegistrationFault::EmailTaken => e matches AppError::Conflict(m) && m@
                == "Email already registered"@,
            RegistrationFault::HashingFailed => e == AppError::Internal,
            RegistrationFault::InvalidBirthDate => e matches AppError::Validation(m) && m@
                == "Invalid birth_date format"@,
            RegistrationFault::StoreRefused => e == AppError::Database,
        }
    }

    /// The error that reports this fault.
    pub fn to_app_error(&self) -> (e: AppError)
        ensures
            self.spec_error(e),
    {
        match self {
            RegistrationFault::InvalidEmail => AppError::Validation(
                "Invalid email format".to_owned(),
            ),
            RegistrationFault::ShortPassword => AppError::Validation(
                "Password must be at least 8 characters".to_owned(),
            ),
            RegistrationFault::EmailTaken => AppError::Conflict(
                "Email already registered".to_owned(),
            ),
            RegistrationFault::HashingFailed => AppError::Internal,
            RegistrationFault::InvalidBirthDate => AppError::Validation(
                "Invalid birth_date format".to_owned(),
            ),
            RegistrationFault::StoreRefused => AppError::Database,
        }
    }
}

/// Whether an identity among `users` has the email `email`.
pub open spec fn email_taken(users: Seq<User>, email: Seq<char>) -> bool {
    exists|i: int| 0 <= i < users.len() && (#[trigger] users[i]).email@ == email
}

/// Whether an identity among `users` has the identifier `id`.
pub open spec fn id_taken(users: Seq<User>, id: Id) -> bool {
    exists|i: int| 0 <= i < users.len() && (#[trigger] users[i]).id == id
}

/// The birth date of a request: none given, a date, or a text that is none.
pub open spec fn spec_birth_date(text: Option<String>) -> Result<Option<Date>, ()> {
    match text {
        None => Ok(None),
        Some(t) => match Date::spec_parse(t@) {
            Some(date) => Ok(Some(date)),
            None => Err(()),
        },
    }
}

/// What the form of a request's email and password says: the first fault, or
/// none.
pub open spec fn spec_form_fault(request: RegisterRequest) -> Option<RegistrationFault> {
    if !request.email@.contains('@') {
        Some(RegistrationFault::InvalidEmail)
    } else if encode_utf8(request.password@).len() < MIN_PASSWORD_LENGTH {
        Some(RegistrationFault::ShortPassword)
    } else {
        None
    }
}

/// The first fault of a registration whose form is sound, or none: the email
/// is taken, the password cannot be hashed under `salt`, or the birth date is
/// no date.
pub open spec fn spec_build_fault(request: RegisterRequest, taken: bool, salt: Seq<char>) -> Option<
    RegistrationFault,
> {
    if taken {
        Some(RegistrationFault::EmailTaken)
    } else if argon2_digest(request.password@, salt) is None {
        Some(RegistrationFault::HashingFailed)
    } else if spec_birth_date(request.birth_date) is Err {
        Some(RegistrationFault::InvalidBirthDate)
    } else {
        None
    }
}

/// The first fault of a registration against the identities stored, or none.
pub open spec fn spec_registration_fault(
    users: Seq<User>,
    id: Id,
    request: RegisterRequest,
    salt: Seq<char>,
) -> Option<RegistrationFault> {
    if spec_form_fault(request) is Some {
        spec_form_fault(request)
    } else if spec_build_fault(request, email_taken(users, lowercased(request.email@)), salt)
        is Some {
        spec_build_fault(request, email_taken(users, lowercased(request.email@)), salt)
    } else if id_taken(users, id) {
        Some(RegistrationFault::StoreRefused)
    } else {
        None
    }
}

/// Whether a text holds the character `@`.
pub fn has_at_sign(text: &str) -> (found: bool)
    ensures
        found == text@.contains('@'),
{
    let mut found: bool = false;
    for c in it: text.chars()
        invariant
            it.seq() == text@,
            found == text@.take(it.index() as int).contains('@'),
    {
        proof {
            let i = it.index() as int;
            assert(text@.take(i + 1) =~= text@.take(i).push(text@[i]));
            if text@.take(i).contains('@') {
                let k = choose|k: int| 0 <= k < i && text@.take(i)[k] == '@';
                assert(text@.take(i + 1)[k] == '@');
            }
            if text@[i] == '@' {
                assert(text@.take(i + 1)[i] == '@');
            }
        }
        if c == '@' {
            found = true;
        }
    }
    assert(text@.take(text@.len() as int) =~= text@);
    found
}

/// Checks the form of a registration and gives the email in lower case, as it
/// is stored and looked up.
pub fn check_registration(request: &RegisterRequest) -> (r: Result<String, RegistrationFault>)
    ensures
        match r {
            Ok(email) => spec_form_fault(*request) is None && email@ == lowercased(
                request.email@,
            ),
            Err(fault) => spec_form_fault(*request) == Some(fault),
        },
{
    if !has_at_sign(request.email.as_str()) {
        return Err(RegistrationFault::InvalidEmail);
    }
    if request.password.as_str().as_bytes().len() < MIN_PASSWORD_LENGTH {
        return Err(RegistrationFault::ShortPassword);
    }
    Ok(to_lowercase(request.email.as_str()))
}

/// Reads the birth date of a request.
pub fn parse_birth_date(text: &Option<String>) -> (r: Result<Option<Date>, RegistrationFault>)
    ensures
        match r {
            Ok(date) => spec_birth_date(*text) == Ok::<Option<Date>, ()>(date),
            Err(fault) => fault == RegistrationFault::InvalidBirthDate && spec_birth_date(*text)
                is Err,
        },
{
    match text {
        None => Ok(None),
        Some(t) => match Date::parse(t.as_str()) {
            Some(date) => Ok(Some(date)),
            None => Err(RegistrationFault::InvalidBirthDate),
        },
    }
}

/// Makes the identity to store from the parts of a registration whose form
/// is sound: the email in lower case, whether the store holds an identity
/// with it, and the digest of the password, or none where hashing failed.
///
/// A taken email is reported first, then failed hashing, then a birth date
/// that is no date. The identity carries the digest, never the password.
pub fn assemble_user(
    id: Id,
    request: RegisterRequest,
    email: String,
    taken: bool,
    digest: Option<String>,
    now: i64,
) -> (r: Result<User, RegistrationFault>)
    ensures
        match r {
            Ok(user) => {
                &&& !taken
                &&& digest == Some(user.password_hash)
                &&& user.id == id
                &&& user.email == email
                &&& user.name == request.name
                &&& user.address == request.address
                &&& user.phone == request.phone
                &&& spec_birth_date(request.birth_date) == Ok::<Option<Date>, ()>(user.birth_date)
                &&& user.birth_place == request.birth_place
                &&& user.created_at == Some(now)
                &&& user.updated_at == Some(now)
            },
            Err(fault) => fault == if taken {
                RegistrationFault::EmailTaken
            } else if digest is None {
                RegistrationFault::HashingFailed
            } else {
                RegistrationFault::InvalidBirthDate
            } && (taken || digest is None || spec_birth_date(request.birth_date) is Err),
        },
{
    if taken {
        return Err(RegistrationFault::EmailTaken);
    }
    let password_hash: String = match digest {
        Some(digest) => digest,
        None => {
            return Err(RegistrationFault::HashingFailed);
        },
    };
    let birth_date: Option<Date> = match parse_birth_date(&request.birth_date) {
        Ok(date) => date,
        Err(fault) => {
            return Err(fault);
        },
    };
    Ok(
        User {
            id,
            email,
            password_hash,
            name: request.name,
            address: request.address,
            phone: request.phone,
            birth_date,
            birth_place: request.birth_place,
            created_at: Some(now),
            updated_at: Some(now),
        },
    )
}

/// Makes the identity to store for a registration whose form is sound, with
/// the password hashed under `salt`.
///
/// `email` is the email in lower case, and `taken` says whether the store
/// holds an identity with it.
pub fn build_user(
    id: Id,
    request: RegisterRequest,
    email: String,
    taken: bool,
    salt: &str,
    now: i64,
) -> (r: Result<User, RegistrationFault>)
    ensures
        match r {
            Ok(user) => {
                &&& spec_build_fault(request, taken, salt@) is None
                &&& user.id == id
                &&& user.email == email
                &&& argon2_digest(request.password@, salt@) == Some(user.password_hash@)
                &&& argon2_accepts(request.password@, user.password_hash@)
                &&& user.name == request.name
                &&& user.address == request.address
                &&& user.phone == request.phone
                &&& spec_birth_date(request.birth_date) == Ok::<Option<Date>, ()>(user.birth_date)
                &&& user.birth_place == request.birth_place
                &&& user.created_at == Some(now)
                &&& user.updated_at == Some(now)
            },
            Err(fault) => spec_build_fault(request, taken, salt@) == Some(fault),
        },
{
    if taken {
        return Err(RegistrationFault::EmailTaken);
    }
    let digest: Option<String> = match hash_with_salt(request.password.as_str(), salt) {
        Ok(digest) => Some(digest),
        Err(_) => None,
    };
    assemble_user(id, request, email, taken, digest, now)
}

/// Makes the identity to store for a registration whose form is sound, with
/// the password hashed under a fresh salt.
pub fn new_user(id: Id, request: RegisterRequest, email: String, taken: bool, now: i64) -> (r:
    Result<User, RegistrationFault>)
    ensures
        taken ==> r == Err::<User, RegistrationFault>(RegistrationFault::EmailTaken),
        !taken && spec_birth_date(request.birth_date) is Err ==> r is Err,
        match r {
            Ok(user) => {
                &&& !taken
                &&& user.id == id
                &&& user.email == email
                &&& argon2_accepts(request.password@, user.password_hash@)
                &&& user.name == request.name
                &&& user.address == request.address
                &&& user.phone == request.phone
                &&& spec_birth_date(request.birth_date) == Ok::<Option<Date>, ()>(user.birth_date)
                &&& user.birth_place == request.birth_place
                &&& user.created_at == Some(now)
                &&& user.updated_at == Some(now)
            },
            Err(fault) => exists|salt: Seq<char>| #[trigger]
                spec_build_fault(request, taken, salt) == Some(fault),
        },
{
    let salt: String = draw_salt();
    let r = build_user(id, request, email, taken, salt.as_str(), now);
    proof {
        if let Err(fault) = r {
            assert(spec_build_fault(request, taken, salt@) == Some(fault));
        }
    }
    r
}

/// Whether no two of `users` share an identifier, and no two an email.
pub open spec fn identities_distinct(users: Seq<User>) -> bool {
    forall|i: int, j: int|
        0 <= i < j < users.len() ==> (#[trigger] users[i]).id != (#[trigger] users[j]).id
            && users[i].email@ != users[j].email@
}

/// The identities of the system, each with its own identifier and email.
pub struct UserDirectory {
    users: Vec<User>,
}

impl View for UserDirectory {
    type V = Seq<User>;

    closed spec fn view(&self) -> Seq<User> {
        self.users@
    }
}

impl UserDirectory {
    /// No two identities share an identifier, and no two an email.
    pub open spec fn wf(&self) -> bool {
        identities_distinct(self@)
    }

    /// A directory without identities.
    pub fn new() -> (directory: UserDirectory)
        ensures
            directory@ == Seq::<User>::empty(),
            directory.wf(),
    {
        UserDirectory { users: Vec::new() }
    }

    /// The number of identities.
    pub fn len(&self) -> (n: usize)
        ensures
            n == self@.len(),
    {
        self.users.len()
    }

    /// The identity with the email `email`, which is taken letter for letter.
    pub fn find_by_email(&self, email: &str) -> (r: Option<&User>)
        ensures
            match r {
                Some(user) => self@.contains(*user) && user.email@ == email@,
                None => !email_taken(self@, email@),
            },
    {
        let key: String = email.to_owned();
        let mut i: usize = 0;
        while i < self.users.len()
            invariant
                i <= self.users.len(),
                key@ == email@,
                forall|j: int| 0 <= j < i ==> (#[trigger] self.users@[j]).email@ != email@,
            decreases self.users.len() - i,
        {
            if self.users[i].email == key {
                assert(self@[i as int] == self.users@[i as int]);
                return Some(&self.users[i]);
            }
            i = i + 1;
        }
        None
    }

    /// The identity with the identifier `id`.
    pub fn find_by_id(&self, id: Id) -> (r: Option<&User>)
        ensures
            match r {
                Some(user) => self@.contains(*user) && user.id == id,
                None => !id_taken(self@, id),
            },
    {
        let mut i: usize = 0;
        while i < self.users.len()
            invariant
                i <= self.users.len(),
                forall|j: int| 0 <= j < i ==> (#[trigger] self.users@[j]).id != id,
            decreases self.users.len() - i,
        {
            if self.users[i].id == id {
                assert(self@[i as int] == self.users@[i as int]);
                return Some(&self.users[i]);
            }
            i = i + 1;
        }
        None
    }

    /// Stores an identity. The store refuses one whose identifier or email is
    /// taken, and is then unchanged.
    pub fn insert(&mut self, user: User) -> (r: Result<(), AppError>)
        requires
            old(self).wf(),
        ensures
            final(self).wf(),
            match r {
                Ok(()) => !id_taken(old(self)@, user.id) && !email_taken(old(self)@, user.email@)
                    && final(self)@ == old(self)@.push(user),
                Err(e) => e == AppError::Database && (id_taken(old(self)@, user.id) || email_taken(
                    old(self)@,
                    user.email@,
                )) && final(self)@ == old(self)@,
            },
    {
        if self.find_by_id(user.id).is_some() {
            return Err(AppError::Database);
        }
        if self.find_by_email(user.email.as_str()).is_some() {
            return Err(AppError::Database);
        }
        self.users.push(user);
        Ok(())
    }
}

/// What a registration leaves behind and answers, given the identities stored
/// before, the salt drawn and the clock's reading.
///
/// The request is checked in this order: the email's form, the password's
/// length, whether the email is taken, the hashing, the birth date, the
/// store. The first fault is reported and nothing is stored. Without a fault
/// the identity is stored, and the answer carries it with a token that is
/// recognised as the identity's for 24 hours; only where no token can be
/// issued for the clock's reading is the answer an internal error.
pub open spec fn spec_register_outcome(
    before: Seq<User>,
    after: Seq<User>,
    tokens: &TokenService,
    id: Id,
    request: RegisterRequest,
    salt: Seq<char>,
    now: i64,
    r: Result<AuthResponse, AppError>,
) -> bool {
    match spec_registration_fault(before, id, request, salt) {
        Some(fault) => r matches Err(e) && fault.spec_error(e) && after == before,
        None => {
            &&& after.len() == before.len() + 1
            &&& after.take(before.len() as int) == before
            &&& registered(after.last(), id, request, salt, now)
            &&& match r {
                Ok(response) => response.user == after.last() && recognised_until(
                    tokens,
                    response.token@,
                    id,
                    now + TOKEN_LIFETIME,
                ),
                Err(e) => e == AppError::Internal && tokens.spec_issue_at(
                    spec_hyphenated(id.0),
                    now,
                ) is None,
            }
        },
    }
}

/// Registers an identity as if the salt drawn were `salt` and the clock
/// showed `now`.
pub fn register_at(
    users: &mut UserDirectory,
    tokens: &TokenService,
    id: Id,
    request: RegisterRequest,
    salt: &str,
    now: i64,
) -> (r: Result<AuthResponse, AppError>)
    requires
        old(users).wf(),
    ensures
        final(users).wf(),
        spec_register_outcome(old(users)@, final(users)@, tokens, id, request, salt@, now, r),
{
    let email: String = match check_registration(&request) {
        Ok(email) => email,
        Err(fault) => {
            return Err(fault.to_app_error());
        },
    };
    let taken: bool = users.find_by_email(email.as_str()).is_some();
    let user: User = match build_user(id, request, email, taken, salt, now) {
        Ok(user) => user,
        Err(fault) => {
            return Err(fault.to_app_error());
        },
    };
    let copy: User = user.clone();
    match users.insert(user) {
        Ok(()) => {},
        Err(_) => {
            return Err(RegistrationFault::StoreRefused.to_app_error());
        },
    }
    proof {
        assert(users@.take(old(users)@.len() as int) =~= old(users)@);
    }
    match generate_token_at(tokens, &id, now) {
        Ok(token) => Ok(AuthResponse { token, user: copy }),
        Err(e) => Err(e),
    }
}

/// Registers an identity: draws a fresh salt, reads the clock, and does what
/// [`register_at`] does with them.
///
/// A fault in the request's form or a taken email is reported whatever salt
/// and clock. An answer that carries an identity carries the one stored last,
/// whose digest the request's password verifies against.
pub fn register(
    users: &mut UserDirectory,
    tokens: &TokenService,
    id: Id,
    request: RegisterRequest,
) -> (r: Result<AuthResponse, AppError>)
    requires
        old(users).wf(),
    ensures
        final(users).wf(),
        exists|salt: Seq<char>, now: i64| #[trigger]
            spec_register_outcome(old(users)@, final(users)@, tokens, id, request, salt, now, r),
        spec_form_fault(request) matches Some(fault) ==> (r matches Err(e) && fault.spec_error(e)
            && final(users)@ == old(users)@),
        spec_form_fault(request) is None && email_taken(old(users)@, lowercased(request.email@))
            ==> (r matches Err(e) && RegistrationFault::EmailTaken.spec_error(e) && final(users)@
            == old(users)@),
        r matches Ok(response) ==> final(users)@ == old(users)@.push(response.user)
            && argon2_accepts(request.password@, response.user.password_hash@),
{
    let salt: String = draw_salt();
    let now: i64 = clock_reading();
    let r = register_at(users, tokens, id, request, salt.as_str(), now);
    proof {
        assert(spec_register_outcome(old(users)@, users@, tokens, id, request, salt@, now, r));
        if r is Ok {
            assert(users@ =~= old(users)@.push(users@.last()));
        }
    }
    r
}

/// Whether the identity at `at` has the email of the credentials, lowered, and
/// a digest that their password verifies against.
pub open spec fn credentials_match(users: Seq<User>, credentials: LoginCredentials, at: int) -> bool {
    &&& 0 <= at < users.len()
    &&& users[at].email@ == lowercased(credentials.email@)
    &&& argon2_accepts(credentials.password@, users[at].password_hash@)
}

/// Whether some identity matches the credentials.
pub open spec fn credentials_known(users: Seq<User>, credentials: LoginCredentials) -> bool {
    exists|at: int| credentials_match(users, credentials, at)
}

/// Credentials match one identity at most: the one that has their email.
/// So two identities that share a password log in each as itself.
pub proof fn credentials_match_one_identity(
    users: Seq<User>,
    credentials: LoginCredentials,
    a: int,
    b: int,
)
    requires
        identities_distinct(users),
        credentials_match(users, credentials, a),
        credentials_match(users, credentials, b),
    ensures
        a == b,
{
    if a < b {
        assert(users[a].email@ != users[b].email@);
    } else if b < a {
        assert(users[b].email@ != users[a].email@);
    }
}

/// The one message of a failed login.
pub open spec fn invalid_credentials() -> Seq<char> {
    "Invalid email or password"@
}

/// Decides on a login from what was found: the identity with the email, if
/// there is one, and whether the password verifies against its digest. An
/// unknown email and a password that does not verify give the same
/// authentication error.
pub fn decide_login<'a>(found: Option<&'a User>, accepted: bool) -> (r: Result<&'a User, AppError>)
    ensures
        match r {
            Ok(user) => found == Some(user) && accepted,
            Err(e) => (found is None || !accepted) && (e matches AppError::Auth(m) && m@
                == invalid_credentials()),
        },
{
    match found {
        Some(user) => {
            if accepted {
                Ok(user)
            } else {
                Err(AppError::Auth("Invalid email or password".to_owned()))
            }
        },
        None => Err(AppError::Auth("Invalid email or password".to_owned())),
    }
}

/// Checks credentials against the identities stored.
///
/// The identity is looked up by the email in lower case and the password is
/// checked against its digest. An unknown email, a wrong password and a digest
/// that cannot be checked all give the same authentication error.
pub fn authenticate<'a>(users: &'a UserDirectory, credentials: &LoginCredentials) -> (r: Result<
    &'a User,
    AppError,
>)
    requires
        users.wf(),
    ensures
        match r {
            Ok(user) => exists|at: int|
                credentials_match(users@, *credentials, at) && users@[at] == *user,
            Err(e) => !credentials_known(users@, *credentials) && (e matches AppError::Auth(m)
                && m@ == invalid_credentials()),
        },
{
    let email: String = normalize_email(credentials.email.as_str());
    let found: Option<&User> = users.find_by_email(email.as_str());
    let accepted: bool = match found {
        Some(user) => verify(credentials.password.as_str(), user.password_hash.as_str()),
        None => false,
    };
    proof {
        match found {
            Some(user) => {
                let at = choose|i: int| 0 <= i < users@.len() && users@[i] == *user;
                if accepted {
                    assert(credentials_match(users@, *credentials, at));
                } else {
                    assert forall|k: int| !credentials_match(users@, *credentials, k) by {
                        if credentials_match(users@, *credentials, k) {
                            assert(users@[k].email@ == users@[at].email@);
                            assert(k == at);
                        }
                    }
                }
            },
            None => {},
        }
    }
    decide_login(found, accepted)
}

/// Whether a login succeeds at `now`: some identity matches the credentials,
/// and a token can be issued for it at that reading of the clock.
pub open spec fn can_log_in_at(
    users: Seq<User>,
    tokens: &TokenService,
    credentials: LoginCredentials,
    now: i64,
) -> bool {
    exists|at: int|
        credentials_match(users, credentials, at) && tokens.spec_issue_at(
            spec_hyphenated(users[at].id.0),
            now,
        ) is Some
}

/// Logs an identity in as if the clock showed `now`.
///
/// Credentials that match no identity are an authentication error, never a
/// "not found". Matching credentials are answered with the identity and a
/// token that is recognised as its own for 24 hours; only where no token can
/// be issued for the clock's reading is the answer an internal error.
pub fn login_at(
    users: &UserDirectory,
    tokens: &TokenService,
    credentials: &LoginCredentials,
    now: i64,
) -> (r: Result<AuthResponse, AppError>)
    requires
        users.wf(),
    ensures
        match r {
            Ok(response) => {
                &&& exists|at: int|
                    credentials_match(users@, *credentials, at) && users@[at] == response.user
                &&& recognised_until(
                    tokens,
                    response.token@,
                    response.user.id,
                    now + TOKEN_LIFETIME,
                )
            },
            Err(e) => if credentials_known(users@, *credentials) {
                e == AppError::Internal
            } else {
                e matches AppError::Auth(m) && m@ == invalid_credentials()
            },
        },
        r is Ok <==> can_log_in_at(users@, tokens, *credentials, now),
{
    let user: &User = match authenticate(users, credentials) {
        Ok(user) => user,
        Err(e) => {
            return Err(e);
        },
    };
    let ghost found = choose|at: int|
        credentials_match(users@, *credentials, at) && users@[at] == *user;
    proof {
        assert forall|at: int| credentials_match(users@, *credentials, at) implies at
            == found by {
            assert(users@[at].email@ == users@[found].email@);
        }
    }
    match generate_token_at(tokens, &user.id, now) {
        Ok(token) => Ok(AuthResponse { token, user: user.clone() }),
        Err(e) => Err(e),
    }
}

/// Logs an identity in: reads the clock and does what [`login_at`] does.
///
/// Credentials that match no identity are an authentication error whatever
/// the clock shows. Matching credentials log in exactly where a token can be
/// issued for the clock's reading.
pub fn login(users: &UserDirectory, tokens: &TokenService, credentials: &LoginCredentials) -> (r:
    Result<AuthResponse, AppError>)
    requires
        users.wf(),
    ensures
        exists|now: i64| r is Ok <==> #[trigger] can_log_in_at(users@, tokens, *credentials, now),
        match r {
            Ok(response) => {
                &&& exists|at: int|
                    credentials_match(users@, *credentials, at) && users@[at] == response.user
                &&& exists|now: i64| #[trigger]
                    recognised_until(
                        tokens,
                        response.token@,
                        response.user.id,
                        now + TOKEN_LIFETIME,
                    )
            },
            Err(e) => if credentials_known(users@, *credentials) {
                e == AppError::Internal
            } else {
                e matches AppError::Auth(m) && m@ == invalid_credentials()
            },
        },
{
    let now: i64 = clock_reading();
    let r = login_at(users, tokens, credentials, now);
    proof {
        assert(r is Ok <==> can_log_in_at(users@, tokens, *credentials, now));
        if let Ok(response) = &r {
            assert(recognised_until(
                tokens,
                response.token@,
                response.user.id,
                now + TOKEN_LIFETIME,
            ));
        }
    }
    r
}

/// The message for a token whose identity is not stored.
pub open spec fn user_not_found() -> Seq<char> {
    "User not found"@
}

/// Looks up the caller of a request as if the clock showed `now`.
///
/// A request whose caller cannot be identified is answered with the
/// authentication error of the failure, and so is one whose caller is not
/// stored.
pub fn get_current_user_at<'a>(
    users: &'a UserDirectory,
    tokens: &TokenService,
    request: &RequestMetadata,
    now: i64,
) -> (r: Result<&'a User, AppError>)
    ensures
        match spec_extract_at(tokens, request.spec_authorization(), now) {
            Ok(id) => if id_taken(users@, id) {
                r matches Ok(user) && user.id == id && users@.contains(*user)
            } else {
                r matches Err(AppError::Auth(m)) && m@ == user_not_found()
            },
            Err(failure) => r matches Err(AppError::Auth(m)) && m@ == failure.spec_message(),
        },
{
    match extract_at(tokens, request, now) {
        Err(failure) => Err(failure.to_app_error()),
        Ok(id) => match users.find_by_id(id) {
            Some(user) => Ok(user),
            None => Err(AppError::Auth("User not found".to_owned())),
        },
    }
}

/// Looks up the caller of a request: reads the clock and does what
/// [`get_current_user_at`] does.
///
/// A request without a credential in the bearer form is answered with the
/// error of a missing credential whatever the clock shows. Any other request
/// is answered as [`get_current_user_at`] answers for the clock's reading:
/// with the stored identity of the caller, with the error of a caller that
/// is not stored, or with the error of the failure to identify one.
pub fn get_current_user<'a>(
    users: &'a UserDirectory,
    tokens: &TokenService,
    request: &RequestMetadata,
) -> (r: Result<&'a User, AppError>)
    ensures
        exists|now: i64|
            match #[trigger] spec_extract_at(tokens, request.spec_authorization(), now) {
                Ok(id) => if id_taken(users@, id) {
                    r matches Ok(user) && user.id == id && users@.contains(*user)
                } else {
                    r matches Err(AppError::Auth(m)) && m@ == user_not_found()
                },
                Err(failure) => r matches Err(AppError::Auth(m)) && m@ == failure.spec_message(),
            },
        spec_bearer_token(request.spec_authorization()) is None ==> (r matches Err(
            AppError::Auth(m),
        ) && m@ == AuthFailure::MissingOrInvalidCredential.spec_message()),
{
    let now: i64 = clock_reading();
    get_current_user_at(users, tokens, request, now)
}

/// The token that a registration answers with finds the identity that the
/// registration stored: at every reading of the clock up to 24 hours after
/// the registration, a request that carries the token in the bearer form is
/// the request of that identity, and the identity is among those stored.
pub proof fn registration_token_finds_the_identity(
    before: Seq<User>,
    after: Seq<User>,
    tokens: &TokenService,
    id: Id,
    request: RegisterRequest,
    salt: Seq<char>,
    now: i64,
    response: AuthResponse,
    at: i64,
)
    requires
        spec_register_outcome(
            before,
            after,
            tokens,
            id,
            request,
            salt,
            now,
            Ok::<AuthResponse, AppError>(response),
        ),
        at <= now + TOKEN_LIFETIME,
    ensures
        spec_extract_at(tokens, Some(bearer_prefix() + response.token@), at) == Ok::<
            Id,
            AuthFailure,
        >(id),
        id_taken(after, id),
        response.user.id == id,
        after.contains(response.user),
        argon2_accepts(request.password@, response.user.password_hash@),
{
    assert(after[after.len() - 1].id == id);
    assert(after[after.len() - 1] == response.user);
}

/// Whether `user` is the identity that a sound registration stores.
pub open spec fn registered(
    user: User,
    id: Id,
    request: RegisterRequest,
    salt: Seq<char>,
    now: i64,
) -> bool {
    &&& user.id == id
    &&& user.email@ == lowercased(request.email@)
    &&& argon2_digest(request.password@, salt) == Some(user.password_hash@)
    &&& argon2_accepts(request.password@, user.password_hash@)
    &&& user.name == request.name
    &&& user.address == request.address
    &&& user.phone == request.phone
    &&& spec_birth_date(request.birth_date) == Ok::<Option<Date>, ()>(user.birth_date)
    &&& user.birth_place == request.birth_place
    &&& user.created_at == Some(now)
    &&& user.updated_at == Some(now)
}

} // verus!
