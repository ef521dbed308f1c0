use vstd::prelude::*;

use crate::error::ServiceError;
use crate::lookup::{first_index, first_index_from, lemma_first_index_found, lemma_first_index_push};
use crate::secrets::{fresh_token, hash_password, password_matches, verify_password};
use crate::text::{copy_optional, lower_of, lowercase};

verus! {

/// A stored account: the username, a one-way digest of the password, profile
/// attributes and the staff flag.
pub struct Account {
    pub username: String,
    pub password_digest: String,
    pub email: Option<String>,
    pub first_name: Option<String>,
    pub last_name: Option<String>,
    pub is_staff: bool,
}

/// The identity record a token resolves to: an account without its digest.
#[derive(Debug)]
pub struct Identity {
    pub username: String,
    pub email: Option<String>,
    pub first_name: Option<String>,
    pub last_name: Option<String>,
    pub is_staff: bool,
}

/// An issued token and the username that owns it.
pub struct TokenRecord {
    pub token: String,
    pub username: String,
}

/// What a caller hands in to register an account.
pub struct Registration {
    pub username: String,
    pub password: String,
    pub email: Option<String>,
    pub first_name: Option<String>,
    pub last_name: Option<String>,
    pub is_staff: Option<bool>,
}

/// What a successful login hands back.
#[derive(Debug)]
pub struct LoginGrant {
    pub token: String,
    pub is_staff: bool,
}

/// Owns the accounts and the tokens issued for them.
pub struct IdentityAuthority {
    accounts: Vec<Account>,
    tokens: Vec<TokenRecord>,
}

pub open spec fn identity_of(a: Account) -> Identity {
    Identity {
        username: a.username,
        email: a.email,
        first_name: a.first_name,
        last_name: a.last_name,
        is_staff: a.is_staff,
    }
}

/// The account that registration stores for `reg`, with the digest computed for it.
pub open spec fn account_for(reg: Registration, digest: String) -> Account {
    Account {
        username: reg.username,
        password_digest: digest,
        email: reg.email,
        first_name: reg.first_name,
        last_name: reg.last_name,
        is_staff: match reg.is_staff {
            Some(b) => b,
            None => false,
        },
    }
}

/// A login identifier names an account when it equals, ignoring case, either
/// the account's username or its email.
pub open spec fn login_matches(a: Account, id: Seq<char>) -> bool {
    lower_of(a.username@) == lower_of(id) || (a.email matches Some(e) && lower_of(e@) == lower_of(
        id,
    ))
}

pub open spec fn login_pred(id: Seq<char>) -> spec_fn(Account) -> bool {
    |a: Account| login_matches(a, id)
}

pub open spec fn username_pred(u: Seq<char>) -> spec_fn(Account) -> bool {
    |a: Account| a.username@ == u
}

pub open spec fn token_pred(t: Seq<char>) -> spec_fn(TokenRecord) -> bool {
    |r: TokenRecord| r.token@ == t
}

pub open spec fn username_taken(accts: Seq<Account>, u: Seq<char>) -> bool {
    exists|i: int| 0 <= i < accts.len() && #[trigger] accts[i].username@ == u
}

pub open spec fn token_issued(toks: Seq<TokenRecord>, t: Seq<char>) -> bool {
    exists|i: int| 0 <= i < toks.len() && #[trigger] toks[i].token@ == t
}

/// The identity a token resolves to: the token's record joined with its owner's account.
pub open spec fn resolved(accts: Seq<Account>, toks: Seq<TokenRecord>, t: Seq<char>) -> Option<
    Identity,
> {
    let ti = first_index(toks, token_pred(t));
    if ti < 0 {
        None
    } else {
        let ai = first_index(accts, username_pred(toks[ti].username@));
        if ai < 0 {
            None
        } else {
            Some(identity_of(accts[ai]))
        }
    }
}

/// The result of a login and the tokens afterwards, when `token` is the one generated.
pub open spec fn login_outcome(
    accts: Seq<Account>,
    toks: Seq<TokenRecord>,
    id: Seq<char>,
    pw: Seq<char>,
    token: String,
) -> (Result<LoginGrant, ServiceError>, Seq<TokenRecord>) {
    if id.len() == 0 || pw.len() == 0 {
        (Err(ServiceError::MissingCredentials), toks)
    } else {
        let i = first_index(accts, login_pred(id));
        if i < 0 || !password_matches(pw, accts[i].password_digest@) {
            (Err(ServiceError::InvalidCredentials), toks)
        } else if token@.len() == 0 || token_issued(toks, token@) {
            (Err(ServiceError::TokenRejected), toks)
        } else {
            (
                Ok(LoginGrant { token, is_staff: accts[i].is_staff }),
                toks.push(TokenRecord { token, username: accts[i].username }),
            )
        }
    }
}

/// The checks on a credential pair that need no store: neither part is empty.
pub fn check_credentials(identifier: &str, password: &str) -> (r: Result<(), ServiceError>)
    ensures
        identifier@.len() == 0 || password@.len() == 0 ==> r == Err::<(), ServiceError>(
            ServiceError::MissingCredentials,
        ),
        identifier@.len() > 0 && password@.len() > 0 ==> r == Ok::<(), ServiceError>(()),
{
    if identifier.is_empty() || password.is_empty() {
        Err(ServiceError::MissingCredentials)
    } else {
        Ok(())
    }
}

/// A salted digest of the password to store; `HashingFailed` when none can be computed.
pub fn digest_password(password: &str) -> (r: Result<String, ServiceError>)
    ensures
        r matches Ok(d) ==> password_matches(password@, d@) && d@.len() == 60,
        r is Err ==> r == Err::<String, ServiceError>(ServiceError::HashingFailed),
{
    match hash_password(password) {
        Some(d) => Ok(d),
        None => Err(ServiceError::HashingFailed),
    }
}

/// Decides a login from the digest of the account the identifier named, if it
/// named one: a missing account and a wrong password give the same error.
pub fn admit_login(password: &str, digest: Option<&str>) -> (r: Result<(), ServiceError>)
    ensures
        digest matches Some(d) && password_matches(password@, d@) ==> r == Ok::<(), ServiceError>(
            (),
        ),
        !(digest matches Some(d) && password_matches(password@, d@)) ==> r == Err::<
            (),
            ServiceError,
        >(ServiceError::InvalidCredentials),
{
    match digest {
        Some(d) => if verify_password(password, d) {
            Ok(())
        } else {
            Err(ServiceError::InvalidCredentials)
        },
        None => Err(ServiceError::InvalidCredentials),
    }
}

/// A new random token in its 36-character textual form.
pub fn issue_token() -> (r: String)
    ensures
        r@.len() == 36,
{
    fresh_token()
}

impl IdentityAuthority {
    pub closed spec fn accounts(&self) -> Seq<Account> {
        self.accounts@
    }

    pub closed spec fn tokens(&self) -> Seq<TokenRecord> {
        self.tokens@
    }

    /// Usernames are unique; tokens are non-empty and unique.
    pub open spec fn wf(&self) -> bool {
        &&& forall|i: int, j: int|
            0 <= i < j < self.accounts().len() ==> #[trigger] self.accounts()[i].username@
                != #[trigger] self.accounts()[j].username@
        &&& forall|i: int| 0 <= i < self.tokens().len() ==> #[trigger] self.tokens()[i].token@.len() > 0
        &&& forall|i: int, j: int|
            0 <= i < j < self.tokens().len() ==> #[trigger] self.tokens()[i].token@
                != #[trigger] self.tokens()[j].token@
    }

    /// An authority with no accounts and no tokens.
    pub fn new() -> (r: Self)
        ensures
            r.wf(),
            r.accounts() == Seq::<Account>::empty(),
            r.tokens() == Seq::<TokenRecord>::empty(),
    {
        IdentityAuthority { accounts: Vec::new(), tokens: Vec::new() }
    }

    /// Whether an account has exactly this username.
    fn has_username(&self, username: &String) -> (r: bool)
        ensures
            r == username_taken(self.accounts(), username@),
    {
        let mut i: usize = 0;
        while i < self.accounts.len()
            invariant
                i <= self.accounts@.len(),
                forall|j: int| 0 <= j < i ==> self.accounts@[j].username@ != username@,
            decreases self.accounts@.len() - i,
        {
            if self.accounts[i].username == *username {
                return true;
            }
            i = i + 1;
        }
        false
    }

    /// Stores a new account with a fresh digest of its password. Fails when the
    /// username or password is empty or the username is taken, and then before
    /// any hashing; otherwise fails only when the digest cannot be computed.
    /// A failure changes nothing.
    pub fn register(&mut self, reg: Registration) -> (r: Result<(), ServiceError>)
        requires
            old(self).wf(),
        ensures
            final(self).wf(),
            final(self).tokens() == old(self).tokens(),
            reg.username@.len() == 0 || reg.password@.len() == 0 ==> r == Err::<
                (),
                ServiceError,
            >(ServiceError::MissingCredentials),
            reg.username@.len() > 0 && reg.password@.len() > 0 && username_taken(
                old(self).accounts(),
                reg.username@,
            ) ==> r == Err::<(), ServiceError>(ServiceError::DuplicateUsername),
            reg.username@.len() > 0 && reg.password@.len() > 0 && !username_taken(
                old(self).accounts(),
                reg.username@,
            ) ==> r == Ok::<(), ServiceError>(()) || r == Err::<(), ServiceError>(
                ServiceError::HashingFailed,
            ),
            r is Err ==> final(self).accounts() == old(self).accounts(),
            r is Ok ==> {
                let a = final(self).accounts().last();
                &&& final(self).accounts() == old(self).accounts().push(a)
                &&& a == account_for(reg, a.password_digest)
                &&& password_matches(reg.password@, a.password_digest@)
                &&& a.password_digest@.len() == 60
            },
    {
        match check_credentials(reg.username.as_str(), reg.password.as_str()) {
            Err(e) => {
                return Err(e);
            },
            Ok(()) => {},
        }
        if self.has_username(&reg.username) {
            return Err(ServiceError::DuplicateUsername);
        }
        let digest = match digest_password(reg.password.as_str()) {
            Ok(d) => d,
            Err(e) => {
                return Err(e);
            },
        };
        self.register_with_digest(reg, digest)
    }

    /// Stores a new account for `reg` with the given digest of its password.
    /// Fails, changing nothing, when the username or password is empty or the
    /// username is taken; succeeds otherwise.
    pub fn register_with_digest(&mut self, reg: Registration, digest: String) -> (r: Result<
        (),
        ServiceError,
    >)
        requires
            old(self).wf(),
        ensures
            final(self).wf(),
            final(self).tokens() == old(self).tokens(),
            reg.username@.len() == 0 || reg.password@.len() == 0 ==> r == Err::<
                (),
                ServiceError,
            >(ServiceError::MissingCredentials),
            reg.username@.len() > 0 && reg.password@.len() > 0 && username_taken(
                old(self).accounts(),
                reg.username@,
            ) ==> r == Err::<(), ServiceError>(ServiceError::DuplicateUsername),
            reg.username@.len() > 0 && reg.password@.len() > 0 && !username_taken(
                old(self).accounts(),
                reg.username@,
            ) ==> r == Ok::<(), ServiceError>(()) && final(self).accounts() == old(
                self,
            ).accounts().push(account_for(reg, digest)),
            r is Err ==> final(self).accounts() == old(self).accounts(),
    {
        match check_credentials(reg.username.as_str(), reg.password.as_str()) {
            Err(e) => {
                return Err(e);
            },
            Ok(()) => {},
        }
        if self.has_username(&reg.username) {
            return Err(ServiceError::DuplicateUsername);
        }
        let ghost u = reg.username@;
        let is_staff = match reg.is_staff {
            Some(b) => b,
            None => false,
        };
        let account = Account {
            username: reg.username,
            password_digest: digest,
            email: reg.email,
            first_name: reg.first_name,
            last_name: reg.last_name,
            is_staff,
        };
        self.accounts.push(account);
        proof {
            assert(self.tokens@ =~= old(self).tokens@);
            assert(self.tokens() == old(self).tokens());
            assert forall|i: int| 0 <= i < self.tokens().len() implies #[trigger] self.tokens()[i].token@.len() > 0 by {
                assert(old(self).tokens()[i].token@.len() > 0);
            }
            let s = self.accounts@;
            assert forall|i: int, j: int| 0 <= i < j < s.len() implies #[trigger] s[i].username@
                != #[trigger] s[j].username@ by {
                if j == s.len() - 1 {
                    assert(s[i] == old(self).accounts@[i]);
                    assert(s[j].username@ == u);
                }
            }
        }
        Ok(())
    }

    /// Whether the token has been issued. Never fails.
    pub fn introspect(&self, token: &str) -> (r: bool)
        ensures
            r == token_issued(self.tokens(), token@),
    {
        let t = token.to_owned();
        let mut i: usize = 0;
        while i < self.tokens.len()
            invariant
                i <= self.tokens@.len(),
                t@ == token@,
                forall|j: int| 0 <= j < i ==> self.tokens@[j].token@ != token@,
            decreases self.tokens@.len() - i,
        {
            if self.tokens[i].token == t {
                return true;
            }
            i = i + 1;
        }
        false
    }

    /// Index of the first account the identifier names, ignoring case.
    fn find_login(&self, identifier: &str) -> (r: Option<usize>)
        ensures
            r matches Some(i) ==> i == first_index(self.accounts(), login_pred(identifier@)) && i
                < self.accounts().len(),
            r is None ==> first_index(self.accounts(), login_pred(identifier@)) < 0,
    {
        let wanted = lowercase(identifier);
        let ghost p = login_pred(identifier@);
        let mut i: usize = 0;
        while i < self.accounts.len()
            invariant
                i <= self.accounts@.len(),
                wanted@ == lower_of(identifier@),
                p == login_pred(identifier@),
                first_index(self.accounts@, p) == first_index_from(self.accounts@, p, i as int),
            decreases self.accounts@.len() - i,
        {
            let a = &self.accounts[i];
            let mut hit = lowercase(a.username.as_str()) == wanted;
            if !hit {
                match &a.email {
                    Some(e) => {
                        hit = lowercase(e.as_str()) == wanted;
                    },
                    None => {},
                }
            }
            if hit {
                assert(login_pred(identifier@)(self.accounts@[i as int]));
                return Some(i);
            }
            i = i + 1;
        }
        None
    }

    /// Logs in with a username or email and a password, binding the given
    /// freshly generated token to the account.
    pub fn authenticate_with_token(&mut self, identifier: &str, password: &str, token: String) -> (r:
        Result<LoginGrant, ServiceError>)
        requires
            old(self).wf(),
        ensures
            final(self).wf(),
            final(self).accounts() == old(self).accounts(),
            (r, final(self).tokens()) == login_outcome(
                old(self).accounts(),
                old(self).tokens(),
                identifier@,
                password@,
                token,
            ),
    {
        match check_credentials(identifier, password) {
            Err(e) => {
                return Err(e);
            },
            Ok(()) => {},
        }
        let found = self.find_login(identifier);
        let digest = match found {
            Some(i) => Some(self.accounts[i].password_digest.as_str()),
            None => None,
        };
        match admit_login(password, digest) {
            Err(e) => {
                return Err(e);
            },
            Ok(()) => {},
        }
        let i = match found {
            Some(i) => i,
            None => {
                return Err(ServiceError::InvalidCredentials);
            },
        };
        if token.as_str().is_empty() || self.introspect(token.as_str()) {
            return Err(ServiceError::TokenRejected);
        }
        let is_staff = self.accounts[i].is_staff;
        let record = TokenRecord { token: token.clone(), username: self.accounts[i].username.clone() };
        self.tokens.push(record);
        Ok(LoginGrant { token, is_staff })
    }

    /// Logs in with a username or email and a password, issuing a new random token.
    pub fn authenticate(&mut self, identifier: &str, password: &str) -> (r: Result<
        LoginGrant,
        ServiceError,
    >)
        requires
            old(self).wf(),
        ensures
            final(self).wf(),
            final(self).accounts() == old(self).accounts(),
            exists|t: String|
                t@.len() == 36 && (r, final(self).tokens()) == #[trigger] login_outcome(
                    old(self).accounts(),
                    old(self).tokens(),
                    identifier@,
                    password@,
                    t,
                ),
    {
        let token = issue_token();
        self.authenticate_with_token(identifier, password, token)
    }

    /// Index of the record of the token, if it was issued.
    fn find_token(&self, token: &str) -> (r: Option<usize>)
        ensures
            r matches Some(i) ==> i == first_index(self.tokens(), token_pred(token@)) && i
                < self.tokens().len(),
            r is None ==> first_index(self.tokens(), token_pred(token@)) < 0,
    {
        let t = token.to_owned();
        let ghost p = token_pred(token@);
        let mut i: usize = 0;
        while i < self.tokens.len()
            invariant
                i <= self.tokens@.len(),
                t@ == token@,
                p == token_pred(token@),
                first_index(self.tokens@, p) == first_index_from(self.tokens@, p, i as int),
            decreases self.tokens@.len() - i,
        {
            if self.tokens[i].token == t {
                assert(p(self.tokens@[i as int]));
                return Some(i);
            }
            i = i + 1;
        }
        None
    }

    /// Index of the account with exactly this username, if any.
    fn find_account(&self, username: &String) -> (r: Option<usize>)
        ensures
            r matches Some(i) ==> i == first_index(self.accounts(), username_pred(username@)) && i
                < self.accounts().len(),
            r is None ==> first_index(self.accounts(), username_pred(username@)) < 0,
    {
        let ghost p = username_pred(username@);
        let mut i: usize = 0;
        while i < self.accounts.len()
            invariant
                i <= self.accounts@.len(),
                p == username_pred(username@),
                first_index(self.accounts@, p) == first_index_from(self.accounts@, p, i as int),
            decreases self.accounts@.len() - i,
        {
            if self.accounts[i].username == *username {
                assert(p(self.accounts@[i as int]));
                return Some(i);
            }
            i = i + 1;
        }
        None
    }

    /// The identity record the token resolves to, if any.
    pub fn resolve(&self, token: &str) -> (r: Option<Identity>)
        ensures
            r == resolved(self.accounts(), self.tokens(), token@),
    {
        let ti = match self.find_token(token) {
            Some(ti) => ti,
            None => {
                return None;
            },
        };
        match self.find_account(&self.tokens[ti].username) {
            Some(k) => {
                let a = &self.accounts[k];
                Some(
                    Identity {
                        username: a.username.clone(),
                        email: copy_optional(&a.email),
                        first_name: copy_optional(&a.first_name),
                        last_name: copy_optional(&a.last_name),
                        is_staff: a.is_staff,
                    },
                )
            },
            None => None,
        }
    }
}

/// No token is ever issued as the empty string, so introspecting the empty
/// string answers false.
pub proof fn lemma_empty_token_not_issued(auth: &IdentityAuthority)
    requires
        auth.wf(),
    ensures
        !token_issued(auth.tokens(), Seq::<char>::empty()),
{
    if token_issued(auth.tokens(), Seq::<char>::empty()) {
        let i = choose|i: int|
            0 <= i < auth.tokens().len() && #[trigger] auth.tokens()[i].token@ == Seq::<char>::empty();
        assert(auth.tokens()[i].token@.len() > 0);
    }
}

/// A token that was never issued resolves to no identity.
pub proof fn lemma_unissued_token_resolves_to_nothing(auth: &IdentityAuthority, t: Seq<char>)
    requires
        !token_issued(auth.tokens(), t),
    ensures
        resolved(auth.accounts(), auth.tokens(), t) is None,
{
    lemma_first_index_found(auth.tokens(), token_pred(t), 0);
    let ti = first_index(auth.tokens(), token_pred(t));
    if ti >= 0 {
        assert(auth.tokens()[ti].token@ == t);
    }
}

/// Once `reg` is registered with a digest of its password (what
/// `register_with_digest` stores), logging in with its username and password under a fresh token
/// succeeds with its staff flag, and that token resolves to the registered
/// profile fields. No earlier account may answer to the same login name.
pub proof fn lemma_login_after_register(
    auth: &IdentityAuthority,
    reg: Registration,
    digest: String,
    token: String,
)
    requires
        auth.wf(),
        reg.username@.len() > 0,
        reg.password@.len() > 0,
        forall|i: int|
            0 <= i < auth.accounts().len() ==> !login_matches(
                #[trigger] auth.accounts()[i],
                reg.username@,
            ),
        password_matches(reg.password@, digest@),
        token@.len() > 0,
        !token_issued(auth.tokens(), token@),
    ensures
        ({
            let a = account_for(reg, digest);
            let accts = auth.accounts().push(a);
            let outcome = login_outcome(accts, auth.tokens(), reg.username@, reg.password@, token);
            &&& outcome.0 == Ok::<LoginGrant, ServiceError>(
                LoginGrant { token, is_staff: a.is_staff },
            )
            &&& resolved(accts, outcome.1, token@) == Some(identity_of(a))
        }),
{
    let a = account_for(reg, digest);
    let accts = auth.accounts().push(a);
    let u = reg.username@;
    assert forall|j: int| 0 <= j < auth.accounts().len() implies !login_pred(u)(
        #[trigger] auth.accounts()[j],
    ) by {
        assert(!login_matches(auth.accounts()[j], u));
    }
    lemma_first_index_push(auth.accounts(), a, login_pred(u), 0);
    assert(accts[auth.accounts().len() as int] == a);
    let rec = TokenRecord { token, username: a.username };
    let toks = auth.tokens().push(rec);
    assert forall|j: int| 0 <= j < auth.tokens().len() implies !token_pred(token@)(
        #[trigger] auth.tokens()[j],
    ) by {}
    lemma_first_index_push(auth.tokens(), rec, token_pred(token@), 0);
    assert(toks[auth.tokens().len() as int] == rec);
    assert forall|j: int| 0 <= j < auth.accounts().len() implies !username_pred(u)(
        #[trigger] auth.accounts()[j],
    ) by {
        assert(!login_matches(auth.accounts()[j], u));
    }
    lemma_first_index_push(auth.accounts(), a, username_pred(u), 0);
}

} // verus!
