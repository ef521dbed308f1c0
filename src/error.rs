use vstd::prelude::*;

verus! {

/// The broad class of a failure, which fixes the status a service answers with.
#[derive(Clone, Copy, Debug, PartialEq, Eq, Structural)]
pub enum ErrorKind {
    Validation,
    Unauthorized,
    Forbidden,
    Conflict,
    NotFound,
    Dependency,
}

/// Every way an operation of the services can fail.
#[derive(Clone, Copy, Debug, PartialEq, Eq, Structural)]
pub enum ServiceError {
    /// Username (or identifier) or password is empty.
    MissingCredentials,
    /// An account with this username already exists.
    DuplicateUsername,
    /// No account matched, or the password did not verify; the two are not told apart.
    InvalidCredentials,
    /// The password digest could not be computed.
    HashingFailed,
    /// The freshly generated token was empty or already issued.
    TokenRejected,
    /// The token resolves to no identity.
    InvalidToken,
    /// The caller is not staff.
    StaffOnly,
    /// The caller may only act on their own profile.
    NotSelf,
    /// A score increment of zero.
    ZeroIncrement,
    /// The new score does not fit the score's range.
    ScoreOutOfRange,
    /// A question text or option is empty after trimming.
    MissingQuestionFields,
    /// The correct option is not one of A, B, C, D.
    BadCorrectOption,
    /// The answer list is empty.
    EmptyAnswers,
    /// None of the answered question ids exists.
    NoMatchingQuestions,
    /// No profile for the requested username.
    UserNotFound,
    /// The store has run out of identifiers.
    IdsExhausted,
}

impl ErrorKind {
    pub open spec fn spec_status(self) -> u16 {
        match self {
            ErrorKind::Validation => 400,
            ErrorKind::Unauthorized => 401,
            ErrorKind::Forbidden => 403,
            ErrorKind::Conflict => 409,
            ErrorKind::NotFound => 404,
            ErrorKind::Dependency => 500,
        }
    }

    /// The HTTP status a failure of this kind is answered with.
    pub fn status(&self) -> (r: u16)
        ensures
            r == self.spec_status(),
    {
        match self {
            ErrorKind::Validation => 400,
            ErrorKind::Unauthorized => 401,
            ErrorKind::Forbidden => 403,
            ErrorKind::Conflict => 409,
            ErrorKind::NotFound => 404,
            ErrorKind::Dependency => 500,
        }
    }
}

impl ServiceError {
    pub open spec fn spec_kind(self) -> ErrorKind {
        match self {
            ServiceError::MissingCredentials => ErrorKind::Validation,
            ServiceError::DuplicateUsername => ErrorKind::Conflict,
            ServiceError::InvalidCredentials => ErrorKind::Unauthorized,
            ServiceError::HashingFailed => ErrorKind::Dependency,
            ServiceError::TokenRejected => ErrorKind::Dependency,
            ServiceError::InvalidToken => ErrorKind::Unauthorized,
            ServiceError::StaffOnly => ErrorKind::Forbidden,
            ServiceError::NotSelf => ErrorKind::Forbidden,
            ServiceError::ZeroIncrement => ErrorKind::Validation,
            ServiceError::ScoreOutOfRange => ErrorKind::Validation,
            ServiceError::MissingQuestionFields => ErrorKind::Validation,
            ServiceError::BadCorrectOption => ErrorKind::Validation,
            ServiceError::EmptyAnswers => ErrorKind::Validation,
            ServiceError::NoMatchingQuestions => ErrorKind::Validation,
            ServiceError::UserNotFound => ErrorKind::NotFound,
            ServiceError::IdsExhausted => ErrorKind::Dependency,
        }
    }

    /// The class of this failure.
    pub fn kind(&self) -> (r: ErrorKind)
        ensures
            r == self.spec_kind(),
    {
        match self {
            ServiceError::MissingCredentials => ErrorKind::Validation,
            ServiceError::DuplicateUsername => ErrorKind::Conflict,
            ServiceError::InvalidCredentials => ErrorKind::Unauthorized,
            ServiceError::HashingFailed => ErrorKind::Dependency,
            ServiceError::TokenRejected => ErrorKind::Dependency,
            ServiceError::InvalidToken => ErrorKind::Unauthorized,
            ServiceError::StaffOnly => ErrorKind::Forbidden,
            ServiceError::NotSelf => ErrorKind::Forbidden,
            ServiceError::ZeroIncrement => ErrorKind::Validation,
            ServiceError::ScoreOutOfRange => ErrorKind::Validation,
            ServiceError::MissingQuestionFields => ErrorKind::Validation,
            ServiceError::BadCorrectOption => ErrorKind::Validation,
            ServiceError::EmptyAnswers => ErrorKind::Validation,
            ServiceError::NoMatchingQuestions => ErrorKind::Validation,
            ServiceError::UserNotFound => ErrorKind::NotFound,
            ServiceError::IdsExhausted => ErrorKind::Dependency,
        }
    }

    /// The HTTP status this failure is answered with.
    pub fn status(&self) -> (r: u16)
        ensures
            r == self.spec_kind().spec_status(),
    {
        self.kind().status()
    }
}

} // verus!
