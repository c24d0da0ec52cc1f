//! Identities and failures shared by the session, transport and route decisions.

use vstd::prelude::*;

verus! {

/// A conversation thread.
#[derive(Debug, Clone, Copy, PartialEq, Eq, Structural, Hash)]
pub struct ThreadId(pub u128);

/// One turn of a thread.
#[derive(Debug, Clone, Copy, PartialEq, Eq, Structural, Hash)]
pub struct TurnId(pub u128);

/// Why a harness operation failed.
#[derive(Debug, PartialEq, Eq)]
pub enum HarnessError {
    Protocol(String),
    Transport(String),
    Timeout(String),
    Spawn(String),
    ThreadBusy { thread: ThreadId },
}

pub enum HarnessErrorView {
    Protocol(Seq<char>),
    Transport(Seq<char>),
    Timeout(Seq<char>),
    Spawn(Seq<char>),
    ThreadBusy(ThreadId),
}

impl View for HarnessError {
    type V = HarnessErrorView;

    open spec fn view(&self) -> HarnessErrorView {
        match self {
            HarnessError::Protocol(m) => HarnessErrorView::Protocol(m@),
            HarnessError::Transport(m) => HarnessErrorView::Transport(m@),
            HarnessError::Timeout(m) => HarnessErrorView::Timeout(m@),
            HarnessError::Spawn(m) => HarnessErrorView::Spawn(m@),
            HarnessError::ThreadBusy { thread } => HarnessErrorView::ThreadBusy(*thread),
        }
    }
}

/// The words that stand for a failure inside another message.
pub open spec fn described(error: HarnessErrorView) -> Seq<char> {
    match error {
        HarnessErrorView::Protocol(m) => m,
        HarnessErrorView::Transport(m) => m,
        HarnessErrorView::Timeout(m) => m,
        HarnessErrorView::Spawn(m) => m,
        HarnessErrorView::ThreadBusy(_) => "thread is busy"@,
    }
}

impl HarnessError {
    pub fn protocol(message: &str) -> (r: HarnessError)
        ensures
            r@ == HarnessErrorView::Protocol(message@),
    {
        HarnessError::Protocol(String::from(message))
    }

    pub fn transport(message: &str) -> (r: HarnessError)
        ensures
            r@ == HarnessErrorView::Transport(message@),
    {
        HarnessError::Transport(String::from(message))
    }

    pub fn timeout(message: &str) -> (r: HarnessError)
        ensures
            r@ == HarnessErrorView::Timeout(message@),
    {
        HarnessError::Timeout(String::from(message))
    }

    /// The failure in words, without its category.
    pub fn describe(&self) -> (r: String)
        ensures
            r@ == described(self@),
    {
        match self {
            HarnessError::Protocol(m) => m.clone(),
            HarnessError::Transport(m) => m.clone(),
            HarnessError::Timeout(m) => m.clone(),
            HarnessError::Spawn(m) => m.clone(),
            HarnessError::ThreadBusy { .. } => "thread is busy".to_owned(),
        }
    }
}

impl Clone for HarnessError {
    fn clone(&self) -> (r: HarnessError)
        ensures
            r@ == self@,
    {
        match self {
            HarnessError::Protocol(m) => HarnessError::Protocol(m.clone()),
            HarnessError::Transport(m) => HarnessError::Transport(m.clone()),
            HarnessError::Timeout(m) => HarnessError::Timeout(m.clone()),
            HarnessError::Spawn(m) => HarnessError::Spawn(m.clone()),
            HarnessError::ThreadBusy { thread } => HarnessError::ThreadBusy { thread: *thread },
        }
    }
}

/// Why a route refused a request.
#[derive(Debug, PartialEq, Eq)]
pub enum ApiError {
    NotFound,
    BadRequest(String),
    Conflict(String),
}

pub enum ApiErrorView {
    NotFound,
    BadRequest(Seq<char>),
    Conflict(Seq<char>),
}

impl View for ApiError {
    type V = ApiErrorView;

    open spec fn view(&self) -> ApiErrorView {
        match self {
            ApiError::NotFound => ApiErrorView::NotFound,
            ApiError::BadRequest(m) => ApiErrorView::BadRequest(m@),
            ApiError::Conflict(m) => ApiErrorView::Conflict(m@),
        }
    }
}

impl ApiError {
    pub fn conflict(message: &str) -> (r: ApiError)
        ensures
            r@ == ApiErrorView::Conflict(message@),
    {
        ApiError::Conflict(message.to_owned())
    }

    pub fn bad_request(message: &str) -> (r: ApiError)
        ensures
            r@ == ApiErrorView::BadRequest(message@),
    {
        ApiError::BadRequest(message.to_owned())
    }
}

/// A result seen through the views of its two sides.
pub open spec fn outcome<T: View>(r: Result<T, HarnessError>) -> Result<T::V, HarnessErrorView> {
    match r {
        Ok(value) => Ok(value@),
        Err(error) => Err(error@),
    }
}

/// A failure is put in the words it came with, whatever its category; a busy thread has words of its own.
pub proof fn law_failures_keep_their_words(message: Seq<char>, thread: ThreadId)
    ensures
        described(HarnessErrorView::Protocol(message)) == message,
        described(HarnessErrorView::Transport(message)) == message,
        described(HarnessErrorView::Timeout(message)) == message,
        described(HarnessErrorView::Spawn(message)) == message,
        "busy"@.is_suffix_of(described(HarnessErrorView::ThreadBusy(thread))),
{
    reveal_strlit("busy");
    reveal_strlit("thread is busy");
    assert("thread is busy"@.subrange(10, 14) =~= "busy"@);
}

} // verus!
