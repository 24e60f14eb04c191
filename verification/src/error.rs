//! The error type every fallible operation of the core returns.

use vstd::prelude::*;

verus! {

#[derive(Debug)]
pub enum HiveError {
    Config(String),
    MissingCredential(String),
    Provider { provider: String, message: String },
    UnknownProvider(String),
    UnknownAgent(String),
    UnknownRoom(String),
    Validation(String),
    Storage(String),
    Network(String),
}

/// An error as plain values, for contracts.
pub enum ErrorView {
    Config(Seq<char>),
    MissingCredential(Seq<char>),
    Provider { provider: Seq<char>, message: Seq<char> },
    UnknownProvider(Seq<char>),
    UnknownAgent(Seq<char>),
    UnknownRoom(Seq<char>),
    Validation(Seq<char>),
    Storage(Seq<char>),
    Network(Seq<char>),
}

impl View for HiveError {
    type V = ErrorView;

    open spec fn view(&self) -> ErrorView {
        match self {
            HiveError::Config(m) => ErrorView::Config(m@),
            HiveError::MissingCredential(m) => ErrorView::MissingCredential(m@),
            HiveError::Provider { provider, message } => ErrorView::Provider {
                provider: provider@,
                message: message@,
            },
            HiveError::UnknownProvider(m) => ErrorView::UnknownProvider(m@),
            HiveError::UnknownAgent(m) => ErrorView::UnknownAgent(m@),
            HiveError::UnknownRoom(m) => ErrorView::UnknownRoom(m@),
            HiveError::Validation(m) => ErrorView::Validation(m@),
            HiveError::Storage(m) => ErrorView::Storage(m@),
            HiveError::Network(m) => ErrorView::Network(m@),
        }
    }
}

/// The human-readable rendering of an error.
pub open spec fn error_text(e: ErrorView) -> Seq<char> {
    match e {
        ErrorView::Config(m) => "configuration error: "@ + m,
        ErrorView::MissingCredential(m) => "credential '"@ + m
            + "' is not available: the referenced environment variable is unset or empty"@,
        ErrorView::Provider { provider, message } => "provider '"@ + provider + "' failed: "@
            + message,
        ErrorView::UnknownProvider(m) => "provider '"@ + m + "' is not registered"@,
        ErrorView::UnknownAgent(m) => "agent '"@ + m + "' is not a member of this room"@,
        ErrorView::UnknownRoom(m) => "room '"@ + m + "' does not exist"@,
        ErrorView::Validation(m) => "invalid input: "@ + m,
        ErrorView::Storage(m) => "storage error: "@ + m,
        ErrorView::Network(m) => "network error: "@ + m,
    }
}

/// The transport-level summary a network failure is reduced to.
pub open spec fn network_kind(timed_out: bool, refused: bool, undecodable: bool) -> Seq<char> {
    if timed_out {
        "request timed out"@
    } else if refused {
        "connection refused"@
    } else if undecodable {
        "malformed response body"@
    } else {
        "request failed"@
    }
}

pub fn text(s: &str) -> (r: String)
    ensures
        r@ == s@,
{
    s.to_owned()
}

pub fn concat2(a: &str, b: &str) -> (r: String)
    ensures
        r@ == a@ + b@,
{
    let mut r = a.to_owned();
    r.append(b);
    r
}

pub fn concat3(a: &str, b: &str, c: &str) -> (r: String)
    ensures
        r@ == a@ + b@ + c@,
{
    let mut r = a.to_owned();
    r.append(b);
    r.append(c);
    r
}

impl HiveError {
    /// A failure attributed to one provider.
    pub fn provider(provider: &str, message: &str) -> (e: Self)
        ensures
            e@ == (ErrorView::Provider { provider: provider@, message: message@ }),
    {
        HiveError::Provider { provider: provider.to_owned(), message: message.to_owned() }
    }

    /// Reduces a transport failure to its cause, so the URL and whatever
    /// query parameters it carries never reach a log or a client.
    pub fn network(timed_out: bool, refused: bool, undecodable: bool) -> (e: Self)
        ensures
            e@ == ErrorView::Network(network_kind(timed_out, refused, undecodable)),
    {
        let kind = if timed_out {
            "request timed out"
        } else if refused {
            "connection refused"
        } else if undecodable {
            "malformed response body"
        } else {
            "request failed"
        };
        HiveError::Network(kind.to_owned())
    }

    /// The message `Display` shows for this error.
    pub fn message(&self) -> (s: String)
        ensures
            s@ == error_text(self@),
    {
        match self {
            HiveError::Config(m) => concat2("configuration error: ", m.as_str()),
            HiveError::MissingCredential(m) => concat3(
                "credential '",
                m.as_str(),
                "' is not available: the referenced environment variable is unset or empty",
            ),
            HiveError::Provider { provider, message } => {
                let mut r = concat3("provider '", provider.as_str(), "' failed: ");
                r.append(message.as_str());
                r
            },
            HiveError::UnknownProvider(m) => concat3("provider '", m.as_str(), "' is not registered"),
            HiveError::UnknownAgent(m) => concat3(
                "agent '",
                m.as_str(),
                "' is not a member of this room",
            ),
            HiveError::UnknownRoom(m) => concat3("room '", m.as_str(), "' does not exist"),
            HiveError::Validation(m) => concat2("invalid input: ", m.as_str()),
            HiveError::Storage(m) => concat2("storage error: ", m.as_str()),
            HiveError::Network(m) => concat2("network error: ", m.as_str()),
        }
    }
}

} // verus!
