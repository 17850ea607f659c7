//! The two kinds of failure that a request can end in.

use vstd::prelude::*;

verus! {

/// A failure, tagged by who is to blame, with the text shown to the caller.
///
/// `ClientError` is the caller's fault (an unknown template, a malformed
/// request); `ServerError` is the fault of something this service depends on
/// (the cluster, the template directory, a manifest that does not parse).
#[derive(Clone, Debug, PartialEq, Eq)]
pub enum ZeusError {
    ClientError(String),
    ServerError(String),
}

/// A `ZeusError` with its message as a plain sequence of characters.
pub enum ZeusErrorView {
    ClientError(Seq<char>),
    ServerError(Seq<char>),
}

impl View for ZeusError {
    type V = ZeusErrorView;

    open spec fn view(&self) -> ZeusErrorView {
        match self {
            ZeusError::ClientError(m) => ZeusErrorView::ClientError(m@),
            ZeusError::ServerError(m) => ZeusErrorView::ServerError(m@),
        }
    }
}

/// The dependencies whose failures are reported to the caller. They are told
/// apart so that each place that reports one says which it was.
#[derive(Clone, Copy, Debug, PartialEq, Eq, Structural)]
pub enum Upstream {
    /// The file system: a directory or a file could not be read.
    Io,
    /// The cluster refused or failed a call.
    Cluster,
    /// A manifest could not be parsed.
    Parse,
}

/// What the text of a caller's fault begins with.
pub open spec fn client_prefix() -> Seq<char> {
    "Client error: "@
}

/// What the text of a dependency's fault begins with.
pub open spec fn server_prefix() -> Seq<char> {
    "Server error: "@
}

impl ZeusError {
    /// Whether the caller is to blame.
    pub open spec fn is_client(self) -> bool {
        self is ClientError
    }

    /// The text that the failure carries.
    pub open spec fn message(self) -> Seq<char> {
        match self {
            ZeusError::ClientError(m) => m@,
            ZeusError::ServerError(m) => m@,
        }
    }

    /// The HTTP status that stands for this kind of failure.
    pub open spec fn spec_status(self) -> u16 {
        if self.is_client() {
            400
        } else {
            500
        }
    }

    /// The failure as one line of text: the kind, then the message.
    pub open spec fn spec_to_string(self) -> Seq<char> {
        if self.is_client() {
            client_prefix() + self.message()
        } else {
            server_prefix() + self.message()
        }
    }

    /// The HTTP status of the failure: 400 for the caller's faults, 500 for
    /// all others.
    pub fn status(&self) -> (code: u16)
        ensures
            code == self.spec_status(),
    {
        match self {
            ZeusError::ClientError(_) => 400,
            ZeusError::ServerError(_) => 500,
        }
    }

    /// Renders the failure as `Client error: <message>` or
    /// `Server error: <message>`.
    pub fn to_string(&self) -> (text: String)
        ensures
            text@ == self.spec_to_string(),
    {
        match self {
            ZeusError::ClientError(m) => "Client error: ".to_owned().concat(m.as_str()),
            ZeusError::ServerError(m) => "Server error: ".to_owned().concat(m.as_str()),
        }
    }

    /// The one place where a dependency's failure becomes a `ZeusError`:
    /// every dependency maps to `ServerError`, and the message is kept as it
    /// is.
    pub fn from_upstream(source: Upstream, message: String) -> (err: ZeusError)
        ensures
            err@ == ZeusErrorView::ServerError(message@),
    {
        match source {
            Upstream::Io => ZeusError::ServerError(message),
            Upstream::Cluster => ZeusError::ServerError(message),
            Upstream::Parse => ZeusError::ServerError(message),
        }
    }

    /// A complaint about the request itself, with `message` as its text.
    pub fn client(message: &str) -> (err: ZeusError)
        ensures
            err@ == ZeusErrorView::ClientError(message@),
    {
        ZeusError::ClientError(message.to_owned())
    }
}

} // verus!
