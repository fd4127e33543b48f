//! The failures that the components report, and how a result is seen in
//! contracts.

use vstd::prelude::*;

verus! {

/// A failure of the secret codec.
#[derive(Debug, Clone, PartialEq, Eq)]
pub enum CodecError {
    /// The artifact does not exist.
    NotFound,
    /// The cipher tool refused; the text is the last line of what it wrote to
    /// its diagnostic stream.
    CipherFailed(String),
    /// The file system or the cipher process failed, or the cipher tool's
    /// output is no text.
    Io(String),
}

/// A `CodecError` as mathematical values.
pub enum CodecErrorView {
    NotFound,
    CipherFailed(Seq<char>),
    Io(Seq<char>),
}

impl View for CodecError {
    type V = CodecErrorView;

    open spec fn view(&self) -> CodecErrorView {
        match self {
            CodecError::NotFound => CodecErrorView::NotFound,
            CodecError::CipherFailed(message) => CodecErrorView::CipherFailed(message@),
            CodecError::Io(message) => CodecErrorView::Io(message@),
        }
    }
}

/// A failure to resolve the credentials of a remote.
#[derive(Debug, Clone, PartialEq, Eq)]
pub enum ResolveError {
    /// The session cache holds nothing for the remote.
    NotCached,
    /// The name of a session cache artifact does not hold a user and a port.
    BadCacheName,
    /// The secret codec failed on an artifact.
    Codec(CodecError),
}

/// A `ResolveError` as mathematical values.
pub enum ResolveErrorView {
    NotCached,
    BadCacheName,
    Codec(CodecErrorView),
}

impl View for ResolveError {
    type V = ResolveErrorView;

    open spec fn view(&self) -> ResolveErrorView {
        match self {
            ResolveError::NotCached => ResolveErrorView::NotCached,
            ResolveError::BadCacheName => ResolveErrorView::BadCacheName,
            ResolveError::Codec(e) => ResolveErrorView::Codec(e@),
        }
    }
}

/// A failure of a session with a remote.
#[derive(Debug, Clone, PartialEq, Eq)]
pub enum SessionError {
    /// The remote rejected the credentials.
    AuthFailed,
    /// The channel closed before the remote reported an exit status.
    ChannelClosed,
    /// Reading the local input, writing the local output or the transport
    /// failed.
    Io(String),
}

/// A `SessionError` as mathematical values.
pub enum SessionErrorView {
    AuthFailed,
    ChannelClosed,
    Io(Seq<char>),
}

impl View for SessionError {
    type V = SessionErrorView;

    open spec fn view(&self) -> SessionErrorView {
        match self {
            SessionError::AuthFailed => SessionErrorView::AuthFailed,
            SessionError::ChannelClosed => SessionErrorView::ChannelClosed,
            SessionError::Io(message) => SessionErrorView::Io(message@),
        }
    }
}

/// A result as mathematical values.
pub open spec fn view_result<T: View, E: View>(r: Result<T, E>) -> Result<T::V, E::V> {
    match r {
        Ok(value) => Ok(value@),
        Err(e) => Err(e@),
    }
}

/// What is shown to the user for a codec failure.
pub open spec fn codec_message(e: CodecErrorView) -> Seq<char> {
    match e {
        CodecErrorView::NotFound => "file not found"@,
        CodecErrorView::CipherFailed(message) => message,
        CodecErrorView::Io(message) => message,
    }
}

/// What is shown to the user for a failure to resolve credentials.
pub open spec fn resolve_message(e: ResolveErrorView) -> Seq<char> {
    match e {
        ResolveErrorView::NotCached => "credentials cache not found"@,
        ResolveErrorView::BadCacheName => "credentials cache name holds no user and port"@,
        ResolveErrorView::Codec(inner) => codec_message(inner),
    }
}

/// What is shown to the user for a session failure.
pub open spec fn session_message(e: SessionErrorView) -> Seq<char> {
    match e {
        SessionErrorView::AuthFailed => "Authentication failed"@,
        SessionErrorView::ChannelClosed => "channel closed before the command returned"@,
        SessionErrorView::Io(message) => message,
    }
}

impl CodecError {
    /// What is shown to the user: the cipher tool's own words where it
    /// refused.
    pub fn message(&self) -> (r: String)
        ensures
            r@ == codec_message(self@),
    {
        match self {
            CodecError::NotFound => "file not found".to_string(),
            CodecError::CipherFailed(message) => message.clone(),
            CodecError::Io(message) => message.clone(),
        }
    }
}

impl ResolveError {
    /// What is shown to the user.
    pub fn message(&self) -> (r: String)
        ensures
            r@ == resolve_message(self@),
    {
        match self {
            ResolveError::NotCached => "credentials cache not found".to_string(),
            ResolveError::BadCacheName => "credentials cache name holds no user and port".to_string(),
            ResolveError::Codec(inner) => inner.message(),
        }
    }
}

impl SessionError {
    /// What is shown to the user.
    pub fn message(&self) -> (r: String)
        ensures
            r@ == session_message(self@),
    {
        match self {
            SessionError::AuthFailed => "Authentication failed".to_string(),
            SessionError::ChannelClosed => "channel closed before the command returned".to_string(),
            SessionError::Io(message) => message.clone(),
        }
    }
}

} // verus!
