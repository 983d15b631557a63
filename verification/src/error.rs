//! The error taxonomy shared by every operation of the codec.
use vstd::prelude::*;

verus! {

/// Why an operation of the codec failed.
#[derive(Debug, PartialEq, Eq)]
pub enum TcmError {
    /// The byte channel that supplied or received the stream failed.  The
    /// codec itself never produces this: it is there for callers that do
    /// the reading and writing.
    Io { message: String },
    /// The stream is not laid out as the format demands.
    InvalidFormat { message: String },
    /// The metadata block names a version that is not known.
    UnsupportedVersion { version: u8 },
    /// An in-memory value cannot be written in the requested version.
    InvalidInput { message: String },
    /// A button code outside 1 to 3.
    InvalidButton { value: u8 },
    /// A restart code outside 0 to 2.
    InvalidRestartType { value: u8 },
    /// The metadata block does not fit the value it was read for.
    InvalidMetadata { message: String },
    /// The first 16 bytes are not the magic sequence.
    InvalidHeader,
    /// The stream ended in the middle of a record.
    UnexpectedEof { context: String },
    /// A value could not be encoded.
    SerializationError { message: String },
    /// A record could not be decoded.
    DeserializationError { message: String },
}

/// What an error says, with each text as a sequence of characters: the
/// form in which contracts speak of errors.
pub enum TcmErrorView {
    Io { message: Seq<char> },
    InvalidFormat { message: Seq<char> },
    UnsupportedVersion { version: u8 },
    InvalidInput { message: Seq<char> },
    InvalidButton { value: u8 },
    InvalidRestartType { value: u8 },
    InvalidMetadata { message: Seq<char> },
    InvalidHeader,
    UnexpectedEof { context: Seq<char> },
    SerializationError { message: Seq<char> },
    DeserializationError { message: Seq<char> },
}

impl View for TcmError {
    type V = TcmErrorView;

    open spec fn view(&self) -> TcmErrorView {
        match self {
            TcmError::Io { message } => TcmErrorView::Io { message: message@ },
            TcmError::InvalidFormat { message } => TcmErrorView::InvalidFormat {
                message: message@,
            },
            TcmError::UnsupportedVersion { version } => TcmErrorView::UnsupportedVersion {
                version: *version,
            },
            TcmError::InvalidInput { message } => TcmErrorView::InvalidInput {
                message: message@,
            },
            TcmError::InvalidButton { value } => TcmErrorView::InvalidButton { value: *value },
            TcmError::InvalidRestartType { value } => TcmErrorView::InvalidRestartType {
                value: *value,
            },
            TcmError::InvalidMetadata { message } => TcmErrorView::InvalidMetadata {
                message: message@,
            },
            TcmError::InvalidHeader => TcmErrorView::InvalidHeader,
            TcmError::UnexpectedEof { context } => TcmErrorView::UnexpectedEof {
                context: context@,
            },
            TcmError::SerializationError { message } => TcmErrorView::SerializationError {
                message: message@,
            },
            TcmError::DeserializationError { message } => TcmErrorView::DeserializationError {
                message: message@,
            },
        }
    }
}

/// Result of an operation of the codec.
pub type TcmResult<T> = Result<T, TcmError>;

impl TcmError {
    /// An [`TcmError::InvalidFormat`] carrying `message`.
    pub fn invalid_format(message: &str) -> (e: Self)
        ensures
            e@ == (TcmErrorView::InvalidFormat { message: message@ }),
    {
        TcmError::InvalidFormat { message: message.to_owned() }
    }

    /// An [`TcmError::InvalidInput`] carrying `message`.
    pub fn invalid_input(message: &str) -> (e: Self)
        ensures
            e@ == (TcmErrorView::InvalidInput { message: message@ }),
    {
        TcmError::InvalidInput { message: message.to_owned() }
    }

    /// An [`TcmError::InvalidMetadata`] carrying `message`.
    pub fn invalid_metadata(message: &str) -> (e: Self)
        ensures
            e@ == (TcmErrorView::InvalidMetadata { message: message@ }),
    {
        TcmError::InvalidMetadata { message: message.to_owned() }
    }

    /// An [`TcmError::UnexpectedEof`] naming what was being read.
    pub fn unexpected_eof(context: &str) -> (e: Self)
        ensures
            e@ == (TcmErrorView::UnexpectedEof { context: context@ }),
    {
        TcmError::UnexpectedEof { context: context.to_owned() }
    }

    /// A [`TcmError::SerializationError`] carrying `message`.
    pub fn serialization_error(message: &str) -> (e: Self)
        ensures
            e@ == (TcmErrorView::SerializationError { message: message@ }),
    {
        TcmError::SerializationError { message: message.to_owned() }
    }

    /// A [`TcmError::DeserializationError`] carrying `message`.
    pub fn deserialization_error(message: &str) -> (e: Self)
        ensures
            e@ == (TcmErrorView::DeserializationError { message: message@ }),
    {
        TcmError::DeserializationError { message: message.to_owned() }
    }
}

} // verus!
