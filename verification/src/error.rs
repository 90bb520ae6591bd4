//! Error kinds of the engine, split into per-file transfer failures and
//! whole-operation failures.

use vstd::prelude::*;
use vstd::string::StringExecFns;

verus! {

/// Why a single file's transfer failed.
///
/// `Http` carries the response status of the file request; `Io` stands for
/// a local disk failure and `Network` for a stream interrupted mid-body.
/// The latter two arise only in the unverified I/O layer, which maps its
/// errors onto them before reporting.
#[derive(Clone, Copy, Debug, PartialEq, Eq, Structural)]
pub enum TransferError {
    Http { status: u16 },
    Io,
    Network,
}

/// Why a whole download operation failed.
#[derive(Debug)]
pub enum DownloadError {
    /// The file listing could not be fetched at all.
    ManifestUnavailable { status: u16 },
    /// The listing call succeeded but the server reported failure.
    ManifestRejected { message: String },
    /// A single-file request named a path with no matching blob entry.
    FileNotFound { path: String },
    /// At least one per-file transfer failed; `name` identifies one
    /// offending file and `error` its cause.
    Transfer { name: String, error: TransferError },
}

/// The character for one decimal digit.
pub open spec fn decimal_digit(d: int) -> char {
    ((48 + d) as u8) as char
}

/// The decimal rendering of a non-negative number, most significant
/// digit first, without leading zeros.
pub open spec fn decimal_of(n: int) -> Seq<char>
    recommends
        n >= 0,
    decreases n,
{
    if n < 10 {
        seq![decimal_digit(n)]
    } else {
        decimal_of(n / 10).push(decimal_digit(n % 10))
    }
}

/// Relies on the std `format` macro: a `u16` is rendered as its decimal
/// digits, a function of the value alone.
#[verifier::external_body]
fn http_status_message(status: u16) -> (m: String)
    ensures
        m@ == "HTTP "@ + decimal_of(status as int),
{
    format!("HTTP {}", status)
}

impl TransferError {
    /// The user-visible description of this failure.
    pub open spec fn describe_spec(self) -> Seq<char> {
        match self {
            TransferError::Http { status } => "HTTP "@ + decimal_of(status as int),
            TransferError::Io => "local I/O error"@,
            TransferError::Network => "network stream interrupted"@,
        }
    }

    /// Renders this failure the way it is reported to the observer and
    /// in the aggregate error: the HTTP status in decimal, or a fixed
    /// phrase for the local failure kinds.
    pub fn describe(&self) -> (m: String)
        ensures
            m@ == self.describe_spec(),
    {
        match self {
            TransferError::Http { status } => http_status_message(*status),
            TransferError::Io => String::from_str("local I/O error"),
            TransferError::Network => String::from_str("network stream interrupted"),
        }
    }
}

} // verus!
