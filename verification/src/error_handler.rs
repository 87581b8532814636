//! The error taxonomy of the coordination service and the decisions taken
//! for each kind; writing the log file and ending the process are the
//! caller's part.

use vstd::prelude::*;

use crate::text::dec_digits;
use crate::text::usize_to_decimal;

verus! {

/// An error that does not end the process: minor ones are only reported,
/// severe ones are also written to the error log.
#[derive(Debug)]
pub enum NotAbortError {
    Minor(String),
    Severe(String),
}

/// An error of the request-handling path: fatal to the process, or not.
#[derive(Debug)]
pub enum ErrorType {
    AbortError(String),
    NotAbortError(NotAbortError),
}

impl ErrorType {
    /// Whether this error ends the process.
    pub fn must_abort(&self) -> (r: bool)
        ensures
            r == self is AbortError,
    {
        match self {
            ErrorType::AbortError(_) => true,
            ErrorType::NotAbortError(_) => false,
        }
    }

    /// Whether this error is written to the error log: fatal errors and
    /// severe non-fatal ones are; minor ones are only reported.
    pub fn writes_log(&self) -> (r: bool)
        ensures
            r == match self {
                ErrorType::AbortError(_) => true,
                ErrorType::NotAbortError(NotAbortError::Minor(_)) => false,
                ErrorType::NotAbortError(NotAbortError::Severe(_)) => true,
            },
    {
        match self {
            ErrorType::AbortError(_) => true,
            ErrorType::NotAbortError(NotAbortError::Minor(_)) => false,
            ErrorType::NotAbortError(NotAbortError::Severe(_)) => true,
        }
    }

    /// The message carried by the error.
    pub fn message(&self) -> (r: &String)
        ensures
            *r == match self {
                ErrorType::AbortError(m) => m,
                ErrorType::NotAbortError(NotAbortError::Minor(m)) => m,
                ErrorType::NotAbortError(NotAbortError::Severe(m)) => m,
            },
    {
        match self {
            ErrorType::AbortError(m) => m,
            ErrorType::NotAbortError(NotAbortError::Minor(m)) => m,
            ErrorType::NotAbortError(NotAbortError::Severe(m)) => m,
        }
    }
}

/// A number in decimal, padded with zeros to two places.
pub open spec fn pad2(n: nat) -> Seq<char> {
    if n < 10 {
        "0"@ + dec_digits(n)
    } else {
        dec_digits(n)
    }
}

/// A number in decimal, padded with zeros to four places.
pub open spec fn pad4(n: nat) -> Seq<char> {
    if n < 10 {
        "000"@ + dec_digits(n)
    } else if n < 100 {
        "00"@ + dec_digits(n)
    } else if n < 1000 {
        "0"@ + dec_digits(n)
    } else {
        dec_digits(n)
    }
}

fn pad2_exec(n: usize) -> (r: String)
    ensures
        r@ == pad2(n as nat),
{
    let mut out = if n < 10 {
        "0".to_owned()
    } else {
        "".to_owned()
    };
    let digits = usize_to_decimal(n);
    out.append(digits.as_str());
    proof {
        if n >= 10 {
            reveal_strlit("");
            assert(""@ + dec_digits(n as nat) =~= dec_digits(n as nat));
        }
    }
    out
}

fn pad4_exec(n: usize) -> (r: String)
    ensures
        r@ == pad4(n as nat),
{
    let mut out = if n < 10 {
        "000".to_owned()
    } else if n < 100 {
        "00".to_owned()
    } else if n < 1000 {
        "0".to_owned()
    } else {
        "".to_owned()
    };
    let digits = usize_to_decimal(n);
    out.append(digits.as_str());
    proof {
        if n >= 1000 {
            reveal_strlit("");
            assert(""@ + dec_digits(n as nat) =~= dec_digits(n as nat));
        }
    }
    out
}

/// Receives the request handlers' errors and decides their handling; the
/// log directory is fixed at start.
#[derive(Debug)]
pub struct ErrorHandler {
    pub error_log_dir: String,
}

impl ErrorHandler {
    pub fn new(error_log_dir: String) -> (r: ErrorHandler)
        ensures
            r.error_log_dir == error_log_dir,
    {
        ErrorHandler { error_log_dir }
    }

    /// The day's log file name: the date, then `_error.txt`.
    pub fn error_log_file_name(year: usize, month: usize, day: usize) -> (r: String)
        ensures
            r@ == pad4(year as nat) + "-"@ + pad2(month as nat) + "-"@ + pad2(day as nat)
                + "_error.txt"@,
    {
        let mut out = pad4_exec(year);
        out.append("-");
        let m = pad2_exec(month);
        out.append(m.as_str());
        out.append("-");
        let d = pad2_exec(day);
        out.append(d.as_str());
        out.append("_error.txt");
        proof {
            assert(out@ =~= pad4(year as nat) + "-"@ + pad2(month as nat) + "-"@ + pad2(day as nat)
                + "_error.txt"@);
        }
        out
    }

    /// Where the day's log lives: the log directory, a separator, the
    /// day's file name.
    pub fn error_log_path(&self, year: usize, month: usize, day: usize) -> (r: String)
        ensures
            r@ == self.error_log_dir@ + "/"@ + pad4(year as nat) + "-"@ + pad2(month as nat) + "-"@
                + pad2(day as nat) + "_error.txt"@,
    {
        let mut out = self.error_log_dir.clone();
        out.append("/");
        let name = ErrorHandler::error_log_file_name(year, month, day);
        out.append(name.as_str());
        proof {
            assert(out@ =~= self.error_log_dir@ + "/"@ + pad4(year as nat) + "-"@ + pad2(
                month as nat,
            ) + "-"@ + pad2(day as nat) + "_error.txt"@);
        }
        out
    }
}

} // verus!
