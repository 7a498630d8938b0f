//! Error kinds of the core: path-parse errors, path-operation errors,
//! categorized fetch errors, and widget-resolution errors.
//!
//! Fetch, manifest, and widget errors caught while loading a document are
//! converted by the document tree into a `Failed` stand-in scoped to that
//! one path; they never abort the overall render.

use vstd::prelude::*;
use vstd::string::StrSliceExecFns;
use vstd::string::StringExecFns;

verus! {

/// A malformed path string could not be parsed.
#[derive(Debug, Clone)]
pub struct ParsePathError(pub &'static str);

/// A path operation failed, e.g. relativizing across mismatched
/// absoluteness.
#[derive(Debug, Clone)]
pub struct PathError(pub &'static str);

/// A categorized fetch failure: transport-level failures, malformed
/// requests, deserialization failures, and HTTP-style statuses, with
/// not-found and forbidden as named sub-cases.
#[derive(Debug, Clone)]
pub enum FetchError {
    SerdeError(String, String),
    DomException(String, String),
    PromiseError(String, String),
    NetworkError(String, String),
    /// Request construction failed.
    RequestError(String, String),
    NotFound { url: String, code: u16, text: String },
    Forbidden { url: String, code: u16, text: String },
    ClientError { url: String, code: u16, text: String },
    ServerError { url: String, code: u16, text: String },
    UnknownError { url: String, code: u16, text: String },
}

/// The character for one decimal digit.
pub open spec fn digit_char(d: int) -> char {
    if d == 0 {
        '0'
    } else if d == 1 {
        '1'
    } else if d == 2 {
        '2'
    } else if d == 3 {
        '3'
    } else if d == 4 {
        '4'
    } else if d == 5 {
        '5'
    } else if d == 6 {
        '6'
    } else if d == 7 {
        '7'
    } else if d == 8 {
        '8'
    } else {
        '9'
    }
}

/// Decimal digits of `n`, most significant first.
pub open spec fn decimal_digits(n: nat) -> Seq<char>
    decreases n,
{
    if n <= 9 {
        seq![digit_char(n as int)]
    } else {
        decimal_digits(n / 10) + seq![digit_char((n % 10) as int)]
    }
}

/// The string for one decimal digit.
fn digit_str(d: u16) -> (r: &'static str)
    requires
        d < 10,
    ensures
        r@ == seq![digit_char(d as int)],
{
    if d == 0 {
        proof {
            reveal_strlit("0");
            assert("0"@ =~= seq!['0']);
        }
        return "0";
    }
    if d == 1 {
        proof {
            reveal_strlit("1");
            assert("1"@ =~= seq!['1']);
        }
        return "1";
    }
    if d == 2 {
        proof {
            reveal_strlit("2");
            assert("2"@ =~= seq!['2']);
        }
        return "2";
    }
    if d == 3 {
        proof {
            reveal_strlit("3");
            assert("3"@ =~= seq!['3']);
        }
        return "3";
    }
    if d == 4 {
        proof {
            reveal_strlit("4");
            assert("4"@ =~= seq!['4']);
        }
        return "4";
    }
    if d == 5 {
        proof {
            reveal_strlit("5");
            assert("5"@ =~= seq!['5']);
        }
        return "5";
    }
    if d == 6 {
        proof {
            reveal_strlit("6");
            assert("6"@ =~= seq!['6']);
        }
        return "6";
    }
    if d == 7 {
        proof {
            reveal_strlit("7");
            assert("7"@ =~= seq!['7']);
        }
        return "7";
    }
    if d == 8 {
        proof {
            reveal_strlit("8");
            assert("8"@ =~= seq!['8']);
        }
        return "8";
    }
    proof {
        reveal_strlit("9");
        assert("9"@ =~= seq!['9']);
    }
    "9"
}

/// Render a status code as decimal digits.
pub fn format_u16(n: u16) -> (r: String)
    ensures
        r@ == decimal_digits(n as nat),
    decreases n,
{
    if n <= 9 {
        let mut out = String::new();
        out.append(digit_str(n));
        proof {
            assert(out@ =~= decimal_digits(n as nat));
        }
        out
    } else {
        let mut out = format_u16(n / 10);
        out.append(digit_str(n % 10));
        proof {
            assert(out@ =~= decimal_digits(n as nat));
        }
        out
    }
}

/// The rendered message of a fetch error: what could not be fetched and why.
pub open spec fn fetch_error_message(e: FetchError) -> Seq<char> {
    match e {
        FetchError::SerdeError(url, detail) => fetch_prefix(url) + "\". Serde error "@ + detail@,
        FetchError::DomException(url, detail) => fetch_prefix(url) + "\". DOM exception "@
            + detail@,
        FetchError::PromiseError(url, detail) => fetch_prefix(url) + "\". Promise error "@
            + detail@,
        FetchError::NetworkError(url, detail) => fetch_prefix(url) + "\". Network error "@
            + detail@,
        FetchError::RequestError(url, detail) => fetch_prefix(url) + "\". Request error "@
            + detail@,
        FetchError::NotFound { url, code, text } => fetch_prefix(url) + "\". Not found "@
            + status_suffix(code, text),
        FetchError::Forbidden { url, code, text } => fetch_prefix(url) + "\". Forbidden "@
            + status_suffix(code, text),
        FetchError::ClientError { url, code, text } => fetch_prefix(url) + "\". Client error "@
            + status_suffix(code, text),
        FetchError::ServerError { url, code, text } => fetch_prefix(url) + "\". Server error "@
            + status_suffix(code, text),
        FetchError::UnknownError { url, code, text } => fetch_prefix(url) + "\". Unknown Error "@
            + status_suffix(code, text),
    }
}

/// The shared message opening, with the failing URL inlined.
pub open spec fn fetch_prefix(url: String) -> Seq<char> {
    "Can not fetch \""@ + url@
}

/// The shared message tail of the status-carrying cases.
pub open spec fn status_suffix(code: u16, text: String) -> Seq<char> {
    decimal_digits(code as nat) + " "@ + text@
}

impl FetchError {
    /// Categorize an HTTP-style status: 4xx is a client error, 5xx a server
    /// error, anything else unknown.
    pub fn from_status(url: String, code: u16, text: String) -> (r: FetchError)
        ensures
            400 <= code < 500 ==> r == (FetchError::ClientError { url, code, text }),
            500 <= code < 600 ==> r == (FetchError::ServerError { url, code, text }),
            !(400 <= code < 600) ==> r == (FetchError::UnknownError { url, code, text }),
    {
        if 400 <= code && code < 500 {
            FetchError::ClientError { url, code, text }
        } else if 500 <= code && code < 600 {
            FetchError::ServerError { url, code, text }
        } else {
            FetchError::UnknownError { url, code, text }
        }
    }

    /// Whether this is a client error with status 404.
    pub fn is_not_found(&self) -> (r: bool)
        ensures
            r == (self matches FetchError::ClientError { code, .. } && code == 404),
    {
        match self {
            FetchError::ClientError { code, .. } => *code == 404,
            _ => false,
        }
    }

    /// Whether this is a client error with status 403.
    pub fn is_forbidden(&self) -> (r: bool)
        ensures
            r == (self matches FetchError::ClientError { code, .. } && code == 403),
    {
        match self {
            FetchError::ClientError { code, .. } => *code == 403,
            _ => false,
        }
    }

    /// The user-visible message: the failing URL and the categorized cause.
    pub fn message(&self) -> (r: String)
        ensures
            r@ == fetch_error_message(*self),
    {
        let mut out = String::new();
        out.append("Can not fetch \"");
        match self {
            FetchError::SerdeError(url, detail) => {
                out.append(url.as_str());
                out.append("\". Serde error ");
                out.append(detail.as_str());
                proof {
                    assert(out@ =~= fetch_error_message(*self));
                }
            },
            FetchError::DomException(url, detail) => {
                out.append(url.as_str());
                out.append("\". DOM exception ");
                out.append(detail.as_str());
                proof {
                    assert(out@ =~= fetch_error_message(*self));
                }
            },
            FetchError::PromiseError(url, detail) => {
                out.append(url.as_str());
                out.append("\". Promise error ");
                out.append(detail.as_str());
                proof {
                    assert(out@ =~= fetch_error_message(*self));
                }
            },
            FetchError::NetworkError(url, detail) => {
                out.append(url.as_str());
                out.append("\". Network error ");
                out.append(detail.as_str());
                proof {
                    assert(out@ =~= fetch_error_message(*self));
                }
            },
            FetchError::RequestError(url, detail) => {
                out.append(url.as_str());
                out.append("\". Request error ");
                out.append(detail.as_str());
                proof {
                    assert(out@ =~= fetch_error_message(*self));
                }
            },
            FetchError::NotFound { url, code, text } => {
                out.append(url.as_str());
                out.append("\". Not found ");
                let digits = format_u16(*code);
                out.append(digits.as_str());
                out.append(" ");
                out.append(text.as_str());
                proof {
                    assert(out@ =~= fetch_error_message(*self));
                }
            },
            FetchError::Forbidden { url, code, text } => {
                out.append(url.as_str());
                out.append("\". Forbidden ");
                let digits = format_u16(*code);
                out.append(digits.as_str());
                out.append(" ");
                out.append(text.as_str());
                proof {
                    assert(out@ =~= fetch_error_message(*self));
                }
            },
            FetchError::ClientError { url, code, text } => {
                out.append(url.as_str());
                out.append("\". Client error ");
                let digits = format_u16(*code);
                out.append(digits.as_str());
                out.append(" ");
                out.append(text.as_str());
                proof {
                    assert(out@ =~= fetch_error_message(*self));
                }
            },
            FetchError::ServerError { url, code, text } => {
                out.append(url.as_str());
                out.append("\". Server error ");
                let digits = format_u16(*code);
                out.append(digits.as_str());
                out.append(" ");
                out.append(text.as_str());
                proof {
                    assert(out@ =~= fetch_error_message(*self));
                }
            },
            FetchError::UnknownError { url, code, text } => {
                out.append(url.as_str());
                out.append("\". Unknown Error ");
                let digits = format_u16(*code);
                out.append(digits.as_str());
                out.append(" ");
                out.append(text.as_str());
                proof {
                    assert(out@ =~= fetch_error_message(*self));
                }
            },
        }
        out
    }
}

/// An error naming the widget it concerns: an unknown type tag or a factory
/// construction failure.
#[derive(Debug, Clone)]
pub struct WidgetError {
    pub widget: String,
    pub err: &'static str,
}

/// The rendered message of a widget error.
pub open spec fn widget_error_message(e: WidgetError) -> Seq<char> {
    "Error in widget \""@ + e.widget@ + "\": "@ + e.err@
}

impl WidgetError {
    /// Record an error for the named widget.
    pub fn new(widget: &str, err: &'static str) -> (r: WidgetError)
        ensures
            r.widget@ == widget@,
            r.err == err,
    {
        WidgetError { widget: widget.to_owned(), err }
    }

    /// The user-visible message: the widget name and the cause.
    pub fn message(&self) -> (r: String)
        ensures
            r@ == widget_error_message(*self),
    {
        let mut out = String::new();
        out.append("Error in widget \"");
        out.append(self.widget.as_str());
        out.append("\": ");
        out.append(self.err);
        proof {
            assert(out@ =~= widget_error_message(*self));
        }
        out
    }
}

} // verus!
