//! Errors rendered to the browser as styled pages, and the escaping their text goes through.
use vstd::prelude::*;

use crate::text::{cat, chars_of, push_char};

verus! {

/// An error answered with an HTML error page.
#[derive(Debug)]
pub enum StandardError {
    InternalServerError(String),
    NotFound(String),
    BadRequest(String),
    Unauthorized(String),
}

/// Severity an error is logged with.
#[derive(Debug, PartialEq, Eq, Structural)]
pub enum LogLevel {
    Error,
    Warn,
}

impl StandardError {
    /// The detail message carried by an error.
    pub open spec fn detail(&self) -> Seq<char> {
        match self {
            StandardError::InternalServerError(m) => m@,
            StandardError::NotFound(m) => m@,
            StandardError::BadRequest(m) => m@,
            StandardError::Unauthorized(m) => m@,
        }
    }

    /// The page title (the HTTP reason phrase) of an error.
    pub open spec fn title_text(&self) -> Seq<char> {
        match self {
            StandardError::InternalServerError(_) => "Internal Server Error"@,
            StandardError::NotFound(_) => "Not Found"@,
            StandardError::BadRequest(_) => "Bad Request"@,
            StandardError::Unauthorized(_) => "Unauthorized"@,
        }
    }

    /// The HTTP status code of an error.
    pub open spec fn code(&self) -> u16 {
        match self {
            StandardError::InternalServerError(_) => 500,
            StandardError::NotFound(_) => 404,
            StandardError::BadRequest(_) => 400,
            StandardError::Unauthorized(_) => 401,
        }
    }

    /// The HTTP status code.
    pub fn status_code(&self) -> (r: u16)
        ensures
            r == self.code(),
    {
        match self {
            StandardError::InternalServerError(_) => 500,
            StandardError::NotFound(_) => 404,
            StandardError::BadRequest(_) => 400,
            StandardError::Unauthorized(_) => 401,
        }
    }

    /// The page title.
    pub fn title(&self) -> (r: &'static str)
        ensures
            r@ == self.title_text(),
    {
        match self {
            StandardError::InternalServerError(_) => "Internal Server Error",
            StandardError::NotFound(_) => "Not Found",
            StandardError::BadRequest(_) => "Bad Request",
            StandardError::Unauthorized(_) => "Unauthorized",
        }
    }

    /// The detail message.
    pub fn detail_message(&self) -> (r: &str)
        ensures
            r@ == self.detail(),
    {
        match self {
            StandardError::InternalServerError(m) => m.as_str(),
            StandardError::NotFound(m) => m.as_str(),
            StandardError::BadRequest(m) => m.as_str(),
            StandardError::Unauthorized(m) => m.as_str(),
        }
    }

    /// The error text (what `Display` shows): `{title}: {detail}`.
    pub fn message(&self) -> (r: String)
        ensures
            r@ == self.title_text() + ": "@ + self.detail(),
    {
        let mut r = cat(self.title(), ": ");
        r.append(self.detail_message());
        r
    }

    /// Severity for logging: server errors are errors, client errors are warnings.
    pub fn log_level(&self) -> (r: LogLevel)
        ensures
            r == (if self is InternalServerError {
                LogLevel::Error
            } else {
                LogLevel::Warn
            }),
    {
        match self {
            StandardError::InternalServerError(_) => LogLevel::Error,
            _ => LogLevel::Warn,
        }
    }

    /// The parts of the error page: status code, escaped title, escaped detail.
    pub fn page_parts(&self) -> (r: (u16, String, String))
        ensures
            r.0 == self.code(),
            r.1@ == escaped(self.title_text()),
            r.2@ == escaped(self.detail()),
    {
        (self.status_code(), html_escape(self.title()), html_escape(self.detail_message()))
    }
}

/// The HTML-escaped form of one character.
pub open spec fn escape_char(c: char) -> Seq<char> {
    if c == '&' {
        "&amp;"@
    } else if c == '<' {
        "&lt;"@
    } else if c == '>' {
        "&gt;"@
    } else if c == '"' {
        "&quot;"@
    } else {
        seq![c]
    }
}

/// `s` with `&`, `<`, `>` and `"` replaced by their HTML entities.
pub open spec fn escaped(s: Seq<char>) -> Seq<char>
    decreases s.len(),
{
    if s.len() == 0 {
        seq![]
    } else {
        escaped(s.drop_last()) + escape_char(s.last())
    }
}

/// Minimal HTML escape to prevent markup injection in error messages.
pub fn html_escape(s: &str) -> (r: String)
    ensures
        r@ == escaped(s@),
{
    let v = chars_of(s);
    let mut out = String::new();
    for i in 0..v.len()
        invariant
            out@ == escaped(v@.take(i as int)),
    {
        assert(v@.take(i + 1).drop_last() =~= v@.take(i as int));
        let c = v[i];
        if c == '&' {
            out.append("&amp;");
        } else if c == '<' {
            out.append("&lt;");
        } else if c == '>' {
            out.append("&gt;");
        } else if c == '"' {
            out.append("&quot;");
        } else {
            push_char(&mut out, c);
            assert(seq![c] =~= escape_char(c));
        }
    }
    assert(v@.take(v@.len() as int) =~= v@);
    out
}

/// Escaped text holds no `<`, `>` or `"`, so it cannot open a tag or end an attribute.
pub proof fn lemma_escaped_has_no_markup(s: Seq<char>)
    ensures
        !escaped(s).contains('<'),
        !escaped(s).contains('>'),
        !escaped(s).contains('"'),
    decreases s.len(),
{
    reveal_strlit("&amp;");
    reveal_strlit("&lt;");
    reveal_strlit("&gt;");
    reveal_strlit("&quot;");
    if s.len() > 0 {
        lemma_escaped_has_no_markup(s.drop_last());
        let a = escaped(s.drop_last());
        let b = escape_char(s.last());
        assert(escaped(s) == a + b);
        assert forall|i: int| 0 <= i < (a + b).len() implies (a + b)[i] != '<' && (a + b)[i] != '>'
            && (a + b)[i] != '"' by {
            if i < a.len() {
                assert((a + b)[i] == a[i]);
                assert(a.contains(a[i]));
            } else {
                assert((a + b)[i] == b[i - a.len()]);
            }
        }
    }
}

} // verus!
