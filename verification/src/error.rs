//! Error type for the HTTP span reporter.

use vstd::prelude::*;

verus! {

#[verifier::external_type_specification]
#[verifier::external_body]
pub struct ExStatusCode(http::StatusCode);

/// The number a status code stands for: what `as_u16` reads out of it.
/// The result depends on the status alone.
pub uninterp spec fn code_of(status: http::StatusCode) -> u16;

/// The text a status code displays as: the number and its canonical
/// reason phrase. The result depends on the status alone.
pub uninterp spec fn status_display(status: http::StatusCode) -> Seq<char>;

/// Relies on `http::StatusCode::as_u16`: the number the status stands
/// for; status codes are three-digit numbers.
#[verifier::external_body]
pub fn status_as_u16(status: &http::StatusCode) -> (r: u16)
    ensures
        r == code_of(*status),
        100 <= r <= 999,
{
    status.as_u16()
}

/// Relies on the `Display` of `http::StatusCode` (through `format`): the
/// code and its canonical reason phrase, a function of the status alone.
#[verifier::external_body]
fn status_text(status: &http::StatusCode) -> (r: String)
    ensures
        r@ == status_display(*status),
{
    format!("{}", status)
}

enum ErrorInner {
    Http(http::StatusCode, u16),
    Transport(String),
}

/// An error produced while shipping a batch of spans.
///
/// Either the collector answered with a status outside the 2xx range, or
/// the transport itself failed.
pub struct Error {
    inner: ErrorInner,
}

impl Error {
    /// A held status and its recorded number agree.
    #[verifier::type_invariant]
    pub open spec fn inv(self) -> bool {
        match self.held_status() {
            Some(status) => self.spec_status() == Some(code_of(status)),
            None => self.spec_status() is None,
        }
    }

    /// The numeric status code the error carries, when it is a protocol
    /// error.
    pub closed spec fn spec_status(&self) -> Option<u16> {
        match self.inner {
            ErrorInner::Http(_, code) => Some(code),
            ErrorInner::Transport(_) => None,
        }
    }

    /// The status the error holds, when it is a protocol error.
    pub closed spec fn held_status(&self) -> Option<http::StatusCode> {
        match self.inner {
            ErrorInner::Http(status, _) => Some(status),
            ErrorInner::Transport(_) => None,
        }
    }

    /// The transport description the error carries, when it is a
    /// transport error.
    pub closed spec fn spec_transport(&self) -> Option<Seq<char>> {
        match self.inner {
            ErrorInner::Http(..) => None,
            ErrorInner::Transport(ref m) => Some(m@),
        }
    }

    /// An error for a response with the given status.
    pub fn http(status: http::StatusCode) -> (r: Error)
        ensures
            r.held_status() == Some(status),
            r.spec_status() == Some(code_of(status)),
            100 <= code_of(status) <= 999,
    {
        let code = status_as_u16(&status);
        Error::http_with_code(status, code)
    }

    /// An error carrying a status and its number.
    pub(crate) fn http_with_code(status: http::StatusCode, code: u16) -> (r: Error)
        requires
            code == code_of(status),
        ensures
            r.held_status() == Some(status),
            r.spec_status() == Some(code),
    {
        Error { inner: ErrorInner::Http(status, code) }
    }

    /// An error for a failure of the transport itself, carrying its
    /// description.
    pub fn transport(message: String) -> (r: Error)
        ensures
            r.spec_status() is None,
            r.held_status() is None,
            r.spec_transport() == Some(message@),
    {
        Error { inner: ErrorInner::Transport(message) }
    }

    /// True if the error was http related. Usually this means an
    /// unexpected response from the zipkin server.
    pub fn is_http_error(&self) -> (r: bool)
        ensures
            r == (self.spec_status() is Some),
            r == (self.held_status() is Some),
    {
        match &self.inner {
            ErrorInner::Http(..) => true,
            ErrorInner::Transport(_) => false,
        }
    }

    /// True if the error came from the transport itself rather than
    /// from a response.
    pub fn is_transport_error(&self) -> (r: bool)
        ensures
            r == (self.spec_status() is None),
            r == (self.spec_transport() is Some),
    {
        match &self.inner {
            ErrorInner::Http(..) => false,
            ErrorInner::Transport(_) => true,
        }
    }

    /// HTTP status code from the zipkin server if there was any: the
    /// very status the error was built from.
    pub fn status_code(&self) -> (r: Option<http::StatusCode>)
        ensures
            r == self.held_status(),
            match r {
                Some(status) => self.spec_status() == Some(code_of(status)),
                None => self.spec_status() is None,
            },
    {
        proof {
            use_type_invariant(self);
        }
        match &self.inner {
            ErrorInner::Http(status, _) => Some(*status),
            ErrorInner::Transport(_) => None,
        }
    }

    /// The numeric status code from the zipkin server if there was any.
    pub fn status_u16(&self) -> (r: Option<u16>)
        ensures
            r == self.spec_status(),
            self.held_status() matches Some(status) ==> r == Some(code_of(status)),
    {
        proof {
            use_type_invariant(self);
        }
        match &self.inner {
            ErrorInner::Http(_, code) => Some(*code),
            ErrorInner::Transport(_) => None,
        }
    }

    /// A human-readable description of the error: the transport's own
    /// message, or a fixed phrase around the status's display.
    pub fn message(&self) -> (r: String)
        ensures
            self.spec_status() is None ==> r@ == self.spec_transport().unwrap(),
            self.held_status() matches Some(status) ==> r@
                == "zipkin server replied with status code "@ + status_display(status),
    {
        match &self.inner {
            ErrorInner::Http(status, _) => {
                let mut m: String = "zipkin server replied with status code ".to_owned();
                let rendered = status_text(status);
                m.append(rendered.as_str());
                m
            },
            ErrorInner::Transport(m) => m.clone(),
        }
    }
}

/// Whether a numeric status code counts as success: any 2xx code.
pub fn is_success_code(code: u16) -> (r: bool)
    ensures
        r == (200 <= code < 300),
{
    200 <= code && code < 300
}

/// Sorts a response's status: exactly the 2xx statuses succeed, and any
/// other becomes a protocol error carrying that status.
pub fn classify_status(status: http::StatusCode) -> (r: Result<(), Error>)
    ensures
        r is Ok <==> 200 <= code_of(status) < 300,
        r matches Err(e) ==> e.held_status() == Some(status) && e.spec_status() == Some(
            code_of(status),
        ),
{
    let code = status_as_u16(&status);
    if is_success_code(code) {
        Ok(())
    } else {
        Err(Error::http_with_code(status, code))
    }
}

} // verus!
