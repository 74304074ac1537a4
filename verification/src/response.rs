//! What is written to the socket before a body: the status line, the headers
//! and the empty line that ends them.

use crate::content_type::ContentType;
use vstd::prelude::*;
use vstd::string::*;

verus! {

/// The statuses the server answers with.
#[derive(Clone, Copy, Debug, PartialEq, Eq)]
pub enum Status {
    Success,
    NotFound,
    InternalServerError,
}

impl Status {
    /// The code of the status.
    pub open spec fn number(self) -> nat {
        match self {
            Status::Success => 200,
            Status::NotFound => 404,
            Status::InternalServerError => 500,
        }
    }

    /// The status line, line end included.
    pub open spec fn line(self) -> Seq<char> {
        match self {
            Status::Success => "HTTP/1.1 200 OK\r\n"@,
            Status::NotFound => "HTTP/1.1 404 NOT FOUND\r\n"@,
            Status::InternalServerError => "HTTP/1.1 500 INTERNAL SERVER ERROR\r\n"@,
        }
    }

    /// The code of the status.
    pub fn code(&self) -> (code: u16)
        ensures
            code == self.number(),
    {
        match self {
            Status::Success => 200,
            Status::NotFound => 404,
            Status::InternalServerError => 500,
        }
    }

    /// The status line, line end included.
    pub fn status_line(&self) -> (line: &'static str)
        ensures
            line@ == self.line(),
    {
        match self {
            Status::Success => "HTTP/1.1 200 OK\r\n",
            Status::NotFound => "HTTP/1.1 404 NOT FOUND\r\n",
            Status::InternalServerError => "HTTP/1.1 500 INTERNAL SERVER ERROR\r\n",
        }
    }
}

/// The character that writes the digit `d`.
pub open spec fn digit(d: nat) -> char {
    if d == 0 {
        '0'
    } else if d == 1 {
        '1'
    } else if d == 2 {
        '2'
    } else if d == 3 {
        '3'
    } else if d == 4 {
        '4'
    } else if d == 5 {
        '5'
    } else if d == 6 {
        '6'
    } else if d == 7 {
        '7'
    } else if d == 8 {
        '8'
    } else {
        '9'
    }
}

/// `n` written in decimal, without leading zeros.
pub open spec fn decimal(n: nat) -> Seq<char>
    decreases n,
{
    if n < 10 {
        seq![digit(n)]
    } else {
        decimal(n / 10).push(digit(n % 10))
    }
}

fn digit_text(d: u64) -> (text: &'static str)
    requires
        d < 10,
    ensures
        text@ == seq![digit(d as nat)],
{
    proof {
        reveal_strlit("0");
        reveal_strlit("1");
        reveal_strlit("2");
        reveal_strlit("3");
        reveal_strlit("4");
        reveal_strlit("5");
        reveal_strlit("6");
        reveal_strlit("7");
        reveal_strlit("8");
        reveal_strlit("9");
    }
    let text = if d == 0 {
        "0"
    } else if d == 1 {
        "1"
    } else if d == 2 {
        "2"
    } else if d == 3 {
        "3"
    } else if d == 4 {
        "4"
    } else if d == 5 {
        "5"
    } else if d == 6 {
        "6"
    } else if d == 7 {
        "7"
    } else if d == 8 {
        "8"
    } else {
        "9"
    };
    assert(text@ =~= seq![digit(d as nat)]);
    text
}

/// Writes `n` in decimal.
pub fn decimal_text(n: u64) -> (text: String)
    ensures
        text@ == decimal(n as nat),
    decreases n,
{
    if n < 10 {
        String::from_str(digit_text(n))
    } else {
        let mut text = decimal_text(n / 10);
        text.append(digit_text(n % 10));
        assert(text@ =~= decimal((n / 10) as nat).push(digit((n % 10) as nat)));
        text
    }
}

/// A response, but for its body.
#[derive(Debug, PartialEq, Eq)]
pub enum Response {
    /// The file at `path` is the body; it is `len` bytes long.
    File { path: String, len: u64, content_type: ContentType },
    /// Nothing at `path` can be served. There is no body.
    NotFound { path: String },
    /// The request could not be handled. There is no body.
    InternalServerError,
}

/// A [`Response`] as contracts speak of it.
pub ghost enum ResponseView {
    File { path: Seq<char>, len: u64, content_type: ContentType },
    NotFound { path: Seq<char> },
    InternalServerError,
}

impl View for Response {
    type V = ResponseView;

    open spec fn view(&self) -> ResponseView {
        match *self {
            Response::File { path, len, content_type } => ResponseView::File {
                path: path@,
                len,
                content_type,
            },
            Response::NotFound { path } => ResponseView::NotFound { path: path@ },
            Response::InternalServerError => ResponseView::InternalServerError,
        }
    }
}

impl ResponseView {
    /// The status of the response.
    pub open spec fn status(self) -> Status {
        match self {
            ResponseView::File { .. } => Status::Success,
            ResponseView::NotFound { .. } => Status::NotFound,
            ResponseView::InternalServerError => Status::InternalServerError,
        }
    }

    /// The header lines: length and type of the body where there is one,
    /// nothing else.
    pub open spec fn headers(self) -> Seq<char> {
        match self {
            ResponseView::File { len, content_type, .. } => "Content-Length: "@ + decimal(
                len as nat,
            ) + "\r\n"@ + "Content-Type: "@ + content_type.text() + "\r\n"@,
            _ => Seq::empty(),
        }
    }

    /// All that precedes the body: status line, headers, empty line.
    pub open spec fn head(self) -> Seq<char> {
        self.status().line() + self.headers() + "\r\n"@
    }
}

impl Response {
    /// The status of the response.
    pub fn status(&self) -> (status: Status)
        ensures
            status == self@.status(),
    {
        match self {
            Response::File { .. } => Status::Success,
            Response::NotFound { .. } => Status::NotFound,
            Response::InternalServerError => Status::InternalServerError,
        }
    }

    /// The text to write before the body.
    pub fn head(&self) -> (text: String)
        ensures
            text@ == self@.head(),
    {
        let mut text = String::from_str(self.status().status_line());
        match self {
            Response::File { len, content_type, .. } => {
                text.append("Content-Length: ");
                let digits = decimal_text(*len);
                text.append(digits.as_str());
                text.append("\r\n");
                text.append("Content-Type: ");
                text.append(content_type.as_str());
                text.append("\r\n");
                assert(text@ =~= self@.status().line() + self@.headers());
            },
            _ => {
                assert(text@ =~= self@.status().line() + self@.headers());
            },
        }
        text.append("\r\n");
        text
    }
}

} // verus!
