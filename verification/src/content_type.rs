//! The content type that goes with a file's extension.

use vstd::prelude::*;
use vstd::string::*;

verus! {

/// The content types the server knows.
#[derive(Clone, Copy, Debug, PartialEq, Eq)]
pub enum ContentType {
    Html,
    Css,
    JavaScript,
    Wasm,
    OctetStream,
}

impl ContentType {
    /// The content type of a file with extension `extension`. The match is
    /// exact and minds case; what is not in the table is an octet stream.
    pub open spec fn of_extension(extension: Option<Seq<char>>) -> ContentType {
        if extension == Some("html"@) {
            ContentType::Html
        } else if extension == Some("css"@) {
            ContentType::Css
        } else if extension == Some("js"@) {
            ContentType::JavaScript
        } else if extension == Some("wasm"@) {
            ContentType::Wasm
        } else {
            ContentType::OctetStream
        }
    }

    /// The value of the `Content-Type` header.
    pub open spec fn text(self) -> Seq<char> {
        match self {
            ContentType::Html => "text/html;charset=utf-8"@,
            ContentType::Css => "text/css;charset=utf-8"@,
            ContentType::JavaScript => "application/javascript"@,
            ContentType::Wasm => "application/wasm"@,
            ContentType::OctetStream => "application/octet-stream"@,
        }
    }

    /// Looks `extension` up in the table.
    pub fn from_extension(extension: Option<&str>) -> (content_type: ContentType)
        ensures
            content_type == ContentType::of_extension(
                match extension {
                    Some(e) => Some(e@),
                    None => None,
                },
            ),
    {
        match extension {
            None => ContentType::OctetStream,
            Some(e) => {
                let e = String::from_str(e);
                if e == String::from_str("html") {
                    ContentType::Html
                } else if e == String::from_str("css") {
                    ContentType::Css
                } else if e == String::from_str("js") {
                    ContentType::JavaScript
                } else if e == String::from_str("wasm") {
                    ContentType::Wasm
                } else {
                    ContentType::OctetStream
                }
            },
        }
    }

    /// The value of the `Content-Type` header.
    pub fn as_str(&self) -> (text: &'static str)
        ensures
            text@ == self.text(),
    {
        match self {
            ContentType::Html => "text/html;charset=utf-8",
            ContentType::Css => "text/css;charset=utf-8",
            ContentType::JavaScript => "application/javascript",
            ContentType::Wasm => "application/wasm",
            ContentType::OctetStream => "application/octet-stream",
        }
    }
}

} // verus!
