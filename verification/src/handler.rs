//! Answering a request from the served directory.
//!
//! The handler never touches the file system. It names a path to look at
//! ([`Step::Probe`]), the caller says what stands there ([`PathKind`]), and so
//! on until the handler knows the response or gives up.
//!
//! The requested path is joined to the served directory as it stands:
//! segments such as `..` are not looked for, and a request can name what lies
//! outside the directory. The server is meant for a developer's own machine.

use crate::content_type::ContentType;
use crate::paths::{extension, extension_of, join, joined_path, text_of};
use crate::request::{lemma_query_is_stripped, relative_path, request_path, request_target};
use crate::response::{Response, ResponseView};
use vstd::prelude::*;
use vstd::string::*;

verus! {

/// What stands at a path.
#[derive(Clone, Copy, Debug, PartialEq, Eq)]
pub enum PathKind {
    /// Nothing, or nothing that can be looked at.
    Missing,
    /// A regular file of `len` bytes.
    File { len: u64 },
    /// A directory.
    Directory,
    /// Something that is neither.
    Other,
}

/// Why a request was given up.
#[derive(Debug, PartialEq, Eq)]
pub enum HandlerError {
    /// The request line has no second token.
    MissingPath,
    /// The request names a directory that holds no index file. This is a
    /// failure of the request, answered like any other with a 500, and not a
    /// 404.
    NoIndex { directory: String },
}

/// A [`HandlerError`] as contracts speak of it.
pub ghost enum HandlerErrorView {
    MissingPath,
    NoIndex { directory: Seq<char> },
}

impl View for HandlerError {
    type V = HandlerErrorView;

    open spec fn view(&self) -> HandlerErrorView {
        match *self {
            HandlerError::MissingPath => HandlerErrorView::MissingPath,
            HandlerError::NoIndex { directory } => HandlerErrorView::NoIndex {
                directory: directory@,
            },
        }
    }
}

impl HandlerErrorView {
    /// The text that describes the error to an operator.
    pub open spec fn message(self) -> Seq<char> {
        match self {
            HandlerErrorView::MissingPath => "Could not find path in request"@,
            HandlerErrorView::NoIndex { directory } => "no index.html in "@ + directory,
        }
    }
}

impl HandlerError {
    /// The text that describes the error to an operator.
    pub fn message(&self) -> (text: String)
        ensures
            text@ == self@.message(),
    {
        match self {
            HandlerError::MissingPath => String::from_str("Could not find path in request"),
            HandlerError::NoIndex { directory } => {
                let mut text = String::from_str("no index.html in ");
                text.append(directory.as_str());
                text
            },
        }
    }
}

enum State {
    Requested { path: String, fallback: Option<String> },
    IndexHtml { directory: String, path: String, fallback: Option<String> },
    IndexHtm { directory: String, path: String, fallback: Option<String> },
    Fallback { path: String },
}

/// A request that waits for word of one path.
pub struct Pending {
    state: State,
}

/// A [`Pending`] as contracts speak of it. `path` is the path asked about;
/// `fallback` is the path served where the one found is no file.
pub ghost enum PendingView {
    /// The path the request names.
    Requested { path: Seq<char>, fallback: Option<Seq<char>> },
    /// `index.html` in `directory`, which the request names.
    IndexHtml { directory: Seq<char>, path: Seq<char>, fallback: Option<Seq<char>> },
    /// `index.htm` in `directory`, which the request names.
    IndexHtm { directory: Seq<char>, path: Seq<char>, fallback: Option<Seq<char>> },
    /// The fallback.
    Fallback { path: Seq<char> },
}

impl PendingView {
    /// The path asked about.
    pub open spec fn path(self) -> Seq<char> {
        match self {
            PendingView::Requested { path, .. } => path,
            PendingView::IndexHtml { path, .. } => path,
            PendingView::IndexHtm { path, .. } => path,
            PendingView::Fallback { path } => path,
        }
    }
}

impl View for Pending {
    type V = PendingView;

    closed spec fn view(&self) -> PendingView {
        match self.state {
            State::Requested { path, fallback } => PendingView::Requested {
                path: path@,
                fallback: text_of(fallback),
            },
            State::IndexHtml { directory, path, fallback } => PendingView::IndexHtml {
                directory: directory@,
                path: path@,
                fallback: text_of(fallback),
            },
            State::IndexHtm { directory, path, fallback } => PendingView::IndexHtm {
                directory: directory@,
                path: path@,
                fallback: text_of(fallback),
            },
            State::Fallback { path } => PendingView::Fallback { path: path@ },
        }
    }
}

/// What the caller does next.
pub enum Step {
    /// Look at `Pending::path` and resume with what stands there.
    Probe(Pending),
    /// Write the response; the request is done.
    Respond(Response),
    /// Give the request up.
    Fail(HandlerError),
}

/// A [`Step`] as contracts speak of it.
pub ghost enum StepView {
    Probe(PendingView),
    Respond(ResponseView),
    Fail(HandlerErrorView),
}

impl View for Step {
    type V = StepView;

    open spec fn view(&self) -> StepView {
        match *self {
            Step::Probe(pending) => StepView::Probe(pending@),
            Step::Respond(response) => StepView::Respond(response@),
            Step::Fail(error) => StepView::Fail(error@),
        }
    }
}

/// The response that `path` gets once it is settled on: the file there, with
/// the content type of its extension, or nothing.
pub open spec fn served(path: Seq<char>, kind: PathKind) -> ResponseView {
    match kind {
        PathKind::File { len } => ResponseView::File {
            path,
            len,
            content_type: ContentType::of_extension(extension_of(path)),
        },
        _ => ResponseView::NotFound { path },
    }
}

/// The step after `path` was found to hold `kind`: the fallback is asked
/// about where there is one and `path` is no file.
pub open spec fn settle(path: Seq<char>, kind: PathKind, fallback: Option<Seq<char>>) -> StepView {
    match fallback {
        Some(other) => if kind is File {
            StepView::Respond(served(path, kind))
        } else {
            StepView::Probe(PendingView::Fallback { path: other })
        },
        None => StepView::Respond(served(path, kind)),
    }
}

/// The first step on a request: the path that the header names is joined to
/// `root` and asked about.
pub open spec fn begin(header: Seq<char>, root: Seq<char>, fallback: Option<Seq<char>>) -> StepView {
    match request_target(header) {
        None => StepView::Fail(HandlerErrorView::MissingPath),
        Some(target) => StepView::Probe(
            PendingView::Requested {
                path: joined_path(root, relative_path(target)),
                fallback: match fallback {
                    Some(other) => Some(joined_path(root, other)),
                    None => None,
                },
            },
        ),
    }
}

/// The step after the path asked about was found to hold `kind`.
pub open spec fn resume(pending: PendingView, kind: PathKind) -> StepView {
    match pending {
        PendingView::Requested { path, fallback } => if kind is Directory {
            StepView::Probe(
                PendingView::IndexHtml {
                    directory: path,
                    path: joined_path(path, "index.html"@),
                    fallback,
                },
            )
        } else {
            settle(path, kind, fallback)
        },
        PendingView::IndexHtml { directory, path, fallback } => if kind is Missing {
            StepView::Probe(
                PendingView::IndexHtm {
                    directory,
                    path: joined_path(directory, "index.htm"@),
                    fallback,
                },
            )
        } else {
            settle(path, kind, fallback)
        },
        PendingView::IndexHtm { directory, path, fallback } => if kind is Missing {
            StepView::Fail(HandlerErrorView::NoIndex { directory })
        } else {
            settle(path, kind, fallback)
        },
        PendingView::Fallback { path } => StepView::Respond(served(path, kind)),
    }
}

fn serve(path: String, kind: PathKind) -> (response: Response)
    ensures
        response@ == served(path@, kind),
{
    match kind {
        PathKind::File { len } => {
            let found = extension(path.as_str());
            let content_type = match &found {
                Some(e) => ContentType::from_extension(Some(e.as_str())),
                None => ContentType::from_extension(None),
            };
            Response::File { path, len, content_type }
        },
        _ => Response::NotFound { path },
    }
}

fn settle_on(path: String, kind: PathKind, fallback: Option<String>) -> (step: Step)
    ensures
        step@ == settle(path@, kind, text_of(fallback)),
{
    match fallback {
        Some(other) => match kind {
            PathKind::File { .. } => Step::Respond(serve(path, kind)),
            _ => Step::Probe(Pending { state: State::Fallback { path: other } }),
        },
        None => Step::Respond(serve(path, kind)),
    }
}

/// Begins to answer the request in `header` from the directory
/// `dist_dir_path`, with `not_found_path` (relative to that directory) served
/// in place of what is no file.
pub fn default_request_handler(
    header: &str,
    dist_dir_path: String,
    not_found_path: Option<String>,
) -> (step: Step)
    ensures
        step@ == begin(header@, dist_dir_path@, text_of(not_found_path)),
{
    match request_path(header) {
        None => Step::Fail(HandlerError::MissingPath),
        Some(relative) => {
            let path = join(dist_dir_path.as_str(), relative.as_str());
            let fallback = match not_found_path {
                Some(other) => Some(join(dist_dir_path.as_str(), other.as_str())),
                None => None,
            };
            Step::Probe(Pending { state: State::Requested { path, fallback } })
        },
    }
}

impl Pending {
    /// The path to look at.
    pub fn path(&self) -> (path: &str)
        ensures
            path@ == self@.path(),
    {
        match &self.state {
            State::Requested { path, .. } => path.as_str(),
            State::IndexHtml { path, .. } => path.as_str(),
            State::IndexHtm { path, .. } => path.as_str(),
            State::Fallback { path } => path.as_str(),
        }
    }

    /// Goes on with the request, `kind` being what stands at the path that
    /// was asked about.
    pub fn resume(self, kind: PathKind) -> (step: Step)
        ensures
            step@ == resume(self@, kind),
    {
        match self.state {
            State::Requested { path, fallback } => match kind {
                PathKind::Directory => {
                    let index = join(path.as_str(), "index.html");
                    Step::Probe(
                        Pending { state: State::IndexHtml { directory: path, path: index, fallback } },
                    )
                },
                _ => settle_on(path, kind, fallback),
            },
            State::IndexHtml { directory, path, fallback } => match kind {
                PathKind::Missing => {
                    let index = join(directory.as_str(), "index.htm");
                    Step::Probe(
                        Pending { state: State::IndexHtm { directory, path: index, fallback } },
                    )
                },
                _ => settle_on(path, kind, fallback),
            },
            State::IndexHtm { directory, path, fallback } => match kind {
                PathKind::Missing => Step::Fail(HandlerError::NoIndex { directory }),
                _ => settle_on(path, kind, fallback),
            },
            State::Fallback { path } => Step::Respond(serve(path, kind)),
        }
    }
}

/// The path that answers a request for `full`: `full` itself, or, where
/// `full` is a directory, the first of `index.html` and `index.htm` in it
/// that exists. A directory with neither is an error.
pub open spec fn located(files: spec_fn(Seq<char>) -> PathKind, full: Seq<char>) -> Result<
    Seq<char>,
    HandlerErrorView,
> {
    if files(full) is Directory {
        if !(files(joined_path(full, "index.html"@)) is Missing) {
            Ok(joined_path(full, "index.html"@))
        } else if !(files(joined_path(full, "index.htm"@)) is Missing) {
            Ok(joined_path(full, "index.htm"@))
        } else {
            Err(HandlerErrorView::NoIndex { directory: full })
        }
    } else {
        Ok(full)
    }
}

/// How the request for `relative` below `root` is resolved when `files` says
/// what stands at each path: the located path is served, but where a
/// fallback is set and the located path is no file, the fallback below
/// `root` is served in its place, whether it exists or not.
pub open spec fn resolution(
    files: spec_fn(Seq<char>) -> PathKind,
    root: Seq<char>,
    fallback: Option<Seq<char>>,
    relative: Seq<char>,
) -> Result<ResponseView, HandlerErrorView> {
    match located(files, joined_path(root, relative)) {
        Err(error) => Err(error),
        Ok(path) => match fallback {
            Some(other) => if files(path) is File {
                Ok(served(path, files(path)))
            } else {
                Ok(served(joined_path(root, other), files(joined_path(root, other))))
            },
            None => Ok(served(path, files(path))),
        },
    }
}

/// How the request in `header` ends when `files` says what stands at each
/// path.
pub open spec fn answer(
    files: spec_fn(Seq<char>) -> PathKind,
    header: Seq<char>,
    root: Seq<char>,
    fallback: Option<Seq<char>>,
) -> StepView {
    match request_target(header) {
        None => StepView::Fail(HandlerErrorView::MissingPath),
        Some(target) => match resolution(files, root, fallback, relative_path(target)) {
            Ok(response) => StepView::Respond(response),
            Err(error) => StepView::Fail(error),
        },
    }
}

/// The handler driven from `step` on for at most `rounds` rounds, each probe
/// answered by `files`.
pub open spec fn drive(files: spec_fn(Seq<char>) -> PathKind, step: StepView, rounds: nat) -> StepView
    decreases rounds,
{
    match step {
        StepView::Probe(pending) => if rounds == 0 {
            step
        } else {
            drive(files, resume(pending, files(pending.path())), (rounds - 1) as nat)
        },
        _ => step,
    }
}

/// The most probes one request takes.
pub open spec fn max_probes() -> nat {
    4
}

/// The handler resolves requests as `resolution` says: driven against any
/// file system, it ends within four probes, and it ends as `answer` tells.
pub proof fn lemma_handler_answers(
    files: spec_fn(Seq<char>) -> PathKind,
    header: Seq<char>,
    root: Seq<char>,
    fallback: Option<Seq<char>>,
)
    ensures
        drive(files, begin(header, root, fallback), max_probes()) == answer(
            files,
            header,
            root,
            fallback,
        ),
        !(answer(files, header, root, fallback) is Probe),
{
    reveal_with_fuel(drive, 5);
}

/// Idempotent static serving. A request that names an existing file is
/// answered with that file, its length and the content type of its
/// extension, and with nothing else: whatever else the file system holds,
/// and whether a fallback is set or not. So as long as the file stays as it
/// is, every serving of the request gives the same response head and the
/// same body.
pub proof fn lemma_static_serving_is_idempotent(
    first: spec_fn(Seq<char>) -> PathKind,
    second: spec_fn(Seq<char>) -> PathKind,
    header: Seq<char>,
    root: Seq<char>,
    fallback: Option<Seq<char>>,
    target: Seq<char>,
    len: u64,
)
    requires
        request_target(header) == Some(target),
        first(joined_path(root, relative_path(target))) == (PathKind::File { len }),
        second(joined_path(root, relative_path(target))) == (PathKind::File { len }),
    ensures
        answer(first, header, root, fallback) == StepView::Respond(
            ResponseView::File {
                path: joined_path(root, relative_path(target)),
                len,
                content_type: ContentType::of_extension(
                    extension_of(joined_path(root, relative_path(target))),
                ),
            },
        ),
        answer(second, header, root, fallback) == answer(first, header, root, fallback),
        drive(second, begin(header, root, fallback), max_probes()) == drive(
            first,
            begin(header, root, fallback),
            max_probes(),
        ),
{
    lemma_handler_answers(first, header, root, fallback);
    lemma_handler_answers(second, header, root, fallback);
}

/// Directory index resolution. A request that names a directory is answered
/// with `index.html` in it where that is a file: status 200, the file's
/// length, the content type of the file's extension.
pub proof fn lemma_directory_serves_index(
    files: spec_fn(Seq<char>) -> PathKind,
    header: Seq<char>,
    root: Seq<char>,
    fallback: Option<Seq<char>>,
    target: Seq<char>,
    len: u64,
)
    requires
        request_target(header) == Some(target),
        files(joined_path(root, relative_path(target))) is Directory,
        files(joined_path(joined_path(root, relative_path(target)), "index.html"@)) == (
        PathKind::File { len }),
    ensures
        answer(files, header, root, fallback) == StepView::Respond(
            ResponseView::File {
                path: joined_path(joined_path(root, relative_path(target)), "index.html"@),
                len,
                content_type: ContentType::of_extension(
                    extension_of(
                        joined_path(joined_path(root, relative_path(target)), "index.html"@),
                    ),
                ),
            },
        ),
        drive(files, begin(header, root, fallback), max_probes()) == answer(
            files,
            header,
            root,
            fallback,
        ),
{
    lemma_handler_answers(files, header, root, fallback);
}

/// The 404 fallback chain, without a fallback: a request that names a path
/// at which nothing stands is answered 404, and the response is its status
/// line and an empty line, with no body.
pub proof fn lemma_missing_path_is_not_found(
    files: spec_fn(Seq<char>) -> PathKind,
    header: Seq<char>,
    root: Seq<char>,
    target: Seq<char>,
)
    requires
        request_target(header) == Some(target),
        files(joined_path(root, relative_path(target))) is Missing,
    ensures
        answer(files, header, root, None) == StepView::Respond(
            ResponseView::NotFound { path: joined_path(root, relative_path(target)) },
        ),
        (ResponseView::NotFound { path: joined_path(root, relative_path(target)) }).head()
            == "HTTP/1.1 404 NOT FOUND\r\n"@ + "\r\n"@,
        drive(files, begin(header, root, None), max_probes()) == answer(files, header, root, None),
{
    lemma_handler_answers(files, header, root, None);
    let response = ResponseView::NotFound { path: joined_path(root, relative_path(target)) };
    assert(response.head() =~= "HTTP/1.1 404 NOT FOUND\r\n"@ + "\r\n"@);
}

/// The 404 fallback chain, with a fallback: a request that names a path at
/// which nothing stands is answered with the fallback below the root where
/// that is a file, status 200.
pub proof fn lemma_missing_path_serves_fallback(
    files: spec_fn(Seq<char>) -> PathKind,
    header: Seq<char>,
    root: Seq<char>,
    other: Seq<char>,
    target: Seq<char>,
    len: u64,
)
    requires
        request_target(header) == Some(target),
        files(joined_path(root, relative_path(target))) is Missing,
        files(joined_path(root, other)) == (PathKind::File { len }),
    ensures
        answer(files, header, root, Some(other)) == StepView::Respond(
            ResponseView::File {
                path: joined_path(root, other),
                len,
                content_type: ContentType::of_extension(extension_of(joined_path(root, other))),
            },
        ),
        drive(files, begin(header, root, Some(other)), max_probes()) == answer(
            files,
            header,
            root,
            Some(other),
        ),
{
    lemma_handler_answers(files, header, root, Some(other));
}

/// Query stripping. Two requests whose targets differ only in that one
/// carries a query are answered alike.
pub proof fn lemma_query_is_ignored(
    files: spec_fn(Seq<char>) -> PathKind,
    plain: Seq<char>,
    queried: Seq<char>,
    root: Seq<char>,
    fallback: Option<Seq<char>>,
    path: Seq<char>,
    query: Seq<char>,
)
    requires
        forall|i: int| 0 <= i < path.len() ==> path[i] != '?',
        request_target(plain) == Some(path),
        request_target(queried) == Some(path + seq!['?'] + query),
    ensures
        begin(queried, root, fallback) == begin(plain, root, fallback),
        answer(files, queried, root, fallback) == answer(files, plain, root, fallback),
        drive(files, begin(queried, root, fallback), max_probes()) == drive(
            files,
            begin(plain, root, fallback),
            max_probes(),
        ),
{
    lemma_query_is_stripped(path, query);
}

} // verus!
