//! The rules of the local HTTP surface in front of the coordinator: which
//! route a request path takes, which key it asks for, and how the outcome of a
//! request turns into a status, a content type and a body.

use vstd::prelude::*;
use vstd::string::StringExecFns;
use crate::fetch::{outcome_view, FetchError, ResourceResponse, ResponseView};
use crate::normalize::{lemma_position_of, position_of};
use crate::text::{
    chars_of, path_extension, percent_decode, percent_decoded, same_text, string_of,
};

verus! {

/// The address the surface listens on: the loopback interface, so that no
/// other machine can reach it.
pub const ADDRESS: [u8; 4] = [127, 0, 0, 1];

/// The port the surface listens on.
pub const PORT: u16 = 8765;

/// Status of a served resource.
pub const STATUS_OK: u16 = 200;

/// Status of a resource that has no key.
pub const STATUS_NOT_FOUND: u16 = 404;

/// Status of a reply that could not be put together.
pub const STATUS_INTERNAL_SERVER_ERROR: u16 = 500;

/// Status of a resource that could not be fetched.
pub const STATUS_BAD_GATEWAY: u16 = 502;

/// Where a request path leads.
#[derive(Debug)]
pub enum Route {
    /// The status report.
    Status,
    /// A resource of the download namespace; `tail` is the path behind the
    /// namespace segment, as the client encoded it.
    Passionfruit { tail: String },
    /// Any other resource; `tail` is the whole path behind its leading slash.
    Resource { tail: String },
}

/// A `Route` as contracts speak of it.
pub enum RouteView {
    Status,
    Passionfruit { tail: Seq<char> },
    Resource { tail: Seq<char> },
}

impl View for Route {
    type V = RouteView;

    open spec fn view(&self) -> RouteView {
        match self {
            Route::Status => RouteView::Status,
            Route::Passionfruit { tail } => RouteView::Passionfruit { tail: tail@ },
            Route::Resource { tail } => RouteView::Resource { tail: tail@ },
        }
    }
}

/// `path` without the one slash it starts with, if it starts with one.
pub open spec fn without_root(path: Seq<char>) -> Seq<char> {
    if path.len() > 0 && path[0] == '/' {
        path.skip(1)
    } else {
        path
    }
}

/// The first segment of a rootless path.
pub open spec fn first_segment(rest: Seq<char>) -> Seq<char> {
    rest.take(position_of(rest, '/') as int)
}

/// What follows the first segment of a rootless path and the slash behind it.
pub open spec fn after_first_segment(rest: Seq<char>) -> Seq<char> {
    if position_of(rest, '/') < rest.len() {
        rest.skip(position_of(rest, '/') as int + 1)
    } else {
        Seq::empty()
    }
}

/// The route of a request path. The first segment decides, and the status
/// route is tried before the others so that no resource can shadow it.
pub open spec fn routed(path: Seq<char>) -> RouteView {
    let rest = without_root(path);
    if first_segment(rest) == "status"@ {
        RouteView::Status
    } else if first_segment(rest) == "passionfruit"@ {
        RouteView::Passionfruit { tail: after_first_segment(rest) }
    } else {
        RouteView::Resource { tail: rest }
    }
}

/// Finds the route of a request path.
pub fn route(path: &str) -> (found: Route)
    ensures
        found@ == routed(path@),
{
    let chars = chars_of(path);
    let start: usize = if chars.len() > 0 && chars[0] == '/' { 1 } else { 0 };
    let ghost rest = without_root(path@);
    assert(rest =~= chars@.subrange(start as int, chars@.len() as int));
    let mut end: usize = start;
    while end < chars.len() && chars[end] != '/'
        invariant
            start <= end <= chars.len(),
            forall|j: int| start <= j < end ==> chars@[j] != '/',
        decreases chars.len() - end,
    {
        end += 1;
    }
    proof {
        assert forall|j: int| 0 <= j < end - start implies rest[j] != '/' by {
            assert(rest[j] == chars@[start + j]);
        }
        lemma_position_of(rest, '/', end - start);
    }
    let head = string_of(&chars, start, end);
    assert(head@ =~= first_segment(rest));
    if same_text(head.as_str(), "status") {
        Route::Status
    } else if same_text(head.as_str(), "passionfruit") {
        let from = if end < chars.len() { end + 1 } else { end };
        let tail = string_of(&chars, from, chars.len());
        assert(tail@ =~= after_first_segment(rest));
        Route::Passionfruit { tail }
    } else {
        let tail = string_of(&chars, start, chars.len());
        Route::Resource { tail }
    }
}

/// The key of the download namespace for a decoded tail; a tail that could not
/// be decoded counts as empty.
pub open spec fn namespaced(decoded: Option<Seq<char>>) -> Seq<char> {
    "passionfruit/"@ + match decoded {
        Some(tail) => tail,
        None => Seq::empty(),
    }
}

/// The key that a request to the download namespace asks for.
pub open spec fn passionfruit_key_of(tail: Seq<char>) -> Seq<char> {
    namespaced(percent_decoded(tail))
}

/// Puts the namespace in front of a decoded tail.
pub fn namespaced_key(decoded: Option<String>) -> (key: String)
    ensures
        key@ == namespaced(decoded.deep_view()),
{
    let mut key = "passionfruit/".to_owned();
    if let Some(tail) = decoded {
        key.append(tail.as_str());
    }
    key
}

/// The key that a request to the download namespace asks for: the namespace,
/// then the tail with its percent escapes resolved.
pub fn passionfruit_key(tail: &str) -> (key: String)
    ensures
        key@ == passionfruit_key_of(tail@),
{
    namespaced_key(percent_decode(tail))
}

/// The key that a request outside the namespace asks for: the path itself, or
/// the start page for the root.
pub open spec fn resource_key_of(tail: Seq<char>) -> Seq<char> {
    if tail.len() == 0 || tail == "/"@ {
        "index.html"@
    } else {
        tail
    }
}

/// The key that a request outside the namespace asks for.
pub fn resource_key(tail: &str) -> (key: String)
    ensures
        key@ == resource_key_of(tail@),
{
    if tail.is_empty() || same_text(tail, "/") {
        "index.html".to_owned()
    } else {
        tail.to_owned()
    }
}

/// Which table of content types a route answers from.
#[derive(Debug, Clone, Copy, PartialEq, Eq, Structural)]
pub enum ContentTable {
    /// Images, audio and video.
    Media,
    /// Media, and the files a web page is made of.
    Page,
}

/// The content type of a media file with this extension, if it has one.
pub open spec fn media_type_of(extension: Seq<char>) -> Option<Seq<char>> {
    if extension == "png"@ {
        Some("image/png"@)
    } else if extension == "jpg"@ || extension == "jpeg"@ {
        Some("image/jpeg"@)
    } else if extension == "gif"@ {
        Some("image/gif"@)
    } else if extension == "mp4"@ {
        Some("video/mp4"@)
    } else if extension == "webm"@ {
        Some("video/webm"@)
    } else if extension == "mp3"@ {
        Some("audio/mpeg"@)
    } else if extension == "wav"@ {
        Some("audio/wav"@)
    } else {
        None
    }
}

/// The content type of a file of a web page with this extension, if it has one.
pub open spec fn page_type_of(extension: Seq<char>) -> Option<Seq<char>> {
    if extension == "html"@ {
        Some("text/html; charset=utf-8"@)
    } else if extension == "js"@ {
        Some("application/javascript; charset=utf-8"@)
    } else if extension == "css"@ {
        Some("text/css; charset=utf-8"@)
    } else if extension == "json"@ {
        Some("application/json"@)
    } else if extension == "svg"@ {
        Some("image/svg+xml"@)
    } else if extension == "ico"@ {
        Some("image/x-icon"@)
    } else if extension == "yaml"@ || extension == "yml"@ {
        Some("text/yaml"@)
    } else {
        None
    }
}

/// The content type that `table` gives a file with this extension. Extensions
/// are matched as written, in lower case; anything unknown is a byte stream.
pub open spec fn content_type_of(table: ContentTable, extension: Option<Seq<char>>) -> Seq<char> {
    match extension {
        Some(extension) => {
            if let Some(media) = media_type_of(extension) {
                media
            } else if table == ContentTable::Page && page_type_of(extension) is Some {
                page_type_of(extension)->0
            } else {
                "application/octet-stream"@
            }
        },
        None => "application/octet-stream"@,
    }
}

/// Looks a media extension up.
fn media_type(extension: &str) -> (found: Option<&'static str>)
    ensures
        found.deep_view() == media_type_of(extension@),
{
    if same_text(extension, "png") {
        Some("image/png")
    } else if same_text(extension, "jpg") || same_text(extension, "jpeg") {
        Some("image/jpeg")
    } else if same_text(extension, "gif") {
        Some("image/gif")
    } else if same_text(extension, "mp4") {
        Some("video/mp4")
    } else if same_text(extension, "webm") {
        Some("video/webm")
    } else if same_text(extension, "mp3") {
        Some("audio/mpeg")
    } else if same_text(extension, "wav") {
        Some("audio/wav")
    } else {
        None
    }
}

/// Looks the extension of a web page's file up.
fn page_type(extension: &str) -> (found: Option<&'static str>)
    ensures
        found.deep_view() == page_type_of(extension@),
{
    if same_text(extension, "html") {
        Some("text/html; charset=utf-8")
    } else if same_text(extension, "js") {
        Some("application/javascript; charset=utf-8")
    } else if same_text(extension, "css") {
        Some("text/css; charset=utf-8")
    } else if same_text(extension, "json") {
        Some("application/json")
    } else if same_text(extension, "svg") {
        Some("image/svg+xml")
    } else if same_text(extension, "ico") {
        Some("image/x-icon")
    } else if same_text(extension, "yaml") || same_text(extension, "yml") {
        Some("text/yaml")
    } else {
        None
    }
}

/// The content type that `table` gives a file with this extension.
pub fn content_type(table: ContentTable, extension: Option<&str>) -> (name: &'static str)
    ensures
        name@ == content_type_of(table, extension.deep_view()),
{
    match extension {
        Some(extension) => {
            if let Some(media) = media_type(extension) {
                return media;
            }
            if table == ContentTable::Page {
                if let Some(page) = page_type(extension) {
                    return page;
                }
            }
            "application/octet-stream"
        },
        None => "application/octet-stream",
    }
}

/// What the surface sends back.
#[derive(Debug)]
pub struct Reply {
    /// The HTTP status.
    pub status: u16,
    /// The `Content-Type` header, where one is sent.
    pub content_type: Option<String>,
    /// The `Cache-Control` header, where one is sent.
    pub cache_control: Option<String>,
    /// The body.
    pub body: Vec<u8>,
}

/// A `Reply` as contracts speak of it.
pub struct ReplyView {
    pub status: u16,
    pub content_type: Option<Seq<char>>,
    pub cache_control: Option<Seq<char>>,
    pub body: Seq<u8>,
}

impl View for Reply {
    type V = ReplyView;

    open spec fn view(&self) -> ReplyView {
        ReplyView {
            status: self.status,
            content_type: self.content_type.deep_view(),
            cache_control: self.cache_control.deep_view(),
            body: self.body@,
        }
    }
}

/// The reply without headers or body that carries nothing but `status`.
pub open spec fn bare(status: u16) -> ReplyView {
    ReplyView { status, content_type: None, cache_control: None, body: Seq::empty() }
}

/// The reply to a request that ended in `outcome`, for a file whose path has
/// the given extension.
///
/// A resource is sent with status 200 and the content type of its extension;
/// pages are sent with `Cache-Control: no-cache` so that they are always
/// asked for again. A resource without key is not found; any other failure is
/// the gateway's.
pub open spec fn replied(
    table: ContentTable,
    outcome: Result<ResponseView, FetchError>,
    extension: Option<Seq<char>>,
) -> ReplyView {
    match outcome {
        Ok(response) => ReplyView {
            status: STATUS_OK,
            content_type: Some(content_type_of(table, extension)),
            cache_control: if table == ContentTable::Page {
                Some("no-cache"@)
            } else {
                None
            },
            body: response.data,
        },
        Err(FetchError::NormalizationImpossible) => bare(STATUS_NOT_FOUND),
        Err(_) => bare(STATUS_BAD_GATEWAY),
    }
}

impl Reply {
    /// A reply that carries nothing but its status.
    pub fn empty(status: u16) -> (reply: Reply)
        ensures
            reply@ == bare(status),
    {
        Reply { status, content_type: None, cache_control: None, body: Vec::new() }
    }

    /// The reply for the case that the real one could not be put together.
    pub fn internal_error() -> (reply: Reply)
        ensures
            reply@ == bare(STATUS_INTERNAL_SERVER_ERROR),
    {
        Reply::empty(STATUS_INTERNAL_SERVER_ERROR)
    }
}

/// Turns the outcome of a request into a reply, for a file whose path has the
/// given extension.
pub fn reply_with(
    table: ContentTable,
    outcome: Result<ResourceResponse, FetchError>,
    extension: Option<&str>,
) -> (reply: Reply)
    ensures
        reply@ == replied(table, outcome_view(outcome), extension.deep_view()),
{
    match outcome {
        Ok(response) => Reply {
            status: STATUS_OK,
            content_type: Some(content_type(table, extension).to_owned()),
            cache_control: if table == ContentTable::Page {
                Some("no-cache".to_owned())
            } else {
                None
            },
            body: response.data,
        },
        Err(FetchError::NormalizationImpossible) => Reply::empty(STATUS_NOT_FOUND),
        Err(_) => Reply::empty(STATUS_BAD_GATEWAY),
    }
}

/// Turns the outcome of a request into a reply. The content type goes by the
/// extension of the path at which the resource was found on disk.
pub fn reply_to(table: ContentTable, outcome: Result<ResourceResponse, FetchError>) -> (reply:
    Reply)
    ensures
        exists|extension: Option<Seq<char>>|
            reply@ == replied(table, outcome_view(outcome), extension),
{
    let extension = match &outcome {
        Ok(response) => path_extension(response.abs_path.as_str()),
        Err(_) => None,
    };
    let ghost seen = extension.deep_view();
    let reply = match &extension {
        Some(found) => reply_with(table, outcome, Some(found.as_str())),
        None => reply_with(table, outcome, None),
    };
    assert(reply@ == replied(table, outcome_view(outcome), seen));
    reply
}

} // verus!
