//! Request routing: turning the declared root, URL base and request path
//! into a path confined to the root, and choosing how a request is served.
use vstd::prelude::*;
use crate::text::{contains, is_prefix, occurs_in, starts_with, tail_from};

verus! {

/// Why a request could not be served.
#[derive(Debug, Clone, Copy, PartialEq, Eq, Structural)]
pub enum RouteError {
    /// The root or URL-base header is missing.
    ConfigHeaderMissing,
    /// The declared root cannot be decoded or does not exist.
    RootResolution,
    /// The request path does not lie under the URL base.
    PathOutsideBase,
    /// The part of the request path below the base cannot be decoded.
    PathDecode,
    /// The requested path does not exist.
    PathNotFound,
    /// The requested path resolves to a place outside the root.
    PathEscape,
    /// The templates of a searched directory could not be loaded.
    TemplateLoad,
    /// No directory between the requested one and the root defines a
    /// listing template.
    TemplateNotFound,
    /// The requested directory could not be read.
    ReadDir,
    /// A thumbnail request names no file.
    ThumbnailNameMissing,
    /// The file to make a thumbnail of cannot be read.
    SourceNotFound,
    /// The image could not be decoded, resized or encoded.
    ImageProcessing,
    /// The listing template failed to render.
    Render,
}

/// The text that describes each error.
pub open spec fn error_text(e: RouteError) -> Seq<char> {
    match e {
        RouteError::ConfigHeaderMissing => "missing X-Index-Root or X-Index-URL-Base header"@,
        RouteError::RootResolution => "could not resolve root"@,
        RouteError::PathOutsideBase => "path is outside of base"@,
        RouteError::PathDecode => "could not decode path as UTF-8"@,
        RouteError::PathNotFound => "could not resolve path"@,
        RouteError::PathEscape => "path is outside of root"@,
        RouteError::TemplateLoad => "could not load templates"@,
        RouteError::TemplateNotFound => "no template directory found"@,
        RouteError::ReadDir => "could not read directory"@,
        RouteError::ThumbnailNameMissing => "no thumbnail file named"@,
        RouteError::SourceNotFound => "thumbnail source not found"@,
        RouteError::ImageProcessing => "could not make thumbnail"@,
        RouteError::Render => "could not render listing"@,
    }
}

impl RouteError {
    /// A human-readable description of the error.
    pub fn describe(&self) -> (r: String)
        ensures
            r@ == error_text(*self),
    {
        let s = match self {
            RouteError::ConfigHeaderMissing => "missing X-Index-Root or X-Index-URL-Base header",
            RouteError::RootResolution => "could not resolve root",
            RouteError::PathOutsideBase => "path is outside of base",
            RouteError::PathDecode => "could not decode path as UTF-8",
            RouteError::PathNotFound => "could not resolve path",
            RouteError::PathEscape => "path is outside of root",
            RouteError::TemplateLoad => "could not load templates",
            RouteError::TemplateNotFound => "no template directory found",
            RouteError::ReadDir => "could not read directory",
            RouteError::ThumbnailNameMissing => "no thumbnail file named",
            RouteError::SourceNotFound => "thumbnail source not found",
            RouteError::ImageProcessing => "could not make thumbnail",
            RouteError::Render => "could not render listing",
        };
        String::from_str(s)
    }
}

#[verifier::external_type_specification]
#[verifier::external_body]
pub struct ExFromUtf8Error(std::string::FromUtf8Error);

/// Name for what `urlencoding::decode` makes of a text: the percent-decoded
/// text, or `None` where the decoded bytes are not UTF-8.
pub uninterp spec fn url_decoded(s: Seq<char>) -> Option<Seq<char>>;

/// The text holds no percent sign, so decoding leaves it as it is.
pub open spec fn free_of_escapes(s: Seq<char>) -> bool {
    forall|i: int| 0 <= i < s.len() ==> s[i] != '\u{25}'
}

/// Relies on `urlencoding::decode`: percent-decodes, fails where the result
/// is not UTF-8, and hands back a text with no `%` as it is.
#[verifier::external_body]
fn url_decode(s: &str) -> (r: Result<String, std::string::FromUtf8Error>)
    ensures
        r matches Ok(v) ==> url_decoded(s@) == Some(v@) && (free_of_escapes(s@) ==> v@ == s@),
        r is Err ==> url_decoded(s@) is None,
        free_of_escapes(s@) ==> r is Ok,
{
    urlencoding::decode(s).map(|c| c.into_owned())
}

/// The request path lies under the URL base, segment-wise: the base is a
/// prefix that ends at a separator or at the end of the path.
pub open spec fn under_base(base: Seq<char>, path: Seq<char>) -> bool {
    &&& is_prefix(base, path)
    &&& path.len() == base.len() || path[base.len() as int] == '/' || (base.len() > 0 && base.last()
        == '/')
}

/// The part of a path under the base, without the separator after the base.
pub open spec fn below_base(base: Seq<char>, path: Seq<char>) -> Seq<char> {
    let rest = path.skip(base.len() as int);
    if rest.len() > 0 && rest[0] == '/' {
        rest.skip(1)
    } else {
        rest
    }
}

/// `rel` joined onto `dir`: an absolute `rel` replaces `dir`.
pub open spec fn joined(dir: Seq<char>, rel: Seq<char>) -> Seq<char> {
    if rel.len() > 0 && rel[0] == '/' {
        rel
    } else if dir.len() > 0 && dir.last() == '/' {
        dir + rel
    } else {
        dir + seq!['/'] + rel
    }
}

/// `path` is `root` or lies below it, segment-wise: a sibling that merely
/// shares the root's text as a prefix does not count.
pub open spec fn within(root: Seq<char>, path: Seq<char>) -> bool {
    path == root || (is_prefix(root, path) && path.len() > root.len() && ((root.len() > 0
        && root.last() == '/') || path[root.len() as int] == '/'))
}

/// A path accepted as within a root is the root or extends it by whole
/// components: a sibling such as `/data2` beside the root `/data` is not
/// within it, nor is any path shorter than the root.
pub proof fn lemma_within_by_components(root: Seq<char>, path: Seq<char>)
    requires
        root.len() > 0,
        root.last() != '/',
    ensures
        within(root, path) <==> (path == root || (is_prefix(root + seq!['/'], path))),
{
    let r2 = root + seq!['/'];
    if within(root, path) && path != root {
        assert(path.subrange(0, r2.len() as int) =~= r2);
    }
    if path != root && is_prefix(r2, path) {
        assert(path.subrange(0, root.len() as int) =~= root) by {
            assert(path.subrange(0, root.len() as int) =~= r2.subrange(0, root.len() as int));
        }
        assert(path[root.len() as int] == r2[root.len() as int]);
    }
}

/// The root that the request declares, decoded; it is still to be resolved
/// on the filesystem.
pub fn declared_root(header: Option<&str>) -> (r: Result<String, RouteError>)
    ensures
        header is None ==> r == Err::<String, RouteError>(RouteError::ConfigHeaderMissing),
        header matches Some(h) ==> match url_decoded(h@) {
            Some(d) => (r matches Ok(v) && v@ == d),
            None => r == Err::<String, RouteError>(RouteError::RootResolution),
        },
{
    match header {
        None => Err(RouteError::ConfigHeaderMissing),
        Some(h) => match url_decode(h) {
            Ok(d) => Ok(d),
            Err(_) => Err(RouteError::RootResolution),
        },
    }
}

/// Joins `rel` onto `dir`; an absolute `rel` replaces `dir`.
pub fn join_path(dir: &str, rel: &str) -> (r: String)
    ensures
        r@ == joined(dir@, rel@),
{
    if rel.unicode_len() > 0 && rel.get_char(0) == '/' {
        return rel.to_owned();
    }
    let n = dir.unicode_len();
    if n > 0 && dir.get_char(n - 1) == '/' {
        let mut s = dir.to_owned();
        s.append(rel);
        s
    } else {
        let mut s = dir.to_owned();
        s.append("/");
        s.append(rel);
        proof {
            reveal_strlit("/");
            assert(s@ =~= dir@ + seq!['/'] + rel@);
        }
        s
    }
}

/// The path that a request asks for: the part of the request path below
/// the URL base, decoded and joined onto the resolved root. It is still to
/// be resolved on the filesystem and confined.
pub fn requested_path(root: &str, base_header: Option<&str>, uri_path: &str) -> (r: Result<
    String,
    RouteError,
>)
    ensures
        base_header is None ==> r == Err::<String, RouteError>(RouteError::ConfigHeaderMissing),
        base_header matches Some(base) ==> {
            if !under_base(base@, uri_path@) {
                r == Err::<String, RouteError>(RouteError::PathOutsideBase)
            } else {
                match url_decoded(below_base(base@, uri_path@)) {
                    Some(rel) => (r matches Ok(p) && p@ == joined(root@, rel)),
                    None => r == Err::<String, RouteError>(RouteError::PathDecode),
                }
            }
        },
        base_header matches Some(base) ==> (under_base(base@, uri_path@) && free_of_escapes(
            below_base(base@, uri_path@),
        ) ==> (r matches Ok(p) && p@ == joined(root@, below_base(base@, uri_path@)))),
{
    let base = match base_header {
        None => return Err(RouteError::ConfigHeaderMissing),
        Some(b) => b,
    };
    if !starts_with(uri_path, base) {
        return Err(RouteError::PathOutsideBase);
    }
    let b = base.unicode_len();
    let n = uri_path.unicode_len();
    let sep_after = b < n && uri_path.get_char(b) == '/';
    let base_ends_sep = b > 0 && base.get_char(b - 1) == '/';
    if !(b == n || sep_after || base_ends_sep) {
        return Err(RouteError::PathOutsideBase);
    }
    let rest = tail_from(uri_path, b);
    let rel = if sep_after {
        proof {
            assert(rest@.skip(1) =~= uri_path@.skip(b + 1));
        }
        tail_from(uri_path, b + 1)
    } else {
        rest
    };
    assert(rel@ == below_base(base@, uri_path@));
    match url_decode(rel.as_str()) {
        Ok(d) => Ok(join_path(root, d.as_str())),
        Err(_) => Err(RouteError::PathDecode),
    }
}

/// Accepts a resolved path only where it is the resolved root or lies
/// below it.
pub fn confine(root: &str, path: String) -> (r: Result<String, RouteError>)
    ensures
        within(root@, path@) ==> (r matches Ok(p) && p@ == path@),
        !within(root@, path@) ==> r == Err::<String, RouteError>(RouteError::PathEscape),
{
    let rn = root.unicode_len();
    let pn = path.as_str().unicode_len();
    if !starts_with(path.as_str(), root) {
        proof {
            if path@ == root@ {
                assert(path@.subrange(0, root@.len() as int) =~= path@);
            }
        }
        return Err(RouteError::PathEscape);
    }
    if pn == rn {
        assert(path@ =~= root@) by {
            assert(path@.subrange(0, root@.len() as int) =~= path@);
        }
        return Ok(path);
    }
    if (rn > 0 && root.get_char(rn - 1) == '/') || path.as_str().get_char(rn) == '/' {
        Ok(path)
    } else {
        Err(RouteError::PathEscape)
    }
}

/// How a request is served.
#[derive(Debug, PartialEq, Eq, Structural)]
pub enum Mode {
    Listing,
    Thumbnail,
}

/// A query that mentions `thumbnail` asks for a thumbnail; anything else
/// for a listing.
pub fn route_mode(query: Option<&str>) -> (r: Mode)
    ensures
        r == (if query matches Some(q) && occurs_in("thumbnail"@, q@) {
            Mode::Thumbnail
        } else {
            Mode::Listing
        }),
{
    match query {
        Some(q) => {
            if contains(q, "thumbnail") {
                Mode::Thumbnail
            } else {
                Mode::Listing
            }
        },
        None => Mode::Listing,
    }
}


/// The body of a reply.
#[derive(Debug)]
pub enum Body {
    Bytes(Vec<u8>),
    Text(String),
}

/// What a request is answered with.
#[derive(Debug)]
pub struct Reply {
    pub status: u16,
    pub content_type: Option<String>,
    pub etag: Option<String>,
    pub body: Body,
}

/// The body is empty.
pub open spec fn empty_body(b: Body) -> bool {
    match b {
        Body::Bytes(v) => v@.len() == 0,
        Body::Text(s) => s@.len() == 0,
    }
}

impl Reply {
    /// A rendered listing: status 200, HTML.
    pub fn html(page: String) -> (r: Reply)
        ensures
            r.status == 200,
            r.content_type matches Some(c) && c@ == "text/html"@,
            r.etag is None,
            r.body matches Body::Text(t) && t@ == page@,
    {
        Reply {
            status: 200,
            content_type: Some(String::from_str("text/html")),
            etag: None,
            body: Body::Text(page),
        }
    }

    /// The client's copy is current: status 304, no type, no tag, no body.
    pub fn not_modified() -> (r: Reply)
        ensures
            r.status == 304,
            r.content_type is None,
            r.etag is None,
            empty_body(r.body),
    {
        Reply { status: 304, content_type: None, etag: None, body: Body::Bytes(Vec::new()) }
    }

    /// A failed request: status 500, the error's description as plain text.
    pub fn failure(e: &RouteError) -> (r: Reply)
        ensures
            r.status == 500,
            r.content_type matches Some(c) && c@ == "text/plain"@,
            r.etag is None,
            r.body matches Body::Text(t) && t@ == error_text(*e),
    {
        Reply {
            status: 500,
            content_type: Some(String::from_str("text/plain")),
            etag: None,
            body: Body::Text(e.describe()),
        }
    }
}

} // verus!
