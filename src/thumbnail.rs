//! Thumbnails: which file a request names, when the client's copy is
//! current, and the resized PNG otherwise.
use vstd::prelude::*;
use crate::route::{join_path, joined, within, Body, Reply, RouteError};
use crate::text::{contains, ends_with, is_prefix, is_suffix, occurs_in, same_text, starts_with};
use crate::tag::{header_text, lemma_header_round_trip, matches_request, valid_tag, ETag, EtagRejectable};

verus! {

#[verifier::external_type_specification]
#[verifier::external_body]
pub struct ExImageError(image::ImageError);

/// Name for the pairs that `form_urlencoded::parse` reads from a query.
pub uninterp spec fn form_pairs(q: Seq<char>) -> Seq<(Seq<char>, Seq<char>)>;

/// Relies on `form_urlencoded::parse`: the decoded name-value pairs of a
/// query, in order; they depend on the query alone.
#[verifier::external_body]
fn query_pairs(q: &str) -> (r: Vec<(String, String)>)
    ensures
        r@.len() == form_pairs(q@).len(),
        forall|i: int| 0 <= i < r@.len() ==> (#[trigger] r@[i].0@, r@[i].1@) == form_pairs(q@)[i],
{
    form_urlencoded::parse(q.as_bytes()).into_owned().collect()
}

/// Name for the PNG thumbnail that the `image` crate makes of an image's
/// bytes, scaled to fit a `w` by `h` box; `None` where the bytes do not
/// decode or the result does not encode.
pub uninterp spec fn png_thumbnail(b: Seq<u8>, w: u32, h: u32) -> Option<Seq<u8>>;

/// The big-endian 32-bit number at position `i` of `p`.
pub open spec fn be_u32_at(p: Seq<u8>, i: int) -> int {
    p[i] as int * 16777216 + p[i + 1] as int * 65536 + p[i + 2] as int * 256 + p[i + 3] as int
}

/// A PNG whose header gives a width and a height, each at least 1 and
/// within the `w` by `h` box.
pub open spec fn fits_box(p: Seq<u8>, w: u32, h: u32) -> bool {
    &&& p.len() >= 24
    &&& 1 <= be_u32_at(p, 16) <= w
    &&& 1 <= be_u32_at(p, 20) <= h
}

/// Relies on `image::load_from_memory` to decode, `DynamicImage::resize`
/// with the Lanczos3 filter to fit the box keeping the aspect ratio, and
/// `DynamicImage::write_to` to encode as PNG; each depends on its input
/// alone. The PNG starts with its signature and its header chunk, which
/// gives the scaled width and height, each at least 1 and within the box.
#[verifier::external_body]
fn make_png_thumbnail(b: &Vec<u8>, w: u32, h: u32) -> (r: Result<Vec<u8>, image::ImageError>)
    requires
        w >= 1,
        h >= 1,
    ensures
        r matches Ok(p) ==> png_thumbnail(b@, w, h) == Some(p@),
        r matches Ok(p) ==> fits_box(p@, w, h),
        r is Err ==> png_thumbnail(b@, w, h) is None,
{
    let img = image::load_from_memory(b)?;
    let mut out = std::io::Cursor::new(Vec::new());
    img.resize(w, h, image::imageops::FilterType::Lanczos3).write_to(&mut out, image::ImageFormat::Png)?;
    Ok(out.into_inner())
}

/// The side of the square box that thumbnails are scaled to fit.
pub const THUMBNAIL_BOX: u32 = 50;

/// A name that leaves its directory: absolute, or with a `..` component.
pub open spec fn escaping_name(n: Seq<char>) -> bool {
    ||| n.len() > 0 && n[0] == '/'
    ||| n == ".."@
    ||| is_prefix("../"@, n)
    ||| is_suffix("/.."@, n)
    ||| occurs_in("/../"@, n)
}

/// Whether a name leaves its directory.
pub fn is_escaping_name(n: &str) -> (r: bool)
    ensures
        r == escaping_name(n@),
{
    (n.unicode_len() > 0 && n.get_char(0) == '/') || same_text(n, "..") || starts_with(n, "../")
        || ends_with(n, "/..") || contains(n, "/../")
}

/// A name that does not leave its directory, joined onto it, lies within it.
pub proof fn lemma_joined_name_within(dir: Seq<char>, name: Seq<char>)
    requires
        !escaping_name(name),
    ensures
        within(dir, joined(dir, name)),
{
    let p = joined(dir, name);
    if dir.len() > 0 && dir.last() == '/' {
        assert(p =~= dir + name);
        assert(p.subrange(0, dir.len() as int) =~= dir);
        if name.len() == 0 {
            assert(p =~= dir);
        }
    } else {
        assert(p =~= dir + seq!['/'] + name);
        assert(p.subrange(0, dir.len() as int) =~= dir);
        assert(p[dir.len() as int] == '/');
    }
}

/// The value of the first pair named `key`.
pub open spec fn first_value(pairs: Seq<(Seq<char>, Seq<char>)>, key: Seq<char>) -> Option<
    Seq<char>,
>
    decreases pairs.len(),
{
    if pairs.len() == 0 {
        None
    } else if pairs[0].0 == key {
        Some(pairs[0].1)
    } else {
        first_value(pairs.drop_first(), key)
    }
}

/// The value of the first pair named `key`, if any.
pub fn find_value(pairs: &Vec<(String, String)>, key: &str) -> (r: Option<String>)
    ensures
        r matches Some(v) ==> first_value(pairs@.map_values(|p: (String, String)| (p.0@, p.1@)), key@)
            == Some(v@),
        r is None ==> first_value(pairs@.map_values(|p: (String, String)| (p.0@, p.1@)), key@) is None,
{
    let ghost all = pairs@.map_values(|p: (String, String)| (p.0@, p.1@));
    let mut i: usize = 0;
    assert(all.skip(0) =~= all);
    while i < pairs.len()
        invariant
            i <= pairs@.len(),
            all == pairs@.map_values(|p: (String, String)| (p.0@, p.1@)),
            first_value(all, key@) == first_value(all.skip(i as int), key@),
        decreases pairs@.len() - i,
    {
        assert(all.skip(i as int)[0] == all[i as int]);
        if same_text(pairs[i].0.as_str(), key) {
            return Some(pairs[i].1.clone());
        }
        assert(all.skip(i as int).drop_first() =~= all.skip(i + 1));
        i += 1;
    }
    None
}

/// The file a thumbnail query names: the value of its first `thumbnail`
/// pair, below `dir`. A name that leaves `dir` is refused.
pub fn thumbnail_source(dir: &str, query: &str) -> (r: Result<String, RouteError>)
    ensures
        match first_value(form_pairs(query@), "thumbnail"@) {
            Some(name) => if escaping_name(name) {
                r == Err::<String, RouteError>(RouteError::PathEscape)
            } else {
                (r matches Ok(p) && p@ == joined(dir@, name))
            },
            None => r == Err::<String, RouteError>(RouteError::ThumbnailNameMissing),
        },
        r matches Ok(p) ==> within(dir@, p@),
{
    let pairs = query_pairs(query);
    assert(pairs@.map_values(|p: (String, String)| (p.0@, p.1@)) =~= form_pairs(query@));
    match find_value(&pairs, "thumbnail") {
        Some(name) => {
            if is_escaping_name(name.as_str()) {
                Err(RouteError::PathEscape)
            } else {
                proof {
                    lemma_joined_name_within(dir@, name@);
                }
                Ok(join_path(dir, name.as_str()))
            }
        },
        None => Err(RouteError::ThumbnailNameMissing),
    }
}

/// The reply where the client's copy of the thumbnail is current, or
/// `None` where the thumbnail must be made.
pub fn cached_reply(tag: &ETag, if_none_match: Option<&str>) -> (r: Option<Reply>)
    ensures
        r is Some <==> matches_request(tag@.1, header_view(if_none_match)),
        r matches Some(p) ==> p.status == 304 && p.content_type is None && p.etag is None
            && crate::route::empty_body(p.body),
{
    if tag.satisfies_request(if_none_match) {
        Some(Reply::not_modified())
    } else {
        None
    }
}

/// The PNG thumbnail of an image's bytes: decoded, scaled to fit the
/// thumbnail box, encoded as PNG.
pub fn render_thumbnail(source: &Vec<u8>) -> (r: Result<Vec<u8>, RouteError>)
    ensures
        r matches Ok(p) ==> png_thumbnail(source@, THUMBNAIL_BOX, THUMBNAIL_BOX) == Some(p@),
        r matches Ok(p) ==> fits_box(p@, THUMBNAIL_BOX, THUMBNAIL_BOX),
        r is Err <==> png_thumbnail(source@, THUMBNAIL_BOX, THUMBNAIL_BOX) is None,
        r matches Err(e) ==> e == RouteError::ImageProcessing,
{
    match make_png_thumbnail(source, THUMBNAIL_BOX, THUMBNAIL_BOX) {
        Ok(png) => Ok(png),
        Err(_) => Err(RouteError::ImageProcessing),
    }
}

/// A fresh thumbnail: status 200, PNG, with the source's tag.
pub fn thumbnail_reply(tag: &ETag, png: Vec<u8>) -> (r: Reply)
    ensures
        fresh_reply(r, tag@, png@),
{
    Reply {
        status: 200,
        content_type: Some(String::from_str("image/png")),
        etag: Some(tag.header_value()),
        body: Body::Bytes(png),
    }
}

/// `r` answers with the PNG `png`: status 200, its type, and the tag's
/// header value.
pub open spec fn fresh_reply(r: Reply, tag: (bool, Seq<char>), png: Seq<u8>) -> bool {
    &&& r.status == 200
    &&& r.content_type matches Some(c) && c@ == "image/png"@
    &&& r.etag matches Some(t) && t@ == header_text(tag.0, tag.1)
    &&& r.body matches Body::Bytes(b) && b@ == png
}

/// The `If-None-Match` value as a sequence of characters.
pub open spec fn header_view(h: Option<&str>) -> Option<Seq<char>> {
    match h {
        Some(v) => Some(v@),
        None => None,
    }
}

/// The answer to a thumbnail request for a source with tag `tag`: 304
/// where the client names that tag; else the thumbnail made of the
/// source's bytes, or an error where they could not be read or made into
/// a thumbnail.
pub fn serve_thumbnail(tag: &ETag, if_none_match: Option<&str>, source: Option<Vec<u8>>) -> (r:
    Result<Reply, RouteError>)
    ensures
        matches_request(tag@.1, header_view(if_none_match)) ==> (r matches Ok(p) && p.status == 304
            && p.content_type is None && p.etag is None && crate::route::empty_body(p.body)),
        !matches_request(tag@.1, header_view(if_none_match)) ==> match source {
            None => r == Err::<Reply, RouteError>(RouteError::SourceNotFound),
            Some(b) => match png_thumbnail(b@, THUMBNAIL_BOX, THUMBNAIL_BOX) {
                Some(png) => (r matches Ok(p) && fresh_reply(p, tag@, png) && fits_box(
                    png,
                    THUMBNAIL_BOX,
                    THUMBNAIL_BOX,
                )),
                None => r == Err::<Reply, RouteError>(RouteError::ImageProcessing),
            },
        },
{
    if let Some(p) = cached_reply(tag, if_none_match) {
        return Ok(p);
    }
    let bytes = match source {
        Some(b) => b,
        None => return Err(RouteError::SourceNotFound),
    };
    match render_thumbnail(&bytes) {
        Ok(png) => Ok(thumbnail_reply(tag, png)),
        Err(e) => Err(e),
    }
}

/// A client that sends back the tag it was given has a current copy; one
/// that sends no tag, or the tag of another version of the file, does not.
pub proof fn lemma_conditional_thumbnail(weak: bool, tag: Seq<char>, other: Seq<char>)
    requires
        valid_tag(tag),
        other != tag,
    ensures
        matches_request(tag, Some(header_text(weak, tag))),
        !matches_request(tag, None),
        !matches_request(tag, Some(header_text(weak, other))),
{
    lemma_header_round_trip(weak, tag);
    let h = header_text(weak, other);
    if weak {
        assert(h.subrange(3, h.len() - 1) =~= other);
    } else {
        assert(h.subrange(1, h.len() - 1) =~= other);
    }
}

} // verus!
