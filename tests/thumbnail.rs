use dir_index::route::{Body, RouteError};
use dir_index::tag::ETag;
use dir_index::thumbnail::{
    cached_reply, find_value, is_escaping_name, render_thumbnail, serve_thumbnail, thumbnail_reply,
    thumbnail_source, THUMBNAIL_BOX,
};
use std::io::Cursor;

fn png_of(w: u32, h: u32) -> Vec<u8> {
    let img = image::DynamicImage::new_rgb8(w, h);
    let mut out = Cursor::new(Vec::new());
    img.write_to(&mut out, image::ImageFormat::Png).unwrap();
    out.into_inner()
}

fn tag() -> ETag {
    ETag::new(true, "1700000000.0-200").unwrap()
}

fn header_size(png: &[u8]) -> (u32, u32) {
    let w = u32::from_be_bytes([png[16], png[17], png[18], png[19]]);
    let h = u32::from_be_bytes([png[20], png[21], png[22], png[23]]);
    (w, h)
}

#[test]
fn source_from_query() {
    assert_eq!(thumbnail_source("/d", "thumbnail=photo.jpg"), Ok("/d/photo.jpg".to_string()));
    assert_eq!(thumbnail_source("/d", "x=1&thumbnail=a+b%21.png&thumbnail=c"), Ok("/d/a b!.png".to_string()));
    assert_eq!(thumbnail_source("/d", "x=thumbnail"), Err(RouteError::ThumbnailNameMissing));
}

#[test]
fn first_value_wins() {
    let pairs = vec![("a".to_string(), "1".to_string()), ("b".to_string(), "2".to_string()), ("a".to_string(), "3".to_string())];
    assert_eq!(find_value(&pairs, "a"), Some("1".to_string()));
    assert_eq!(find_value(&pairs, "c"), None);
}

#[test]
fn cached_when_tag_matches() {
    let t = tag();
    let h = t.header_value();
    let r = cached_reply(&t, Some(&h)).unwrap();
    assert_eq!(r.status, 304);
    assert!(cached_reply(&t, None).is_none());
    assert!(cached_reply(&t, Some("W/\"old\"")).is_none());
}

#[test]
fn conditional_request_round_trip() {
    let t = tag();
    let first = serve_thumbnail(&t, None, Some(png_of(100, 80))).unwrap();
    assert_eq!(first.status, 200);
    let given = first.etag.clone().unwrap();
    assert_eq!(given, t.header_value());
    let again = serve_thumbnail(&t, Some(&given), None).unwrap();
    assert_eq!(again.status, 304);
    assert!(again.etag.is_none());
    match again.body {
        Body::Bytes(b) => assert!(b.is_empty()),
        Body::Text(s) => assert!(s.is_empty()),
    }
    let stale = serve_thumbnail(&t, Some("W/\"1.0-1\""), Some(png_of(10, 10))).unwrap();
    assert_eq!(stale.status, 200);
    assert_eq!(stale.etag, Some(given));
}

#[test]
fn fresh_thumbnail_fits_box() {
    let reply = serve_thumbnail(&tag(), None, Some(png_of(200, 100))).unwrap();
    assert_eq!(reply.status, 200);
    assert_eq!(reply.content_type.as_deref(), Some("image/png"));
    assert!(!reply.etag.as_deref().unwrap().is_empty());
    let body = match reply.body {
        Body::Bytes(b) => b,
        Body::Text(_) => panic!("expected bytes"),
    };
    let img = image::load_from_memory(&body).unwrap();
    assert!(img.width() <= 50 && img.height() <= 50);
    assert_eq!((img.width(), img.height()), (50, 25));
}

#[test]
fn render_changes_bytes() {
    let src = png_of(120, 120);
    let out = render_thumbnail(&src).unwrap();
    assert_ne!(out, src);
    let img = image::load_from_memory(&out).unwrap();
    assert_eq!((img.width(), img.height()), (50, 50));
    assert_eq!(header_size(&out), (THUMBNAIL_BOX, THUMBNAIL_BOX));
}

#[test]
fn tall_source_keeps_aspect() {
    let out = render_thumbnail(&png_of(30, 300)).unwrap();
    assert_eq!(header_size(&out), (5, 50));
}

#[test]
fn escaping_names_refused() {
    assert_eq!(thumbnail_source("/d", "thumbnail=/etc/x"), Err(RouteError::PathEscape));
    assert_eq!(thumbnail_source("/d", "thumbnail=../x.png"), Err(RouteError::PathEscape));
    assert_eq!(thumbnail_source("/d", "thumbnail=a/../../x.png"), Err(RouteError::PathEscape));
    assert_eq!(thumbnail_source("/d", "thumbnail=a/.."), Err(RouteError::PathEscape));
    assert_eq!(thumbnail_source("/d", "thumbnail=.."), Err(RouteError::PathEscape));
    assert_eq!(thumbnail_source("/d", "thumbnail=%2Fetc%2Fx"), Err(RouteError::PathEscape));
    assert_eq!(thumbnail_source("/d", "thumbnail=sub/a..b.png"), Ok("/d/sub/a..b.png".to_string()));
    assert!(!is_escaping_name("photo.jpg"));
    assert!(is_escaping_name("/photo.jpg"));
}

#[test]
fn undecodable_source() {
    assert_eq!(render_thumbnail(&b"not an image".to_vec()), Err(RouteError::ImageProcessing));
    assert_eq!(serve_thumbnail(&tag(), None, Some(vec![1, 2, 3])).unwrap_err(), RouteError::ImageProcessing);
}

#[test]
fn missing_source() {
    assert_eq!(serve_thumbnail(&tag(), None, None).unwrap_err(), RouteError::SourceNotFound);
}

#[test]
fn reply_for_fresh_thumbnail() {
    let r = thumbnail_reply(&tag(), vec![9, 9]);
    assert_eq!(r.status, 200);
    assert_eq!(r.etag.as_deref(), Some("W/\"1700000000.0-200\""));
    match r.body {
        Body::Bytes(b) => assert_eq!(b, vec![9, 9]),
        Body::Text(_) => panic!("expected bytes"),
    }
}
