//! Entity tags: the validator sent with a thumbnail, how a client's
//! `If-None-Match` header is read, and when it matches.
use vstd::prelude::*;

verus! {

/// An entity tag: weak or strong, and its opaque text, which is ASCII and
/// fits an entity tag.
#[derive(Debug)]
pub struct ETag {
    weak: bool,
    tag: String,
}

impl View for ETag {
    type V = (bool, Seq<char>);

    /// Weakness and text.
    closed spec fn view(&self) -> (bool, Seq<char>) {
        (self.weak, self.tag@)
    }
}

/// Every character is ASCII.
pub open spec fn ascii(s: Seq<char>) -> bool {
    forall|i: int| 0 <= i < s.len() ==> (s[i] as u32) < 128
}

/// The longest tag text that an entity tag holds.
pub const MAX_TAG_LEN: usize = 62;

/// A tag text that an entity tag can hold.
pub open spec fn valid_tag(s: Seq<char>) -> bool {
    ascii(s) && s.len() <= MAX_TAG_LEN
}

/// The tag that a header value denotes, as weakness and text: `"t"` is
/// strong, `W/"t"` weak, and `t` must be ASCII and fit an entity tag.
pub open spec fn parsed_tag(h: Seq<char>) -> Option<(bool, Seq<char>)> {
    if h.len() >= 2 && h.last() == '"' && h[0] == '"' {
        let inner = h.subrange(1, h.len() - 1);
        if valid_tag(inner) {
            Some((false, inner))
        } else {
            None
        }
    } else if h.len() >= 4 && h.last() == '"' && h[0] == 'W' && h[1] == '/' && h[2] == '"' {
        let inner = h.subrange(3, h.len() - 1);
        if valid_tag(inner) {
            Some((true, inner))
        } else {
            None
        }
    } else {
        None
    }
}

/// The header value of a tag: its text in quotes, after `W/` where weak.
pub open spec fn header_text(weak: bool, tag: Seq<char>) -> Seq<char> {
    (if weak {
        seq!['W', '/', '"']
    } else {
        seq!['"']
    }) + tag + seq!['"']
}

#[verifier::external_type_specification]
#[verifier::external_body]
pub struct ExParseError(etag::ParseError);

/// Relies on `etag::EntityTag::checked_new`: accepts a tag text exactly
/// where it is ASCII and at most 62 bytes.
#[verifier::external_body]
fn checked_entity_tag(weak: bool, tag: &str) -> (r: Result<(bool, String), etag::ParseError>)
    ensures
        r matches Ok(t) ==> t.0 == weak && t.1@ == tag@ && valid_tag(tag@),
        r is Err ==> !valid_tag(tag@),
{
    etag::EntityTag::checked_new(weak, tag).map(|t| (t.weak, t.tag().to_string()))
}

/// Relies on `etag::EntityTag`'s `FromStr`: a quoted text is a strong tag,
/// one after `W/` a weak tag; the text must be ASCII and at most 62 bytes.
#[verifier::external_body]
fn parse_entity_tag(h: &str) -> (r: Result<(bool, String), etag::ParseError>)
    ensures
        r matches Ok(t) ==> parsed_tag(h@) == Some((t.0, t.1@)),
        r is Err ==> parsed_tag(h@) is None,
{
    h.parse::<etag::EntityTag>().map(|t| (t.weak, t.tag().to_string()))
}

impl ETag {
    #[verifier::type_invariant]
    spec fn inv(&self) -> bool {
        valid_tag(self.tag@)
    }

    /// A tag of the given weakness and text, or `None` where the text is
    /// not ASCII or longer than an entity tag holds.
    pub fn new(weak: bool, tag: &str) -> (r: Option<ETag>)
        ensures
            r matches Some(t) ==> t@ == (weak, tag@),
            r is None <==> !valid_tag(tag@),
    {
        match checked_entity_tag(weak, tag) {
            Ok((w, t)) => Some(ETag { weak: w, tag: t }),
            Err(_) => None,
        }
    }

    /// The tag that a header value denotes, or `None` where it is malformed.
    pub fn parse(h: &str) -> (r: Option<ETag>)
        ensures
            r matches Some(t) ==> parsed_tag(h@) == Some(t@),
            r is None ==> parsed_tag(h@) is None,
    {
        match parse_entity_tag(h) {
            Ok((w, t)) => Some(ETag { weak: w, tag: t }),
            Err(_) => None,
        }
    }

    /// Whether the tag is weak.
    pub fn is_weak(&self) -> (r: bool)
        ensures
            r == self@.0,
    {
        self.weak
    }

    /// The tag's text.
    pub fn text(&self) -> (r: String)
        ensures
            r@ == self@.1,
            valid_tag(r@),
    {
        proof {
            use_type_invariant(self);
        }
        self.tag.clone()
    }

    /// The tag as an `ETag` header value; read back, it names this tag.
    pub fn header_value(&self) -> (r: String)
        ensures
            r@ == header_text(self@.0, self@.1),
            parsed_tag(r@) == Some(self@),
            matches_request(self@.1, Some(r@)),
    {
        proof {
            use_type_invariant(self);
            lemma_header_round_trip(self.weak, self.tag@);
        }
        let mut s = if self.weak {
            String::from_str("W/\"")
        } else {
            String::from_str("\"")
        };
        s.append(self.tag.as_str());
        s.append("\"");
        proof {
            reveal_strlit("W/\"");
            reveal_strlit("\"");
            assert(s@ =~= header_text(self.weak, self.tag@));
        }
        s
    }

    /// Weak comparison: the tag texts are equal, whatever their weakness.
    pub fn weak_eq(&self, other: &ETag) -> (r: bool)
        ensures
            r == (self@.1 == other@.1),
    {
        self.tag == other.tag
    }
}

/// The client's `If-None-Match` value names a tag weakly equal to `tag`.
pub open spec fn matches_request(tag: Seq<char>, if_none_match: Option<Seq<char>>) -> bool {
    if_none_match matches Some(h) && parsed_tag(h) matches Some(p) && p.1 == tag
}

/// Something that a client's cached validator can make unnecessary to send.
pub trait EtagRejectable {
    /// Whether the request's `If-None-Match` value names this validator, so
    /// that the client's copy is current.
    fn satisfies_request(&self, if_none_match: Option<&str>) -> bool;
}

impl EtagRejectable for ETag {
    fn satisfies_request(&self, if_none_match: Option<&str>) -> (r: bool)
        ensures
            r == matches_request(
                self@.1,
                match if_none_match {
                    Some(h) => Some(h@),
                    None => None,
                },
            ),
    {
        match if_none_match {
            Some(h) => match ETag::parse(h) {
                Some(t) => t.weak_eq(self),
                None => false,
            },
            None => false,
        }
    }
}

/// A tag's own header value names it again.
pub proof fn lemma_header_round_trip(weak: bool, tag: Seq<char>)
    requires
        valid_tag(tag),
    ensures
        parsed_tag(header_text(weak, tag)) == Some((weak, tag)),
        matches_request(tag, Some(header_text(weak, tag))),
{
    let h = header_text(weak, tag);
    if weak {
        assert(h.subrange(3, h.len() - 1) =~= tag);
    } else {
        assert(h.subrange(1, h.len() - 1) =~= tag);
    }
}

} // verus!
