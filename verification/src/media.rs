//! Media types: requests carry them in `content-type`; parsing the text
//! is entrusted to an outside parser, and everything decided on the
//! parsed parts is verified here.
use vstd::prelude::*;
use crate::headers::HeaderMap;
use crate::request::Request;
use crate::text;

verus! {

/// The ghost image of a parsed media type.
pub struct MediaTypeSpec {
    pub type_: Seq<char>,
    pub subtype: Seq<char>,
    pub suffix: Option<Seq<char>>,
    pub params: Seq<(Seq<char>, Seq<char>)>,
}

/// A parsed media type: top-level type, subtype, optional `+suffix`,
/// and its parameters in order.
#[derive(Debug)]
pub struct MediaType {
    pub type_: String,
    pub subtype: String,
    pub suffix: Option<String>,
    pub params: Vec<(String, String)>,
}

impl View for MediaType {
    type V = MediaTypeSpec;

    open spec fn view(&self) -> MediaTypeSpec {
        MediaTypeSpec {
            type_: self.type_@,
            subtype: self.subtype@,
            suffix: match self.suffix {
                Some(ref s) => Some(s@),
                None => None,
            },
            params: self.params@.map(|i: int, p: (String, String)| (p.0@, p.1@)),
        }
    }
}

/// What the outside parser makes of a piece of text: a function of the
/// text alone.
pub uninterp spec fn media_type_of(s: Seq<char>) -> Option<MediaTypeSpec>;

/// Relies on the `mime` crate's `Mime` parser (`FromStr`) and its
/// accessors `type_`, `subtype`, `suffix` and `params`: the parsed
/// parts depend on the text alone.
#[verifier::external_body]
fn parse_mime(s: &str) -> (r: Option<MediaType>)
    ensures
        (r is Some) == (media_type_of(s@) is Some),
        r matches Some(m) ==> m@ == media_type_of(s@)->Some_0,
{
    match s.parse::<mime::Mime>() {
        Ok(m) => Some(
            MediaType {
                type_: m.type_().as_str().to_owned(),
                subtype: m.subtype().as_str().to_owned(),
                suffix: m.suffix().map(|n| n.as_str().to_owned()),
                params: m.params().map(
                    |(k, v)| (k.as_str().to_owned(), v.as_str().to_owned()),
                ).collect(),
            },
        ),
        Err(_) => None,
    }
}

impl MediaType {
    /// Parse a media type from text.
    pub fn parse(s: &str) -> (r: Option<MediaType>)
        ensures
            (r is Some) == (media_type_of(s@) is Some),
            r matches Some(m) ==> m@ == media_type_of(s@)->Some_0,
    {
        parse_mime(s)
    }

    /// The first value of the named parameter, if present.
    pub fn get_param(&self, name: &str) -> (r: Option<&String>)
        ensures
            match r {
                Some(v) => crate::headers::spec_get(self@.params, name@) == Some(v@),
                None => crate::headers::spec_get(self@.params, name@) is None,
            },
    {
        let n: usize = self.params.len();
        let mut i: usize = 0;
        proof {
            assert(self@.params.skip(0) =~= self@.params);
        }
        while i < n
            invariant
                n == self@.params.len(),
                n == self.params@.len(),
                i <= n,
                crate::headers::spec_get(self@.params, name@) == crate::headers::spec_get(
                    self@.params.skip(i as int),
                    name@,
                ),
            decreases n - i,
        {
            proof {
                assert(self@.params.skip(i as int)[0] == self@.params[i as int]);
                assert(self@.params.skip(i as int).drop_first() =~= self@.params.skip(i + 1));
            }
            if text::str_eq(self.params[i].0.as_str(), name) {
                return Some(&self.params[i].1);
            }
            i = i + 1;
        }
        proof {
            assert(self@.params.skip(n as int) =~= Seq::<(Seq<char>, Seq<char>)>::empty());
        }
        None
    }
}

/// Whether the request's `content-type` header begins with the expected
/// media-type text.
pub fn has_content_type<B>(request: &Request<B>, expected: &str) -> (r: bool)
    ensures
        r == (match crate::headers::spec_get(
            request.spec_head().headers@,
            "content-type"@,
        ) {
            Some(v) => text::spec_starts_with(v, expected@),
            None => false,
        }),
{
    proof {
        lemma_ct_lower();
    }
    match request.headers().get("content-type") {
        Some(v) => text::starts_with_str(v.as_str(), expected),
        None => false,
    }
}

/// The media type named by the request's `content-type` header, if the
/// header is there and parses.
pub fn content_media_type<B>(request: &Request<B>) -> (r: Option<MediaType>)
    ensures
        match crate::headers::spec_get(request.spec_head().headers@, "content-type"@) {
            Some(v) => match media_type_of(v) {
                Some(g) => r matches Some(m) && m@ == g,
                None => r is None,
            },
            None => r is None,
        },
{
    proof {
        lemma_ct_lower();
    }
    match request.headers().get("content-type") {
        Some(v) => MediaType::parse(v.as_str()),
        None => None,
    }
}

/// Whether the request declares a JSON payload: an `application` type
/// whose subtype or suffix is `json`.
pub fn is_json_content_type<B>(request: &Request<B>) -> (r: bool)
    ensures
        r == (match crate::headers::spec_get(
            request.spec_head().headers@,
            "content-type"@,
        ) {
            Some(v) => match media_type_of(v) {
                Some(m) => m.type_ == "application"@ && (m.subtype == "json"@ || m.suffix
                    == Some("json"@)),
                None => false,
            },
            None => false,
        }),
{
    match content_media_type(request) {
        Some(m) => {
            let is_app = text::str_eq(m.type_.as_str(), "application");
            let sub_json = text::str_eq(m.subtype.as_str(), "json");
            let suf_json = match &m.suffix {
                Some(s) => text::str_eq(s.as_str(), "json"),
                None => false,
            };
            is_app && (sub_json || suf_json)
        },
        None => false,
    }
}

/// The `content-type` literal is already lower-case.
proof fn lemma_ct_lower()
    ensures
        text::spec_lower("content-type"@) == "content-type"@,
{
    reveal_strlit("content-type");
    assert forall|i: int| 0 <= i < "content-type"@.len() implies #[trigger] text::spec_lower(
        "content-type"@,
    )[i] == "content-type"@[i] by {
        assert(text::spec_lower("content-type"@)[i] == text::spec_lower_char("content-type"@[i]));
    }
    assert(text::spec_lower("content-type"@) =~= "content-type"@);
}

/// What went wrong while taking a request apart as multipart form data.
#[derive(Debug)]
pub enum MultipartError {
    /// The request does not declare `multipart/form-data` with a
    /// boundary parameter.
    UnsupportedContentType,
    /// The payload itself broke while being read, with the reason.
    Other(String),
}

/// The boundary of a `multipart/form-data` request: the `content-type`
/// header must name exactly that media type and carry a `boundary`
/// parameter; anything else is refused as a configuration error.
pub fn boundary(headers: &HeaderMap) -> (r: Result<String, MultipartError>)
    ensures
        ({
            let expected = (match crate::headers::spec_get(headers@, "content-type"@) {
                Some(v) => match media_type_of(v) {
                    Some(m) => if m.type_ == "multipart"@ && m.subtype == "form-data"@ {
                        match crate::headers::spec_get(m.params, "boundary"@) {
                            Some(b) => Some(b),
                            None => None,
                        }
                    } else {
                        None
                    },
                    None => None,
                },
                None => None,
            });
            match r {
                Ok(b) => expected == Some(b@),
                Err(MultipartError::UnsupportedContentType) => expected is None,
                Err(MultipartError::Other(_)) => false,
            }
        }),
{
    proof {
        lemma_ct_lower();
    }
    let value = match headers.get("content-type") {
        Some(v) => v,
        None => {
            return Err(MultipartError::UnsupportedContentType);
        },
    };
    let m = match MediaType::parse(value.as_str()) {
        Some(m) => m,
        None => {
            return Err(MultipartError::UnsupportedContentType);
        },
    };
    if !(text::str_eq(m.type_.as_str(), "multipart") && text::str_eq(
        m.subtype.as_str(),
        "form-data",
    )) {
        return Err(MultipartError::UnsupportedContentType);
    }
    match m.get_param("boundary") {
        Some(b) => Ok(b.clone()),
        None => Err(MultipartError::UnsupportedContentType),
    }
}

} // verus!
