//! The HTML response helper: any body, tagged as UTF-8 HTML.
use vstd::prelude::*;
use crate::body::{Body, BoxBody};
use crate::respond::{tagged_body, IntoResponse, RespSpec};
use crate::response::{HeadSpec, Response};

verus! {

/// Wrap a body so it converts into an HTML-tagged response.
pub fn html<B>(b: B) -> (r: Html<B>)
    ensures
        r == (Html { body: b }),
{
    Html { body: b }
}

/// A response body to be served as HTML.
#[derive(Debug)]
pub struct Html<B> {
    pub body: B,
}

impl<B: Body> IntoResponse for Html<B> {
    /// The body's own events, under `content-type: text/html;
    /// charset=utf-8`.
    open spec fn response_spec(self) -> RespSpec {
        RespSpec {
            head: HeadSpec {
                headers: seq![("content-type"@, "text/html; charset=utf-8"@)],
                ..HeadSpec::init()
            },
            body: self.body.events(),
        }
    }

    fn into_response(self) -> (r: Response<BoxBody>) {
        proof {
            lemma_html_value();
        }
        tagged_body("text/html; charset=utf-8", self.body.boxed())
    }
}

proof fn lemma_html_value()
    ensures
        crate::headers::valid_value("text/html; charset=utf-8"@),
{
    reveal_strlit("text/html; charset=utf-8");
    assert forall|i: int| 0 <= i < "text/html; charset=utf-8"@.len() implies
        crate::headers::header_value_char(#[trigger] "text/html; charset=utf-8"@[i]) by {}
}

} // verus!
