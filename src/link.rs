//! Turning the link targets of an index page into absolute addresses, against
//! either a network address or a path into a local documentation cache.
use vstd::prelude::*;
use crate::text::{chars_of, replace_all, replace_chars, string_of};

verus! {

/// How a base location reads as a URL.
#[derive(Debug, Clone, Copy, PartialEq, Eq, Structural)]
pub enum BaseForm {
    /// An absolute URL, onto which links are joined.
    Absolute,
    /// A text with no scheme: a path into a local cache.
    MissingBase,
    /// Neither; links against it are dropped.
    Malformed,
}

/// How `url::Url::parse` reads a text: it depends on the text alone.
pub uninterp spec fn url_parse_form(text: Seq<char>) -> BaseForm;

/// The serialisation of what `url::Url::join` makes of `reference` on the
/// URL parsed from `base`, if both steps succeed.
pub uninterp spec fn url_joined(base: Seq<char>, reference: Seq<char>) -> Option<Seq<char>>;

/// Relies on `url::Url::parse`: `Ok` for an absolute URL,
/// `Err(ParseError::RelativeUrlWithoutBase)` for a text without a scheme,
/// another error otherwise.
#[verifier::external_body]
fn parse_form(text: &str) -> (r: BaseForm)
    ensures
        r == url_parse_form(text@),
{
    match url::Url::parse(text) {
        Ok(_) => BaseForm::Absolute,
        Err(url::ParseError::RelativeUrlWithoutBase) => BaseForm::MissingBase,
        Err(_) => BaseForm::Malformed,
    }
}

/// Relies on `url::Url::join` on the URL that `url::Url::parse` makes of
/// `base`, and on `url::Url::as_str` for the joined URL's text.
#[verifier::external_body]
fn join_url(base: &str, reference: &str) -> (r: Option<String>)
    ensures
        r is Some <==> url_joined(base@, reference@) is Some,
        r is Some ==> r->Some_0@ == url_joined(base@, reference@)->Some_0,
{
    let joined = match url::Url::parse(base) {
        Ok(b) => b.join(reference),
        Err(e) => Err(e),
    };
    match joined {
        Ok(u) => Some(u.as_str().to_owned()),
        Err(_) => None,
    }
}

/// The file name of the index page that a local base location ends in.
pub open spec fn index_file() -> Seq<char> {
    "all.html"@
}

/// The address of `reference` against a local base location: the index
/// file name in `base` is replaced by `reference`.
pub open spec fn local_resolved(base: Seq<char>, reference: Seq<char>) -> Seq<char> {
    replace_all(base, index_file(), reference)
}

/// The absolute address of `reference` against `base`, or `None` where the
/// link is dropped.
pub open spec fn resolved(base: Seq<char>, reference: Seq<char>) -> Option<Seq<char>> {
    match url_parse_form(base) {
        BaseForm::Absolute => url_joined(base, reference),
        BaseForm::MissingBase => Some(local_resolved(base, reference)),
        BaseForm::Malformed => None,
    }
}

/// Resolves `reference` against a base location that is a local path.
pub fn local_link(base: &str, reference: &str) -> (r: String)
    ensures
        r@ == local_resolved(base@, reference@),
{
    proof {
        reveal_strlit("all.html");
    }
    let pat = chars_of("all.html");
    let out = replace_chars(&chars_of(base), &pat, &chars_of(reference));
    string_of(&out)
}

/// Resolves `reference` against `base`: joined as a URL where `base` is an
/// absolute URL, substituted into the path where `base` has no scheme, and
/// dropped otherwise (also where the join fails).
pub fn resolve_link(base: &str, reference: &str) -> (r: Option<String>)
    ensures
        r is Some <==> resolved(base@, reference@) is Some,
        r is Some ==> r->Some_0@ == resolved(base@, reference@)->Some_0,
{
    match parse_form(base) {
        BaseForm::Absolute => join_url(base, reference),
        BaseForm::MissingBase => Some(local_link(base, reference)),
        BaseForm::Malformed => None,
    }
}

} // verus!
