//! What the `url` crate reads from a URL text, as plain values.

use vstd::prelude::*;
use crate::text::opt_view;

verus! {

/// The parts of a parsed URL the probe looks at.
pub struct UrlFacts {
    pub host: Option<String>,
    pub port: Option<u16>,
    pub origin: String,
    pub path: String,
}

/// The parts of a parsed URL as plain values.
pub struct UrlModel {
    pub host: Option<Seq<char>>,
    pub port: Option<u16>,
    pub origin: Seq<char>,
    pub path: Seq<char>,
}

pub open spec fn facts_view(f: UrlFacts) -> UrlModel {
    UrlModel { host: opt_view(f.host), port: f.port, origin: f.origin@, path: f.path@ }
}

pub open spec fn parse_view(r: Result<UrlFacts, String>) -> Result<UrlModel, Seq<char>> {
    match r {
        Ok(f) => Ok(facts_view(f)),
        Err(e) => Err(e@),
    }
}

/// What `url::Url::parse` makes of a text: its host, port (or the
/// scheme's known default), ASCII origin and path, or the error's text.
pub uninterp spec fn url_parse(text: Seq<char>) -> Result<UrlModel, Seq<char>>;

/// Trusted: `url::Url::parse`, read through `host_str`,
/// `port_or_known_default`, `origin().ascii_serialization()` and `path`,
/// with the parse error's `Display` text on failure. The outcome depends on
/// the text alone and is named `url_parse`; the WHATWG parsing rules
/// themselves are not restated.
#[verifier::external_body]
pub(crate) fn parse_url(text: &str) -> (r: Result<UrlFacts, String>)
    ensures
        parse_view(r) == url_parse(text@),
{
    match url::Url::parse(text) {
        Ok(u) => Ok(
            UrlFacts {
                host: u.host_str().map(|h| h.to_string()),
                port: u.port_or_known_default(),
                origin: u.origin().ascii_serialization(),
                path: u.path().to_string(),
            },
        ),
        Err(e) => Err(e.to_string()),
    }
}

/// The serialization of a URL with its query and fragment removed and its
/// path replaced, when the text parses.
pub uninterp spec fn url_rebased(text: Seq<char>, path: Seq<char>) -> Option<Seq<char>>;

/// Trusted: `url::Url::parse`, then `set_path`, `set_query(None)` and
/// `set_fragment(None)`, then the URL's serialization. None when the text
/// does not parse. The result depends on the two texts alone and is named
/// `url_rebased`; the serialization rules are not restated.
#[verifier::external_body]
pub(crate) fn rebase_url(text: &str, path: &str) -> (r: Option<String>)
    ensures
        opt_view(r) == url_rebased(text@, path@),
{
    let mut u = url::Url::parse(text).ok()?;
    u.set_path(path);
    u.set_query(None);
    u.set_fragment(None);
    Some(u.to_string())
}

} // verus!

verus! {

/// The serialization of `relative` read against `base`, or the parse
/// error's text.
pub uninterp spec fn url_joined(base: Seq<char>, relative: Seq<char>) -> Result<Seq<char>, Seq<char>>;

/// Trusted: `url::Url::parse` on `base`, then `Url::join` with `relative`,
/// then the URL's serialization (`as_str`); the `Display` text of the
/// `ParseError` of either step on failure. The outcome depends on the two
/// texts alone and is named `url_joined`; the resolution rules are not
/// restated.
#[verifier::external_body]
pub(crate) fn join_url(base: &str, relative: &str) -> (r: Result<String, String>)
    ensures
        match r {
            Ok(s) => url_joined(base@, relative@) == Ok::<Seq<char>, Seq<char>>(s@),
            Err(e) => url_joined(base@, relative@) == Err::<Seq<char>, Seq<char>>(e@),
        },
{
    match url::Url::parse(base).and_then(|u| u.join(relative)) {
        Ok(u) => Ok(u.as_str().to_string()),
        Err(e) => Err(e.to_string()),
    }
}

/// The `application/x-www-form-urlencoded` text of a list of name/value
/// pairs, in their order.
pub uninterp spec fn form_encoded(pairs: Seq<(Seq<char>, Seq<char>)>) -> Seq<char>;

/// The pairs as plain values.
pub open spec fn pairs_view(pairs: Seq<(String, String)>) -> Seq<(Seq<char>, Seq<char>)> {
    pairs.map_values(|p: (String, String)| (p.0@, p.1@))
}

/// An uppercase hexadecimal digit.
pub open spec fn hex_upper(n: int) -> char {
    if n < 10 {
        ('0' as int + n) as char
    } else {
        ('A' as int + n - 10) as char
    }
}

/// One ASCII character in `application/x-www-form-urlencoded` form: ASCII
/// letters, digits and `*-._` stay; a space becomes `+`; any other byte is
/// `%` and two uppercase hexadecimal digits.
pub open spec fn form_char(c: char) -> Seq<char> {
    if ('0' <= c && c <= '9') || ('A' <= c && c <= 'Z') || ('a' <= c && c <= 'z') || c == '*' || c == '-'
        || c == '.' || c == '_' {
        seq![c]
    } else if c == ' ' {
        seq!['+']
    } else {
        seq!['%', hex_upper((c as int) / 16), hex_upper((c as int) % 16)]
    }
}

/// ASCII text in `application/x-www-form-urlencoded` form.
pub open spec fn form_text(s: Seq<char>) -> Seq<char>
    decreases s.len(),
{
    if s.len() == 0 {
        Seq::empty()
    } else {
        form_text(s.drop_last()) + form_char(s.last())
    }
}

/// Pairs of ASCII text as `name=value`, joined by `&`.
pub open spec fn form_pairs(p: Seq<(Seq<char>, Seq<char>)>) -> Seq<char>
    decreases p.len(),
{
    if p.len() == 0 {
        Seq::empty()
    } else {
        let head = if p.len() == 1 {
            Seq::empty()
        } else {
            form_pairs(p.drop_last()) + "&"@
        };
        head + form_text(p.last().0) + "="@ + form_text(p.last().1)
    }
}

/// Every name and value is ASCII.
pub open spec fn ascii_pairs(p: Seq<(Seq<char>, Seq<char>)>) -> bool {
    forall|i: int| 0 <= i < p.len() ==> crate::text::all_ascii(#[trigger] p[i].0) && crate::text::all_ascii(p[i].1)
}

/// Trusted: `url::form_urlencoded::Serializer::new(String::new())`, then
/// `extend_pairs` with the pairs in order, then `finish`. The text depends
/// on the pairs alone and is named `form_encoded`. For ASCII names and
/// values it is `form_pairs` (as `byte_serialize` and `append_pair` in the
/// crate's source give it); for other text the UTF-8 encoding of each
/// character is not restated.
#[verifier::external_body]
pub(crate) fn encode_form(pairs: &[(String, String)]) -> (r: String)
    ensures
        r@ == form_encoded(pairs_view(pairs@)),
        ascii_pairs(pairs_view(pairs@)) ==> r@ == form_pairs(pairs_view(pairs@)),
{
    url::form_urlencoded::Serializer::new(String::new()).extend_pairs(pairs.iter()).finish()
}

} // verus!
