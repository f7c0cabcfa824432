//! Where a problem page is found: a full URL as given, or a bare problem
//! identifier under the problem archive.
use vstd::prelude::*;

verus! {

/// The address under which a bare problem identifier is found.
pub open spec fn problem_base() -> Seq<char> {
    "https://open.kattis.com/problems/"@
}

/// Whether a text is accepted by the `url` crate as an absolute URL.
pub uninterp spec fn parses_as_url(s: Seq<char>) -> bool;

/// Relies on `url::Url::parse`: whether it accepts the text.
#[verifier::external_body]
fn is_url(s: &str) -> (r: bool)
    ensures
        r == parses_as_url(s@),
{
    url::Url::parse(s).is_ok()
}

/// The page of a problem named by `arg`.
pub open spec fn problem_url_spec(arg: Seq<char>, is_url: bool) -> Seq<char> {
    if is_url {
        arg
    } else {
        problem_base() + arg
    }
}

/// The page of a problem, given whether the argument parsed as a URL: the
/// argument itself if it did, else the argument under the problem archive.
pub fn problem_url(arg: &str, is_url: bool) -> (r: String)
    ensures
        r@ == problem_url_spec(arg@, is_url),
{
    if is_url {
        String::from_str(arg)
    } else {
        let mut r = String::from_str("https://open.kattis.com/problems/");
        r.append(arg);
        r
    }
}

/// The page of a problem named by a command-line argument.
pub fn handle_url_argument(arg: String) -> (r: String)
    ensures
        r@ == problem_url_spec(arg@, parses_as_url(arg@)),
{
    let parsed = is_url(arg.as_str());
    problem_url(arg.as_str(), parsed)
}

} // verus!
