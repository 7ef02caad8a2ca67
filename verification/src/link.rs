use vstd::prelude::*;

use crate::values::text_of;

verus! {

/// What `url::Url::parse` makes of `text`: the serialization of the URL that
/// it reads, or nothing where it reports an error. Nothing is said of it here
/// but that it depends on the text alone; the crate documents that it reads
/// absolute URLs only.
pub uninterp spec fn parsed_url(text: Seq<char>) -> Option<Seq<char>>;

/// Calls `url::Url::parse` on `text` and hands back the serialization of the
/// URL, the string that `Url::as_str` shows, or `None` where the parser
/// reports an error. The contract only gives that outcome its name,
/// `parsed_url`: nothing is claimed about which texts are URLs.
#[verifier::external_body]
pub(crate) fn parse_url(text: &str) -> (link: Option<String>)
    ensures
        text_of(link) == parsed_url(text@),
{
    url::Url::parse(text).ok().map(String::from)
}

} // verus!
