use vstd::prelude::*;

verus! {

/// What `lorust::kebab_case` returns for `name`. Nothing is said of it here
/// but that it depends on the name alone; the crate describes it as the name
/// in lower case with spaces, underscores and the boundaries between a small
/// letter and a capital replaced by hyphens.
pub uninterp spec fn kebab_case(name: Seq<char>) -> Seq<char>;

/// Calls `lorust::kebab_case` on a copy of `name`. The contract only gives
/// what comes back its name, `kebab_case`: the same name always yields the
/// same slug.
#[verifier::external_body]
fn kebab(name: &str) -> (slug: String)
    ensures
        slug@ == kebab_case(name@),
{
    lorust::kebab_case(name.to_owned())
}

/// The slug of a recipe or ingredient name: the key under which it is stored
/// and the stem of the names of its files.
pub fn slug_of(name: &str) -> (slug: String)
    ensures
        slug@ == kebab_case(name@),
{
    kebab(name)
}

} // verus!
