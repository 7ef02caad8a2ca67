use vstd::prelude::*;

verus! {

/// The three ways in which the steps of a recipe can be given.
#[derive(Clone, Copy, Debug, PartialEq, Eq, Structural)]
pub enum StepsPartial {
    Text,
    Url,
    Image,
}

impl Default for StepsPartial {
    fn default() -> (kind: StepsPartial)
        ensures
            kind == StepsPartial::Text,
    {
        StepsPartial::Text
    }
}

impl StepsPartial {
    /// The name of the part of a submission that carries steps of this kind.
    pub open spec fn field_name_text(self) -> Seq<char> {
        match self {
            StepsPartial::Text => "Text"@,
            StepsPartial::Url => "URL"@,
            StepsPartial::Image => "Image"@,
        }
    }

    /// The name of the part of a submission that carries steps of this kind.
    pub fn field_name(&self) -> (name: String)
        ensures
            name@ == self.field_name_text(),
    {
        match self {
            StepsPartial::Text => "Text".to_owned(),
            StepsPartial::Url => "URL".to_owned(),
            StepsPartial::Image => "Image".to_owned(),
        }
    }
}

} // verus!
