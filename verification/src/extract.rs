use vstd::prelude::*;

use crate::error::{DecodingError, MissingFields};
use crate::link::{parse_url, parsed_url};
use crate::models::{line_of, IngredientLine, IngredientUnit, RecipeIngredient};
use crate::number::{parse_u32, u32_of};
use crate::templates::StepsPartial;
use crate::text::{chars_of, same_text, spells};
use crate::values::{image_of, ok_view, text_of, views, ImageContent};

verus! {

/// One ingredient of a submission: the ingredient that was selected, how much
/// of it, and in which unit.
#[derive(Debug, Clone, PartialEq, Eq)]
pub struct RecipeIngredientPart {
    pub selected: String,
    pub quantity: u32,
    pub unit: IngredientUnit,
}

impl View for RecipeIngredientPart {
    type V = IngredientLine;

    open spec fn view(&self) -> IngredientLine {
        IngredientLine { name: self.selected@, quantity: self.quantity, unit: self.unit }
    }
}

/// The steps of a submission: a text, a link, or an image with the file
/// extension that its content type stands for.
#[derive(Debug, Clone, PartialEq, Eq)]
pub enum StepsPart {
    Text(String),
    Url(String),
    Image(Vec<u8>, String),
}

/// The steps of a recipe as a mathematical value.
pub enum StepsContent {
    Text(Seq<char>),
    Url(Seq<char>),
    Image(Seq<u8>, Seq<char>),
}

impl StepsContent {
    /// Which of the three kinds of steps this is.
    pub open spec fn kind(self) -> StepsPartial {
        match self {
            StepsContent::Text(_) => StepsPartial::Text,
            StepsContent::Url(_) => StepsPartial::Url,
            StepsContent::Image(_, _) => StepsPartial::Image,
        }
    }
}

impl View for StepsPart {
    type V = StepsContent;

    open spec fn view(&self) -> StepsContent {
        match self {
            StepsPart::Text(body) => StepsContent::Text(body@),
            StepsPart::Url(link) => StepsContent::Url(link@),
            StepsPart::Image(bytes, extension) => StepsContent::Image(bytes@, extension@),
        }
    }
}

impl StepsPart {
    /// Which of the three kinds of steps this is.
    pub fn kind(&self) -> (kind: StepsPartial)
        ensures
            kind == self@.kind(),
    {
        match self {
            StepsPart::Text(_) => StepsPartial::Text,
            StepsPart::Url(_) => StepsPartial::Url,
            StepsPart::Image(_, _) => StepsPartial::Image,
        }
    }
}

/// A validated submission: everything needed to store one recipe.
#[derive(Debug, Clone, PartialEq, Eq)]
pub struct RecipeCreationRequest {
    pub name: String,
    pub rations: u32,
    pub thumbnail: Option<(Vec<u8>, String)>,
    pub ingredients: Vec<RecipeIngredientPart>,
    pub steps: StepsPart,
}

/// A validated submission as a mathematical value.
pub struct RecipeIngestionRequest {
    pub name: Seq<char>,
    pub rations: u32,
    pub thumbnail: Option<ImageContent>,
    pub ingredients: Seq<IngredientLine>,
    pub steps: StepsContent,
}

impl RecipeIngestionRequest {
    /// What every decoded submission satisfies: the name is not empty, every
    /// quantity is positive, and every image has the extension of a
    /// supported content type.
    pub open spec fn valid(self) -> bool {
        &&& self.name.len() > 0
        &&& forall|i: int| 0 <= i < self.ingredients.len() ==> (#[trigger] self.ingredients[i]).quantity > 0
        &&& self.thumbnail matches Some(image) ==> supported_extension(image.1)
        &&& self.steps matches StepsContent::Image(_, extension) ==> supported_extension(extension)
    }
}

impl View for RecipeCreationRequest {
    type V = RecipeIngestionRequest;

    open spec fn view(&self) -> RecipeIngestionRequest {
        RecipeIngestionRequest {
            name: self.name@,
            rations: self.rations,
            thumbnail: image_of(self.thumbnail),
            ingredients: views(self.ingredients@),
            steps: self.steps@,
        }
    }
}

/// One part of a submission, in the order in which the parts arrive.
#[derive(Debug, Clone, PartialEq, Eq)]
pub enum Part {
    /// A named text value.
    Text { name: String, value: String },
    /// A named binary value with the content type that was declared for it,
    /// if any was.
    Binary { name: String, content_type: Option<String>, bytes: Vec<u8> },
    /// An ingredient that arrived in structured form and was already taken
    /// apart into its three values.
    Ingredient(RecipeIngredientPart),
}

/// One part of a submission as a mathematical value.
pub enum PartContent {
    Text { name: Seq<char>, value: Seq<char> },
    Binary { name: Seq<char>, content_type: Option<Seq<char>>, bytes: Seq<u8> },
    Ingredient(IngredientLine),
}

impl View for Part {
    type V = PartContent;

    open spec fn view(&self) -> PartContent {
        match self {
            Part::Text { name, value } => PartContent::Text { name: name@, value: value@ },
            Part::Binary { name, content_type, bytes } => PartContent::Binary {
                name: name@,
                content_type: text_of(*content_type),
                bytes: bytes@,
            },
            Part::Ingredient(ingredient) => PartContent::Ingredient(ingredient@),
        }
    }
}

/// The fields of a submission.
#[derive(Clone, Copy, Debug, PartialEq, Eq, Structural)]
pub enum Field {
    Name,
    Rations,
    Thumbnail,
    Ingredient,
    Text,
    Url,
    Image,
}

/// The field that a part of the given name fills, if the name is that of a
/// field.
pub open spec fn field_named(name: Seq<char>) -> Option<Field> {
    if name == "name"@ {
        Some(Field::Name)
    } else if name == "rations"@ {
        Some(Field::Rations)
    } else if name == "thumbnail"@ {
        Some(Field::Thumbnail)
    } else if name == "ingredients[]"@ {
        Some(Field::Ingredient)
    } else if name == "Text"@ {
        Some(Field::Text)
    } else if name == "URL"@ {
        Some(Field::Url)
    } else if name == "Image"@ {
        Some(Field::Image)
    } else {
        None
    }
}

/// The field that a part of the given name fills, if the name is that of a
/// field.
pub fn field_of(name: &str) -> (field: Option<Field>)
    ensures
        field == field_named(name@),
{
    let chars = chars_of(name);
    let n = chars.len();
    assert(chars@.subrange(0, n as int) =~= name@);
    if spells(&chars, 0, n, "name") {
        Some(Field::Name)
    } else if spells(&chars, 0, n, "rations") {
        Some(Field::Rations)
    } else if spells(&chars, 0, n, "thumbnail") {
        Some(Field::Thumbnail)
    } else if spells(&chars, 0, n, "ingredients[]") {
        Some(Field::Ingredient)
    } else if spells(&chars, 0, n, "Text") {
        Some(Field::Text)
    } else if spells(&chars, 0, n, "URL") {
        Some(Field::Url)
    } else if spells(&chars, 0, n, "Image") {
        Some(Field::Image)
    } else {
        None
    }
}

/// The seven field names are seven different names: each is the name of its
/// own field.
pub proof fn lemma_field_names()
    ensures
        field_named("name"@) == Some(Field::Name),
        field_named("rations"@) == Some(Field::Rations),
        field_named("thumbnail"@) == Some(Field::Thumbnail),
        field_named("ingredients[]"@) == Some(Field::Ingredient),
        field_named("Text"@) == Some(Field::Text),
        field_named("URL"@) == Some(Field::Url),
        field_named("Image"@) == Some(Field::Image),
{
    reveal_strlit("name");
    reveal_strlit("rations");
    reveal_strlit("thumbnail");
    reveal_strlit("ingredients[]");
    reveal_strlit("Text");
    reveal_strlit("URL");
    reveal_strlit("Image");
    assert("name"@.len() == 4 && "name"@[0] == 'n');
    assert("rations"@.len() == 7);
    assert("thumbnail"@.len() == 9);
    assert("ingredients[]"@.len() == 13);
    assert("Text"@.len() == 4 && "Text"@[0] == 'T');
    assert("URL"@.len() == 3);
    assert("Image"@.len() == 5);
}

/// How the value of a part is to be read off the wire.
#[derive(Clone, Copy, Debug, PartialEq, Eq, Structural)]
pub enum PartShape {
    /// As text.
    Text,
    /// As text that holds one ingredient.
    IngredientLine,
    /// As bytes with a declared content type.
    Binary,
}

impl Field {
    /// How the value of a part that fills this field is read.
    pub open spec fn shape_spec(self) -> PartShape {
        match self {
            Field::Thumbnail | Field::Image => PartShape::Binary,
            Field::Ingredient => PartShape::IngredientLine,
            _ => PartShape::Text,
        }
    }

    /// How the value of a part that fills this field is read.
    pub fn shape(&self) -> (shape: PartShape)
        ensures
            shape == self.shape_spec(),
    {
        match self {
            Field::Thumbnail | Field::Image => PartShape::Binary,
            Field::Ingredient => PartShape::IngredientLine,
            _ => PartShape::Text,
        }
    }
}

/// Whether `extension` is the file extension of a supported content type.
pub open spec fn supported_extension(extension: Seq<char>) -> bool {
    extension == "jpeg"@
}

/// The file extension for an image of the declared content type. Only
/// `image/jpeg` is supported.
pub open spec fn extension_for(content_type: Option<Seq<char>>) -> Result<Seq<char>, DecodingError> {
    match content_type {
        None => Err(DecodingError::MissingContentType),
        Some(declared) => if declared == "image/jpeg"@ {
            Ok("jpeg"@)
        } else {
            Err(DecodingError::UnsupportedContentType)
        },
    }
}

/// The file extension for an image of the declared content type.
pub fn get_extension(content_type: &Option<String>) -> (r: Result<String, DecodingError>)
    ensures
        ok_view(r) == extension_for(text_of(*content_type)),
{
    match content_type {
        None => Err(DecodingError::MissingContentType),
        Some(declared) => {
            if same_text(declared.as_str(), "image/jpeg") {
                Ok("jpeg".to_owned())
            } else {
                Err(DecodingError::UnsupportedContentType)
            }
        },
    }
}

/// What has been read of a submission so far, as a mathematical value.
pub struct Draft {
    pub name: Option<Seq<char>>,
    pub rations: Option<u32>,
    pub thumbnail: Option<ImageContent>,
    pub ingredients: Seq<IngredientLine>,
    pub steps: Option<StepsContent>,
}

impl Draft {
    /// The draft of a submission of which nothing has been read.
    pub open spec fn empty() -> Draft {
        Draft {
            name: None,
            rations: None,
            thumbnail: None,
            ingredients: Seq::empty(),
            steps: None,
        }
    }

    /// What holds of everything that was accepted: each quantity is positive,
    /// and each image has the extension of a supported content type.
    pub open spec fn sound(self) -> bool {
        &&& forall|i: int|
            0 <= i < self.ingredients.len() ==> (#[trigger] self.ingredients[i]).quantity > 0
        &&& self.thumbnail matches Some(image) ==> supported_extension(image.1)
        &&& self.steps matches Some(StepsContent::Image(_, extension)) ==> supported_extension(
            extension,
        )
    }

    /// The draft with `steps` as its steps, unless it has steps already.
    pub open spec fn with_steps(self, steps: StepsContent) -> Result<Draft, DecodingError> {
        if self.steps is Some {
            Err(DecodingError::ConflictingStepsVariant)
        } else {
            Ok(Draft { steps: Some(steps), ..self })
        }
    }

    /// The draft with one more ingredient, unless its quantity is zero.
    pub open spec fn with_ingredient(self, line: IngredientLine) -> Result<Draft, DecodingError> {
        if line.quantity > 0 {
            Ok(Draft { ingredients: self.ingredients.push(line), ..self })
        } else {
            Err(DecodingError::InvalidIngredientLine)
        }
    }

    /// The draft with the outcome of reading a link as its steps: an error if
    /// the text was no URL, or if the draft has steps already.
    pub open spec fn with_link(self, link: Option<Seq<char>>) -> Result<Draft, DecodingError> {
        match link {
            Some(url) => self.with_steps(StepsContent::Url(url)),
            None => Err(DecodingError::InvalidUrl),
        }
    }

    /// The draft after a text part.
    pub open spec fn with_text(self, name: Seq<char>, value: Seq<char>) -> Result<
        Draft,
        DecodingError,
    > {
        match field_named(name) {
            None => Err(DecodingError::UnknownField),
            Some(Field::Name) => Ok(Draft { name: Some(value), ..self }),
            Some(Field::Rations) => match u32_of(value) {
                Some(rations) => Ok(Draft { rations: Some(rations), ..self }),
                None => Err(DecodingError::InvalidNumber),
            },
            Some(Field::Ingredient) => match line_of(value) {
                Some(line) => self.with_ingredient(line),
                None => Err(DecodingError::InvalidIngredientLine),
            },
            Some(Field::Text) => self.with_steps(StepsContent::Text(value)),
            Some(Field::Url) => self.with_link(parsed_url(value)),
            Some(Field::Thumbnail) => Err(DecodingError::MissingContentType),
            Some(Field::Image) => Err(DecodingError::MissingContentType),
        }
    }

    /// The draft after a binary part.
    pub open spec fn with_binary(
        self,
        name: Seq<char>,
        content_type: Option<Seq<char>>,
        bytes: Seq<u8>,
    ) -> Result<Draft, DecodingError> {
        match field_named(name) {
            Some(Field::Thumbnail) => match extension_for(content_type) {
                Ok(extension) => Ok(Draft { thumbnail: Some((bytes, extension)), ..self }),
                Err(e) => Err(e),
            },
            Some(Field::Image) => match extension_for(content_type) {
                Ok(extension) => self.with_steps(StepsContent::Image(bytes, extension)),
                Err(e) => Err(e),
            },
            _ => Err(DecodingError::UnknownField),
        }
    }

    /// The draft after one more part, or the error for which the part is
    /// turned down.
    ///
    /// A part is judged by its name first. A text under the name of an image
    /// field declares no content type. Bytes under any name but that of an
    /// image field fill no field. Of a part that is in order by itself, steps
    /// are turned down if the draft has steps already; a name, rations or a
    /// thumbnail that comes again replaces the earlier one.
    pub open spec fn accept(self, part: PartContent) -> Result<Draft, DecodingError> {
        match part {
            PartContent::Text { name, value } => self.with_text(name, value),
            PartContent::Binary { name, content_type, bytes } => self.with_binary(
                name,
                content_type,
                bytes,
            ),
            PartContent::Ingredient(line) => self.with_ingredient(line),
        }
    }

    /// The draft after all of `parts`, read from first to last, or the error
    /// of the first part that is turned down.
    pub open spec fn scan(self, parts: Seq<PartContent>) -> Result<Draft, DecodingError>
        decreases parts.len(),
    {
        if parts.len() == 0 {
            Ok(self)
        } else {
            match self.accept(parts[0]) {
                Ok(next) => next.scan(parts.drop_first()),
                Err(e) => Err(e),
            }
        }
    }

    /// The required fields that the draft lacks. An empty name counts as none.
    pub open spec fn missing(self) -> MissingFields {
        MissingFields {
            name: !(self.name matches Some(name) && name.len() > 0),
            rations: self.rations is None,
            steps: self.steps is None,
        }
    }

    /// The submission that a finished draft amounts to, if it lacks nothing.
    pub open spec fn finish(self) -> Result<RecipeIngestionRequest, DecodingError> {
        let missing = self.missing();
        if missing.name || missing.rations || missing.steps {
            Err(DecodingError::IncompleteSubmission(missing))
        } else {
            Ok(
                RecipeIngestionRequest {
                    name: self.name->0,
                    rations: self.rations->0,
                    thumbnail: self.thumbnail,
                    ingredients: self.ingredients,
                    steps: self.steps->0,
                },
            )
        }
    }
}

/// The submission that a sequence of parts amounts to, or the error for which
/// it is turned down: that of the first part that is not accepted, else that
/// of a required field that is missing at the end.
pub open spec fn decode(parts: Seq<PartContent>) -> Result<RecipeIngestionRequest, DecodingError> {
    match Draft::empty().scan(parts) {
        Ok(draft) => draft.finish(),
        Err(e) => Err(e),
    }
}

/// Reads a submission part by part.
pub struct Decoder {
    name: Option<String>,
    rations: Option<u32>,
    thumbnail: Option<(Vec<u8>, String)>,
    ingredients: Vec<RecipeIngredientPart>,
    steps: Option<StepsPart>,
}

impl View for Decoder {
    type V = Draft;

    closed spec fn view(&self) -> Draft {
        Draft {
            name: text_of(self.name),
            rations: self.rations,
            thumbnail: image_of(self.thumbnail),
            ingredients: views(self.ingredients@),
            steps: match self.steps {
                Some(steps) => Some(steps@),
                None => None,
            },
        }
    }
}

impl Decoder {
    #[verifier::type_invariant]
    spec fn sound(self) -> bool {
        self@.sound()
    }

    /// A decoder that has read nothing yet.
    pub fn new() -> (decoder: Decoder)
        ensures
            decoder@ == Draft::empty(),
    {
        let decoder = Decoder {
            name: None,
            rations: None,
            thumbnail: None,
            ingredients: Vec::new(),
            steps: None,
        };
        assert(views(decoder.ingredients@) =~= Seq::empty());
        decoder
    }

    /// Takes `steps` as the steps, unless steps were given before.
    fn set_steps(&mut self, steps: StepsPart) -> (r: Result<(), DecodingError>)
        requires
            steps@ matches StepsContent::Image(_, extension) ==> supported_extension(extension),
        ensures
            match old(self)@.with_steps(steps@) {
                Ok(draft) => r is Ok && final(self)@ == draft,
                Err(e) => r == Err::<(), _>(e) && final(self)@ == old(self)@,
            },
    {
        proof {
            use_type_invariant(&*self);
        }
        if self.steps.is_some() {
            Err(DecodingError::ConflictingStepsVariant)
        } else {
            self.steps = Some(steps);
            Ok(())
        }
    }

    /// Takes one more ingredient, unless its quantity is zero.
    fn add_ingredient(&mut self, ingredient: RecipeIngredientPart) -> (r: Result<
        (),
        DecodingError,
    >)
        ensures
            match old(self)@.with_ingredient(ingredient@) {
                Ok(draft) => r is Ok && final(self)@ == draft,
                Err(e) => r == Err::<(), _>(e) && final(self)@ == old(self)@,
            },
    {
        if ingredient.quantity > 0 {
            proof {
                use_type_invariant(&*self);
            }
            let mut ingredients: Vec<RecipeIngredientPart> = Vec::new();
            assert(views(ingredients@) =~= Seq::empty());
            core::mem::swap(&mut self.ingredients, &mut ingredients);
            ingredients.push(ingredient);
            assert(views(ingredients@) =~= views(old(self).ingredients@).push(ingredient@));
            self.ingredients = ingredients;
            Ok(())
        } else {
            Err(DecodingError::InvalidIngredientLine)
        }
    }

    /// Takes the outcome of reading the text of a link as the steps: the
    /// serialization of the URL, or `None` where the text was no URL.
    pub fn accept_link(&mut self, link: Option<String>) -> (r: Result<(), DecodingError>)
        ensures
            match old(self)@.with_link(text_of(link)) {
                Ok(draft) => r is Ok && final(self)@ == draft,
                Err(e) => r == Err::<(), _>(e) && final(self)@ == old(self)@,
            },
    {
        match link {
            Some(url) => self.set_steps(StepsPart::Url(url)),
            None => Err(DecodingError::InvalidUrl),
        }
    }

    /// Takes a text part.
    fn accept_text(&mut self, name: String, value: String) -> (r: Result<(), DecodingError>)
        ensures
            match old(self)@.with_text(name@, value@) {
                Ok(draft) => r is Ok && final(self)@ == draft,
                Err(e) => r == Err::<(), _>(e) && final(self)@ == old(self)@,
            },
    {
        proof {
            use_type_invariant(&*self);
        }
        match field_of(name.as_str()) {
            None => Err(DecodingError::UnknownField),
            Some(Field::Name) => {
                self.name = Some(value);
                Ok(())
            },
            Some(Field::Rations) => match parse_u32(value.as_str()) {
                Some(rations) => {
                    self.rations = Some(rations);
                    Ok(())
                },
                None => Err(DecodingError::InvalidNumber),
            },
            Some(Field::Ingredient) => match RecipeIngredient::try_from(value) {
                Ok(line) => self.add_ingredient(
                    RecipeIngredientPart {
                        selected: line.ingredient_name,
                        quantity: line.quantity,
                        unit: line.unit,
                    },
                ),
                Err(e) => Err(e),
            },
            Some(Field::Text) => self.set_steps(StepsPart::Text(value)),
            Some(Field::Url) => {
                let link = parse_url(value.as_str());
                self.accept_link(link)
            },
            Some(Field::Thumbnail) => Err(DecodingError::MissingContentType),
            Some(Field::Image) => Err(DecodingError::MissingContentType),
        }
    }

    /// Takes a binary part.
    fn accept_binary(&mut self, name: String, content_type: Option<String>, bytes: Vec<u8>) -> (r:
        Result<(), DecodingError>)
        ensures
            match old(self)@.with_binary(name@, text_of(content_type), bytes@) {
                Ok(draft) => r is Ok && final(self)@ == draft,
                Err(e) => r == Err::<(), _>(e) && final(self)@ == old(self)@,
            },
    {
        proof {
            use_type_invariant(&*self);
        }
        match field_of(name.as_str()) {
            Some(Field::Thumbnail) => match get_extension(&content_type) {
                Ok(extension) => {
                    self.thumbnail = Some((bytes, extension));
                    Ok(())
                },
                Err(e) => Err(e),
            },
            Some(Field::Image) => match get_extension(&content_type) {
                Ok(extension) => self.set_steps(StepsPart::Image(bytes, extension)),
                Err(e) => Err(e),
            },
            _ => Err(DecodingError::UnknownField),
        }
    }

    /// Takes the next part of the submission. A part that is turned down
    /// leaves what was read before as it was.
    pub fn accept(&mut self, part: Part) -> (r: Result<(), DecodingError>)
        ensures
            match old(self)@.accept(part@) {
                Ok(draft) => r is Ok && final(self)@ == draft,
                Err(e) => r == Err::<(), _>(e) && final(self)@ == old(self)@,
            },
    {
        match part {
            Part::Text { name, value } => self.accept_text(name, value),
            Part::Binary { name, content_type, bytes } => self.accept_binary(
                name,
                content_type,
                bytes,
            ),
            Part::Ingredient(ingredient) => self.add_ingredient(ingredient),
        }
    }

    /// Ends the submission: the request that the parts amount to, which is
    /// valid, or the required fields that are missing.
    pub fn finish(self) -> (r: Result<RecipeCreationRequest, DecodingError>)
        ensures
            ok_view(r) == self@.finish(),
            r matches Ok(request) ==> request@.valid(),
    {
        proof {
            use_type_invariant(&self);
        }
        let name_missing = match &self.name {
            Some(name) => name.as_str().is_empty(),
            None => true,
        };
        let missing = MissingFields {
            name: name_missing,
            rations: self.rations.is_none(),
            steps: self.steps.is_none(),
        };
        if missing.name || missing.rations || missing.steps {
            return Err(DecodingError::IncompleteSubmission(missing));
        }
        match (self.name, self.rations, self.steps) {
            (Some(name), Some(rations), Some(steps)) => Ok(
                RecipeCreationRequest {
                    name,
                    rations,
                    thumbnail: self.thumbnail,
                    ingredients: self.ingredients,
                    steps,
                },
            ),
            _ => Err(DecodingError::IncompleteSubmission(missing)),
        }
    }
}

impl RecipeCreationRequest {
    /// Decodes a whole submission from its parts, in the order in which they
    /// arrived. A request that is handed out is valid.
    pub fn from_request(parts: Vec<Part>) -> (r: Result<RecipeCreationRequest, DecodingError>)
        ensures
            ok_view(r) == decode(views(parts@)),
            r matches Ok(request) ==> request@.valid(),
    {
        let mut decoder = Decoder::new();
        let ghost all = views(parts@);
        assert(all.skip(0) =~= all);
        for part in it: parts
            invariant
                it.seq() == parts@,
                all == views(parts@),
                Draft::empty().scan(all) == decoder@.scan(all.skip(it.index())),
        {
            let ghost rest = all.skip(it.index());
            assert(rest[0] == part@);
            assert(rest.drop_first() =~= all.skip(it.index() + 1));
            match decoder.accept(part) {
                Ok(()) => {},
                Err(e) => {
                    return Err(e);
                },
            }
        }
        assert(all.skip(all.len() as int).len() == 0);
        decoder.finish()
    }
}

} // verus!
