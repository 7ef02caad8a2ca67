use vstd::prelude::*;

use crate::extract::{RecipeCreationRequest, RecipeIngestionRequest, RecipeIngredientPart, StepsContent, StepsPart};
use crate::models::{Recipe, RecipeIngredient, Steps, StoredRecipe, StoredSteps};
use crate::values::{views, ImageContent};

verus! {

/// The name of the file that holds the thumbnail of the recipe `slug`.
pub open spec fn thumbnail_name(slug: Seq<char>, extension: Seq<char>) -> Seq<char> {
    slug + "."@ + extension
}

/// The name of the file that holds the image of the steps of the recipe
/// `slug`.
pub open spec fn step_image_name(slug: Seq<char>, extension: Seq<char>) -> Seq<char> {
    slug + "-step."@ + extension
}

/// The name of the file that holds the thumbnail of the recipe `slug`.
pub fn thumbnail_filename(slug: &str, extension: &str) -> (filename: String)
    ensures
        filename@ == thumbnail_name(slug@, extension@),
{
    let mut filename = slug.to_owned();
    filename.append(".");
    filename.append(extension);
    filename
}

/// The name of the file that holds the image of the steps of the recipe
/// `slug`.
pub fn step_image_filename(slug: &str, extension: &str) -> (filename: String)
    ensures
        filename@ == step_image_name(slug@, extension@),
{
    let mut filename = slug.to_owned();
    filename.append("-step.");
    filename.append(extension);
    filename
}

/// A file to write into the content directory.
#[derive(Debug, Clone, PartialEq, Eq)]
pub struct Attachment {
    pub filename: String,
    pub bytes: Vec<u8>,
}

/// A file of the content directory as a mathematical value.
pub struct FileContent {
    pub filename: Seq<char>,
    pub bytes: Seq<u8>,
}

impl View for Attachment {
    type V = FileContent;

    open spec fn view(&self) -> FileContent {
        FileContent { filename: self.filename@, bytes: self.bytes@ }
    }
}

/// All that storing one recipe takes: the recipe as it will be stored, and the
/// files to write, in the order in which they are written.
#[derive(Debug, Clone, PartialEq, Eq)]
pub struct CommitPlan {
    pub recipe: Recipe,
    pub attachments: Vec<Attachment>,
}

/// A commit plan as a mathematical value.
pub struct PlanContent {
    pub recipe: StoredRecipe,
    pub attachments: Seq<FileContent>,
}

impl View for CommitPlan {
    type V = PlanContent;

    open spec fn view(&self) -> PlanContent {
        PlanContent { recipe: self.recipe@, attachments: views(self.attachments@) }
    }
}

/// The steps as they are stored for the recipe `slug`: a text or a link as it
/// is, an image as the name of its file.
pub open spec fn stored_steps(steps: StepsContent, slug: Seq<char>) -> StoredSteps {
    match steps {
        StepsContent::Text(body) => StoredSteps::Text(body),
        StepsContent::Url(link) => StoredSteps::Url(link),
        StepsContent::Image(_, extension) => StoredSteps::Image(step_image_name(slug, extension)),
    }
}

/// The file for the thumbnail of the recipe `slug`, if it has one.
pub open spec fn thumbnail_files(thumbnail: Option<ImageContent>, slug: Seq<char>) -> Seq<
    FileContent,
> {
    match thumbnail {
        Some((bytes, extension)) => seq![
            FileContent { filename: thumbnail_name(slug, extension), bytes },
        ],
        None => Seq::empty(),
    }
}

/// The file for the steps of the recipe `slug`, if they are an image.
pub open spec fn step_files(steps: StepsContent, slug: Seq<char>) -> Seq<FileContent> {
    match steps {
        StepsContent::Image(bytes, extension) => seq![
            FileContent { filename: step_image_name(slug, extension), bytes },
        ],
        _ => Seq::empty(),
    }
}

/// The plan for storing `request` under `slug`. The slug is the key of the
/// recipe and the stem of every file name; the thumbnail is written before the
/// image of the steps.
pub open spec fn plan_of(request: RecipeIngestionRequest, slug: Seq<char>) -> PlanContent {
    PlanContent {
        recipe: StoredRecipe {
            name: slug,
            thumbnail: match request.thumbnail {
                Some((_, extension)) => Some(thumbnail_name(slug, extension)),
                None => None,
            },
            rations: request.rations,
            ingredients: request.ingredients,
            steps: stored_steps(request.steps, slug),
        },
        attachments: thumbnail_files(request.thumbnail, slug) + step_files(request.steps, slug),
    }
}

/// The ingredients of a submission as ingredients of a recipe.
fn recipe_ingredients(parts: Vec<RecipeIngredientPart>) -> (ingredients: Vec<RecipeIngredient>)
    ensures
        views(ingredients@) == views(parts@),
{
    let mut ingredients: Vec<RecipeIngredient> = Vec::new();
    let ghost all = views(parts@);
    for part in it: parts
        invariant
            it.seq() == parts@,
            all == views(parts@),
            views(ingredients@) == all.take(it.index()),
    {
        let ghost before = views(ingredients@);
        ingredients.push(
            RecipeIngredient {
                ingredient_name: part.selected,
                quantity: part.quantity,
                unit: part.unit,
            },
        );
        assert(views(ingredients@) =~= before.push(part@));
        assert(all.take(it.index() + 1) =~= all.take(it.index()).push(all[it.index()]));
    }
    assert(all.take(all.len() as int) =~= all);
    ingredients
}

/// Plans the storing of `request` under `slug`.
pub fn plan_recipe(request: RecipeCreationRequest, slug: String) -> (plan: CommitPlan)
    ensures
        plan@ == plan_of(request@, slug@),
{
    let mut attachments: Vec<Attachment> = Vec::new();
    let thumbnail = match request.thumbnail {
        Some((bytes, extension)) => {
            let filename = thumbnail_filename(slug.as_str(), extension.as_str());
            attachments.push(Attachment { filename: filename.clone(), bytes });
            Some(filename)
        },
        None => None,
    };
    assert(views(attachments@) =~= thumbnail_files(request@.thumbnail, slug@));
    let ghost first = views(attachments@);
    let steps = match request.steps {
        StepsPart::Text(body) => Steps::Text(body),
        StepsPart::Url(link) => Steps::Url(link),
        StepsPart::Image(bytes, extension) => {
            let filename = step_image_filename(slug.as_str(), extension.as_str());
            attachments.push(Attachment { filename: filename.clone(), bytes });
            Steps::Image(filename)
        },
    };
    assert(views(attachments@) =~= first + step_files(request@.steps, slug@));
    let ingredients = recipe_ingredients(request.ingredients);
    CommitPlan {
        recipe: Recipe {
            name: slug,
            thumbnail,
            rations: request.rations,
            ingredients,
            steps,
        },
        attachments,
    }
}

} // verus!
