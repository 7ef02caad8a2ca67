use std::collections::{BTreeMap, BTreeSet};

use recipe_ingest::commit::{
    create_recipe, Action, Fault, FaultKind, Outcome, Persister, Progress,
};
use recipe_ingest::error::{CommitError, DecodingError, PersistenceError, PersistenceKind};
use recipe_ingest::extract::{Part, RecipeCreationRequest, RecipeIngredientPart, StepsPart};
use recipe_ingest::models::{IngredientUnit, Recipe, RecipeIngredient, Steps};
use recipe_ingest::persist::{
    plan_recipe, step_image_filename, thumbnail_filename, Attachment, CommitPlan,
};

/// A storage in memory that answers as a database and a directory would.
#[derive(Default)]
struct Storage {
    recipes: BTreeMap<String, Recipe>,
    open: Option<BTreeMap<String, Recipe>>,
    files: BTreeMap<String, Vec<u8>>,
    catalog: BTreeSet<String>,
    full_disk: bool,
    log: Vec<Action>,
}

fn persistence(kind: PersistenceKind, cause: &str) -> CommitError {
    CommitError::Persistence(PersistenceError { kind, cause: cause.to_string() })
}

fn kind_of(error: CommitError) -> Option<PersistenceKind> {
    match error {
        CommitError::Persistence(e) => Some(e.kind),
        CommitError::Internal(_) => None,
    }
}

fn failed(kind: FaultKind, message: &str) -> Outcome {
    Outcome::Failed(Fault { kind, message: message.to_string() })
}

impl Storage {
    fn with_catalog(names: &[&str]) -> Storage {
        Storage { catalog: names.iter().map(|n| n.to_string()).collect(), ..Storage::default() }
    }

    fn perform(&mut self, plan: &CommitPlan, action: Action) -> Outcome {
        self.log.push(action);
        match action {
            Action::Begin => {
                self.open = Some(self.recipes.clone());
                Outcome::Done
            }
            Action::InsertRecipe => {
                let rows = self.open.as_mut().unwrap();
                if rows.contains_key(&plan.recipe.name) {
                    return failed(FaultKind::UniqueViolation, "UNIQUE constraint failed");
                }
                let mut row = plan.recipe.clone();
                row.ingredients.clear();
                rows.insert(row.name.clone(), row);
                Outcome::Done
            }
            Action::InsertIngredient(i) => {
                let ingredient = plan.recipe.ingredients[i].clone();
                if !self.catalog.contains(&ingredient.ingredient_name) {
                    return failed(FaultKind::ForeignKeyViolation, "FOREIGN KEY constraint failed");
                }
                let row = self.open.as_mut().unwrap().get_mut(&plan.recipe.name).unwrap();
                if row.ingredients.iter().any(|r| r.ingredient_name == ingredient.ingredient_name) {
                    return failed(FaultKind::UniqueViolation, "UNIQUE constraint failed");
                }
                row.ingredients.push(ingredient);
                Outcome::Done
            }
            Action::WriteAttachment(j) => {
                let file = &plan.attachments[j];
                if self.full_disk {
                    self.files.insert(file.filename.clone(), Vec::new());
                    return failed(FaultKind::Other, "no space left on device");
                }
                self.files.insert(file.filename.clone(), file.bytes.clone());
                Outcome::Done
            }
            Action::Commit => {
                self.recipes = self.open.take().unwrap();
                Outcome::Done
            }
            Action::Rollback => {
                self.open = None;
                Outcome::Done
            }
        }
    }

    fn store(&mut self, request: RecipeCreationRequest) -> Result<String, CommitError> {
        let mut persister = create_recipe(request);
        loop {
            let outcome = self.perform(&persister.plan().clone(), persister.pending());
            match persister.step(outcome) {
                Progress::Continue(next) => persister = next,
                Progress::Finished(result) => return result,
            }
        }
    }
}

fn field(name: &str, value: &str) -> Part {
    Part::Text { name: name.to_string(), value: value.to_string() }
}

fn tomato_soup() -> RecipeCreationRequest {
    RecipeCreationRequest::from_request(vec![
        field("name", "Tomato Soup"),
        field("rations", "4"),
        field("ingredients[]", "tomato,500,Grams"),
        field("Text", "Boil and blend."),
    ])
    .unwrap()
}

fn pictured(name: &str, thumbnail: bool) -> RecipeCreationRequest {
    let mut parts = vec![field("name", name), field("rations", "2")];
    if thumbnail {
        parts.push(Part::Binary {
            name: "thumbnail".to_string(),
            content_type: Some("image/jpeg".to_string()),
            bytes: vec![1, 1, 1],
        });
    }
    parts.push(Part::Binary {
        name: "Image".to_string(),
        content_type: Some("image/jpeg".to_string()),
        bytes: vec![2, 2],
    });
    RecipeCreationRequest::from_request(parts).unwrap()
}

fn drive(mut persister: Persister, outcomes: Vec<Outcome>) -> (Vec<Action>, Result<String, CommitError>) {
    let mut actions = Vec::new();
    for outcome in outcomes {
        actions.push(persister.pending());
        match persister.step(outcome) {
            Progress::Continue(next) => persister = next,
            Progress::Finished(result) => return (actions, result),
        }
    }
    panic!("the run did not end; next would be {:?}", persister.pending());
}

#[test]
fn tomato_soup_is_stored_whole() {
    let mut storage = Storage::with_catalog(&["tomato"]);
    assert_eq!(storage.store(tomato_soup()), Ok("tomato-soup".to_string()));
    assert_eq!(storage.recipes.len(), 1);
    assert_eq!(
        storage.recipes["tomato-soup"],
        Recipe {
            name: "tomato-soup".to_string(),
            thumbnail: None,
            rations: 4,
            ingredients: vec![RecipeIngredient {
                ingredient_name: "tomato".to_string(),
                quantity: 500,
                unit: IngredientUnit::Grams,
            }],
            steps: Steps::Text("Boil and blend.".to_string()),
        }
    );
    assert!(storage.files.is_empty());
    assert!(storage.open.is_none());
    assert_eq!(
        storage.log,
        vec![Action::Begin, Action::InsertRecipe, Action::InsertIngredient(0), Action::Commit]
    );
}

#[test]
fn the_same_name_twice_collides() {
    let mut storage = Storage::with_catalog(&["tomato"]);
    assert_eq!(storage.store(tomato_soup()), Ok("tomato-soup".to_string()));
    let before = storage.recipes.clone();
    let second = storage.store(tomato_soup());
    assert_eq!(
        second,
        Err(persistence(PersistenceKind::SlugCollision, "UNIQUE constraint failed"))
    );
    assert_eq!(storage.recipes, before);
    assert_eq!(storage.recipes.len(), 1);
    assert!(storage.open.is_none());
    let third = storage.store(tomato_soup());
    assert_eq!(third, second);
}

#[test]
fn names_that_differ_in_case_and_spaces_collide() {
    let mut storage = Storage::with_catalog(&[]);
    let request = |name: &str| {
        RecipeCreationRequest::from_request(vec![
            field("name", name),
            field("rations", "1"),
            field("Text", "x"),
        ])
        .unwrap()
    };
    assert_eq!(storage.store(request("Tomato Soup")), Ok("tomato-soup".to_string()));
    let second = storage.store(request("  tomato   SOUP "));
    assert_eq!(kind_of(second.unwrap_err()), Some(PersistenceKind::SlugCollision));
    assert_eq!(storage.recipes.len(), 1);
    assert_eq!(storage.recipes["tomato-soup"].steps, Steps::Text("x".to_string()));
}

#[test]
fn a_png_image_creates_no_row_and_no_file() {
    let storage = Storage::with_catalog(&[]);
    let decoded = RecipeCreationRequest::from_request(vec![
        field("name", "Tomato Soup"),
        field("rations", "4"),
        Part::Binary {
            name: "Image".to_string(),
            content_type: Some("image/png".to_string()),
            bytes: vec![1, 2, 3],
        },
    ]);
    assert_eq!(decoded, Err(DecodingError::UnsupportedContentType));
    assert!(storage.recipes.is_empty());
    assert!(storage.files.is_empty());
    assert!(storage.log.is_empty());
}

#[test]
fn a_jpeg_image_is_written_and_the_row_names_the_file() {
    let mut storage = Storage::with_catalog(&[]);
    assert_eq!(storage.store(pictured("Apple Pie", false)), Ok("apple-pie".to_string()));
    assert_eq!(storage.files.len(), 1);
    assert_eq!(storage.files["apple-pie-step.jpeg"], vec![2, 2]);
    let row = &storage.recipes["apple-pie"];
    assert_eq!(row.steps, Steps::Image("apple-pie-step.jpeg".to_string()));
    assert_eq!(row.thumbnail, None);
    assert_eq!(
        storage.log,
        vec![Action::Begin, Action::InsertRecipe, Action::WriteAttachment(0), Action::Commit]
    );
}

#[test]
fn the_thumbnail_is_written_before_the_step_image() {
    let mut storage = Storage::with_catalog(&[]);
    assert_eq!(storage.store(pictured("Apple Pie", true)), Ok("apple-pie".to_string()));
    assert_eq!(storage.files["apple-pie.jpeg"], vec![1, 1, 1]);
    assert_eq!(storage.files["apple-pie-step.jpeg"], vec![2, 2]);
    let row = &storage.recipes["apple-pie"];
    assert_eq!(row.thumbnail, Some("apple-pie.jpeg".to_string()));
    assert_eq!(row.steps, Steps::Image("apple-pie-step.jpeg".to_string()));
    assert_eq!(
        storage.log,
        vec![
            Action::Begin,
            Action::InsertRecipe,
            Action::WriteAttachment(0),
            Action::WriteAttachment(1),
            Action::Commit
        ]
    );
}

#[test]
fn an_unknown_ingredient_leaves_no_row() {
    let mut storage = Storage::with_catalog(&["onion"]);
    let result = storage.store(tomato_soup());
    assert_eq!(
        result,
        Err(persistence(PersistenceKind::UnknownIngredient, "FOREIGN KEY constraint failed"))
    );
    assert!(storage.recipes.is_empty());
    assert!(storage.open.is_none());
    assert_eq!(
        storage.log,
        vec![Action::Begin, Action::InsertRecipe, Action::InsertIngredient(0), Action::Rollback]
    );
}

#[test]
fn an_ingredient_given_twice_fails_the_transaction() {
    let mut storage = Storage::with_catalog(&["tomato"]);
    let request = RecipeCreationRequest::from_request(vec![
        field("name", "Soup"),
        field("rations", "1"),
        field("ingredients[]", "tomato,1,Units"),
        field("ingredients[]", "tomato,2,Units"),
        field("Text", "x"),
    ])
    .unwrap();
    let result = storage.store(request);
    assert_eq!(kind_of(result.unwrap_err()), Some(PersistenceKind::TransactionFailed));
    assert!(storage.recipes.is_empty());
}

#[test]
fn a_failed_write_rolls_back_and_may_leave_a_file_behind() {
    let mut storage = Storage::with_catalog(&[]);
    storage.full_disk = true;
    let result = storage.store(pictured("Apple Pie", true));
    assert_eq!(
        result,
        Err(persistence(PersistenceKind::AttachmentWriteFailed, "no space left on device"))
    );
    assert!(storage.recipes.is_empty());
    assert!(storage.open.is_none());
    assert!(storage.files.contains_key("apple-pie.jpeg"));
    assert_eq!(
        storage.log,
        vec![Action::Begin, Action::InsertRecipe, Action::WriteAttachment(0), Action::Rollback]
    );
}

#[test]
fn a_transaction_that_cannot_begin_ends_the_run() {
    let (actions, result) =
        drive(create_recipe(tomato_soup()), vec![failed(FaultKind::Other, "pool timed out")]);
    assert_eq!(actions, vec![Action::Begin]);
    assert_eq!(result, Err(CommitError::Internal("pool timed out".to_string())));
}

#[test]
fn a_commit_that_fails_ends_the_run_without_a_rollback() {
    let (actions, result) = drive(
        create_recipe(tomato_soup()),
        vec![
            Outcome::Done,
            Outcome::Done,
            Outcome::Done,
            failed(FaultKind::Other, "database is locked"),
        ],
    );
    assert_eq!(
        actions,
        vec![Action::Begin, Action::InsertRecipe, Action::InsertIngredient(0), Action::Commit]
    );
    assert_eq!(
        result,
        Err(persistence(PersistenceKind::TransactionFailed, "database is locked"))
    );
}

#[test]
fn the_failure_is_reported_whatever_comes_of_the_rollback() {
    for rollback in [Outcome::Done, failed(FaultKind::Other, "connection lost")] {
        let (actions, result) = drive(
            create_recipe(tomato_soup()),
            vec![Outcome::Done, failed(FaultKind::UniqueViolation, "taken"), rollback],
        );
        assert_eq!(actions, vec![Action::Begin, Action::InsertRecipe, Action::Rollback]);
        assert_eq!(
            result,
            Err(persistence(PersistenceKind::SlugCollision, "taken"))
        );
    }
}

#[test]
fn faults_are_blamed_by_the_action_that_met_them() {
    let pie = |outcomes: Vec<Outcome>| {
        let mut all = outcomes;
        all.push(Outcome::Done);
        kind_of(drive(create_recipe(pictured("Pie", false)), all).1.unwrap_err()).unwrap()
    };
    let done = || Outcome::Done;
    assert_eq!(
        pie(vec![done(), failed(FaultKind::ForeignKeyViolation, "")]),
        PersistenceKind::TransactionFailed
    );
    assert_eq!(
        pie(vec![done(), failed(FaultKind::Other, "")]),
        PersistenceKind::TransactionFailed
    );
    assert_eq!(
        pie(vec![done(), done(), failed(FaultKind::UniqueViolation, "")]),
        PersistenceKind::AttachmentWriteFailed
    );
    let soup = |outcomes: Vec<Outcome>| {
        let mut all = outcomes;
        all.push(Outcome::Done);
        kind_of(drive(create_recipe(tomato_soup()), all).1.unwrap_err()).unwrap()
    };
    assert_eq!(
        soup(vec![done(), done(), failed(FaultKind::ForeignKeyViolation, "")]),
        PersistenceKind::UnknownIngredient
    );
    assert_eq!(
        soup(vec![done(), done(), failed(FaultKind::UniqueViolation, "")]),
        PersistenceKind::TransactionFailed
    );
    assert_eq!(
        soup(vec![done(), done(), failed(FaultKind::Other, "")]),
        PersistenceKind::TransactionFailed
    );
}

#[test]
fn ingredients_are_inserted_in_the_order_given() {
    let request = RecipeCreationRequest {
        name: "Salad".to_string(),
        rations: 1,
        thumbnail: None,
        ingredients: ["lettuce", "oil", "salt"]
            .iter()
            .map(|n| RecipeIngredientPart {
                selected: n.to_string(),
                quantity: 1,
                unit: IngredientUnit::Units,
            })
            .collect(),
        steps: StepsPart::Url("https://example.com/".to_string()),
    };
    let mut storage = Storage::with_catalog(&["salt", "oil", "lettuce"]);
    assert_eq!(storage.store(request), Ok("salad".to_string()));
    let names: Vec<&str> = storage.recipes["salad"]
        .ingredients
        .iter()
        .map(|i| i.ingredient_name.as_str())
        .collect();
    assert_eq!(names, vec!["lettuce", "oil", "salt"]);
    assert_eq!(storage.recipes["salad"].steps, Steps::Url("https://example.com/".to_string()));
    assert_eq!(
        storage.log,
        vec![
            Action::Begin,
            Action::InsertRecipe,
            Action::InsertIngredient(0),
            Action::InsertIngredient(1),
            Action::InsertIngredient(2),
            Action::Commit
        ]
    );
}

#[test]
fn a_plan_names_every_file_after_the_slug() {
    let plan = plan_recipe(pictured("ignored", true), "apple-pie".to_string());
    assert_eq!(
        plan,
        CommitPlan {
            recipe: Recipe {
                name: "apple-pie".to_string(),
                thumbnail: Some("apple-pie.jpeg".to_string()),
                rations: 2,
                ingredients: vec![],
                steps: Steps::Image("apple-pie-step.jpeg".to_string()),
            },
            attachments: vec![
                Attachment { filename: "apple-pie.jpeg".to_string(), bytes: vec![1, 1, 1] },
                Attachment { filename: "apple-pie-step.jpeg".to_string(), bytes: vec![2, 2] },
            ],
        }
    );
}

#[test]
fn a_plan_without_images_has_no_attachments() {
    let plan = plan_recipe(tomato_soup(), "tomato-soup".to_string());
    assert!(plan.attachments.is_empty());
    assert_eq!(plan.recipe.thumbnail, None);
    assert_eq!(plan.recipe.steps, Steps::Text("Boil and blend.".to_string()));
    assert_eq!(plan.recipe.name, "tomato-soup");
    assert_eq!(plan.recipe.rations, 4);
}

#[test]
fn file_names_join_slug_and_extension() {
    assert_eq!(thumbnail_filename("tomato-soup", "jpeg"), "tomato-soup.jpeg");
    assert_eq!(step_image_filename("tomato-soup", "jpeg"), "tomato-soup-step.jpeg");
    assert_eq!(thumbnail_filename("", "jpeg"), ".jpeg");
}

#[test]
fn create_recipe_plans_under_the_slug_of_the_name() {
    let persister = create_recipe(pictured("Apple Pie", true));
    assert_eq!(persister.pending(), Action::Begin);
    assert_eq!(persister.plan().recipe.name, "apple-pie");
    assert_eq!(persister.plan().attachments.len(), 2);
}
