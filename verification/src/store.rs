use vstd::prelude::*;

use crate::commit::{
    lemma_step_keeps_valid, lemma_step_makes_progress, Action, FaultKind, MachineState,
    OutcomeContent, ProgressContent,
};
use crate::error::{CommitFailure, PersistenceKind};
use crate::extract::RecipeIngestionRequest;
use crate::models::{StoredRecipe, StoredSteps};
use crate::persist::{plan_of, step_image_name, thumbnail_name, PlanContent};
use crate::slug::kebab_case;

verus! {

/// The storage as the pipeline sees it: the recipes that are committed, each
/// under its slug and with its ingredient rows; the rows as the open
/// transaction sees them, while one is open; the files of the content
/// directory; and the names of the ingredients in the catalog.
pub struct World {
    pub recipes: Map<Seq<char>, StoredRecipe>,
    pub open: Option<Map<Seq<char>, StoredRecipe>>,
    pub files: Map<Seq<char>, Seq<u8>>,
    pub catalog: Set<Seq<char>>,
}

/// The planned recipe with only its first `count` ingredient rows.
pub open spec fn recipe_with(plan: PlanContent, count: int) -> StoredRecipe {
    StoredRecipe { ingredients: plan.recipe.ingredients.take(count), ..plan.recipe }
}

/// Whether the storage may answer `action` with `outcome` and be left as
/// `after`, when it was `before`.
///
/// A transaction works on rows of its own, which become the committed rows
/// when it is committed and are dropped when it is rolled back or cannot be
/// committed. A recipe row is inserted only under a slug that no row has, and
/// a unique violation is reported only for a slug that a row has. An
/// ingredient row is inserted only for an ingredient of the catalog, and a
/// foreign key violation is reported only for one that is not in it. A write
/// that is done leaves the bytes under the file name; a write that fails may
/// leave anything under that name, but removes no file, and nothing else is
/// touched. Every other failure changes nothing.
pub open spec fn allows(
    plan: PlanContent,
    before: World,
    action: Action,
    outcome: OutcomeContent,
    after: World,
) -> bool {
    let slug = plan.recipe.name;
    match action {
        Action::Begin => match outcome {
            OutcomeContent::Done => after == World { open: Some(before.recipes), ..before },
            OutcomeContent::Failed(_, _) => after == before,
        },
        Action::InsertRecipe => match outcome {
            OutcomeContent::Done => {
                &&& before.open matches Some(rows)
                &&& !rows.dom().contains(slug)
                &&& after == World { open: Some(rows.insert(slug, recipe_with(plan, 0))), ..before }
            },
            OutcomeContent::Failed(fault, _) => {
                &&& after == before
                &&& fault == FaultKind::UniqueViolation ==> (before.open matches Some(rows)
                    && rows.dom().contains(slug))
            },
        },
        Action::InsertIngredient(i) => match outcome {
            OutcomeContent::Done => {
                &&& before.open matches Some(rows)
                &&& rows.dom().contains(slug)
                &&& i < plan.recipe.ingredients.len()
                &&& before.catalog.contains(plan.recipe.ingredients[i as int].name)
                &&& after == World {
                    open: Some(
                        rows.insert(
                            slug,
                            StoredRecipe {
                                ingredients: rows[slug].ingredients.push(
                                    plan.recipe.ingredients[i as int],
                                ),
                                ..rows[slug]
                            },
                        ),
                    ),
                    ..before
                }
            },
            OutcomeContent::Failed(fault, _) => {
                &&& after == before
                &&& fault == FaultKind::ForeignKeyViolation ==> i < plan.recipe.ingredients.len()
                    && !before.catalog.contains(plan.recipe.ingredients[i as int].name)
            },
        },
        Action::WriteAttachment(j) => {
            &&& j < plan.attachments.len()
            &&& after.recipes == before.recipes
            &&& after.open == before.open
            &&& after.catalog == before.catalog
            &&& match outcome {
                OutcomeContent::Done => after.files == before.files.insert(
                    plan.attachments[j as int].filename,
                    plan.attachments[j as int].bytes,
                ),
                OutcomeContent::Failed(_, _) => {
                    &&& before.files.dom().subset_of(after.files.dom())
                    &&& after.files.remove(plan.attachments[j as int].filename)
                        == before.files.remove(plan.attachments[j as int].filename)
                },
            }
        },
        Action::Commit => match outcome {
            OutcomeContent::Done => before.open matches Some(rows) && after == World {
                recipes: rows,
                open: None,
                ..before
            },
            OutcomeContent::Failed(_, _) => after == World { open: None, ..before },
        },
        Action::Rollback => after == World { open: None, ..before },
    }
}

/// Whether the first `count` attachments of the plan are in the content
/// directory, each under its file name.
pub open spec fn written(plan: PlanContent, files: Map<Seq<char>, Seq<u8>>, count: int) -> bool {
    forall|k: int|
        0 <= k < count && k < plan.attachments.len() ==> files.dom().contains(
            (#[trigger] plan.attachments[k]).filename,
        ) && files[plan.attachments[k].filename] == plan.attachments[k].bytes
}

/// Whether no two attachments of the plan share a file name.
pub open spec fn distinct_files(plan: PlanContent) -> bool {
    forall|j: int, k: int|
        0 <= j < k < plan.attachments.len() ==> (#[trigger] plan.attachments[j]).filename != (
        #[trigger] plan.attachments[k]).filename
}

/// Whether the storage is where the run has brought it: nothing is committed
/// beyond what was there at the start, and the open transaction holds exactly
/// the rows inserted so far.
pub open spec fn on_track(
    state: MachineState,
    world: World,
    at_start: Map<Seq<char>, StoredRecipe>,
) -> bool {
    let plan = state.plan;
    let slug = plan.recipe.name;
    &&& world.recipes == at_start
    &&& match state.pending {
        Action::Begin => world.open is None,
        Action::InsertRecipe => world.open == Some(at_start),
        Action::InsertIngredient(i) => {
            &&& !at_start.dom().contains(slug)
            &&& world.open == Some(at_start.insert(slug, recipe_with(plan, i as int)))
            &&& forall|k: int| 0 <= k < i ==> world.catalog.contains(
                    (#[trigger] plan.recipe.ingredients[k]).name)
        },
        Action::WriteAttachment(j) => {
            &&& !at_start.dom().contains(slug)
            &&& world.open == Some(at_start.insert(slug, plan.recipe))
            &&& written(plan, world.files, j as int)
            &&& known(plan, world)
        },
        Action::Commit => {
            &&& !at_start.dom().contains(slug)
            &&& world.open == Some(at_start.insert(slug, plan.recipe))
            &&& written(plan, world.files, plan.attachments.len() as int)
            &&& known(plan, world)
        },
        Action::Rollback => true,
    }
}

/// Whether every ingredient of the planned recipe is in the catalog.
pub open spec fn known(plan: PlanContent, world: World) -> bool {
    forall|k: int| 0 <= k < plan.recipe.ingredients.len() ==> world.catalog.contains(
            (#[trigger] plan.recipe.ingredients[k]).name)
}

/// Whether the recipe of the plan is stored whole and nothing else changed:
/// its row with every ingredient row is committed under its slug, which was
/// free at the start, every attachment is in the content directory, every
/// ingredient is in the catalog, and no transaction is left open.
pub open spec fn stored(
    plan: PlanContent,
    world: World,
    at_start: Map<Seq<char>, StoredRecipe>,
) -> bool {
    &&& !at_start.dom().contains(plan.recipe.name)
    &&& world.recipes == at_start.insert(plan.recipe.name, plan.recipe)
    &&& world.open is None
    &&& written(plan, world.files, plan.attachments.len() as int)
    &&& known(plan, world)
}

/// Whether nothing of the run is visible among the committed rows, and no
/// transaction is left open.
pub open spec fn untouched(world: World, at_start: Map<Seq<char>, StoredRecipe>) -> bool {
    world.recipes == at_start && world.open is None
}

/// A storage without an open transaction is on track for the start of any
/// plan.
pub proof fn lemma_start_on_track(plan: PlanContent, world: World)
    requires
        world.open is None,
    ensures
        on_track(MachineState::start(plan), world, world.recipes),
{
}

/// One step keeps the storage on track, and a run ends with all or nothing:
/// where it ends with a slug, the recipe is stored whole under that slug;
/// where it ends with a failure, no row of it is committed.
pub proof fn lemma_step_on_track(
    state: MachineState,
    world: World,
    at_start: Map<Seq<char>, StoredRecipe>,
    outcome: OutcomeContent,
    after: World,
)
    requires
        state.valid(),
        distinct_files(state.plan),
        on_track(state, world, at_start),
        allows(state.plan, world, state.pending, outcome, after),
    ensures
        match state.step(outcome) {
            ProgressContent::Continue(next) => on_track(next, after, at_start),
            ProgressContent::Finished(Ok(slug)) => slug == state.plan.recipe.name && stored(
                state.plan,
                after,
                at_start,
            ),
            ProgressContent::Finished(Err(_)) => untouched(after, at_start),
        },
{
    let plan = state.plan;
    let slug = plan.recipe.name;
    let all = plan.recipe.ingredients;
    match state.pending {
        Action::InsertRecipe => {
            if outcome is Done {
                assert(recipe_with(plan, 0).ingredients =~= Seq::empty());
                if all.len() == 0 {
                    assert(all.take(0) =~= all);
                }
            }
        },
        Action::InsertIngredient(i) => {
            if outcome is Done {
                let rows = world.open->0;
                assert(rows[slug] == recipe_with(plan, i as int));
                assert(all.take(i as int).push(all[i as int]) =~= all.take(i + 1));
                assert(rows.insert(slug, recipe_with(plan, i + 1)) =~= at_start.insert(
                    slug,
                    recipe_with(plan, i + 1),
                ));
                if i + 1 >= all.len() {
                    assert(all.take(i + 1) =~= all);
                }
            }
        },
        Action::WriteAttachment(j) => {
            if outcome is Done {
                assert forall|k: int|
                    0 <= k < j + 1 && k < plan.attachments.len() implies after.files.dom().contains(
                    (#[trigger] plan.attachments[k]).filename,
                ) && after.files[plan.attachments[k].filename] == plan.attachments[k].bytes by {
                    if k < j {
                        assert(plan.attachments[k].filename != plan.attachments[j as int].filename);
                    }
                }
            }
        },
        _ => {},
    }
}

/// The two files of a recipe never share a name, whatever their extensions.
pub proof fn lemma_file_names_differ(slug: Seq<char>, first: Seq<char>, second: Seq<char>)
    ensures
        thumbnail_name(slug, first) != step_image_name(slug, second),
{
    reveal_strlit(".");
    reveal_strlit("-step.");
    let at = slug.len() as int;
    assert(thumbnail_name(slug, first)[at] == '.');
    assert(step_image_name(slug, second)[at] == '-');
}

/// Every plan made for a submission starts a valid run in which no two
/// attachments share a file name, and its recipe is stored under the slug.
pub proof fn lemma_plan_is_sound(request: RecipeIngestionRequest, slug: Seq<char>)
    requires
        request.ingredients.len() <= usize::MAX,
    ensures
        MachineState::start(plan_of(request, slug)).valid(),
        distinct_files(plan_of(request, slug)),
        plan_of(request, slug).recipe.name == slug,
        plan_of(request, slug).recipe.ingredients == request.ingredients,
{
    let plan = plan_of(request, slug);
    assert forall|j: int, k: int| 0 <= j < k < plan.attachments.len() implies (
    #[trigger] plan.attachments[j]).filename != (#[trigger] plan.attachments[k]).filename by {
        match (request.thumbnail, request.steps) {
            (Some((_, first)), crate::extract::StepsContent::Image(_, second)) => {
                lemma_file_names_differ(slug, first, second);
            },
            _ => {},
        }
    }
}

/// Where a row is committed under the slug of the plan already, the recipe
/// row is not inserted: the storage answers with a failure, the transaction is
/// rolled back, and the failure is a collision of slugs if the storage
/// reported a unique violation.
pub proof fn lemma_taken_slug_collides(
    state: MachineState,
    world: World,
    at_start: Map<Seq<char>, StoredRecipe>,
    outcome: OutcomeContent,
    after: World,
)
    requires
        state.valid(),
        state.pending == Action::InsertRecipe,
        on_track(state, world, at_start),
        at_start.dom().contains(state.plan.recipe.name),
        allows(state.plan, world, state.pending, outcome, after),
    ensures
        outcome is Failed,
        state.step(outcome) matches ProgressContent::Continue(next) && {
            &&& next.pending == Action::Rollback
            &&& next.failure matches Some(failure)
            &&& outcome.fault() == Some(FaultKind::UniqueViolation) ==> failure.kind
                == PersistenceKind::SlugCollision
        },
{
}

/// How a run ends: the result that the persister reports after the last of
/// `outcomes`, where the storage gave these outcomes one by one, passing
/// through `worlds`, and the run ended with the last of them and not before.
/// Anything else is no run.
pub open spec fn run(state: MachineState, worlds: Seq<World>, outcomes: Seq<OutcomeContent>) -> Option<
    Result<Seq<char>, CommitFailure>,
>
    decreases outcomes.len(),
{
    if outcomes.len() == 0 || worlds.len() != outcomes.len() + 1 || !allows(
        state.plan,
        worlds[0],
        state.pending,
        outcomes[0],
        worlds[1],
    ) {
        None
    } else {
        match state.step(outcomes[0]) {
            ProgressContent::Finished(result) => if outcomes.len() == 1 {
                Some(result)
            } else {
                None
            },
            ProgressContent::Continue(next) => run(
                next,
                worlds.drop_first(),
                outcomes.drop_first(),
            ),
        }
    }
}

/// A run is no longer than the number of outcomes that remain for its first
/// state.
pub proof fn lemma_run_is_bounded(
    state: MachineState,
    worlds: Seq<World>,
    outcomes: Seq<OutcomeContent>,
)
    requires
        state.valid(),
        run(state, worlds, outcomes) is Some,
    ensures
        outcomes.len() <= state.remaining(),
    decreases outcomes.len(),
{
    lemma_step_makes_progress(state, outcomes[0]);
    lemma_step_keeps_valid(state, outcomes[0]);
    match state.step(outcomes[0]) {
        ProgressContent::Finished(_) => {},
        ProgressContent::Continue(next) => {
            lemma_run_is_bounded(next, worlds.drop_first(), outcomes.drop_first());
        },
    }
}

/// A run in which the storage does all that it is asked, from a state in
/// which nothing has failed, ends with the slug.
pub proof fn lemma_obliging_run_succeeds(
    state: MachineState,
    worlds: Seq<World>,
    outcomes: Seq<OutcomeContent>,
)
    requires
        state.valid(),
        state.pending != Action::Rollback,
        run(state, worlds, outcomes) is Some,
        forall|i: int| 0 <= i < outcomes.len() ==> #[trigger] outcomes[i] is Done,
    ensures
        run(state, worlds, outcomes)->0 == Ok::<_, CommitFailure>(state.plan.recipe.name),
    decreases outcomes.len(),
{
    assert(outcomes[0] is Done);
    lemma_step_keeps_valid(state, outcomes[0]);
    match state.step(outcomes[0]) {
        ProgressContent::Finished(_) => {},
        ProgressContent::Continue(next) => {
            let later = outcomes.drop_first();
            assert forall|i: int| 0 <= i < later.len() implies #[trigger] later[i] is Done by {
                assert(later[i] == outcomes[i + 1]);
            }
            lemma_obliging_run_succeeds(next, worlds.drop_first(), later);
        },
    }
}

/// A run from any state that is on track ends with all or nothing: with the
/// slug and the recipe stored whole, or with a failure and no row of the
/// recipe committed.
pub proof fn lemma_run_from(
    state: MachineState,
    worlds: Seq<World>,
    outcomes: Seq<OutcomeContent>,
    at_start: Map<Seq<char>, StoredRecipe>,
)
    requires
        state.valid(),
        distinct_files(state.plan),
        worlds.len() > 0,
        on_track(state, worlds[0], at_start),
        run(state, worlds, outcomes) is Some,
    ensures
        match run(state, worlds, outcomes)->0 {
            Ok(slug) => slug == state.plan.recipe.name && stored(
                state.plan,
                worlds.last(),
                at_start,
            ),
            Err(_) => untouched(worlds.last(), at_start),
        },
    decreases outcomes.len(),
{
    lemma_step_on_track(state, worlds[0], at_start, outcomes[0], worlds[1]);
    match state.step(outcomes[0]) {
        ProgressContent::Finished(_) => {},
        ProgressContent::Continue(next) => {
            let rest = worlds.drop_first();
            assert(rest[0] == worlds[1]);
            assert(rest.last() == worlds.last());
            lemma_run_from(next, rest, outcomes.drop_first(), at_start);
        },
    }
}

/// Storing a submission is all or nothing. Whatever the storage answers, a
/// run that begins without an open transaction and ends with a slug has
/// committed the recipe under that slug, which was free, with every
/// ingredient row, has every attachment in the content directory and has
/// found every ingredient in the catalog; a run that ends with a failure has
/// left the committed rows as they were.
pub proof fn lemma_all_or_nothing(
    request: RecipeIngestionRequest,
    slug: Seq<char>,
    worlds: Seq<World>,
    outcomes: Seq<OutcomeContent>,
)
    requires
        request.ingredients.len() <= usize::MAX,
        worlds.len() > 0,
        worlds[0].open is None,
        run(MachineState::start(plan_of(request, slug)), worlds, outcomes) is Some,
    ensures
        match run(MachineState::start(plan_of(request, slug)), worlds, outcomes)->0 {
            Ok(stored_as) => stored_as == slug && stored(
                plan_of(request, slug),
                worlds.last(),
                worlds[0].recipes,
            ),
            Err(_) => untouched(worlds.last(), worlds[0].recipes),
        },
{
    let plan = plan_of(request, slug);
    lemma_plan_is_sound(request, slug);
    lemma_start_on_track(plan, worlds[0]);
    lemma_run_from(MachineState::start(plan), worlds, outcomes, worlds[0].recipes);
}

/// A submission whose slug is taken is never stored: every run ends with a
/// failure and leaves the committed rows as they were, so that the recipe
/// that holds the slug stays the only one under it. The failure is a
/// collision of slugs where the storage answered the insert of the recipe row
/// with a unique violation; submitting again meets the same end.
pub proof fn lemma_second_submission_fails(
    request: RecipeIngestionRequest,
    slug: Seq<char>,
    worlds: Seq<World>,
    outcomes: Seq<OutcomeContent>,
)
    requires
        request.ingredients.len() <= usize::MAX,
        worlds.len() > 0,
        worlds[0].open is None,
        worlds[0].recipes.dom().contains(slug),
        run(MachineState::start(plan_of(request, slug)), worlds, outcomes) is Some,
    ensures
        run(MachineState::start(plan_of(request, slug)), worlds, outcomes)->0 matches Err(failure)
            && {
            &&& untouched(worlds.last(), worlds[0].recipes)
            &&& worlds.last().recipes.dom().contains(slug)
            &&& outcomes.len() >= 2 && outcomes[1].fault() == Some(FaultKind::UniqueViolation)
                ==> failure.kind() == Some(PersistenceKind::SlugCollision)
        },
{
    let plan = plan_of(request, slug);
    let start = MachineState::start(plan);
    lemma_all_or_nothing(request, slug, worlds, outcomes);
    lemma_plan_is_sound(request, slug);
    if outcomes.len() >= 2 && outcomes[0] is Done {
        let second = MachineState { pending: Action::InsertRecipe, ..start };
        let rest = worlds.drop_first();
        let later = outcomes.drop_first();
        assert(start.step(outcomes[0]) == ProgressContent::Continue(second));
        assert(run(start, worlds, outcomes) == run(second, rest, later));
        assert(rest[0] == worlds[1]);
        assert(later[0] == outcomes[1]);
        lemma_step_on_track(start, worlds[0], worlds[0].recipes, outcomes[0], worlds[1]);
        lemma_taken_slug_collides(second, rest[0], worlds[0].recipes, later[0], rest[1]);
        let third = second.step(later[0])->Continue_0;
        if later.len() >= 2 {
            assert(run(second, rest, later) == run(third, rest.drop_first(), later.drop_first()));
            assert(third.step(later.drop_first()[0]) == ProgressContent::Finished(
                Err(CommitFailure::Persistence(third.failure->0)),
            ));
        }
    }
}

/// Whether the row of a recipe names `filename` as its thumbnail or as the
/// image of its steps.
pub open spec fn names_file(recipe: StoredRecipe, filename: Seq<char>) -> bool {
    recipe.thumbnail == Some(filename) || recipe.steps == StoredSteps::Image(filename)
}

/// Whether every file that a row names is in the content directory.
pub open spec fn rows_have_files(
    rows: Map<Seq<char>, StoredRecipe>,
    files: Map<Seq<char>, Seq<u8>>,
) -> bool {
    forall|slug: Seq<char>, filename: Seq<char>|
        rows.dom().contains(slug) && #[trigger] names_file(rows[slug], filename)
            ==> files.dom().contains(filename)
}

/// Every file that the planned row names is an attachment of the plan.
pub proof fn lemma_plan_writes_named_files(
    request: RecipeIngestionRequest,
    slug: Seq<char>,
    filename: Seq<char>,
)
    requires
        names_file(plan_of(request, slug).recipe, filename),
    ensures
        exists|j: int|
            0 <= j < plan_of(request, slug).attachments.len() && (#[trigger] plan_of(
                request,
                slug,
            ).attachments[j]).filename == filename,
{
    let plan = plan_of(request, slug);
    if plan.recipe.thumbnail == Some(filename) {
        assert(plan.attachments[0].filename == filename);
    } else {
        let last = plan.attachments.len() - 1;
        assert(plan.attachments[last].filename == filename);
    }
}

/// No run removes a file from the content directory.
pub proof fn lemma_run_keeps_files(
    state: MachineState,
    worlds: Seq<World>,
    outcomes: Seq<OutcomeContent>,
)
    requires
        run(state, worlds, outcomes) is Some,
    ensures
        worlds[0].files.dom().subset_of(worlds.last().files.dom()),
    decreases outcomes.len(),
{
    match state.step(outcomes[0]) {
        ProgressContent::Finished(_) => {},
        ProgressContent::Continue(next) => {
            let rest = worlds.drop_first();
            assert(rest[0] == worlds[1]);
            assert(rest.last() == worlds.last());
            lemma_run_keeps_files(next, rest, outcomes.drop_first());
        },
    }
}

/// No committed row is ever without its files. Where every file that a
/// committed row names was in the content directory before a run, the same
/// holds after it, however it ended: the row of a recipe is committed only
/// after its thumbnail and the image of its steps are written.
pub proof fn lemma_rows_keep_their_files(
    request: RecipeIngestionRequest,
    slug: Seq<char>,
    worlds: Seq<World>,
    outcomes: Seq<OutcomeContent>,
)
    requires
        request.ingredients.len() <= usize::MAX,
        worlds.len() > 0,
        worlds[0].open is None,
        rows_have_files(worlds[0].recipes, worlds[0].files),
        run(MachineState::start(plan_of(request, slug)), worlds, outcomes) is Some,
    ensures
        rows_have_files(worlds.last().recipes, worlds.last().files),
{
    let plan = plan_of(request, slug);
    let start = MachineState::start(plan);
    let before = worlds[0];
    let after = worlds.last();
    lemma_all_or_nothing(request, slug, worlds, outcomes);
    lemma_run_keeps_files(start, worlds, outcomes);
    assert forall|key: Seq<char>, filename: Seq<char>|
        after.recipes.dom().contains(key) && #[trigger] names_file(
            after.recipes[key],
            filename,
        ) implies after.files.dom().contains(filename) by {
        if run(start, worlds, outcomes)->0 is Ok && key == slug {
            lemma_plan_writes_named_files(request, slug, filename);
            let j = choose|j: int|
                0 <= j < plan.attachments.len() && (#[trigger] plan.attachments[j]).filename
                    == filename;
            assert(after.files.dom().contains(plan.attachments[j].filename));
        } else {
            assert(before.recipes.dom().contains(key));
            assert(names_file(before.recipes[key], filename));
        }
    }
}

/// Two submissions with the same name are planned under the same slug.
pub proof fn lemma_same_name_same_slug(first: RecipeIngestionRequest, second: RecipeIngestionRequest)
    requires
        first.name == second.name,
    ensures
        plan_of(first, kebab_case(first.name)).recipe.name == plan_of(
            second,
            kebab_case(second.name),
        ).recipe.name,
{
}

} // verus!
