use vstd::prelude::*;

use crate::error::{
    CommitError, CommitFailure, PersistenceError, PersistenceFailure, PersistenceKind,
};
use crate::extract::RecipeCreationRequest;
use crate::persist::{plan_of, plan_recipe, CommitPlan, PlanContent};
use crate::slug::{kebab_case, slug_of};

verus! {

/// One thing to do to the storage. The numbers count the ingredients of the
/// planned recipe and the attachments of the plan, from zero.
#[derive(Clone, Copy, Debug, PartialEq, Eq, Structural)]
pub enum Action {
    /// Open a transaction.
    Begin,
    /// Insert the row of the recipe.
    InsertRecipe,
    /// Insert the row of one ingredient of the recipe.
    InsertIngredient(usize),
    /// Write one attachment into the content directory.
    WriteAttachment(usize),
    /// Commit the transaction.
    Commit,
    /// Roll the transaction back.
    Rollback,
}

/// How the storage classes a fault.
#[derive(Clone, Copy, Debug, PartialEq, Eq, Structural)]
pub enum FaultKind {
    /// A row with the same key exists already.
    UniqueViolation,
    /// A row refers to a row that does not exist.
    ForeignKeyViolation,
    /// Anything else.
    Other,
}

/// A fault of the storage: its class, and what the storage said.
#[derive(Debug, Clone, PartialEq, Eq)]
pub struct Fault {
    pub kind: FaultKind,
    pub message: String,
}

/// How an action ended.
#[derive(Debug, Clone, PartialEq, Eq)]
pub enum Outcome {
    Done,
    Failed(Fault),
}

/// How an action ended, as a mathematical value.
pub enum OutcomeContent {
    Done,
    Failed(FaultKind, Seq<char>),
}

impl OutcomeContent {
    /// The class of the fault, if the action failed.
    pub open spec fn fault(self) -> Option<FaultKind> {
        match self {
            OutcomeContent::Done => None,
            OutcomeContent::Failed(kind, _) => Some(kind),
        }
    }
}

impl View for Outcome {
    type V = OutcomeContent;

    open spec fn view(&self) -> OutcomeContent {
        match self {
            Outcome::Done => OutcomeContent::Done,
            Outcome::Failed(fault) => OutcomeContent::Failed(fault.kind, fault.message@),
        }
    }
}

/// Where the storing of a recipe stands, as a mathematical value: the plan,
/// the action whose outcome is awaited, and the failure to report once the
/// transaction is rolled back.
pub struct MachineState {
    pub plan: PlanContent,
    pub pending: Action,
    pub failure: Option<PersistenceFailure>,
}

/// What follows an outcome, as a mathematical value: the next state, or the
/// end with the slug of the stored recipe or the failure.
pub enum ProgressContent {
    Continue(MachineState),
    Finished(Result<Seq<char>, CommitFailure>),
}

/// The action that inserts the ingredient `i`, or what follows the last
/// ingredient.
pub open spec fn ingredient_or_later(plan: PlanContent, i: int) -> Action {
    if i < plan.recipe.ingredients.len() {
        Action::InsertIngredient(i as usize)
    } else {
        attachment_or_later(plan, 0)
    }
}

/// The action that writes the attachment `j`, or what follows the last
/// attachment.
pub open spec fn attachment_or_later(plan: PlanContent, j: int) -> Action {
    if j < plan.attachments.len() {
        Action::WriteAttachment(j as usize)
    } else {
        Action::Commit
    }
}

/// The kind of failure that a fault of class `fault` during `action` amounts
/// to. A row of the recipe that exists already is a collision of slugs; an
/// ingredient row that refers to nothing is an unknown ingredient; a file that
/// cannot be written is a failed attachment; all else is a failed
/// transaction.
pub open spec fn blame(action: Action, fault: FaultKind) -> PersistenceKind {
    match action {
        Action::InsertRecipe => if fault == FaultKind::UniqueViolation {
            PersistenceKind::SlugCollision
        } else {
            PersistenceKind::TransactionFailed
        },
        Action::InsertIngredient(_) => if fault == FaultKind::ForeignKeyViolation {
            PersistenceKind::UnknownIngredient
        } else {
            PersistenceKind::TransactionFailed
        },
        Action::WriteAttachment(_) => PersistenceKind::AttachmentWriteFailed,
        _ => PersistenceKind::TransactionFailed,
    }
}

impl MachineState {
    /// The state before anything was done.
    pub open spec fn start(plan: PlanContent) -> MachineState {
        MachineState { plan, pending: Action::Begin, failure: None }
    }

    /// What holds of every state that is reached from a start: the pending
    /// action is one of the plan, and a failure is kept exactly while the
    /// transaction is being rolled back.
    pub open spec fn valid(self) -> bool {
        &&& self.plan.recipe.ingredients.len() <= usize::MAX
        &&& self.plan.attachments.len() <= usize::MAX
        &&& self.pending matches Action::InsertIngredient(i) ==> i
            < self.plan.recipe.ingredients.len()
        &&& self.pending matches Action::WriteAttachment(j) ==> j < self.plan.attachments.len()
        &&& self.pending == Action::Rollback <==> self.failure is Some
    }

    /// The action that follows the pending one when it is done.
    pub open spec fn successor(self) -> Action {
        match self.pending {
            Action::Begin => Action::InsertRecipe,
            Action::InsertRecipe => ingredient_or_later(self.plan, 0),
            Action::InsertIngredient(i) => ingredient_or_later(self.plan, i + 1),
            Action::WriteAttachment(j) => attachment_or_later(self.plan, j + 1),
            Action::Commit => Action::Commit,
            Action::Rollback => Action::Rollback,
        }
    }

    /// What follows the outcome of the pending action.
    ///
    /// The recipe row is inserted first, then the ingredient rows in order,
    /// then the attachments are written in order, then the transaction is
    /// committed. A transaction that cannot be begun is a fault of the driver
    /// and ends the run. One that cannot be committed ends the run as a failed
    /// transaction. Any other failure has the transaction rolled back, and the
    /// run ends with that failure whatever comes of the rollback.
    pub open spec fn step(self, outcome: OutcomeContent) -> ProgressContent {
        match self.pending {
            Action::Rollback => ProgressContent::Finished(
                Err(CommitFailure::Persistence(self.failure->0)),
            ),
            Action::Begin => match outcome {
                OutcomeContent::Done => ProgressContent::Continue(
                    MachineState { pending: Action::InsertRecipe, ..self },
                ),
                OutcomeContent::Failed(_, message) => ProgressContent::Finished(
                    Err(CommitFailure::Internal(message)),
                ),
            },
            Action::Commit => match outcome {
                OutcomeContent::Done => ProgressContent::Finished(Ok(self.plan.recipe.name)),
                OutcomeContent::Failed(_, message) => ProgressContent::Finished(
                    Err(
                        CommitFailure::Persistence(
                            PersistenceFailure {
                                kind: PersistenceKind::TransactionFailed,
                                cause: message,
                            },
                        ),
                    ),
                ),
            },
            _ => match outcome {
                OutcomeContent::Done => ProgressContent::Continue(
                    MachineState { pending: self.successor(), ..self },
                ),
                OutcomeContent::Failed(fault, message) => ProgressContent::Continue(
                    MachineState {
                        pending: Action::Rollback,
                        failure: Some(
                            PersistenceFailure { kind: blame(self.pending, fault), cause: message },
                        ),
                        ..self
                    },
                ),
            },
        }
    }
}

impl MachineState {
    /// The number of outcomes after which a run from this state has ended at
    /// the latest.
    pub open spec fn remaining(self) -> nat {
        let rows = self.plan.recipe.ingredients.len();
        let files = self.plan.attachments.len();
        match self.pending {
            Action::Begin => rows + files + 3,
            Action::InsertRecipe => rows + files + 2,
            Action::InsertIngredient(i) => (rows - i + files + 1) as nat,
            Action::WriteAttachment(j) => (files - j + 1) as nat,
            Action::Commit => 1,
            Action::Rollback => 1,
        }
    }
}

/// Every step that does not end the run brings its end nearer: a run takes
/// no more outcomes than the recipe has ingredients and the plan has
/// attachments, and three.
pub proof fn lemma_step_makes_progress(state: MachineState, outcome: OutcomeContent)
    requires
        state.valid(),
    ensures
        state.remaining() >= 1,
        state.step(outcome) matches ProgressContent::Continue(next) ==> next.remaining()
            < state.remaining(),
{
}

/// Every step leads from a valid state to a valid state.
pub proof fn lemma_step_keeps_valid(state: MachineState, outcome: OutcomeContent)
    requires
        state.valid(),
    ensures
        state.step(outcome) matches ProgressContent::Continue(next) ==> next.valid() && next.plan
            == state.plan,
{
}

/// Stores one recipe, action by action: it names the next thing to do to the
/// storage, and takes how that ended.
pub struct Persister {
    plan: CommitPlan,
    pending: Action,
    failure: Option<PersistenceError>,
}

/// What follows an outcome: the persister with its next action, or the end,
/// with the slug of the stored recipe or the failure.
pub enum Progress {
    Continue(Persister),
    Finished(Result<String, CommitError>),
}

impl View for Persister {
    type V = MachineState;

    closed spec fn view(&self) -> MachineState {
        MachineState {
            plan: self.plan@,
            pending: self.pending,
            failure: match self.failure {
                Some(e) => Some(e@),
                None => None,
            },
        }
    }
}

impl View for Progress {
    type V = ProgressContent;

    open spec fn view(&self) -> ProgressContent {
        match self {
            Progress::Continue(persister) => ProgressContent::Continue(persister@),
            Progress::Finished(Ok(slug)) => ProgressContent::Finished(Ok(slug@)),
            Progress::Finished(Err(error)) => ProgressContent::Finished(Err(error@)),
        }
    }
}

impl Persister {
    #[verifier::type_invariant]
    spec fn well_formed(self) -> bool {
        self@.valid()
    }

    /// A persister for `plan`, about to open a transaction.
    pub fn new(plan: CommitPlan) -> (persister: Persister)
        ensures
            persister@ == MachineState::start(plan@),
    {
        assert(plan.recipe.ingredients.len() == plan@.recipe.ingredients.len());
        assert(plan.attachments.len() == plan@.attachments.len());
        Persister { plan, pending: Action::Begin, failure: None }
    }

    /// The plan that is being carried out.
    pub fn plan(&self) -> (plan: &CommitPlan)
        ensures
            plan@ == self@.plan,
    {
        &self.plan
    }

    /// The action whose outcome the persister awaits. An ingredient or an
    /// attachment that it names is one of the plan.
    pub fn pending(&self) -> (action: Action)
        ensures
            action == self@.pending,
            self@.valid(),
    {
        proof {
            use_type_invariant(self);
        }
        self.pending
    }

    /// The first ingredient at or after `i` to insert, or what follows the
    /// ingredients.
    fn ingredient_or_later(plan: &CommitPlan, i: usize) -> (action: Action)
        ensures
            action == ingredient_or_later(plan@, i as int),
    {
        if i < plan.recipe.ingredients.len() {
            Action::InsertIngredient(i)
        } else {
            Self::attachment_or_later(plan, 0)
        }
    }

    /// The first attachment at or after `j` to write, or the commit.
    fn attachment_or_later(plan: &CommitPlan, j: usize) -> (action: Action)
        ensures
            action == attachment_or_later(plan@, j as int),
    {
        if j < plan.attachments.len() {
            Action::WriteAttachment(j)
        } else {
            Action::Commit
        }
    }

    /// The kind of failure that a fault during `action` amounts to.
    fn blame(action: Action, fault: FaultKind) -> (kind: PersistenceKind)
        ensures
            kind == blame(action, fault),
    {
        match action {
            Action::InsertRecipe => match fault {
                FaultKind::UniqueViolation => PersistenceKind::SlugCollision,
                _ => PersistenceKind::TransactionFailed,
            },
            Action::InsertIngredient(_) => match fault {
                FaultKind::ForeignKeyViolation => PersistenceKind::UnknownIngredient,
                _ => PersistenceKind::TransactionFailed,
            },
            Action::WriteAttachment(_) => PersistenceKind::AttachmentWriteFailed,
            _ => PersistenceKind::TransactionFailed,
        }
    }

    /// Takes the outcome of the pending action and says what follows.
    pub fn step(self, outcome: Outcome) -> (progress: Progress)
        ensures
            progress@ == self@.step(outcome@),
    {
        proof {
            use_type_invariant(&self);
        }
        let Persister { plan, pending, failure } = self;
        match pending {
            Action::Rollback => match failure {
                Some(e) => Progress::Finished(Err(CommitError::Persistence(e))),
                None => Progress::Finished(Ok(plan.recipe.name)),
            },
            Action::Begin => match outcome {
                Outcome::Done => Progress::Continue(
                    Persister { plan, pending: Action::InsertRecipe, failure: None },
                ),
                Outcome::Failed(fault) => Progress::Finished(
                    Err(CommitError::Internal(fault.message)),
                ),
            },
            Action::Commit => match outcome {
                Outcome::Done => Progress::Finished(Ok(plan.recipe.name)),
                Outcome::Failed(fault) => Progress::Finished(
                    Err(
                        CommitError::Persistence(
                            PersistenceError {
                                kind: PersistenceKind::TransactionFailed,
                                cause: fault.message,
                            },
                        ),
                    ),
                ),
            },
            _ => match outcome {
                Outcome::Done => {
                    let next = match pending {
                        Action::InsertRecipe => Self::ingredient_or_later(&plan, 0),
                        Action::InsertIngredient(i) => Self::ingredient_or_later(&plan, i + 1),
                        Action::WriteAttachment(j) => Self::attachment_or_later(&plan, j + 1),
                        _ => pending,
                    };
                    Progress::Continue(Persister { plan, pending: next, failure: None })
                },
                Outcome::Failed(fault) => {
                    let kind = Self::blame(pending, fault.kind);
                    Progress::Continue(
                        Persister {
                            plan,
                            pending: Action::Rollback,
                            failure: Some(PersistenceError { kind, cause: fault.message }),
                        },
                    )
                },
            },
        }
    }
}

/// Begins the storing of `request`: derives its slug, plans the rows and the
/// files, and hands back the persister that will carry the plan out.
pub fn create_recipe(request: RecipeCreationRequest) -> (persister: Persister)
    ensures
        persister@ == MachineState::start(plan_of(request@, kebab_case(request@.name))),
{
    let slug = slug_of(request.name.as_str());
    Persister::new(plan_recipe(request, slug))
}

} // verus!
