//! The promotion workflow: resolve the latest recipe of a family, decide
//! whether its base image must change, and if so create the successor recipe
//! and repoint the pipeline at it.
//!
//! The workflow is a state machine. Each step takes the answer to the previous
//! remote request and names the next request to make; whoever drives it
//! performs the requests. The opaque configuration of a recipe (device
//! mappings, components) is the type parameter `C`, carried over verbatim.

use crate::select::{all_versioned, page_ids, selection_of, LatestSelector, SelectError};
use crate::version::{
    next_patch, parse_version, render_version, semver_parse, version_text, VersionParts,
};
use vstd::prelude::*;

verus! {

/// Why the workflow stopped short.
#[derive(Debug, Clone, Copy, PartialEq, Eq, Structural)]
pub enum PromotionError {
    /// A recipe identifier or version text carries no valid version.
    MalformedVersion,
    /// A listing that must hold a match holds none.
    NotFound,
    /// The recipe's patch component cannot be incremented.
    PatchOverflow,
    /// An answer arrived that does not fit the request last made.
    UnexpectedEvent,
}

/// The full record of a recipe.
#[derive(Debug)]
pub struct RecipeDetail<C> {
    pub version: Option<String>,
    pub parent_image: Option<String>,
    pub name: Option<String>,
    pub config: C,
}

/// A build pipeline and its two references.
#[derive(Debug)]
pub struct Pipeline {
    pub arn: Option<String>,
    pub recipe_arn: Option<String>,
    pub infrastructure_configuration_arn: Option<String>,
}

/// The recipe to create as the successor of the current one.
#[derive(Debug)]
pub struct CreateRequest<C> {
    pub semantic_version: String,
    pub parent_image: String,
    pub name: Option<String>,
    pub config: C,
}

/// The pipeline update that points a pipeline at a new recipe.
#[derive(Debug)]
pub struct UpdateRequest {
    pub pipeline_arn: Option<String>,
    pub recipe_arn: Option<String>,
    pub infrastructure_configuration_arn: Option<String>,
}

/// What to do with a resolved recipe.
#[derive(Debug)]
pub enum Decision<C> {
    NoActionNeeded,
    Promote(CreateRequest<C>),
}

/// The recipe's base image is the target already.
pub open spec fn is_current(parent_image: Option<String>, target: Seq<char>) -> bool {
    match parent_image {
        Some(p) => p@ == target,
        None => false,
    }
}

/// The same version with the patch component one higher.
pub open spec fn bumped(v: VersionParts) -> VersionParts {
    (v.0, v.1, (v.2 + 1) as u64, v.3, v.4)
}

/// The version text of a successor recipe, or why there is none.
pub open spec fn successor_version(version: Option<String>) -> Result<Seq<char>, PromotionError> {
    match version {
        None => Err(PromotionError::MalformedVersion),
        Some(t) => match semver_parse(t@) {
            None => Err(PromotionError::MalformedVersion),
            Some(v) => if v.2 == u64::MAX {
                Err(PromotionError::PatchOverflow)
            } else {
                Ok(version_text(bumped(v)))
            },
        },
    }
}

/// `d` is the right decision on `recipe` for the target base image `target`.
pub open spec fn decision_of<C>(
    recipe: RecipeDetail<C>,
    target: Seq<char>,
    d: Result<Decision<C>, PromotionError>,
) -> bool {
    if is_current(recipe.parent_image, target) {
        d matches Ok(Decision::NoActionNeeded)
    } else {
        match successor_version(recipe.version) {
            Err(e) => d == Err::<Decision<C>, PromotionError>(e),
            Ok(text) => d matches Ok(Decision::Promote(req)) && req.semantic_version@ == text
                && req.parent_image@ == target && req.name == recipe.name && req.config
                == recipe.config,
        }
    }
}

fn same_image(parent_image: &Option<String>, target: &String) -> (r: bool)
    ensures
        r == is_current(*parent_image, target@),
{
    match parent_image {
        Some(p) => p.eq(target),
        None => false,
    }
}

/// Decides on a resolved recipe: nothing to do when its base image is the
/// target, else the successor to create, one patch version higher.
pub fn decide<C>(recipe: RecipeDetail<C>, target: &String) -> (r: Result<Decision<C>, PromotionError>)
    ensures
        decision_of(recipe, target@, r),
{
    if same_image(&recipe.parent_image, target) {
        return Ok(Decision::NoActionNeeded);
    }
    let text = match &recipe.version {
        Some(t) => t,
        None => return Err(PromotionError::MalformedVersion),
    };
    let current = match parse_version(text.as_str()) {
        Ok(v) => v,
        Err(_) => return Err(PromotionError::MalformedVersion),
    };
    let next = match next_patch(&current) {
        Ok(v) => v,
        Err(_) => return Err(PromotionError::PatchOverflow),
    };
    let semantic_version = render_version(&next);
    Ok(
        Decision::Promote(
            CreateRequest {
                semantic_version,
                parent_image: target.clone(),
                name: recipe.name,
                config: recipe.config,
            },
        ),
    )
}


/// How a completed workflow ended.
#[derive(Debug, Clone, Copy, PartialEq, Eq, Structural)]
pub enum Outcome {
    /// The recipe was on the target base image already; nothing was written.
    NoActionNeeded,
    /// A successor recipe was created and the pipeline points at it.
    Promoted,
}

/// The next remote request to make, or how the workflow ended.
#[derive(Debug)]
pub enum Action<C> {
    /// List a page of the family's recipes, from the given page token.
    ListRecipes(Option<String>),
    /// Fetch the full record of the recipe with this identifier.
    GetRecipe(String),
    /// Create the successor recipe.
    CreateRecipe(CreateRequest<C>),
    /// List the family's pipelines.
    ListPipelines,
    /// Repoint the pipeline.
    UpdatePipeline(UpdateRequest),
    Done(Outcome),
    Fail(PromotionError),
}

/// The answer to the last request.
#[derive(Debug)]
pub enum Event<C> {
    /// A page of recipe identifiers and the token of the next page, if any.
    RecipePage(Vec<String>, Option<String>),
    Recipe(RecipeDetail<C>),
    /// The identifier of the recipe just created.
    Created(Option<String>),
    Pipelines(Vec<Pipeline>),
    Updated,
}

/// Where the workflow stands: which answer it waits for.
pub enum Stage {
    Listing(LatestSelector),
    AwaitingRecipe,
    AwaitingCreate,
    /// Holds the identifier of the recipe created.
    AwaitingPipelines(Option<String>),
    AwaitingUpdate,
    Finished,
}

/// Stages only ever advance.
pub open spec fn stage_rank(s: Stage) -> int {
    match s {
        Stage::Listing(_) => 0,
        Stage::AwaitingRecipe => 1,
        Stage::AwaitingCreate => 2,
        Stage::AwaitingPipelines(_) => 3,
        Stage::AwaitingUpdate => 4,
        Stage::Finished => 5,
    }
}

pub open spec fn fails_with<C>(next: Stage, action: Action<C>, e: PromotionError) -> bool {
    action == Action::<C>::Fail(e) && next is Finished
}

/// One step of the workflow: in `stage`, for the target base image `target`,
/// the answer `event` leads to stage `next` and the request `action`.
pub open spec fn step_of<C>(
    stage: Stage,
    target: Seq<char>,
    event: Event<C>,
    next: Stage,
    action: Action<C>,
) -> bool {
    match (stage, event) {
        (Stage::Listing(sel), Event::RecipePage(ids, token)) => {
            let items = sel.seen() + page_ids(ids@);
            if !all_versioned(page_ids(ids@)) {
                fails_with(next, action, PromotionError::MalformedVersion)
            } else if token is Some {
                &&& action == Action::<C>::ListRecipes(token)
                &&& (next matches Stage::Listing(s) && s.seen() == items)
            } else if items.len() == 0 {
                fails_with(next, action, PromotionError::NotFound)
            } else {
                &&& (action matches Action::GetRecipe(id) && selection_of(
                    items,
                    Ok::<String, SelectError>(id),
                ))
                &&& next is AwaitingRecipe
            }
        },
        (Stage::AwaitingRecipe, Event::Recipe(d)) => {
            if is_current(d.parent_image, target) {
                action == Action::<C>::Done(Outcome::NoActionNeeded) && next is Finished
            } else {
                match successor_version(d.version) {
                    Err(e) => fails_with(next, action, e),
                    Ok(text) => {
                        &&& (action matches Action::CreateRecipe(req) && req.semantic_version@
                            == text && req.parent_image@ == target && req.name == d.name
                            && req.config == d.config)
                        &&& next is AwaitingCreate
                    },
                }
            }
        },
        (Stage::AwaitingCreate, Event::Created(arn)) => action is ListPipelines && next
            == Stage::AwaitingPipelines(arn),
        (Stage::AwaitingPipelines(created), Event::Pipelines(ps)) => {
            if ps.len() == 0 {
                fails_with(next, action, PromotionError::NotFound)
            } else {
                action == Action::<C>::UpdatePipeline(
                    UpdateRequest {
                        pipeline_arn: ps[0].arn,
                        recipe_arn: created,
                        infrastructure_configuration_arn: ps[0].infrastructure_configuration_arn,
                    },
                ) && next is AwaitingUpdate
            }
        },
        (Stage::AwaitingUpdate, Event::Updated) => action == Action::<C>::Done(Outcome::Promoted)
            && next is Finished,
        _ => fails_with(next, action, PromotionError::UnexpectedEvent),
    }
}

/// A recipe that is on the target base image already ends the run at once,
/// successfully, and whatever answer comes next, no recipe is created and no
/// pipeline updated.
pub proof fn lemma_current_recipe_writes_nothing<C>(
    target: Seq<char>,
    d: RecipeDetail<C>,
    next: Stage,
    action: Action<C>,
    later: Event<C>,
    after: Stage,
    later_action: Action<C>,
)
    requires
        is_current(d.parent_image, target),
        step_of(Stage::AwaitingRecipe, target, Event::Recipe(d), next, action),
        step_of(next, target, later, after, later_action),
    ensures
        action == Action::<C>::Done(Outcome::NoActionNeeded),
        !(later_action is CreateRecipe),
        !(later_action is UpdatePipeline),
{
}

/// A recipe on another base image leads to one create request, for the same
/// version with the patch one higher and the target as base image; once it
/// is answered and the pipelines are listed, to one update request that points
/// the first pipeline at the created identifier and re-sends its
/// infrastructure configuration; and after that to neither request again.
pub proof fn lemma_promotion_creates_then_updates<C>(
    target: Seq<char>,
    d: RecipeDetail<C>,
    v: VersionParts,
    created: Option<String>,
    ps: Vec<Pipeline>,
    last: Event<C>,
    s1: Stage,
    a1: Action<C>,
    s2: Stage,
    a2: Action<C>,
    s3: Stage,
    a3: Action<C>,
    s4: Stage,
    a4: Action<C>,
)
    requires
        !is_current(d.parent_image, target),
        d.version matches Some(t) && semver_parse(t@) == Some(v),
        v.2 < u64::MAX,
        ps.len() > 0,
        step_of(Stage::AwaitingRecipe, target, Event::Recipe(d), s1, a1),
        step_of(s1, target, Event::Created(created), s2, a2),
        step_of(s2, target, Event::Pipelines(ps), s3, a3),
        step_of(s3, target, last, s4, a4),
    ensures
        a1 matches Action::CreateRecipe(req) && req.semantic_version@ == version_text(
            (v.0, v.1, (v.2 + 1) as u64, v.3, v.4),
        ) && req.parent_image@ == target,
        a2 is ListPipelines,
        a3 matches Action::UpdatePipeline(u) && u.recipe_arn == created
            && u.pipeline_arn == ps[0].arn && u.infrastructure_configuration_arn
            == ps[0].infrastructure_configuration_arn,
        !(a4 is CreateRecipe),
        !(a4 is UpdatePipeline),
{
}

/// One run of the workflow for one target base image.
pub struct Promotion {
    target: String,
    stage: Stage,
}

impl Promotion {
    /// The base image the recipe is to be on.
    pub closed spec fn target(&self) -> Seq<char> {
        self.target@
    }

    pub closed spec fn stage(&self) -> Stage {
        self.stage
    }

    pub open spec fn wf(&self) -> bool {
        self.stage() matches Stage::Listing(s) ==> s.wf()
    }

    /// Starts a run: the first request lists the first page of recipes.
    pub fn start<C>(target: String) -> (r: (Promotion, Action<C>))
        ensures
            r.0.wf(),
            r.0.target() == target@,
            (r.0.stage() matches Stage::Listing(s) && s.seen() == Seq::<Seq<char>>::empty()),
            r.1 == Action::<C>::ListRecipes(None),
    {
        (Promotion { target, stage: Stage::Listing(LatestSelector::new()) }, Action::ListRecipes(None))
    }

    /// The workflow has ended; it makes no further request.
    pub fn is_finished(&self) -> (r: bool)
        ensures
            r == (self.stage() is Finished),
    {
        match self.stage {
            Stage::Finished => true,
            _ => false,
        }
    }

    /// Takes the answer to the last request and gives the next one.
    ///
    /// A successor recipe is created at most once per run and the pipeline
    /// updated at most once, after it: stages only advance, a create request
    /// leaves the stage that awaits the recipe, and an update request leaves
    /// the stage that awaits the pipelines.
    pub fn step<C>(self, event: Event<C>) -> (r: (Promotion, Action<C>))
        requires
            self.wf(),
        ensures
            r.0.wf(),
            r.0.target() == self.target(),
            step_of(self.stage(), self.target(), event, r.0.stage(), r.1),
            stage_rank(r.0.stage()) >= stage_rank(self.stage()),
            r.1 is CreateRecipe ==> self.stage() is AwaitingRecipe && r.0.stage() is AwaitingCreate,
            r.1 is UpdatePipeline ==> self.stage() is AwaitingPipelines && r.0.stage() is AwaitingUpdate,
            r.1 is Done || r.1 is Fail ==> r.0.stage() is Finished,
    {
        let target = self.target;
        match (self.stage, event) {
            (Stage::Listing(sel), Event::RecipePage(ids, token)) => {
                let mut sel = sel;
                match sel.add_page(&ids) {
                    Ok(()) => {},
                    Err(_) => {
                        return (
                            Promotion { target, stage: Stage::Finished },
                            Action::Fail(PromotionError::MalformedVersion),
                        );
                    },
                }
                if token.is_some() {
                    (Promotion { target, stage: Stage::Listing(sel) }, Action::ListRecipes(token))
                } else {
                    match sel.finish() {
                        Ok(id) => (
                            Promotion { target, stage: Stage::AwaitingRecipe },
                            Action::GetRecipe(id),
                        ),
                        Err(_) => (
                            Promotion { target, stage: Stage::Finished },
                            Action::Fail(PromotionError::NotFound),
                        ),
                    }
                }
            },
            (Stage::AwaitingRecipe, Event::Recipe(d)) => {
                match decide(d, &target) {
                    Ok(Decision::NoActionNeeded) => (
                        Promotion { target, stage: Stage::Finished },
                        Action::Done(Outcome::NoActionNeeded),
                    ),
                    Ok(Decision::Promote(req)) => (
                        Promotion { target, stage: Stage::AwaitingCreate },
                        Action::CreateRecipe(req),
                    ),
                    Err(e) => (Promotion { target, stage: Stage::Finished }, Action::Fail(e)),
                }
            },
            (Stage::AwaitingCreate, Event::Created(arn)) => (
                Promotion { target, stage: Stage::AwaitingPipelines(arn) },
                Action::ListPipelines,
            ),
            (Stage::AwaitingPipelines(created), Event::Pipelines(ps)) => {
                if ps.len() == 0 {
                    (
                        Promotion { target, stage: Stage::Finished },
                        Action::Fail(PromotionError::NotFound),
                    )
                } else {
                    let mut ps = ps;
                    let first = ps.remove(0);
                    (
                        Promotion { target, stage: Stage::AwaitingUpdate },
                        Action::UpdatePipeline(
                            UpdateRequest {
                                pipeline_arn: first.arn,
                                recipe_arn: created,
                                infrastructure_configuration_arn: first.infrastructure_configuration_arn,
                            },
                        ),
                    )
                }
            },
            (Stage::AwaitingUpdate, Event::Updated) => (
                Promotion { target, stage: Stage::Finished },
                Action::Done(Outcome::Promoted),
            ),
            _ => (
                Promotion { target, stage: Stage::Finished },
                Action::Fail(PromotionError::UnexpectedEvent),
            ),
        }
    }
}

} // verus!
