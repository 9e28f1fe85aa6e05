use recipe_promoter::promote::{
    decide, Action, Decision, Event, Outcome, Pipeline, Promotion, PromotionError, RecipeDetail,
};

const FAMILY: &str = "arn:aws:imagebuilder:us-east-1:123456789012:image-recipe/base-linux/";

/// Stands for the device mappings and components of a recipe.
#[derive(Debug, Clone, PartialEq)]
struct Config {
    mappings: Vec<String>,
    components: Vec<String>,
}

fn config() -> Config {
    Config {
        mappings: vec![String::from("/dev/xvda")],
        components: vec![String::from("component/hardening/1.0.0")],
    }
}

fn recipe(version: Option<&str>, parent: Option<&str>) -> RecipeDetail<Config> {
    RecipeDetail {
        version: version.map(String::from),
        parent_image: parent.map(String::from),
        name: Some(String::from("base-linux")),
        config: config(),
    }
}

fn id(version: &str) -> String {
    format!("{}{}", FAMILY, version)
}

fn pipeline() -> Pipeline {
    Pipeline {
        arn: Some(String::from("pipeline-arn-1")),
        recipe_arn: Some(id("1.3.0")),
        infrastructure_configuration_arn: Some(String::from("infra-arn-xyz")),
    }
}

/// Runs the listing of the example family: two pages, [1.2.0, 1.3.0] then [1.2.1].
fn resolve(target: &str) -> (Promotion, Action<Config>) {
    let (p, a) = Promotion::start::<Config>(String::from(target));
    assert!(matches!(a, Action::ListRecipes(None)));
    let (p, a) = p.step(Event::<Config>::RecipePage(
        vec![id("1.2.0"), id("1.3.0")],
        Some(String::from("token-2")),
    ));
    match a {
        Action::ListRecipes(Some(t)) => assert_eq!(t, "token-2"),
        other => panic!("unexpected {:?}", other),
    }
    let (p, a) = p.step(Event::<Config>::RecipePage(vec![id("1.2.1")], None));
    match &a {
        Action::GetRecipe(arn) => assert_eq!(*arn, id("1.3.0")),
        other => panic!("unexpected {:?}", other),
    }
    (p, a)
}

#[test]
fn decide_nothing_when_base_image_is_current() {
    let d = decide(recipe(Some("1.3.0"), Some("ami-old")), &String::from("ami-old")).unwrap();
    assert!(matches!(d, Decision::NoActionNeeded));
}

#[test]
fn decide_promotes_to_next_patch() {
    let d = decide(recipe(Some("1.3.0"), Some("ami-old")), &String::from("ami-new")).unwrap();
    match d {
        Decision::Promote(req) => {
            assert_eq!(req.semantic_version, "1.3.1");
            assert_eq!(req.parent_image, "ami-new");
            assert_eq!(req.name, Some(String::from("base-linux")));
            assert_eq!(req.config, config());
        }
        other => panic!("unexpected {:?}", other),
    }
}

#[test]
fn decide_promotes_when_base_image_is_unknown() {
    let d = decide(recipe(Some("0.9.41"), None), &String::from("ami-new")).unwrap();
    match d {
        Decision::Promote(req) => assert_eq!(req.semantic_version, "0.9.42"),
        other => panic!("unexpected {:?}", other),
    }
}

#[test]
fn decide_rejects_missing_or_bad_version() {
    let e = decide(recipe(None, Some("ami-old")), &String::from("ami-new")).unwrap_err();
    assert_eq!(e, PromotionError::MalformedVersion);
    let e = decide(recipe(Some("one"), Some("ami-old")), &String::from("ami-new")).unwrap_err();
    assert_eq!(e, PromotionError::MalformedVersion);
}

#[test]
fn decide_rejects_patch_overflow() {
    let e = decide(
        recipe(Some("1.0.18446744073709551615"), Some("ami-old")),
        &String::from("ami-new"),
    )
    .unwrap_err();
    assert_eq!(e, PromotionError::PatchOverflow);
}

#[test]
fn promotion_creates_then_updates() {
    let (p, _) = resolve("ami-new");
    let (p, a) = p.step(Event::<Config>::Recipe(recipe(Some("1.3.0"), Some("ami-old"))));
    match a {
        Action::CreateRecipe(req) => {
            assert_eq!(req.semantic_version, "1.3.1");
            assert_eq!(req.parent_image, "ami-new");
            assert_eq!(req.name, Some(String::from("base-linux")));
            assert_eq!(req.config, config());
        }
        other => panic!("unexpected {:?}", other),
    }
    let (p, a) = p.step(Event::<Config>::Created(Some(id("1.3.1"))));
    assert!(matches!(a, Action::ListPipelines));
    let (p, a) = p.step(Event::<Config>::Pipelines(vec![pipeline()]));
    match a {
        Action::UpdatePipeline(u) => {
            assert_eq!(u.pipeline_arn, Some(String::from("pipeline-arn-1")));
            assert_eq!(u.recipe_arn, Some(id("1.3.1")));
            assert_eq!(
                u.infrastructure_configuration_arn,
                Some(String::from("infra-arn-xyz"))
            );
        }
        other => panic!("unexpected {:?}", other),
    }
    let (p, a) = p.step(Event::<Config>::Updated);
    assert!(matches!(a, Action::Done(Outcome::Promoted)));
    assert!(p.is_finished());
}

#[test]
fn current_base_image_needs_only_the_two_resolution_fetches() {
    let (p, _) = resolve("ami-old");
    let (p, a) = p.step(Event::<Config>::Recipe(recipe(Some("1.3.0"), Some("ami-old"))));
    assert!(matches!(a, Action::Done(Outcome::NoActionNeeded)));
    assert!(p.is_finished());
    let (_, a) = p.step(Event::<Config>::Created(Some(id("1.3.1"))));
    assert!(matches!(a, Action::Fail(PromotionError::UnexpectedEvent)));
}

#[test]
fn empty_recipe_listing_is_not_found() {
    let (p, _) = Promotion::start::<Config>(String::from("ami-new"));
    let (p, a) = p.step(Event::<Config>::RecipePage(vec![], None));
    assert!(matches!(a, Action::Fail(PromotionError::NotFound)));
    assert!(p.is_finished());
}

#[test]
fn malformed_recipe_identifier_fails_the_run() {
    let (p, _) = Promotion::start::<Config>(String::from("ami-new"));
    let (_, a) = p.step(Event::<Config>::RecipePage(
        vec![id("1.0.0"), id("latest")],
        Some(String::from("token-2")),
    ));
    assert!(matches!(a, Action::Fail(PromotionError::MalformedVersion)));
}

#[test]
fn missing_pipeline_is_not_found() {
    let (p, _) = resolve("ami-new");
    let (p, _) = p.step(Event::<Config>::Recipe(recipe(Some("1.3.0"), Some("ami-old"))));
    let (p, _) = p.step(Event::<Config>::Created(Some(id("1.3.1"))));
    let (_, a) = p.step(Event::<Config>::Pipelines(vec![]));
    assert!(matches!(a, Action::Fail(PromotionError::NotFound)));
}

#[test]
fn first_pipeline_wins() {
    let (p, _) = resolve("ami-new");
    let (p, _) = p.step(Event::<Config>::Recipe(recipe(Some("1.3.0"), Some("ami-old"))));
    let (p, _) = p.step(Event::<Config>::Created(None));
    let mut second = pipeline();
    second.arn = Some(String::from("pipeline-arn-2"));
    let (_, a) = p.step(Event::<Config>::Pipelines(vec![pipeline(), second]));
    match a {
        Action::UpdatePipeline(u) => {
            assert_eq!(u.pipeline_arn, Some(String::from("pipeline-arn-1")));
            assert_eq!(u.recipe_arn, None);
        }
        other => panic!("unexpected {:?}", other),
    }
}

#[test]
fn answer_out_of_order_fails_the_run() {
    let (p, _) = Promotion::start::<Config>(String::from("ami-new"));
    let (p, a) = p.step(Event::<Config>::Updated);
    assert!(matches!(a, Action::Fail(PromotionError::UnexpectedEvent)));
    assert!(p.is_finished());
}
