use recipe_promoter::select::{select_latest, LatestSelector, SelectError};

const FAMILY: &str = "arn:aws:imagebuilder:us-east-1:123456789012:image-recipe/base-linux/";

fn id(version: &str) -> String {
    format!("{}{}", FAMILY, version)
}

fn pages(versions: &[&[&str]]) -> Vec<Vec<String>> {
    versions.iter().map(|p| p.iter().map(|v| id(v)).collect()).collect()
}

#[test]
fn latest_across_two_pages() {
    let listing = pages(&[&["1.2.0", "1.3.0"], &["1.2.1"]]);
    assert_eq!(select_latest(&listing).unwrap(), id("1.3.0"));
}

#[test]
fn latest_does_not_depend_on_page_boundaries() {
    for listing in [
        pages(&[&["1.2.0", "1.3.0", "1.2.1"]]),
        pages(&[&["1.2.0"], &["1.3.0"], &["1.2.1"]]),
        pages(&[&[], &["1.2.0", "1.3.0"], &[], &["1.2.1"]]),
        pages(&[&["1.2.0", "1.3.0", "1.2.1"], &[]]),
    ] {
        assert_eq!(select_latest(&listing).unwrap(), id("1.3.0"));
    }
}

#[test]
fn latest_prefers_release_over_prerelease() {
    let listing = pages(&[&["2.0.0-rc.2", "1.9.9"], &["2.0.0", "2.0.0-rc.10"]]);
    assert_eq!(select_latest(&listing).unwrap(), id("2.0.0"));
}

#[test]
fn tie_keeps_the_first_listed() {
    let listing = vec![vec![String::from("a/1.0.0+x")], vec![String::from("b/1.0.0+y")]];
    assert_eq!(select_latest(&listing).unwrap(), "a/1.0.0+x");
    let listing = vec![vec![String::from("b/1.0.0+y"), String::from("a/1.0.0+x")]];
    assert_eq!(select_latest(&listing).unwrap(), "b/1.0.0+y");
}

#[test]
fn empty_listing_is_an_error() {
    assert_eq!(select_latest(&vec![]).unwrap_err(), SelectError::Empty);
    assert_eq!(select_latest(&pages(&[&[], &[]])).unwrap_err(), SelectError::Empty);
}

#[test]
fn malformed_identifier_aborts_selection() {
    let mut listing = pages(&[&["1.2.0"], &["9.9.9"]]);
    listing[1].push(format!("{}not-a-version", FAMILY));
    assert_eq!(
        select_latest(&listing).unwrap_err(),
        SelectError::MalformedVersion
    );
}

#[test]
fn selector_page_by_page() {
    let mut s = LatestSelector::new();
    s.add_page(&vec![id("0.1.0")]).unwrap();
    s.add_page(&vec![id("0.3.0"), id("0.2.0")]).unwrap();
    assert_eq!(s.finish().unwrap(), id("0.3.0"));
}

#[test]
fn selector_rejects_bad_page() {
    let mut s = LatestSelector::new();
    assert_eq!(
        s.add_page(&vec![id("0.1.0"), id("x.y.z")]).unwrap_err(),
        SelectError::MalformedVersion
    );
}
