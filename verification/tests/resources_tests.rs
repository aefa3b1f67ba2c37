use sitegen::errors::SiteError;
use sitegen::resources::{is_resource_file, plan_resources};

#[test]
fn whitelisted_extensions_match() {
    for name in ["a.jpg", "a.png", "a.gif", "a.bmp", "a.svg", "a.css", "a.ttf", "a.otf", "a.woff",
        "a.woff2"]
    {
        assert!(is_resource_file(name), "{} should match", name);
    }
}

#[test]
fn other_extensions_do_not_match() {
    assert!(!is_resource_file("a.md"));
    assert!(!is_resource_file("a.PNG"));
    assert!(!is_resource_file("a.html"));
    assert!(!is_resource_file("awoff2"));
}

#[test]
fn resources_are_flattened() {
    let paths = vec!["assets/fonts/body.woff2".to_string(), "style.css".to_string()];
    let plan = plan_resources(&paths);
    assert_eq!(plan.copies.len(), 2);
    assert_eq!(plan.copies[0].source, "assets/fonts/body.woff2");
    assert_eq!(plan.copies[0].destination, "body.woff2");
    assert_eq!(plan.copies[1].source, "style.css");
    assert_eq!(plan.copies[1].destination, "style.css");
    assert!(plan.collisions.is_empty());
}

#[test]
fn a_name_collision_is_reported_not_overwritten() {
    let paths = vec!["images/logo.png".to_string(), "assets/logo.png".to_string()];
    let plan = plan_resources(&paths);
    assert_eq!(plan.copies.len(), 1);
    assert_eq!(plan.copies[0].source, "images/logo.png");
    assert_eq!(plan.copies[0].destination, "logo.png");
    assert_eq!(plan.collisions.len(), 1);
    match &plan.collisions[0] {
        SiteError::ResourceCollision { source, destination } => {
            assert_eq!(source, "assets/logo.png");
            assert_eq!(destination, "logo.png");
        }
        _ => panic!("the second file of the same name must be a collision"),
    }
}

#[test]
fn hidden_resources_are_not_copied() {
    let paths = vec![".theme/style.css".to_string(), "img/.secret.png".to_string(),
        "img/ok.png".to_string()];
    let plan = plan_resources(&paths);
    assert_eq!(plan.copies.len(), 1);
    assert_eq!(plan.copies[0].source, "img/ok.png");
    assert!(plan.collisions.is_empty());
}

#[test]
fn non_resources_are_ignored() {
    let paths = vec!["readme.md".to_string(), "notes.txt".to_string()];
    let plan = plan_resources(&paths);
    assert!(plan.copies.is_empty());
    assert!(plan.collisions.is_empty());
}
