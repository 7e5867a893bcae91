use seogi::domain::project::{Project, ProjectPrefix};
use seogi::domain::value::Timestamp;

#[test]
fn test_project_prefix_valid() {
    assert!(ProjectPrefix::new("SEO").is_ok());
    assert!(ProjectPrefix::new("LOC").is_ok());
    assert!(ProjectPrefix::new("ABC").is_ok());
}

#[test]
fn test_project_prefix_invalid() {
    assert!(ProjectPrefix::new("seo").is_err());
    assert!(ProjectPrefix::new("SE1").is_err());
    assert!(ProjectPrefix::new("SE").is_err());
    assert!(ProjectPrefix::new("SEOG").is_err());
    assert!(ProjectPrefix::new("").is_err());
    assert!(ProjectPrefix::new("S O").is_err());
}

#[test]
fn test_project_prefix_as_str() {
    let prefix = ProjectPrefix::new("SEO").unwrap();
    assert_eq!(prefix.as_str(), "SEO");
}

#[test]
fn test_project_prefix_from_name() {
    let prefix = ProjectPrefix::from_name("Seogi").unwrap();
    assert_eq!(prefix.as_str(), "SEO");

    let prefix = ProjectPrefix::from_name("hello").unwrap();
    assert_eq!(prefix.as_str(), "HEL");
}

#[test]
fn test_project_prefix_from_name_invalid() {
    assert!(ProjectPrefix::from_name("ab").is_err());
    assert!(ProjectPrefix::from_name("서기프").is_err());
    assert!(ProjectPrefix::from_name("a").is_err());
    assert!(ProjectPrefix::from_name("").is_err());
    assert!(ProjectPrefix::from_name("12c").is_err());
}

fn now() -> Timestamp {
    Timestamp::new(chrono::Utc::now().timestamp_millis())
}

#[test]
fn test_project_new_id() {
    let prefix = ProjectPrefix::new("SEO").unwrap();
    let project = Project::new("Seogi", &prefix, "goal", now()).unwrap();
    assert_eq!(project.id().len(), 32);
    assert!(project.id().chars().all(|c| c.is_ascii_hexdigit()));
}

#[test]
fn test_project_new_next_seq() {
    let prefix = ProjectPrefix::new("SEO").unwrap();
    let project = Project::new("Seogi", &prefix, "goal", now()).unwrap();
    assert_eq!(project.next_seq(), 1);
}

#[test]
fn test_project_new_timestamps() {
    let ts = now();
    let prefix = ProjectPrefix::new("SEO").unwrap();
    let project = Project::new("Seogi", &prefix, "goal", ts).unwrap();

    assert_eq!(project.created_at(), ts);
    assert_eq!(project.updated_at(), ts);
}

#[test]
fn test_project_new_empty_name_or_goal() {
    let prefix = ProjectPrefix::new("SEO").unwrap();
    assert!(Project::new("", &prefix, "goal", now()).is_err());
    assert!(Project::new("Seogi", &prefix, "", now()).is_err());
}

// Own cases.

#[test]
fn prefix_from_name_uppercases_first_three_letters() {
    assert_eq!(ProjectPrefix::from_name("abcdef").unwrap().as_str(), "ABC");
    assert_eq!(ProjectPrefix::from_name("ABc").unwrap().as_str(), "ABC");
    assert!(ProjectPrefix::from_name("ab1").is_err());
}

#[test]
fn prefix_display_is_the_text() {
    assert_eq!(ProjectPrefix::new("XYZ").unwrap().to_string(), "XYZ");
}

#[test]
fn project_keeps_fields() {
    let prefix = ProjectPrefix::new("SEO").unwrap();
    let project = Project::new("Seogi", &prefix, "measure", Timestamp::new(5)).unwrap();
    assert_eq!(project.name(), "Seogi");
    assert_eq!(project.goal(), "measure");
    assert_eq!(project.prefix().as_str(), "SEO");
}
