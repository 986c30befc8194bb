use repo_sync::descriptor::{local_path, names_are_distinct, Opts, RepositoryDescriptor};
use repo_sync::progress::{handle_progress, percentage, ProgressLine};

#[test]
fn percentage_rounds_down() {
    assert_eq!(percentage(1, 3), Some(33));
    assert_eq!(percentage(2, 3), Some(66));
    assert_eq!(percentage(3, 3), Some(100));
    assert_eq!(percentage(0, 7), Some(0));
    assert_eq!(percentage(199, 200), Some(99));
}

#[test]
fn percentage_of_nothing() {
    assert_eq!(percentage(0, 0), None);
    assert_eq!(percentage(5, 0), None);
}

#[test]
fn percentage_beyond_the_whole() {
    assert_eq!(percentage(5, 2), Some(250));
}

#[test]
fn percentage_of_large_counts() {
    assert_eq!(percentage(usize::MAX, usize::MAX), Some(100));
    assert_eq!(percentage(usize::MAX / 2, usize::MAX), Some(49));
    assert_eq!(percentage(usize::MAX, 1), None);
    assert_eq!(percentage(usize::MAX, 100), Some(usize::MAX));
    assert_eq!(percentage(usize::MAX, 99), None);
}

#[test]
fn first_report_opens_the_line() {
    assert_eq!(
        handle_progress(0, 10),
        ProgressLine { opens: true, received: 0, total: 10, percent: Some(0) }
    );
}

#[test]
fn later_reports_overwrite_the_line() {
    assert_eq!(
        handle_progress(4, 10),
        ProgressLine { opens: false, received: 4, total: 10, percent: Some(40) }
    );
    assert_eq!(
        handle_progress(10, 10),
        ProgressLine { opens: false, received: 10, total: 10, percent: Some(100) }
    );
}

#[test]
fn report_without_a_total() {
    assert_eq!(
        handle_progress(0, 0),
        ProgressLine { opens: true, received: 0, total: 0, percent: None }
    );
}

#[test]
fn local_path_joins_entity_and_name() {
    assert_eq!(local_path("acme", "a"), "acme/a");
    assert_eq!(local_path("acme", "tool.rs"), "acme/tool.rs");
    assert_eq!(local_path("", ""), "/");
}

#[test]
fn local_paths_differ_for_different_names() {
    let names = ["a", "b", "ab", "a/b", "b/a", ""];
    for first in names.iter() {
        for second in names.iter() {
            if first != second {
                assert_ne!(local_path("acme", first), local_path("acme", second));
            }
        }
    }
}

#[test]
fn options_hold_what_was_given() {
    let opts = Opts::new("acme".to_string(), true, false);
    assert_eq!(opts.entity, "acme");
    assert!(opts.bare);
    assert!(!opts.no_forks);
}

#[test]
fn descriptor_clone_is_equal() {
    let d = RepositoryDescriptor::new("a".to_string(), "https://host.example/a.git".to_string(), true);
    let copy = d.clone();
    assert_eq!(copy, d);
    assert_eq!(copy.name, "a");
    assert_eq!(copy.clone_url, "https://host.example/a.git");
    assert!(copy.fork);
}

fn named(name: &str) -> RepositoryDescriptor {
    RepositoryDescriptor::new(name.to_string(), format!("https://host.example/{}", name), false)
}

#[test]
fn distinct_names_are_recognised() {
    assert!(names_are_distinct(&vec![]));
    assert!(names_are_distinct(&vec![named("a")]));
    assert!(names_are_distinct(&vec![named("a"), named("b"), named("ab"), named("A")]));
}

#[test]
fn repeated_names_are_recognised() {
    assert!(!names_are_distinct(&vec![named("a"), named("a")]));
    assert!(!names_are_distinct(&vec![named("a"), named("b"), named("a")]));
    assert!(!names_are_distinct(&vec![named("a"), named("b"), named("c"), named("c")]));
    let mut same_name = named("b");
    same_name.fork = true;
    same_name.clone_url = "https://host.example/elsewhere".to_string();
    assert!(!names_are_distinct(&vec![named("a"), named("b"), same_name]));
}
