use boswell::subject::commit_subject;

fn names(n: usize) -> Vec<String> {
    (0..n).map(|i| format!("f{i}.md")).collect()
}

#[test]
fn one_file() {
    assert_eq!(commit_subject(&names(1)), "Update f0.md");
}

#[test]
fn two_files() {
    assert_eq!(commit_subject(&names(2)), "Update f0.md, f1.md");
}

#[test]
fn three_files() {
    assert_eq!(commit_subject(&names(3)), "Update f0.md, f1.md, f2.md");
}

#[test]
fn four_files() {
    assert_eq!(
        commit_subject(&names(4)),
        "Update f0.md, f1.md, f2.md and 1 more"
    );
}

#[test]
fn ten_files() {
    assert_eq!(
        commit_subject(&names(10)),
        "Update f0.md, f1.md, f2.md and 7 more"
    );
}

#[test]
fn paths_are_not_capitalised_or_reordered() {
    let files = vec!["docs/z.md".to_string(), "a.md".to_string()];
    assert_eq!(commit_subject(&files), "Update docs/z.md, a.md");
}

#[test]
fn a_hundred_and_three_files_count_a_hundred_more() {
    assert_eq!(
        commit_subject(&names(103)),
        "Update f0.md, f1.md, f2.md and 100 more"
    );
}

#[test]
fn no_files_give_a_bare_update() {
    assert_eq!(commit_subject(&names(0)), "Update ");
}
