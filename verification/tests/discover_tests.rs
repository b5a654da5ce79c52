use vibereport::discover::find_git_repos;
use vibereport::discover::DirNode;

fn dir(name: &str, has_git: bool, subdirs: Vec<DirNode>) -> DirNode {
    DirNode { name: name.to_string(), has_git, subdirs }
}

#[test]
fn finds_repos_at_different_depths() {
    let root = dir(
        "root",
        false,
        vec![
            dir("project-a", true, vec![]),
            dir("org", false, vec![dir("project-b", true, vec![])]),
        ],
    );
    let repos = find_git_repos(&root, ".", 5);
    assert_eq!(repos, vec!["./project-a", "./org/project-b"]);
}

#[test]
fn discovery_skips_node_modules() {
    let root = dir(
        "root",
        false,
        vec![
            dir("real-project", true, vec![]),
            dir("node_modules", false, vec![dir("some-pkg", true, vec![])]),
        ],
    );
    let repos = find_git_repos(&root, ".", 5);
    assert_eq!(repos, vec!["./real-project"]);
}

#[test]
fn discovery_respects_max_depth() {
    let deep = dir(
        "root",
        false,
        vec![
            dir("shallow-project", true, vec![]),
            dir(
                "a",
                false,
                vec![dir("b", false, vec![dir("c", false, vec![dir(
                    "deep-project",
                    true,
                    vec![],
                )])])],
            ),
        ],
    );
    let shallow_only = find_git_repos(&deep, ".", 2);
    assert_eq!(shallow_only, vec!["./shallow-project"]);
    let both = find_git_repos(&deep, ".", 5);
    assert_eq!(both, vec!["./shallow-project", "./a/b/c/deep-project"]);
}

#[test]
fn discovery_stops_at_found_repos() {
    let root = dir(
        "root",
        false,
        vec![dir(
            "outer",
            true,
            vec![dir("submodules", false, vec![dir("inner", true, vec![])])],
        )],
    );
    let repos = find_git_repos(&root, ".", 5);
    assert_eq!(repos, vec!["./outer"]);
}

#[test]
fn discovery_skips_hidden_directories() {
    let root = dir(
        "root",
        false,
        vec![
            dir("visible-project", true, vec![]),
            dir(".hidden-dir", false, vec![dir("secret-project", true, vec![])]),
        ],
    );
    let repos = find_git_repos(&root, ".", 5);
    assert_eq!(repos, vec!["./visible-project"]);
}
