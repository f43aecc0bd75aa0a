use amber::watchers::git::{discover_repos, expand_tilde, DirNode, RootDir};

fn dir(name: &str, children: Vec<DirNode>) -> DirNode {
    DirNode { name: name.to_string(), children }
}

fn git_marker() -> DirNode {
    dir(".git", vec![])
}

#[test]
fn discovery_skips_excluded_directories_entirely() {
    // A repository nested inside node_modules (and one inside target)
    // must yield nothing, however real it looks.
    let tree = dir(
        "src",
        vec![
            dir("node_modules", vec![dir("hidden_repo", vec![git_marker()])]),
            dir("target", vec![dir("built_repo", vec![git_marker()])]),
            dir("visible", vec![git_marker()]),
        ],
    );
    let roots = vec![RootDir { path: "/home/u/src".to_string(), tree }];
    let found = discover_repos(&roots, 5);
    assert_eq!(found, vec!["/home/u/src/visible".to_string()]);
}

#[test]
fn discovery_finds_repo_at_exact_max_depth_but_not_deeper() {
    let tree = dir(
        "src",
        vec![dir(
            "a",
            vec![
                dir("b", vec![git_marker()]),
                dir(
                    "bb",
                    vec![dir("c", vec![git_marker()])],
                ),
            ],
        )],
    );
    // b sits at depth 2, c at depth 3.
    let roots = vec![RootDir { path: "/r".to_string(), tree }];
    let at_three = discover_repos(&roots, 3);
    assert_eq!(at_three, vec!["/r/a/b".to_string(), "/r/a/bb/c".to_string()]);
    let at_two = discover_repos(&roots, 2);
    assert_eq!(at_two, vec!["/r/a/b".to_string()]);
    let at_one = discover_repos(&roots, 1);
    assert!(at_one.is_empty());
}

#[test]
fn discovery_does_not_stop_at_parent_repository() {
    // A repository containing another repository reports both, parent first.
    let tree = dir(
        "src",
        vec![dir(
            "outer",
            vec![git_marker(), dir("inner", vec![git_marker()])],
        )],
    );
    let roots = vec![RootDir { path: "/w".to_string(), tree }];
    let found = discover_repos(&roots, 4);
    assert_eq!(found, vec!["/w/outer".to_string(), "/w/outer/inner".to_string()]);
}

#[test]
fn discovery_with_zero_depth_finds_nothing() {
    let tree = dir("src", vec![dir("repo", vec![git_marker()])]);
    let roots = vec![RootDir { path: "/z".to_string(), tree }];
    assert!(discover_repos(&roots, 0).is_empty());
}

#[test]
fn expand_tilde_substitutes_home() {
    let home = Some("/home/u".to_string());
    assert_eq!(expand_tilde("~/src", &home), "/home/u/src");
    assert_eq!(expand_tilde("/abs/path", &home), "/abs/path");
    assert_eq!(expand_tilde("~/", &home), "/home/u/");
    assert_eq!(expand_tilde("~/src", &None), "~/src");
    assert_eq!(expand_tilde("~src", &home), "~src");
}
