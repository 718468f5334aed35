use heretek::config::GateConfig;
use heretek::files::{
    changed_files, display_path, git_queries, is_ignored, is_source_file, matches_pattern, nul_to_paths, valid_ref,
};
use heretek::stage::{index_checkout_args, index_root, GateContext, GateError, Target};

#[test]
fn patterns_match_directories_segments_and_globs() {
    assert!(matches_pattern("generated/api.ts", "generated/"));
    assert!(matches_pattern("src/generated/api.ts", "generated/"));
    assert!(!matches_pattern("src/generator.ts", "generated/"));
    assert!(matches_pattern("docs", "docs"));
    assert!(matches_pattern("docs/readme.md", "docs"));
    assert!(matches_pattern("a/docs/readme.md", "docs"));
    assert!(!matches_pattern("documents/x", "docs"));
    assert!(!matches_pattern("anything", "   "));
}

#[test]
fn star_patterns_match_as_globs() {
    assert!(matches_pattern("src/api.generated.ts", "*.generated.ts"));
    // A star runs over slashes too.
    assert!(matches_pattern("src/deep/api.generated.ts", "src/*.generated.ts"));
    assert!(matches_pattern("a-b-c", "a*b*c"));
    assert!(matches_pattern("abc", "a*"));
    assert!(!matches_pattern("a", "a*a"));
    assert!(matches_pattern("aa", "a*a"));
    assert!(matches_pattern("xaybyc", "*a*b*c"));
    assert!(!matches_pattern("xaybycd", "*a*b*c"));
    assert!(matches_pattern("ab", "*a*b*"));
}

#[test]
fn default_and_extra_ignores() {
    let none: Vec<String> = Vec::new();
    assert!(is_ignored("node_modules/x/index.js", &none));
    assert!(is_ignored("pkg/dist/out.js", &none));
    assert!(!is_ignored("src/main.ts", &none));
    let extra = vec!["*.snap".to_string()];
    assert!(is_ignored("src/__snapshots__/a.snap", &extra));
}

#[test]
fn nul_listings_and_source_files() {
    assert_eq!(nul_to_paths("a.ts\0b/c.ts\0\0"), vec!["a.ts".to_string(), "b/c.ts".to_string()]);
    assert!(nul_to_paths("").is_empty());
    assert!(is_source_file("src/a.tsx", &[".ts", ".tsx"]));
    assert!(!is_source_file("src/a.rs", &[".ts", ".tsx"]));
}

#[test]
fn refs_are_validated() {
    assert!(valid_ref("origin/main").is_ok());
    match valid_ref("-x") {
        Err(GateError::Failed { message }) => assert_eq!(message, "git ref \"-x\" must not start with '-'"),
        other => panic!("unexpected {other:?}"),
    }
    assert!(valid_ref("a..b").is_err());
    assert!(valid_ref("").is_err());
}

#[test]
fn worktree_listing_drops_ignored_and_repeated_files() {
    let ctx = GateContext::new("/repo", Target::Worktree("/repo/tree".to_string())).with_config(GateConfig::default());
    let queries = git_queries(&ctx).expect("queries");
    assert_eq!(queries.len(), 1);
    assert_eq!(queries[0].cwd, "/repo/tree");
    assert_eq!(queries[0].args, vec!["ls-files", "-z", "--cached", "--others", "--exclude-standard"]);
    let listing = vec!["src/a.ts\0node_modules/x.js\0src/a.ts\0src/b.ts\0".to_string()];
    let files = changed_files(&ctx, &listing).expect("files");
    assert_eq!(files, vec!["src/a.ts".to_string(), "src/b.ts".to_string()]);
}

#[test]
fn staged_listing_uses_the_index() {
    let ctx = GateContext::new("/repo", Target::Staged).with_baseline(Some("main".to_string()));
    let queries = git_queries(&ctx).expect("queries");
    assert_eq!(queries.len(), 1);
    assert_eq!(queries[0].cwd, "/repo");
    assert_eq!(queries[0].args, vec!["diff", "--cached", "--name-only", "--diff-filter=ACMR", "-z", "main", "--"]);
    let bad = GateContext::new("/repo", Target::Staged).with_baseline(Some("a b".to_string()));
    assert!(git_queries(&bad).is_err());
}

#[test]
fn paths_are_shown_below_the_repository() {
    assert_eq!(display_path("/repo/src/a.ts", "/repo"), "src/a.ts");
    assert_eq!(display_path("/elsewhere/a.ts", "/repo"), "/elsewhere/a.ts");
    assert_eq!(display_path("/repository/a.ts", "/repo"), "/repository/a.ts");
}

#[test]
fn staged_runs_check_the_written_out_index() {
    let root = index_root("/repo", "cli-7");
    assert_eq!(root, "/repo/.heretek/index/cli-7");
    assert_eq!(index_checkout_args(&root), vec!["checkout-index", "--all", "--force", "--prefix=/repo/.heretek/index/cli-7/"]);
    let ctx = GateContext::new("/repo", Target::Staged).with_files(vec!["a.ts".to_string()]).on_index(root.clone());
    assert_eq!(ctx.target_root(), &root);
    assert_eq!(ctx.files, vec!["a.ts".to_string()]);
}

#[test]
fn directory_patterns_match_whole_segments() {
    let none: Vec<String> = Vec::new();
    assert!(is_ignored("dist/a.js", &none));
    assert!(is_ignored("src/dist/a.js", &none));
    assert!(is_ignored("dist", &none));
    assert!(!is_ignored("distance.ts", &none));
    assert!(!is_ignored("src/distant/a.ts", &none));
    assert!(!is_ignored("src/index.ts", &none));
    assert!(is_ignored("src/a.gen.ts", &vec!["*.gen.ts".to_string()]));
}
