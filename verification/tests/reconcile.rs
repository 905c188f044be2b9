use reposync::git::{
    accumulate_team_page, clone_dir_name, find_archived_local_repos, find_new_repos,
    has_git_entry, is_known_repo, list_active_github_team_repos, list_archived_github_team_repos,
    local_repo_if_git, LocalRepo, RemoteRepo,
};
use reposync::text::{str_contains, str_eq, str_has_prefix, strip_prefix, trim_ascii_blank};

fn remote(name: &str, archived: bool) -> RemoteRepo {
    RemoteRepo {
        name: name.to_string(),
        archived,
        ssh_url: format!("git@example.com:acme/{}.git", name),
    }
}

fn local(name: &str) -> LocalRepo {
    LocalRepo { name: name.to_string(), path: format!("/repos/{}", name) }
}

#[test]
fn scenario_new_remote_repo_is_cloned_under_stripped_name() {
    let remote_repos = vec![remote("team_alpha", false)];
    let local_repos: Vec<LocalRepo> = Vec::new();
    let prefix = "team_".to_string();

    let new_repos = find_new_repos(&remote_repos, &local_repos, &prefix);
    assert_eq!(new_repos.len(), 1);
    assert_eq!(new_repos[0].name, "team_alpha");

    let dir = clone_dir_name(&new_repos[0], &prefix);
    assert_eq!(dir, "alpha");
}

#[test]
fn scenario_archived_remote_with_local_copy_is_flagged_not_cloned() {
    let all_remote = vec![remote("team_delta", true)];
    let local_repos = vec![local("delta")];
    let prefix = "team_".to_string();

    let active = list_active_github_team_repos(all_remote.clone());
    assert!(active.is_empty());
    let archived = list_archived_github_team_repos(all_remote);
    assert_eq!(archived.len(), 1);

    let new_repos = find_new_repos(&active, &local_repos, &prefix);
    assert!(new_repos.is_empty());

    let archived_local = find_archived_local_repos(&archived, &local_repos, &prefix);
    assert_eq!(archived_local.len(), 1);
    assert_eq!(archived_local[0].name, "team_delta");
}

#[test]
fn prefix_stripping_matches_remote_to_local() {
    let prefix = "team_".to_string();
    let local_repos = vec![local("foo")];
    assert!(is_known_repo(&remote("team_foo", false), &local_repos, &prefix));
    assert!(!is_known_repo(&remote("team_bar", false), &local_repos, &prefix));
}

#[test]
fn prefix_is_stripped_only_when_leading() {
    let prefix = "team_".to_string();
    assert_eq!(strip_prefix("team_foo", &prefix), "foo");
    assert_eq!(strip_prefix("bar", &prefix), "bar");
    assert_eq!(strip_prefix("team_", &prefix), "");
    assert_eq!(strip_prefix("anything", ""), "anything");
}

#[test]
fn new_and_known_sets_partition_the_active_remote_listing() {
    let remote_repos = vec![
        remote("team_one", false),
        remote("team_two", false),
        remote("team_three", false),
    ];
    let local_repos = vec![local("two")];
    let prefix = "team_".to_string();

    let new_repos = find_new_repos(&remote_repos, &local_repos, &prefix);
    let known = find_archived_local_repos(&remote_repos, &local_repos, &prefix);

    assert_eq!(new_repos.len(), 2);
    assert_eq!(new_repos[0].name, "team_one");
    assert_eq!(new_repos[1].name, "team_three");
    assert_eq!(known.len(), 1);
    assert_eq!(known[0].name, "team_two");
    assert_eq!(new_repos.len() + known.len(), remote_repos.len());
    for repo in &new_repos {
        assert!(!is_known_repo(repo, &local_repos, &prefix));
    }
    for repo in &known {
        assert!(is_known_repo(repo, &local_repos, &prefix));
    }
}

#[test]
fn reconciliation_finds_nothing_new_once_everything_is_cloned() {
    let remote_repos = vec![remote("team_one", false), remote("team_two", false)];
    let prefix = "team_".to_string();
    let mut local_repos: Vec<LocalRepo> = Vec::new();

    let first = find_new_repos(&remote_repos, &local_repos, &prefix);
    assert_eq!(first.len(), 2);
    for repo in &first {
        local_repos.push(local(&clone_dir_name(repo, &prefix)));
    }

    let second = find_new_repos(&remote_repos, &local_repos, &prefix);
    assert!(second.is_empty());
}

#[test]
fn page_accumulation_keeps_prefix_matches_and_reports_more() {
    let prefix = "team_".to_string();
    let mut gathered: Vec<RemoteRepo> = Vec::new();
    let page = vec![
        remote("team_a", false),
        remote("other", false),
        remote("team_b", true),
    ];
    let more = accumulate_team_page(&mut gathered, page, &prefix);
    assert!(more);
    assert_eq!(gathered.len(), 2);
    assert_eq!(gathered[0].name, "team_a");
    assert_eq!(gathered[1].name, "team_b");

    let empty_page = vec![remote("unrelated", false)];
    let more = accumulate_team_page(&mut gathered, empty_page, &prefix);
    assert!(!more);
    assert_eq!(gathered.len(), 2);
}

#[test]
fn directory_with_git_entry_counts_as_working_copy() {
    let entries = vec!["src".to_string(), ".git".to_string(), "README.md".to_string()];
    assert!(has_git_entry(&entries));
    let plain = vec!["src".to_string(), "README.md".to_string()];
    assert!(!has_git_entry(&plain));

    let repo = local_repo_if_git("beta".to_string(), "/repos/beta".to_string(), &entries);
    let repo = repo.expect("a directory with a .git entry is a repository");
    assert_eq!(repo.name, "beta");
    assert_eq!(repo.path, "/repos/beta");
    assert!(local_repo_if_git("c".to_string(), "/repos/c".to_string(), &plain).is_none());
}

#[test]
fn text_primitives_behave_like_their_specifications() {
    assert!(str_eq("abc", "abc"));
    assert!(!str_eq("abc", "abd"));
    assert!(!str_eq("abc", "ab"));
    assert!(str_has_prefix("team_x", "team_"));
    assert!(!str_has_prefix("tea", "team_"));
    assert!(str_contains("Fast-forward", "forward"));
    assert!(!str_contains("Fast-forward", "rewind"));
    assert!(str_contains("abc", ""));
    assert_eq!(trim_ascii_blank("  hi\n"), "hi");
    assert_eq!(trim_ascii_blank("\t\r\n "), "");
    assert_eq!(trim_ascii_blank("hi"), "hi");
}
