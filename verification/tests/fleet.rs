use runners_toolkit::gh_api::{api_base_path, has_slash, sort_runners_by_id, Runner, RunnerList};

fn runner(id: u64, name: &str) -> Runner {
    Runner {
        id,
        name: String::from(name),
        busy: false,
        os: String::from("linux"),
        status: String::from("online"),
        labels: Vec::new(),
    }
}

#[test]
fn org_target_uses_the_organization_scope() {
    assert!(!has_slash("acme"));
    assert_eq!(api_base_path("acme"), "orgs/acme");
}

#[test]
fn owner_repo_target_uses_the_repository_scope() {
    assert!(has_slash("acme/widgets"));
    assert_eq!(api_base_path("acme/widgets"), "repos/acme/widgets");
}

#[test]
fn extra_path_segments_are_cut_off() {
    assert_eq!(api_base_path("acme/widgets/extra"), "repos/acme/widgets");
}

#[test]
fn adjacent_slashes_give_an_empty_repository_segment() {
    assert_eq!(api_base_path("acme//widgets"), "repos/acme/");
}

#[test]
fn trailing_slash_gives_an_empty_repository_segment() {
    assert_eq!(api_base_path("acme/"), "repos/acme/");
}

#[test]
fn empty_target_counts_as_an_organization() {
    assert_eq!(api_base_path(""), "orgs/");
}

#[test]
fn sort_orders_runners_by_ascending_id() {
    let sorted = sort_runners_by_id(vec![runner(9, "c"), runner(1, "a"), runner(5, "b")]);
    let ids: Vec<u64> = sorted.iter().map(|r| r.id).collect();
    assert_eq!(ids, vec![1, 5, 9]);
}

#[test]
fn sort_keeps_every_record() {
    let sorted = sort_runners_by_id(vec![runner(2, "two"), runner(2, "also-two"), runner(1, "one")]);
    assert_eq!(sorted.len(), 3);
    assert_eq!(sorted[0].id, 1);
    let mut names: Vec<String> = sorted.iter().map(|r| r.name.clone()).collect();
    names.sort();
    assert_eq!(names, vec!["also-two", "one", "two"]);
}

#[test]
fn sort_of_empty_fleet_is_empty() {
    assert!(sort_runners_by_id(Vec::new()).is_empty());
}

#[test]
fn fresh_snapshot_is_empty() {
    let s = RunnerList::new();
    assert_eq!(s.len(), 0);
    assert!(s.runners.is_empty());
}
