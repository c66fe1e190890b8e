use dits::errors::{CliError, PathProblem};
use dits::path::join_paths;
use dits::ticket::{ticket_from_args, Ticket};
use dits::util::normalise_str;

fn ticket(name: &str, ttype: &str, location: &str) -> Ticket {
    Ticket { name: name.to_string(), ttype: ttype.to_string(), location: location.to_string() }
}

#[test]
fn from_path_should_extract_correctly_the_ticket_attributes() {
    let workdir = "/some/workdir";
    let tickets_dir = "/some/workdir/issues";
    let ticket_path = "/some/workdir/issues/backlog/name.type.md";

    let result = Ticket::from_path(workdir, tickets_dir, ticket_path).unwrap();

    assert_eq!(result.name, "name");
    assert_eq!(result.ttype, "type");
    assert_eq!(result.location, "backlog");
}

#[test]
fn from_path_should_extract_correctly_a_multiple_location() {
    let workdir = "/some/workdir";
    let tickets_dir = "/some/workdir/issues";
    let ticket_path = "/some/workdir/issues/sprint/in-progress/name.type.md";

    let result = Ticket::from_path(workdir, tickets_dir, ticket_path).unwrap();

    assert_eq!(result.location, "sprint/in-progress");
}

#[test]
fn from_path_should_fail_if_the_filename_is_not_well_constructed() {
    let workdir = "/some/workdir";
    let tickets_dir = "/some/workdir/issues";
    let ticket_path = "/some/workdir/issues/sprint/in-progress/name-type.md";

    let result = Ticket::from_path(workdir, tickets_dir, ticket_path);

    assert_eq!(result.is_err(), true);
    assert!(matches!(result, Err(CliError::PathError(PathProblem::MissingType))));
}

#[test]
fn from_path_should_fail_if_tickets_dir_is_not_below_the_workdir() {
    let workdir = "/some/workdir";
    let tickets_dir = "/some/not-workdir/issues";
    let ticket_path = "/some/workdir/issues/sprint/in-progress/name.type.md";

    let result = Ticket::from_path(workdir, tickets_dir, ticket_path);

    assert_eq!(result.is_err(), true);
    assert!(matches!(result, Err(CliError::PathError(PathProblem::NotUnderTicketsDir))));
}

#[test]
fn from_path_should_fail_if_ticket_path_is_not_below_the_workdir() {
    let workdir = "/some/workdir";
    let tickets_dir = "/some/workdir/issues";
    let ticket_path = "/some/not-workdir/issues/sprint/in-progress/name.type.md";

    let result = Ticket::from_path(workdir, tickets_dir, ticket_path);

    assert_eq!(result.is_err(), true);
    assert!(matches!(result, Err(CliError::PathError(PathProblem::NotUnderWorkdir))));
}

#[test]
fn from_path_respects_component_boundaries() {
    let result = Ticket::from_path("/some/work", "/some/work/issues", "/some/workdir/issues/b/n.t.md");
    assert!(matches!(result, Err(CliError::PathError(PathProblem::NotUnderWorkdir))));
    let result = Ticket::from_path("/some/workdir/", "/some/workdir/issues/", "/some/workdir/issues/b/n.t.md");
    let t = result.unwrap();
    assert_eq!((t.name.as_str(), t.ttype.as_str(), t.location.as_str()), ("n", "t", "b"));
}

#[test]
fn from_path_directly_under_the_tickets_dir_has_empty_location() {
    let t = Ticket::from_path("/w", "/w/issues", "/w/issues/bug.task.md").unwrap();
    assert_eq!(t.name, "bug");
    assert_eq!(t.ttype, "task");
    assert_eq!(t.location, "");
}

#[test]
fn from_path_splits_the_stem_at_its_last_dot() {
    let t = Ticket::from_path("/w", "/w/issues", "/w/issues/b/v1.2-release.task.md").unwrap();
    assert_eq!(t.name, "v1.2-release");
    assert_eq!(t.ttype, "task");
}

#[test]
fn from_path_drops_only_the_final_extension() {
    let r = Ticket::from_path("/w", "/w/issues", "/w/issues/b/name.type");
    assert!(matches!(r, Err(CliError::PathError(PathProblem::MissingType))));
    let t = Ticket::from_path("/w", "/w/issues", "/w/issues/b/.type").unwrap();
    assert_eq!(t.name, "");
    assert_eq!(t.ttype, "type");
    let r = Ticket::from_path("/w", "/w/issues", "/w/issues/b/plainname");
    assert!(matches!(r, Err(CliError::PathError(PathProblem::MissingType))));
}

#[test]
fn from_path_of_the_tickets_dir_itself_fails() {
    let r = Ticket::from_path("/w", "/w/issues", "/w/issues");
    assert!(matches!(r, Err(CliError::PathError(PathProblem::NotUnderTicketsDir))));
}

#[test]
fn fname_is_name_dot_type_dot_md() {
    assert_eq!(ticket("login-bug", "task", "backlog").fname(), "login-bug.task.md");
}

#[test]
fn relative_path_encodes_location_and_file_name() {
    assert_eq!(ticket("n", "t", "backlog").relative_path(), "backlog/n.t.md");
    assert_eq!(ticket("n", "t", "sprint/in-progress").relative_path(), "sprint/in-progress/n.t.md");
    assert_eq!(ticket("n", "t", "").relative_path(), "n.t.md");
}

#[test]
fn encoding_then_decoding_gives_the_ticket_back() {
    for loc in ["backlog", "sprint/in-progress", ""] {
        let t = ticket("name", "type", loc);
        let tickets_dir = join_paths("/some/workdir", "issues");
        let path = join_paths(&tickets_dir, &t.relative_path());
        let back = Ticket::from_path("/some/workdir", &tickets_dir, &path).unwrap();
        assert_eq!(back.name, "name");
        assert_eq!(back.ttype, "type");
        assert_eq!(back.location, loc);
    }
}

#[test]
fn multi_segment_location_round_trips() {
    let t = ticket("name", "type", "sprint/in-progress");
    assert_eq!(t.relative_path(), "sprint/in-progress/name.type.md");
    let back = Ticket::from_path("/w", "/w/issues", "/w/issues/sprint/in-progress/name.type.md").unwrap();
    assert_eq!(back.location, "sprint/in-progress");
}

#[test]
fn join_paths_adds_one_separator() {
    assert_eq!(join_paths("/a", "b"), "/a/b");
    assert_eq!(join_paths("/a/", "b"), "/a/b");
    assert_eq!(join_paths("", "b"), "b");
}

#[test]
fn normalise_str_turns_spaces_into_hyphens() {
    assert_eq!(normalise_str("login bug  now"), "login-bug--now");
    assert_eq!(normalise_str(""), "");
    assert_eq!(normalise_str("plain"), "plain");
}

#[test]
fn ticket_from_args_applies_defaults_and_normalises() {
    let t = ticket_from_args("login bug", None, None);
    assert_eq!(t.name, "login-bug");
    assert_eq!(t.ttype, "task");
    assert_eq!(t.location, "backlog");
    let t = ticket_from_args("x", Some("big feature"), Some("sprint/in progress"));
    assert_eq!(t.ttype, "big-feature");
    assert_eq!(t.location, "sprint/in-progress");
}

#[test]
fn from_listing_skips_empty_lines_and_keeps_order() {
    let listing = "/w/issues/backlog/a.task.md\n\n/w/issues/done/b.bug.md\n";
    let v = Ticket::from_listing("/w", "/w/issues", listing).unwrap();
    assert_eq!(v.len(), 2);
    assert_eq!(v[0].name, "a");
    assert_eq!(v[1].name, "b");
    assert_eq!(v[1].ttype, "bug");
    assert_eq!(v[1].location, "done");
}

#[test]
fn from_listing_fails_on_the_first_bad_path() {
    let listing = "/w/issues/backlog/a.task.md\n/w/issues/backlog/broken.md\n/elsewhere/x.t.md";
    let r = Ticket::from_listing("/w", "/w/issues", listing);
    assert!(matches!(r, Err(CliError::PathError(PathProblem::MissingType))));
}

#[test]
fn find_one_returns_the_single_match() {
    let t = Ticket::find_one("/w", "/w/issues", "/w/issues/backlog/login-bug.task.md\n").unwrap();
    assert_eq!(t.name, "login-bug");
    assert_eq!(t.ttype, "task");
    assert_eq!(t.location, "backlog");
}

#[test]
fn find_one_without_match_is_not_found() {
    assert!(matches!(Ticket::find_one("/w", "/w/issues", ""), Err(CliError::CantFindTicket)));
    assert!(matches!(Ticket::find_one("/w", "/w/issues", "\n\n"), Err(CliError::CantFindTicket)));
}

#[test]
fn find_one_with_two_matches_is_ambiguous() {
    let listing = "/w/issues/backlog/login-bug.task.md\n/w/issues/done/login-bug.bug.md\n";
    match Ticket::find_one("/w", "/w/issues", listing) {
        Err(CliError::MoreThanOneTicket(v)) => {
            assert_eq!(v.len(), 2);
            assert_eq!(v[0].location, "backlog");
            assert_eq!(v[1].location, "done");
        },
        other => panic!("unexpected result: {:?}", other),
    }
}

#[test]
fn find_me_reads_the_listing() {
    let t = ticket("foo", "task", "backlog");
    let v = t.find_me("/w", "/w/issues", "/w/issues/done/foo.task.md\n").unwrap();
    assert_eq!(v.len(), 1);
    assert_eq!(v[0].location, "done");
}

#[test]
fn create_in_an_empty_repository() {
    let t = ticket_from_args("login-bug", None, None);
    assert_eq!(t.location_dir("/repo/issues"), "/repo/issues/backlog");
    let n = t.create(Some("/repo/"), "/repo", "/repo/issues", "").unwrap();
    assert_eq!(n.abs_path, "/repo/issues/backlog/login-bug.task.md");
    assert_eq!(n.rel_path, "issues/backlog/login-bug.task.md");
    assert_eq!(n.contents, "---\n---\n# \n");
    assert_eq!(n.message, "Ticket created: 'issues/backlog/login-bug.task.md'");
}

#[test]
fn create_twice_reports_the_existing_ticket() {
    let t = ticket_from_args("login-bug", None, None);
    let listing = "/repo/issues/backlog/login-bug.task.md\n";
    match t.create(Some("/repo"), "/repo", "/repo/issues", listing) {
        Err(CliError::TicketExists(v)) => {
            assert_eq!(v.len(), 1);
            assert_eq!(v[0].name, "login-bug");
            assert_eq!(v[0].ttype, "task");
            assert_eq!(v[0].location, "backlog");
        },
        other => panic!("unexpected result: {:?}", other.is_ok()),
    }
}

#[test]
fn create_collides_with_a_ticket_in_another_location() {
    let t = ticket("foo", "task", "backlog");
    let r = t.create(Some("/repo"), "/repo", "/repo/issues", "/repo/issues/sprint/in-progress/foo.task.md\n");
    assert!(matches!(r, Err(CliError::TicketExists(_))));
}

#[test]
fn create_without_workdir_fails() {
    let t = ticket("foo", "task", "backlog");
    assert!(matches!(t.create(None, "/repo", "/repo/issues", ""), Err(CliError::CantOpenWorkDir)));
}

#[test]
fn create_outside_the_repository_workdir_fails() {
    let t = ticket("foo", "task", "backlog");
    let r = t.create(Some("/other"), "/repo", "/repo/issues", "");
    assert!(matches!(r, Err(CliError::PathError(PathProblem::NotUnderWorkdir))));
}

#[test]
fn create_with_an_unreadable_match_fails() {
    let t = ticket("foo", "task", "backlog");
    let r = t.create(Some("/repo"), "/repo", "/repo/issues", "/elsewhere/foo.task.md\n");
    assert!(matches!(r, Err(CliError::PathError(PathProblem::NotUnderWorkdir))));
}

#[test]
fn head_ref_names_the_local_branch() {
    assert_eq!(ticket("login-bug", "task", "backlog").head_ref(), "refs/heads/login-bug");
}

#[test]
fn path_problem_messages() {
    assert_eq!(PathProblem::MissingType.message(), "Ticket filename doesn't appear to have a type");
    assert_ne!(PathProblem::NotUnderWorkdir.message(), PathProblem::NotUnderTicketsDir.message());
}

#[test]
fn checkout_creates_the_branch_at_head_and_points_head_at_it() {
    let repo = git2::Repository::init("/tmp/dits_checkout_repo").unwrap();
    let base = match repo.find_branch("base", git2::BranchType::Local) {
        Ok(b) => b.get().peel_to_commit().unwrap().id(),
        Err(_) => {
            let sig = git2::Signature::now("Tester", "tester@example.com").unwrap();
            let tree_id = repo.index().unwrap().write_tree().unwrap();
            let tree = repo.find_tree(tree_id).unwrap();
            repo.commit(Some("refs/heads/base"), &sig, &sig, "initial", &tree, &[]).unwrap()
        },
    };
    repo.set_head("refs/heads/base").unwrap();
    if let Ok(mut b) = repo.find_branch("login-bug", git2::BranchType::Local) {
        b.delete().unwrap();
    }

    let t = ticket("login-bug", "task", "backlog");
    assert_eq!(t.checkout(&repo).unwrap(), "login-bug");

    let branch = repo.find_branch("login-bug", git2::BranchType::Local).unwrap();
    assert_eq!(branch.get().peel_to_commit().unwrap().id(), base);
    assert_eq!(repo.head().unwrap().name(), Some("refs/heads/login-bug"));

    // An existing branch is reused where it stands.
    repo.set_head("refs/heads/base").unwrap();
    assert_eq!(t.checkout(&repo).unwrap(), "login-bug");
    let branch = repo.find_branch("login-bug", git2::BranchType::Local).unwrap();
    assert_eq!(branch.get().peel_to_commit().unwrap().id(), base);
    assert_eq!(repo.head().unwrap().name(), Some("refs/heads/login-bug"));
}

#[test]
fn from_path_ending_in_dot_or_dot_dot_names_no_file() {
    let r = Ticket::from_path("/w", "/w/issues", "/w/issues/backlog/..");
    assert!(matches!(r, Err(CliError::PathError(PathProblem::NoFileName))));
    let r = Ticket::from_path("/w", "/w/issues", "/w/issues/backlog/.");
    assert!(matches!(r, Err(CliError::PathError(PathProblem::NoFileName))));
    let r = Ticket::from_path("/w", "/w/issues", "/w/issues/..");
    assert!(matches!(r, Err(CliError::PathError(PathProblem::NoFileName))));
    assert_eq!(PathProblem::NoFileName.message(), "Ticket path doesn't name a file.");
}

#[test]
fn checkout_plan_creates_the_branch_only_when_missing() {
    let t = ticket("login-bug", "task", "backlog");
    let p = t.checkout_plan(false);
    assert_eq!(p.branch, "login-bug");
    assert!(p.create_from_head);
    assert_eq!(p.head_refname, "HEAD");
    assert!(!p.force);
    assert_eq!(p.head_ref, "refs/heads/login-bug");
    let p = t.checkout_plan(true);
    assert!(!p.create_from_head);
    assert_eq!(p.branch, "login-bug");
    assert_eq!(p.head_ref, "refs/heads/login-bug");
}

#[test]
fn checkout_without_a_head_commit_fails_before_creating_the_branch() {
    let repo = git2::Repository::init("/tmp/dits_checkout_unborn_repo").unwrap();
    let t = ticket("login-bug", "task", "backlog");
    assert!(matches!(t.checkout(&repo), Err(CliError::Git(_))));
    assert!(repo.find_branch("login-bug", git2::BranchType::Local).is_err());
}
