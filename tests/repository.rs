use muxwm::model::{Project, RepoError, View};
use muxwm::repository::Repository;
use rusqlite::Connection;

fn fresh() -> Repository {
    let conn = Connection::open_in_memory().unwrap();
    Repository::new(conn).unwrap()
}

#[test]
fn playground() {
    let conn = Connection::open_in_memory().unwrap();
    let mut repo = Repository::new(conn).unwrap();

    let r = repo.add_project("proj1").unwrap();
    let project = repo.get_project_by_id(r).unwrap();
    let active_view = repo.get_active_view_for_project(&project).unwrap();

    let view = repo
        .get_view_from_window_manager_display_name("proj1#view")
        .unwrap();
    assert_eq!(view.id, active_view.id);

    // create a second project
    repo.add_project("proj2").unwrap();

    // and list them
    let projects = repo.list_projects().unwrap();
    assert_eq!(projects.len(), 2);
    assert_eq!(projects[0].name, "proj1");
    assert_eq!(projects[1].name, "proj2");
}

#[test]
fn new_project_starts_on_default_view() {
    let mut repo = fresh();
    for name in ["a", "admin", "some project", "x-y_z"] {
        let id = repo.add_project(name).unwrap();
        let project = repo.get_project_by_id(id).unwrap();
        assert_eq!(project.name(), name);
        let view = repo.get_active_view_for_project(&project).unwrap();
        assert_eq!(view.name, "view");
        assert_eq!(view.position, 0);
        assert_eq!(view.project_id, id);
        let shown = repo.get_window_manager_display_name(&view).unwrap();
        assert_eq!(shown, format!("{}#view", name));
        let back = repo.get_view_from_window_manager_display_name(&shown).unwrap();
        assert_eq!(back, view);
    }
}

#[test]
fn repeated_project_name_is_refused_without_new_rows() {
    let mut repo = fresh();
    let id = repo.add_project("dup").unwrap();
    let project = repo.get_project_by_id(id).unwrap();
    let before = repo.list_projects().unwrap().len();
    assert_eq!(repo.add_project("dup"), Err(RepoError::DuplicateName));
    assert_eq!(repo.list_projects().unwrap().len(), before);
    assert!(repo.get_view_by_id(project.active_view_id + 1).is_none());
    assert!(repo.get_project_by_id(id + 1).is_none());
    // the store is usable after the rollback
    let other = repo.add_project("other").unwrap();
    assert!(repo.get_project_by_id(other).is_some());
    assert_eq!(repo.list_projects().unwrap().len(), before + 1);
}

#[test]
fn names_with_separator_are_refused() {
    let mut repo = fresh();
    assert_eq!(repo.add_project("a#b"), Err(RepoError::ReservedCharacter));
    assert!(repo.list_projects().unwrap().is_empty());
    let id = repo.add_project("ok").unwrap();
    let project = repo.get_project_by_id(id).unwrap();
    assert_eq!(
        repo.add_view_to_project(&project, "v#w"),
        Err(RepoError::ReservedCharacter)
    );
    assert_eq!(repo.get_active_view_for_project(&project).unwrap().name, "view");
}

fn project_with_three_views(repo: &mut Repository) -> (Project, Vec<View>) {
    let id = repo.add_project("p").unwrap();
    let project = repo.get_project_by_id(id).unwrap();
    let first = repo.get_active_view_for_project(&project).unwrap();
    let second = repo.add_view_to_project(&project, "b").unwrap();
    let third = repo.add_view_to_project(&project, "c").unwrap();
    (project, vec![first, second, third])
}

fn refreshed(repo: &Repository, project: &Project) -> Project {
    repo.get_project_by_id(project.id).unwrap()
}

#[test]
fn next_view_wraps_from_last_to_first() {
    let mut repo = fresh();
    let (project, views) = project_with_three_views(&mut repo);
    assert_eq!(
        views.iter().map(|v| v.position).collect::<Vec<_>>(),
        vec![0, 1, 2]
    );
    // the view added last is active, at position 2
    let project = refreshed(&repo, &project);
    assert_eq!(repo.get_active_view_for_project(&project).unwrap(), views[2]);
    assert_eq!(repo.get_next_view_for_project(&project).unwrap(), views[0]);

    repo.set_active_view_for_project(&project, &views[0]).unwrap();
    let project = refreshed(&repo, &project);
    assert_eq!(repo.get_next_view_for_project(&project).unwrap(), views[1]);
}

#[test]
fn prev_view_wraps_from_first_to_last() {
    let mut repo = fresh();
    let (project, views) = project_with_three_views(&mut repo);
    repo.set_active_view_for_project(&project, &views[0]).unwrap();
    let project = refreshed(&repo, &project);
    assert_eq!(repo.get_prev_view_for_project(&project).unwrap(), views[2]);
    repo.set_active_view_for_project(&project, &views[2]).unwrap();
    let project = refreshed(&repo, &project);
    assert_eq!(repo.get_prev_view_for_project(&project).unwrap(), views[1]);
}

#[test]
fn prev_steps_undo_next_steps() {
    let mut repo = fresh();
    let (project, views) = project_with_three_views(&mut repo);
    for start in 0..3 {
        for n in 0..7 {
            repo.set_active_view_for_project(&project, &views[start]).unwrap();
            for _ in 0..n {
                let p = refreshed(&repo, &project);
                let next = repo.get_next_view_for_project(&p).unwrap();
                repo.set_active_view_for_project(&p, &next).unwrap();
            }
            for _ in 0..n {
                let p = refreshed(&repo, &project);
                let prev = repo.get_prev_view_for_project(&p).unwrap();
                repo.set_active_view_for_project(&p, &prev).unwrap();
            }
            let p = refreshed(&repo, &project);
            assert_eq!(repo.get_active_view_for_project(&p).unwrap(), views[start]);
        }
    }
}

#[test]
fn single_view_is_its_own_next_and_prev() {
    let mut repo = fresh();
    let id = repo.add_project("solo").unwrap();
    let project = repo.get_project_by_id(id).unwrap();
    let only = repo.get_active_view_for_project(&project).unwrap();
    assert_eq!(repo.get_next_view_for_project(&project).unwrap(), only);
    assert_eq!(repo.get_prev_view_for_project(&project).unwrap(), only);
}

#[test]
fn foreign_view_is_refused_and_active_view_kept() {
    let mut repo = fresh();
    let a = repo.add_project("a").unwrap();
    let b = repo.add_project("b").unwrap();
    let project_a = repo.get_project_by_id(a).unwrap();
    let project_b = repo.get_project_by_id(b).unwrap();
    let active_a = repo.get_active_view_for_project(&project_a).unwrap();
    let view_b = repo.get_active_view_for_project(&project_b).unwrap();
    assert_eq!(
        repo.set_active_view_for_project(&project_a, &view_b),
        Err(RepoError::ViewNotInProject)
    );
    let project_a = repo.get_project_by_id(a).unwrap();
    assert_eq!(repo.get_active_view_for_project(&project_a).unwrap(), active_a);
}

#[test]
fn display_name_round_trips_through_repository() {
    let mut repo = fresh();
    let id = repo.add_project("work").unwrap();
    let project = repo.get_project_by_id(id).unwrap();
    let view = repo.add_view_to_project(&project, "mail").unwrap();
    let shown = repo.get_window_manager_display_name(&view).unwrap();
    assert_eq!(shown, "work#mail");
    let back_project = repo
        .get_project_from_window_manager_display_name(&shown)
        .unwrap();
    assert_eq!(back_project.id, id);
    assert_eq!(back_project.name, "work");
    assert_eq!(
        repo.get_view_from_window_manager_display_name(&shown).unwrap(),
        view
    );
}

#[test]
fn unmanaged_or_malformed_display_names_resolve_to_nothing() {
    let mut repo = fresh();
    repo.add_project("work").unwrap();
    for name in ["work", "work#view#x", "#", "1", "other#view", "work#nope"] {
        assert!(repo.get_view_from_window_manager_display_name(name).is_none());
    }
    assert!(repo.get_project_from_window_manager_display_name("work").is_none());
    assert!(repo
        .get_project_from_window_manager_display_name("work#a#b")
        .is_none());
    // a name whose view the project lacks is not managed here
    assert!(repo
        .get_project_from_window_manager_display_name("work#anything")
        .is_none());
    assert!(repo
        .get_project_from_window_manager_display_name("work#view")
        .is_some());
}

#[test]
fn setting_a_pin_twice_keeps_the_last_view() {
    let mut repo = fresh();
    let id = repo.add_project("p").unwrap();
    let project = repo.get_project_by_id(id).unwrap();
    let v1 = repo.get_active_view_for_project(&project).unwrap();
    let v2 = repo.add_view_to_project(&project, "second").unwrap();
    let first_id = repo.upsert_pin("g", &v1).unwrap();
    let second_id = repo.upsert_pin("g", &v2).unwrap();
    assert_eq!(first_id, second_id);
    assert_eq!(repo.get_view_for_pin_key("g").unwrap(), v2);
    assert_eq!(repo.get_pin_key_for_view(&v2), Some("g".to_string()));
    assert_eq!(repo.get_pin_key_for_view(&v1), None);
}

#[test]
fn admin_scenario_pin_and_clear() {
    let mut repo = fresh();
    let id = repo.add_project("admin").unwrap();
    let project = repo.get_project_by_id(id).unwrap();
    let view = repo.get_active_view_for_project(&project).unwrap();
    assert_eq!(view.name, "view");
    assert_eq!(view.position, 0);
    assert_eq!(
        repo.get_window_manager_display_name(&view).unwrap(),
        "admin#view"
    );
    repo.upsert_pin("g", &view).unwrap();
    assert_eq!(repo.get_view_for_pin_key("g").unwrap().id, view.id);
    repo.clear_pin("g").unwrap();
    assert!(repo.get_view_for_pin_key("g").is_none());
}

#[test]
fn clearing_a_missing_pin_succeeds() {
    let mut repo = fresh();
    assert_eq!(repo.clear_pin("nothing"), Ok(()));
    assert!(repo.get_view_for_pin_key("nothing").is_none());
}

#[test]
fn dev_scenario_added_view_becomes_active() {
    let mut repo = fresh();
    let id = repo.add_project("dev").unwrap();
    let project = repo.get_project_by_id(id).unwrap();
    let first = repo.get_active_view_for_project(&project).unwrap();
    assert_eq!(first.name, "view");
    assert_eq!(first.position, 0);
    let b = repo.add_view_to_project(&project, "b").unwrap();
    assert_eq!(b.position, 1);
    assert_eq!(b.name, "b");
    let project = repo.get_project_by_id(id).unwrap();
    let active = repo.get_active_view_for_project(&project).unwrap();
    assert_eq!(active.name, "b");
    assert_eq!(active, b);
}

#[test]
fn view_lookup_by_id() {
    let mut repo = fresh();
    let id = repo.add_project("p").unwrap();
    let project = repo.get_project_by_id(id).unwrap();
    let view = repo.get_view_by_id(project.active_view_id).unwrap();
    assert_eq!(view.id, project.active_view_id);
    assert!(repo.get_view_by_id(project.active_view_id + 100).is_none());
    assert_eq!(repo.get_project_by_name("p").unwrap().id, id);
    assert!(repo.get_project_by_name("q").is_none());
}

#[test]
fn view_of_removed_project_cannot_be_appended() {
    let mut repo = fresh();
    let missing = Project {
        active_view_id: 1,
        id: 4242,
        name: "gone".to_string(),
    };
    assert_eq!(
        repo.add_view_to_project(&missing, "v"),
        Err(RepoError::ProjectNotFound)
    );
    assert!(repo.get_next_view_for_project(&missing).is_err());
}

#[test]
fn pin_to_missing_view_breaks_a_constraint() {
    let mut repo = fresh();
    let missing = View {
        id: 999,
        name: "none".to_string(),
        project_id: 1,
        position: 0,
    };
    assert_eq!(
        repo.upsert_pin("k", &missing),
        Err(RepoError::ConstraintViolation)
    );
    assert!(repo.get_view_for_pin_key("k").is_none());
}

#[test]
fn dangling_active_view_is_reported() {
    let mut repo = fresh();
    let id = repo.add_project("p").unwrap();
    let broken = Project {
        active_view_id: 999,
        id,
        name: "p".to_string(),
    };
    assert!(repo.get_active_view_for_project(&broken).is_none());
    assert_eq!(
        repo.get_next_view_for_project(&broken),
        Err(RepoError::NoActiveView)
    );
    assert_eq!(
        repo.get_prev_view_for_project(&broken),
        Err(RepoError::NoActiveView)
    );
}

#[test]
fn pin_keys_are_independent() {
    let mut repo = fresh();
    let id = repo.add_project("p").unwrap();
    let project = repo.get_project_by_id(id).unwrap();
    let v1 = repo.get_active_view_for_project(&project).unwrap();
    let v2 = repo.add_view_to_project(&project, "two").unwrap();
    let a = repo.upsert_pin("a", &v1).unwrap();
    let b = repo.upsert_pin("b", &v2).unwrap();
    assert_ne!(a, b);
    assert_eq!(repo.get_view_for_pin_key("a").unwrap(), v1);
    assert_eq!(repo.get_view_for_pin_key("b").unwrap(), v2);
    repo.clear_pin("a").unwrap();
    assert!(repo.get_view_for_pin_key("a").is_none());
    assert_eq!(repo.get_view_for_pin_key("b").unwrap(), v2);
}

#[test]
fn view_names_are_unique_within_a_project() {
    let mut repo = fresh();
    let a = repo.add_project("a").unwrap();
    let b = repo.add_project("b").unwrap();
    let project_a = repo.get_project_by_id(a).unwrap();
    let project_b = repo.get_project_by_id(b).unwrap();
    assert_eq!(
        repo.add_view_to_project(&project_a, "view"),
        Err(RepoError::DuplicateName)
    );
    let project_a = repo.get_project_by_id(a).unwrap();
    assert_eq!(repo.get_active_view_for_project(&project_a).unwrap().name, "view");
    // the same name in another project is fine
    let x = repo.add_view_to_project(&project_a, "x").unwrap();
    let y = repo.add_view_to_project(&project_b, "x").unwrap();
    assert_ne!(x.id, y.id);
    assert_eq!(repo.get_view_from_window_manager_display_name("a#x").unwrap(), x);
    assert_eq!(repo.get_view_from_window_manager_display_name("b#x").unwrap(), y);
}
