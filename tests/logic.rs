use muxwm::display_name::{
    decode_display_name, display_name_for, encode_display_name, has_separator,
};
use muxwm::lookup::{
    find_pin_by_key, find_pin_by_view, find_project_by_id, find_project_by_name, find_view_by_id,
    find_view_by_name, view_for_pin,
};
use muxwm::model::{classify_store_error, Pin, Project, RepoError, View};
use muxwm::navigation::{
    append_plan, append_position, greatest_below_index, least_above_index, neighbour_view,
    next_view_index, prev_view_index,
};

fn view(id: i64, name: &str, project_id: i64, position: i64) -> View {
    View {
        id,
        name: name.to_string(),
        project_id,
        position,
    }
}

#[test]
fn encode_joins_with_separator() {
    assert_eq!(encode_display_name("proj1", "view"), "proj1#view");
    assert_eq!(encode_display_name("", ""), "#");
    assert_eq!(encode_display_name("ä", "ß"), "ä#ß");
}

#[test]
fn decode_splits_at_the_one_separator() {
    assert_eq!(
        decode_display_name("proj1#view"),
        Some(("proj1".to_string(), "view".to_string()))
    );
    assert_eq!(
        decode_display_name("#"),
        Some((String::new(), String::new()))
    );
    assert_eq!(
        decode_display_name("ä#ß"),
        Some(("ä".to_string(), "ß".to_string()))
    );
    assert_eq!(decode_display_name("plain"), None);
    assert_eq!(decode_display_name(""), None);
    assert_eq!(decode_display_name("a#b#c"), None);
    assert_eq!(decode_display_name("##"), None);
}

#[test]
fn decode_undoes_encode() {
    for (p, v) in [("admin", "view"), ("a b", "c d"), ("", "x"), ("x", "")] {
        let s = encode_display_name(p, v);
        assert_eq!(decode_display_name(&s), Some((p.to_string(), v.to_string())));
    }
}

#[test]
fn separator_detection() {
    assert!(has_separator("a#b"));
    assert!(has_separator("#"));
    assert!(!has_separator("ab"));
    assert!(!has_separator(""));
}

#[test]
fn next_and_prev_over_positions_with_gaps() {
    // project 1 has positions 5, 0, 9 out of order; project 2 is interleaved
    let rows = vec![
        view(10, "a", 1, 5),
        view(11, "x", 2, 7),
        view(12, "b", 1, 0),
        view(13, "c", 1, 9),
        view(14, "y", 2, 1),
    ];
    assert_eq!(next_view_index(&rows, 1, 0), Some(0));
    assert_eq!(next_view_index(&rows, 1, 5), Some(3));
    assert_eq!(next_view_index(&rows, 1, 9), Some(2));
    assert_eq!(prev_view_index(&rows, 1, 0), Some(3));
    assert_eq!(prev_view_index(&rows, 1, 5), Some(2));
    assert_eq!(prev_view_index(&rows, 1, 9), Some(0));
    assert_eq!(next_view_index(&rows, 2, 1), Some(1));
    assert_eq!(next_view_index(&rows, 2, 7), Some(4));
    assert_eq!(next_view_index(&rows, 3, 0), None);
    assert_eq!(prev_view_index(&rows, 3, 0), None);
}

#[test]
fn next_wraps_at_positions_zero_one_two() {
    let rows = vec![view(1, "view", 7, 0), view(2, "b", 7, 1), view(3, "c", 7, 2)];
    assert_eq!(next_view_index(&rows, 7, 2), Some(0));
    assert_eq!(next_view_index(&rows, 7, 0), Some(1));
    assert_eq!(prev_view_index(&rows, 7, 0), Some(2));
    assert_eq!(prev_view_index(&rows, 7, 1), Some(0));
}

#[test]
fn prev_walk_undoes_next_walk_on_rows() {
    let rows = vec![
        view(1, "a", 1, 3),
        view(2, "b", 1, -4),
        view(3, "c", 1, 12),
        view(4, "d", 1, 0),
    ];
    for start in 0..rows.len() {
        for n in 0..9 {
            let mut i = start;
            for _ in 0..n {
                i = next_view_index(&rows, 1, rows[i].position).unwrap();
            }
            for _ in 0..n {
                i = prev_view_index(&rows, 1, rows[i].position).unwrap();
            }
            assert_eq!(i, start);
        }
    }
}

#[test]
fn extreme_positions() {
    let rows = vec![view(1, "lo", 1, i64::MIN), view(2, "hi", 1, i64::MAX)];
    assert_eq!(next_view_index(&rows, 1, i64::MAX), Some(0));
    assert_eq!(prev_view_index(&rows, 1, i64::MIN), Some(1));
    assert_eq!(least_above_index(&rows, 1, None), Some(0));
    assert_eq!(least_above_index(&rows, 1, Some(i64::MAX)), None);
    assert_eq!(greatest_below_index(&rows, 1, None), Some(1));
    assert_eq!(greatest_below_index(&rows, 1, Some(i64::MIN)), None);
}

#[test]
fn equal_positions_pick_the_first_row() {
    let rows = vec![view(1, "a", 1, 4), view(2, "b", 1, 4)];
    assert_eq!(least_above_index(&rows, 1, None), Some(0));
    assert_eq!(greatest_below_index(&rows, 1, None), Some(0));
}

#[test]
fn append_goes_one_past_the_largest_position() {
    let rows = vec![view(1, "a", 1, 0), view(2, "b", 1, 4), view(3, "x", 2, 9)];
    assert_eq!(append_position(&rows, 1), Some(5));
    assert_eq!(append_position(&rows, 2), Some(10));
    assert_eq!(append_position(&rows, 3), Some(0));
    assert_eq!(append_position(&Vec::new(), 1), Some(0));
    let full = vec![view(1, "a", 1, i64::MAX)];
    assert_eq!(append_position(&full, 1), None);
}

#[test]
fn store_errors_by_sqlite_code() {
    assert_eq!(classify_store_error(Some(2067)), RepoError::DuplicateName);
    assert_eq!(classify_store_error(Some(19)), RepoError::ConstraintViolation);
    assert_eq!(classify_store_error(Some(787)), RepoError::ConstraintViolation);
    assert_eq!(classify_store_error(Some(1299)), RepoError::ConstraintViolation);
    assert_eq!(classify_store_error(Some(5)), RepoError::StoreUnavailable);
    assert_eq!(classify_store_error(Some(261)), RepoError::StoreUnavailable);
    assert_eq!(classify_store_error(None), RepoError::ConstraintViolation);
}

#[test]
fn row_lookups_take_the_first_match() {
    let views = vec![view(1, "a", 1, 0), view(2, "b", 1, 1), view(3, "b", 2, 0), view(2, "z", 9, 9)];
    assert_eq!(find_view_by_id(&views, 2), Some(1));
    assert_eq!(find_view_by_id(&views, 7), None);
    assert_eq!(find_view_by_name(&views, 2, &"b".to_string()), Some(2));
    assert_eq!(find_view_by_name(&views, 1, &"b".to_string()), Some(1));
    assert_eq!(find_view_by_name(&views, 2, &"a".to_string()), None);

    let projects = vec![
        Project { active_view_id: 1, id: 5, name: "p".to_string() },
        Project { active_view_id: 2, id: 6, name: "q".to_string() },
    ];
    assert_eq!(find_project_by_id(&projects, 6), Some(1));
    assert_eq!(find_project_by_id(&projects, 1), None);
    assert_eq!(find_project_by_name(&projects, &"p".to_string()), Some(0));
    assert_eq!(find_project_by_name(&projects, &"r".to_string()), None);

    let pins = vec![
        Pin { id: 1, key: "g".to_string(), view_id: 3 },
        Pin { id: 2, key: "h".to_string(), view_id: 3 },
    ];
    assert_eq!(find_pin_by_key(&pins, &"h".to_string()), Some(1));
    assert_eq!(find_pin_by_key(&pins, &"x".to_string()), None);
    assert_eq!(find_pin_by_view(&pins, 3), Some(0));
    assert_eq!(find_pin_by_view(&pins, 4), None);
}

#[test]
fn project_name_accessor() {
    let p = Project { active_view_id: 1, id: 2, name: "proj".to_string() };
    assert_eq!(p.name(), "proj");
}

#[test]
fn display_name_for_refuses_separators() {
    let v = view(1, "mail", 2, 0);
    assert_eq!(display_name_for("work", &v), Some("work#mail".to_string()));
    assert_eq!(display_name_for("wo#rk", &v), None);
    let bad = view(1, "m#ail", 2, 0);
    assert_eq!(display_name_for("work", &bad), None);
}

#[test]
fn view_for_pin_follows_the_first_pin_with_the_key() {
    let pins = vec![
        Pin { id: 1, key: "a".to_string(), view_id: 20 },
        Pin { id: 2, key: "g".to_string(), view_id: 11 },
        Pin { id: 3, key: "g".to_string(), view_id: 10 },
    ];
    let views = vec![view(10, "x", 1, 0), view(11, "y", 1, 1)];
    assert_eq!(view_for_pin(&pins, &"g".to_string(), &views), Some(1));
    assert_eq!(view_for_pin(&pins, &"a".to_string(), &views), None);
    assert_eq!(view_for_pin(&pins, &"z".to_string(), &views), None);
}

#[test]
fn append_plan_needs_the_project() {
    let projects = vec![Project { active_view_id: 1, id: 5, name: "p".to_string() }];
    let rows = vec![view(1, "a", 5, 0), view(2, "b", 5, 3)];
    assert_eq!(append_plan(&projects, &rows, 5), Ok(4));
    assert_eq!(append_plan(&projects, &rows, 6), Err(RepoError::ProjectNotFound));
    assert_eq!(append_plan(&projects, &Vec::new(), 5), Ok(0));
    let full = vec![view(1, "a", 5, i64::MAX)];
    assert_eq!(append_plan(&projects, &full, 5), Err(RepoError::ConstraintViolation));
    assert_eq!(append_plan(&Vec::new(), &full, 5), Err(RepoError::ProjectNotFound));
}

#[test]
fn neighbour_view_starts_at_the_active_view() {
    let rows = vec![view(1, "view", 7, 0), view(2, "b", 7, 1), view(3, "c", 7, 2)];
    let at = |active: i64| Project { active_view_id: active, id: 7, name: "p".to_string() };
    assert_eq!(neighbour_view(&rows, &at(3), true), Ok(0));
    assert_eq!(neighbour_view(&rows, &at(1), true), Ok(1));
    assert_eq!(neighbour_view(&rows, &at(1), false), Ok(2));
    assert_eq!(neighbour_view(&rows, &at(2), false), Ok(0));
    assert_eq!(neighbour_view(&rows, &at(9), true), Err(RepoError::NoActiveView));
    let other = Project { active_view_id: 1, id: 8, name: "q".to_string() };
    assert_eq!(neighbour_view(&rows, &other, false), Err(RepoError::NoActiveView));
}
