use render_state::{State, StateError, SurfaceBinding};

fn fresh() -> State<String> {
    State::with_capacity(800, 600, 10).unwrap()
}

#[test]
fn reorder_scenario_gives_b_then_a() {
    let mut s = fresh();
    let a = s.create_shape("A".to_string());
    let b = s.create_shape("B".to_string());
    assert_eq!(s.append_to_display_list(a), Ok(()));
    assert_eq!(s.append_to_display_list(b), Ok(()));
    assert_eq!(s.reorder_display_list(a, 1), Ok(()));
    assert_eq!(s.display_list(), &[b, a][..]);
}

#[test]
fn last_begin_edit_wins() {
    let mut s = fresh();
    let a = s.create_shape("A".to_string());
    let b = s.create_shape("B".to_string());
    assert_eq!(s.begin_edit(a), Ok(()));
    assert_eq!(s.begin_edit(b), Ok(()));
    assert_eq!(s.current_id(), Some(b));
    assert_eq!(s.current_shape(), Some(&"B".to_string()));
}

#[test]
fn resize_to_zero_width_is_refused() {
    let mut s = fresh();
    assert_eq!(s.resize_surface(0, 100), Err(StateError::InvalidDimensions));
    assert_eq!(s.surface().width(), 800);
    assert_eq!(s.surface().height(), 600);
    assert_eq!(s.resize_surface(100, -1), Err(StateError::InvalidDimensions));
    assert_eq!(s.surface().width(), 800);
    assert_eq!(s.resize_surface(1024, 768), Ok(()));
    assert_eq!(s.surface().width(), 1024);
    assert_eq!(s.surface().height(), 768);
}

#[test]
fn created_identifiers_are_distinct() {
    let mut s = fresh();
    let mut ids: Vec<u128> = Vec::new();
    for k in 0..200 {
        ids.push(s.create_shape(format!("shape {}", k)));
    }
    for i in 0..ids.len() {
        for j in (i + 1)..ids.len() {
            assert_ne!(ids[i], ids[j]);
        }
    }
    assert_eq!(s.shape_count(), 200);
}

#[test]
fn created_identifier_is_a_random_v4_token() {
    let mut s = fresh();
    let a = s.create_shape("A".to_string());
    let b = s.create_shape("B".to_string());
    assert_eq!((a >> 76) & 0xf, 4);
    assert_eq!((a >> 62) & 0x3, 2);
    assert_ne!(a, b);
    assert_ne!(a, 0);
}

#[test]
fn removed_shape_is_absent() {
    let mut s = fresh();
    let a = s.create_shape("A".to_string());
    assert_eq!(s.get(a), Some(&"A".to_string()));
    assert!(s.remove_shape(a));
    assert_eq!(s.get(a), None);
    assert!(!s.remove_shape(a));
    assert_eq!(s.shape_count(), 0);
}

#[test]
fn removing_edited_shape_clears_cursor() {
    let mut s = fresh();
    let a = s.create_shape("A".to_string());
    let b = s.create_shape("B".to_string());
    assert_eq!(s.begin_edit(a), Ok(()));
    assert!(s.remove_shape(b));
    assert_eq!(s.current_id(), Some(a));
    assert!(s.remove_shape(a));
    assert_eq!(s.current_id(), None);
    assert_eq!(s.current_shape(), None);
}

#[test]
fn removing_a_shape_takes_it_out_of_the_order() {
    let mut s = fresh();
    let a = s.create_shape("A".to_string());
    let b = s.create_shape("B".to_string());
    let c = s.create_shape("C".to_string());
    for id in [a, b, c] {
        assert_eq!(s.append_to_display_list(id), Ok(()));
    }
    assert!(s.remove_shape(b));
    assert_eq!(s.display_list(), &[a, c][..]);
    for id in s.display_list() {
        assert!(s.get(*id).is_some());
    }
}

#[test]
fn remove_from_display_list_keeps_the_shape() {
    let mut s = fresh();
    let a = s.create_shape("A".to_string());
    let b = s.create_shape("B".to_string());
    assert_eq!(s.append_to_display_list(a), Ok(()));
    assert_eq!(s.append_to_display_list(b), Ok(()));
    s.remove_from_display_list(a);
    assert_eq!(s.display_list(), &[b][..]);
    assert_eq!(s.get(a), Some(&"A".to_string()));
    s.remove_from_display_list(a);
    assert_eq!(s.display_list(), &[b][..]);
}

#[test]
fn reorder_past_the_end_is_refused() {
    let mut s = fresh();
    let a = s.create_shape("A".to_string());
    let b = s.create_shape("B".to_string());
    assert_eq!(s.append_to_display_list(a), Ok(()));
    assert_eq!(s.append_to_display_list(b), Ok(()));
    assert_eq!(s.reorder_display_list(a, 2), Err(StateError::OutOfBounds));
    assert_eq!(s.reorder_display_list(a, 7), Err(StateError::OutOfBounds));
    assert_eq!(s.display_list(), &[a, b][..]);
}

#[test]
fn reorder_of_unknown_identifier_is_not_found() {
    let mut s = fresh();
    let a = s.create_shape("A".to_string());
    let b = s.create_shape("B".to_string());
    assert_eq!(s.append_to_display_list(a), Ok(()));
    assert_eq!(s.reorder_display_list(b, 0), Err(StateError::NotFound));
    assert_eq!(s.display_list(), &[a][..]);
}

#[test]
fn reorder_moves_and_shifts() {
    let mut s = fresh();
    let a = s.create_shape("A".to_string());
    let b = s.create_shape("B".to_string());
    let c = s.create_shape("C".to_string());
    for id in [a, b, c] {
        assert_eq!(s.append_to_display_list(id), Ok(()));
    }
    assert_eq!(s.reorder_display_list(c, 0), Ok(()));
    assert_eq!(s.display_list(), &[c, a, b][..]);
    assert_eq!(s.reorder_display_list(a, 1), Ok(()));
    assert_eq!(s.display_list(), &[c, a, b][..]);
    assert_eq!(s.reorder_display_list(c, 2), Ok(()));
    assert_eq!(s.display_list(), &[a, b, c][..]);
}

#[test]
fn second_append_is_duplicate() {
    let mut s = fresh();
    let a = s.create_shape("A".to_string());
    assert_eq!(s.append_to_display_list(a), Ok(()));
    assert_eq!(s.append_to_display_list(a), Err(StateError::Duplicate));
    assert_eq!(s.display_list().len(), 1);
}

#[test]
fn append_of_unknown_identifier_is_not_found() {
    let mut s = fresh();
    let a = s.create_shape("A".to_string());
    assert!(s.remove_shape(a));
    assert_eq!(s.append_to_display_list(a), Err(StateError::NotFound));
    assert_eq!(s.append_to_display_list(12345), Err(StateError::NotFound));
    assert!(s.display_list().is_empty());
}

#[test]
fn begin_edit_of_unknown_identifier_is_not_found() {
    let mut s = fresh();
    let a = s.create_shape("A".to_string());
    assert_eq!(s.begin_edit(a), Ok(()));
    assert_eq!(s.begin_edit(42), Err(StateError::NotFound));
    assert_eq!(s.current_id(), Some(a));
    s.end_edit();
    assert_eq!(s.current_id(), None);
    s.end_edit();
    assert_eq!(s.current_id(), None);
}

#[test]
fn replace_current_shape_writes_through_the_cursor() {
    let mut s = fresh();
    let a = s.create_shape("A".to_string());
    assert_eq!(s.replace_current_shape("X".to_string()), Err(StateError::NotFound));
    assert_eq!(s.begin_edit(a), Ok(()));
    assert_eq!(s.replace_current_shape("A2".to_string()), Ok("A".to_string()));
    assert_eq!(s.get(a), Some(&"A2".to_string()));
    assert_eq!(s.current_shape(), Some(&"A2".to_string()));
}

#[test]
fn with_capacity_needs_positive_dimensions() {
    assert!(matches!(State::<String>::with_capacity(0, 600, 10), Err(StateError::InvalidDimensions)));
    assert!(matches!(State::<String>::with_capacity(800, -3, 10), Err(StateError::InvalidDimensions)));
    let s = State::<String>::with_capacity(1, 1, 0).unwrap();
    assert_eq!(s.shape_count(), 0);
    assert!(s.display_list().is_empty());
    assert_eq!(s.current_id(), None);
    assert_eq!(s.surface().width(), 1);
}

#[test]
fn under_provisioned_capacity_still_works() {
    let mut s = State::<u32>::with_capacity(10, 10, 0).unwrap();
    for k in 0..50u32 {
        let id = s.create_shape(k);
        assert_eq!(s.append_to_display_list(id), Ok(()));
    }
    assert_eq!(s.shape_count(), 50);
    assert_eq!(s.display_list().len(), 50);
}

#[test]
fn set_surface_keeps_shapes_and_order() {
    let mut s = fresh();
    let a = s.create_shape("A".to_string());
    assert_eq!(s.append_to_display_list(a), Ok(()));
    assert_eq!(s.begin_edit(a), Ok(()));
    s.set_surface(SurfaceBinding::new(320, 240).unwrap());
    assert_eq!(s.surface().width(), 320);
    assert_eq!(s.surface().height(), 240);
    assert_eq!(s.display_list(), &[a][..]);
    assert_eq!(s.current_id(), Some(a));
}

#[test]
fn surface_binding_needs_positive_dimensions() {
    assert!(matches!(SurfaceBinding::new(0, 0), Err(StateError::InvalidDimensions)));
    assert!(matches!(SurfaceBinding::new(-5, 10), Err(StateError::InvalidDimensions)));
    let b = SurfaceBinding::new(5, 10).unwrap();
    assert_eq!(b.width(), 5);
    assert_eq!(b.height(), 10);
}

#[test]
fn pick_identifier_keeps_a_free_candidate() {
    let s = fresh();
    assert_eq!(s.pick_identifier(77), 77);
    assert_eq!(s.pick_identifier(0), 0);
}

#[test]
fn pick_identifier_replaces_a_taken_candidate_by_the_least_free() {
    let mut s = fresh();
    let a = s.create_shape("A".to_string());
    assert_ne!(a, 0);
    assert_eq!(s.pick_identifier(a), 0);
}
