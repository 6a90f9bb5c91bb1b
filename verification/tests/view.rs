use runners_toolkit::live_view::{
    clamp_selection, handle_key, next_index, prev_index, step, ColumnSet, KeyInput, ViewEvent,
};

#[test]
fn down_from_last_row_wraps_to_first() {
    assert_eq!(next_index(2, 3), 0);
}

#[test]
fn up_from_first_row_wraps_to_last() {
    assert_eq!(prev_index(0, 3), 2);
}

#[test]
fn navigation_on_empty_fleet_is_a_no_op() {
    assert_eq!(next_index(0, 0), 0);
    assert_eq!(prev_index(0, 0), 0);
    assert_eq!(handle_key(0, KeyInput::Down, 0), (0, false));
    assert_eq!(handle_key(0, KeyInput::Up, 0), (0, false));
}

#[test]
fn plain_steps_move_one_row() {
    assert_eq!(next_index(0, 3), 1);
    assert_eq!(next_index(1, 3), 2);
    assert_eq!(prev_index(2, 3), 1);
    assert_eq!(prev_index(1, 3), 0);
}

#[test]
fn quit_key_terminates_and_keeps_selection() {
    assert_eq!(handle_key(1, KeyInput::Quit, 3), (1, true));
}

#[test]
fn other_keys_are_ignored() {
    assert_eq!(handle_key(1, KeyInput::Other, 3), (1, false));
}

#[test]
fn clamp_pins_selection_into_the_fleet() {
    assert_eq!(clamp_selection(5, 3), 2);
    assert_eq!(clamp_selection(1, 3), 1);
    assert_eq!(clamp_selection(4, 0), 0);
}

#[test]
fn snapshot_arrival_and_timeout_only_redraw() {
    assert_eq!(step(1, ViewEvent::SnapshotChanged, 3), (1, false));
    assert_eq!(step(1, ViewEvent::TimedOut, 3), (1, false));
    assert_eq!(step(2, ViewEvent::KeyPressed(KeyInput::Down), 3), (0, false));
    assert_eq!(step(0, ViewEvent::KeyPressed(KeyInput::Quit), 3), (0, true));
}

#[test]
fn column_sets_cover_both_layouts() {
    let min = ColumnSet::minimal();
    assert_eq!(min.column_count(), 3);
    let ext = ColumnSet::extended();
    assert_eq!(ext.column_count(), 6);
    let mixed = ColumnSet { show_os: true, show_status: false, show_labels: true };
    assert_eq!(mixed.column_count(), 5);
}
