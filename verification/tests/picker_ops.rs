use rstube::picker::{filter_entries, move_selection, Focus, Key, PickerAction, PickerRow, PickerState};

fn rows() -> Vec<PickerRow> {
    vec![
        PickerRow { title: Some("Never Gonna Give You Up".into()), url: "u1".into() },
        PickerRow { title: None, url: "https://youtu.be/XYZ".into() },
        PickerRow { title: Some("Chess Openings".into()), url: "u3".into() },
    ]
}

#[test]
fn filter_matches_lowercased_title_or_url() {
    let rs = rows();
    assert_eq!(filter_entries(&rs, ""), vec![0, 1, 2]);
    assert_eq!(filter_entries(&rs, "never"), vec![0]);
    assert_eq!(filter_entries(&rs, "GONNA"), vec![0]);
    assert_eq!(filter_entries(&rs, "xyz"), vec![1]);
    assert_eq!(filter_entries(&rs, "n"), vec![0, 2]);
    assert_eq!(filter_entries(&rs, "zzz"), Vec::<usize>::new());
}

#[test]
fn selection_moves_are_clamped() {
    assert_eq!(move_selection(Some(0), 3, 1), Some(1));
    assert_eq!(move_selection(Some(2), 3, 1), Some(2));
    assert_eq!(move_selection(Some(1), 3, -10), Some(0));
    assert_eq!(move_selection(Some(0), 30, 10), Some(10));
    assert_eq!(move_selection(None, 3, 10), Some(2));
    assert_eq!(move_selection(None, 0, 1), None);
    assert_eq!(move_selection(Some(7), 3, 0), Some(2));
    assert_eq!(move_selection(Some(7), 3, -2), Some(2));
    assert_eq!(move_selection(Some(9), 3, -8), Some(1));
}

#[test]
fn keys_drive_the_picker() {
    let mut st = PickerState::new();
    st.settle_selection(3);
    assert_eq!(st.selected, Some(0));
    assert_eq!(st.handle_key(Key::Down, 3), PickerAction::Continue);
    assert_eq!(st.handle_key(Key::Char('j'), 3), PickerAction::Continue);
    assert_eq!(st.selected, Some(2));
    assert_eq!(st.handle_key(Key::Home, 3), PickerAction::Continue);
    assert_eq!(st.selected, Some(0));
    assert_eq!(st.handle_key(Key::End, 3), PickerAction::Continue);
    assert_eq!(st.selected, Some(2));
    assert_eq!(st.handle_key(Key::Char('a'), 3), PickerAction::Continue);
    assert!(st.audio_only);
    assert_eq!(st.handle_key(Key::Char('/'), 3), PickerAction::Continue);
    assert_eq!(st.focus, Focus::Filter);
    assert_eq!(st.handle_key(Key::Char('q'), 3), PickerAction::Continue);
    assert_eq!(st.handle_key(Key::Char('x'), 3), PickerAction::Continue);
    assert_eq!(st.filter, "qx");
    assert_eq!(st.handle_key(Key::Backspace, 3), PickerAction::Continue);
    assert_eq!(st.filter, "q");
    assert_eq!(st.handle_key(Key::Enter, 3), PickerAction::Continue);
    assert_eq!(st.focus, Focus::List);
    assert_eq!(st.handle_key(Key::Char('d'), 3), PickerAction::Delete(2));
    assert_eq!(st.handle_key(Key::Enter, 3), PickerAction::Play(2));
    assert_eq!(st.handle_key(Key::CtrlC, 3), PickerAction::Quit);
    assert_eq!(st.handle_key(Key::Esc, 3), PickerAction::Quit);
}

#[test]
fn settling_after_the_list_shrinks() {
    let mut st = PickerState::new();
    st.selected = Some(5);
    st.settle_selection(2);
    assert_eq!(st.selected, Some(1));
    st.settle_selection(0);
    assert_eq!(st.selected, None);
    st.settle_selection(4);
    assert_eq!(st.selected, Some(0));
    assert_eq!(st.handle_key(Key::Enter, 4), PickerAction::Play(0));
}
