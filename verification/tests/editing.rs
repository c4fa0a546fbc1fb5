use noteblock::catalog::Trigger;
use noteblock::edit::{
    add_note, delete_selected, duplicate_selected, nudge, nudge_selected, position_of,
    remove_note, Direction,
};
use noteblock::editor::Editor;
use noteblock::project::Note;
use noteblock::selection::{in_rectangle, is_valid_selection, select_all, select_rectangle};

fn notes_of(editor: &Editor) -> Vec<Note> {
    editor.project.layers[editor.active_layer_index].notes.clone()
}

#[test]
fn add_note_appends_and_previews() {
    let mut editor = Editor::new();
    editor.project.layers[0].instrument = 4;
    let heard = editor.add_note(8, 61);
    assert_eq!(heard, Trigger { instrument: 4, pitch: 61 });
    assert_eq!(notes_of(&editor), vec![Note::new(8, 61)]);
    assert!(editor.dirty);
    editor.add_note(2, 61);
    editor.add_note(8, 60);
    assert_eq!(notes_of(&editor), vec![Note::new(8, 61), Note::new(2, 61), Note::new(8, 60)]);
}

#[test]
fn add_note_twice_leaves_one() {
    let mut editor = Editor::new();
    editor.add_note(3, 64);
    editor.add_note(3, 64);
    assert_eq!(notes_of(&editor), vec![Note::new(3, 64)]);
}

#[test]
fn rejected_add_still_previews_and_clears_selection() {
    let mut editor = Editor::new();
    editor.add_note(3, 64);
    editor.mark_saved();
    editor.select_all();
    let heard = editor.add_note(3, 64);
    assert_eq!(heard, Trigger { instrument: 0, pitch: 64 });
    assert_eq!(notes_of(&editor), vec![Note::new(3, 64)]);
    assert!(editor.selected_note_indices.is_empty());
    assert!(!editor.dirty);
}

#[test]
fn add_note_clears_selection() {
    let mut editor = Editor::new();
    editor.add_note(1, 1);
    editor.select_all();
    assert_eq!(editor.selected_note_indices, vec![0]);
    editor.add_note(2, 2);
    assert!(editor.selected_note_indices.is_empty());
}

#[test]
fn remove_note_on_empty_layer_changes_nothing() {
    let mut editor = Editor::new();
    editor.remove_note(0, 0);
    assert!(notes_of(&editor).is_empty());
    assert!(!editor.dirty);
}

#[test]
fn remove_note_at_absent_position_changes_nothing() {
    let mut editor = Editor::new();
    editor.add_note(5, 60);
    editor.add_note(6, 61);
    editor.mark_saved();
    editor.remove_note(5, 61);
    editor.remove_note(6, 60);
    assert_eq!(notes_of(&editor), vec![Note::new(5, 60), Note::new(6, 61)]);
    assert!(!editor.dirty);

    editor.dirty = true;
    editor.remove_note(7, 7);
    assert!(editor.dirty);
}

#[test]
fn remove_note_takes_the_first_match() {
    let mut editor = Editor::new();
    editor.project.layers[0].notes =
        vec![Note::new(1, 1), Note::new(5, 60), Note::new(2, 2), Note::new(5, 60)];
    editor.select_all();
    editor.remove_note(5, 60);
    assert_eq!(notes_of(&editor), vec![Note::new(1, 1), Note::new(2, 2), Note::new(5, 60)]);
    assert!(editor.dirty);
    assert!(editor.selected_note_indices.is_empty());
}

#[test]
fn position_of_finds_the_first() {
    let notes = vec![Note::new(1, 1), Note::new(5, 60), Note::new(5, 60)];
    assert_eq!(position_of(&notes, Note::new(5, 60)), Some(1));
    assert_eq!(position_of(&notes, Note::new(1, 1)), Some(0));
    assert_eq!(position_of(&notes, Note::new(5, 1)), None);
    assert_eq!(position_of(&Vec::new(), Note::new(0, 0)), None);
}

#[test]
fn note_level_add_and_remove_report_what_they_did() {
    let mut notes = Vec::new();
    assert!(add_note(&mut notes, Note::new(1, 2)));
    assert!(!add_note(&mut notes, Note::new(1, 2)));
    assert_eq!(notes, vec![Note::new(1, 2)]);
    assert!(!remove_note(&mut notes, Note::new(2, 1)));
    assert!(remove_note(&mut notes, Note::new(1, 2)));
    assert!(notes.is_empty());
}

#[test]
fn batch_delete_of_two_and_zero_leaves_one() {
    let mut editor = Editor::new();
    editor.add_note(10, 50);
    editor.add_note(11, 51);
    editor.add_note(12, 52);
    editor.mark_saved();
    editor.selected_note_indices = vec![2, 0];
    editor.delete_selection();
    assert_eq!(notes_of(&editor), vec![Note::new(11, 51)]);
    assert!(editor.selected_note_indices.is_empty());
    assert!(editor.dirty);
}

#[test]
fn batch_delete_keeps_order_of_the_rest() {
    let mut notes: Vec<Note> = (0..6).map(|i| Note::new(i, i as u8)).collect();
    delete_selected(&mut notes, &vec![4, 1, 3]);
    assert_eq!(notes, vec![Note::new(0, 0), Note::new(2, 2), Note::new(5, 5)]);
    delete_selected(&mut notes, &vec![]);
    assert_eq!(notes.len(), 3);
    delete_selected(&mut notes, &vec![0, 1, 2]);
    assert!(notes.is_empty());
}

#[test]
fn batch_delete_with_nothing_selected_marks_dirty() {
    let mut editor = Editor::new();
    editor.delete_selection();
    assert!(editor.dirty);
    assert!(notes_of(&editor).is_empty());
}

#[test]
fn duplicate_shifts_by_two_and_selects_the_copy() {
    let mut editor = Editor::new();
    editor.add_note(5, 60);
    editor.mark_saved();
    editor.select_all();
    editor.duplicate_selection();
    assert_eq!(notes_of(&editor), vec![Note::new(5, 60), Note::new(7, 62)]);
    assert_eq!(editor.selected_note_indices, vec![1]);
    assert!(editor.dirty);
}

#[test]
fn duplicate_follows_the_order_of_the_selection() {
    let mut notes = vec![Note::new(0, 0), Note::new(10, 10), Note::new(20, 20)];
    let mut selection = vec![2, 0];
    duplicate_selected(&mut notes, &mut selection);
    assert_eq!(
        notes,
        vec![
            Note::new(0, 0),
            Note::new(10, 10),
            Note::new(20, 20),
            Note::new(22, 22),
            Note::new(2, 2),
        ]
    );
    assert_eq!(selection, vec![3, 4]);
}

#[test]
fn duplicate_holds_at_the_top_of_the_ranges() {
    let mut notes = vec![Note::new(u32::MAX - 1, 254), Note::new(u32::MAX, 255)];
    let mut selection = vec![0, 1];
    duplicate_selected(&mut notes, &mut selection);
    assert_eq!(notes[2], Note::new(u32::MAX, 255));
    assert_eq!(notes[3], Note::new(u32::MAX, 255));
    let mut notes = vec![Note::new(u32::MAX - 2, 253)];
    let mut selection = vec![0];
    duplicate_selected(&mut notes, &mut selection);
    assert_eq!(notes[1], Note::new(u32::MAX, 255));
}

#[test]
fn nudge_left_at_tick_zero_stays() {
    let mut editor = Editor::new();
    editor.add_note(0, 60);
    editor.select_all();
    editor.mark_saved();
    editor.nudge_selection(Direction::Left);
    assert_eq!(notes_of(&editor), vec![Note::new(0, 60)]);
    assert_eq!(editor.selected_note_indices, vec![0]);
    assert!(editor.dirty);
}

#[test]
fn nudge_moves_one_step_each_way() {
    let note = Note::new(5, 60);
    assert_eq!(nudge(note, Direction::Left), Note::new(4, 60));
    assert_eq!(nudge(note, Direction::Right), Note::new(6, 60));
    assert_eq!(nudge(note, Direction::Up), Note::new(5, 61));
    assert_eq!(nudge(note, Direction::Down), Note::new(5, 59));
}

#[test]
fn nudge_holds_at_the_ends_of_the_ranges() {
    let low = Note::new(0, 0);
    let high = Note::new(u32::MAX, 255);
    assert_eq!(nudge(low, Direction::Left), low);
    assert_eq!(nudge(low, Direction::Down), low);
    assert_eq!(nudge(high, Direction::Right), high);
    assert_eq!(nudge(high, Direction::Up), high);
}

#[test]
fn nudge_moves_only_the_selected() {
    let mut notes = vec![Note::new(1, 1), Note::new(2, 2), Note::new(3, 3)];
    nudge_selected(&mut notes, &vec![2, 0], Direction::Right);
    assert_eq!(notes, vec![Note::new(2, 1), Note::new(2, 2), Note::new(4, 3)]);
    nudge_selected(&mut notes, &vec![1], Direction::Up);
    assert_eq!(notes, vec![Note::new(2, 1), Note::new(2, 3), Note::new(4, 3)]);
}

#[test]
fn nudge_may_stack_notes_on_one_cell() {
    let mut editor = Editor::new();
    editor.add_note(1, 60);
    editor.add_note(2, 60);
    editor.selected_note_indices = vec![1];
    editor.nudge_selection(Direction::Left);
    assert_eq!(notes_of(&editor), vec![Note::new(1, 60), Note::new(1, 60)]);
}

#[test]
fn rectangle_covers_both_corner_cells() {
    let note = Note::new(5, 60);
    assert!(in_rectangle(note, (5, 60), (5, 60)));
    assert!(in_rectangle(note, (3, 58), (5, 60)));
    assert!(in_rectangle(note, (5, 60), (9, 70)));
    assert!(in_rectangle(note, (9, 70), (1, 2)));
    assert!(in_rectangle(note, (1, 70), (9, 2)));
    assert!(!in_rectangle(note, (6, 60), (9, 60)));
    assert!(!in_rectangle(note, (0, 60), (4, 60)));
    assert!(!in_rectangle(note, (5, 61), (5, 70)));
    assert!(!in_rectangle(note, (5, 0), (5, 59)));
}

#[test]
fn rectangle_selection_adds_to_what_is_selected() {
    let notes = vec![Note::new(0, 0), Note::new(5, 5), Note::new(6, 6), Note::new(9, 9)];
    let mut selection = vec![2];
    select_rectangle(&notes, &mut selection, (7, 7), (4, 4));
    assert_eq!(selection, vec![2, 1]);
    select_rectangle(&notes, &mut selection, (0, 0), (9, 9));
    assert_eq!(selection, vec![2, 1, 0, 3]);
    select_rectangle(&notes, &mut selection, (0, 0), (9, 9));
    assert_eq!(selection, vec![2, 1, 0, 3]);
}

#[test]
fn drag_selects_between_anchor_and_release() {
    let mut editor = Editor::new();
    editor.add_note(1, 50);
    editor.add_note(4, 52);
    editor.add_note(8, 54);
    editor.mark_saved();
    assert!(!editor.end_drag((9, 60)));
    assert!(editor.selected_note_indices.is_empty());
    editor.begin_drag((5, 55));
    assert_eq!(editor.drag_anchor, Some((5, 55)));
    assert!(editor.end_drag((0, 50)));
    assert_eq!(editor.drag_anchor, None);
    assert_eq!(editor.selected_note_indices, vec![0, 1]);
    assert!(!editor.dirty);
}

#[test]
fn select_all_then_clear() {
    let mut editor = Editor::new();
    editor.add_note(1, 1);
    editor.add_note(2, 2);
    editor.add_note(3, 3);
    editor.select_all();
    assert_eq!(editor.selected_note_indices, vec![0, 1, 2]);
    editor.clear_selection();
    assert!(editor.selected_note_indices.is_empty());
    assert_eq!(select_all(&Vec::new()), Vec::<usize>::new());
}

#[test]
fn audition_uses_the_active_instrument() {
    let mut editor = Editor::new();
    editor.add_layer();
    editor.set_layer_instrument(1, 7);
    assert_eq!(editor.audition(40), Trigger { instrument: 7, pitch: 40 });
    editor.switch_active_layer(0);
    assert_eq!(editor.audition(41), Trigger { instrument: 0, pitch: 41 });
    assert!(notes_of(&editor).is_empty());
}

#[test]
fn well_formed_sessions_are_recognised() {
    let mut editor = Editor::new();
    assert!(editor.is_well_formed());
    editor.add_note(1, 1);
    editor.add_note(2, 2);
    editor.select_all();
    assert!(editor.is_well_formed());
    editor.selected_note_indices = vec![1, 0];
    assert!(editor.is_well_formed());
    editor.selected_note_indices = vec![0, 2];
    assert!(!editor.is_well_formed());
    editor.selected_note_indices = vec![1, 0, 1];
    assert!(!editor.is_well_formed());
    editor.selected_note_indices = vec![];
    editor.active_layer_index = 1;
    assert!(!editor.is_well_formed());
}

#[test]
fn selections_are_checked_for_range_and_repeats() {
    assert!(is_valid_selection(&vec![], 0));
    assert!(is_valid_selection(&vec![3, 0, 2], 4));
    assert!(!is_valid_selection(&vec![3, 0, 4], 4));
    assert!(!is_valid_selection(&vec![0], 0));
    assert!(!is_valid_selection(&vec![2, 1, 2], 4));
}
