use noteblock::catalog::Trigger;
use noteblock::editor::Editor;
use noteblock::project::{Layer, Note, Project};
use noteblock::transport::Transport;

#[test]
fn fresh_project_has_one_empty_layer() {
    let project = Project::new();
    assert_eq!(project.layers.len(), 1);
    assert_eq!(project.layers[0].name, "Layer 1");
    assert_eq!(project.layers[0].instrument, 0);
    assert!(project.layers[0].notes.is_empty());
}

#[test]
fn constructors_keep_their_arguments() {
    let note = Note::new(17, 99);
    assert_eq!(note.time, 17);
    assert_eq!(note.note, 99);
    let layer = Layer::new("drums".to_string(), 2);
    assert_eq!(layer.name, "drums");
    assert_eq!(layer.instrument, 2);
    assert!(layer.notes.is_empty());
}

#[test]
fn fresh_session() {
    let editor = Editor::new();
    assert_eq!(editor.project, Project::new());
    assert_eq!(editor.active_layer_index, 0);
    assert!(editor.selected_note_indices.is_empty());
    assert_eq!(editor.drag_anchor, None);
    assert_eq!(editor.transport, Transport::new());
    assert!(!editor.dirty);
}

#[test]
fn add_layer_appends_and_activates() {
    let mut editor = Editor::new();
    editor.add_note(1, 1);
    editor.select_all();
    editor.mark_saved();
    editor.add_layer();
    assert_eq!(editor.project.layers.len(), 2);
    assert_eq!(editor.project.layers[1], Layer::new("Layer 2".to_string(), 0));
    assert_eq!(editor.active_layer_index, 1);
    assert!(editor.selected_note_indices.is_empty());
    assert!(editor.dirty);
    for _ in 0..9 {
        editor.add_layer();
    }
    assert_eq!(editor.project.layers[10].name, "Layer 11");
    assert_eq!(editor.active_layer_index, 10);
}

#[test]
fn removing_the_last_layer_moves_the_active_index_down() {
    let mut editor = Editor::new();
    editor.add_layer();
    editor.add_layer();
    editor.add_note(1, 1);
    editor.select_all();
    editor.mark_saved();
    assert_eq!(editor.active_layer_index, 2);
    assert!(editor.remove_layer(2));
    assert_eq!(editor.project.layers.len(), 2);
    assert_eq!(editor.active_layer_index, 1);
    assert!(editor.selected_note_indices.is_empty());
    assert!(editor.dirty);
}

#[test]
fn removing_a_layer_in_front_keeps_the_same_layer_active() {
    let mut editor = Editor::new();
    editor.add_layer();
    editor.add_layer();
    assert!(editor.switch_active_layer(1));
    assert!(editor.remove_layer(0));
    assert_eq!(editor.active_layer_index, 0);
    assert_eq!(editor.project.layers[0].name, "Layer 2");
    assert_eq!(editor.project.layers[1].name, "Layer 3");
}

#[test]
fn removing_a_layer_behind_leaves_the_active_index() {
    let mut editor = Editor::new();
    editor.add_layer();
    editor.add_layer();
    assert!(editor.switch_active_layer(0));
    assert!(editor.remove_layer(1));
    assert_eq!(editor.active_layer_index, 0);
    assert_eq!(editor.project.layers[0].name, "Layer 1");
    assert_eq!(editor.project.layers[1].name, "Layer 3");
    assert!(editor.remove_layer(0));
    assert_eq!(editor.active_layer_index, 0);
    assert_eq!(editor.project.layers[0].name, "Layer 3");
}

#[test]
fn the_only_layer_is_never_removed() {
    let mut editor = Editor::new();
    editor.add_note(1, 1);
    editor.select_all();
    editor.mark_saved();
    assert!(!editor.remove_layer(0));
    assert_eq!(editor.project.layers.len(), 1);
    assert_eq!(editor.selected_note_indices, vec![0]);
    assert!(!editor.dirty);
}

#[test]
fn removing_a_missing_layer_changes_nothing() {
    let mut editor = Editor::new();
    editor.add_layer();
    editor.mark_saved();
    assert!(!editor.remove_layer(2));
    assert_eq!(editor.project.layers.len(), 2);
    assert_eq!(editor.active_layer_index, 1);
    assert!(!editor.dirty);
}

#[test]
fn rename_layer_sets_the_name() {
    let mut editor = Editor::new();
    assert!(editor.rename_layer(0, "bass".to_string()));
    assert_eq!(editor.project.layers[0].name, "bass");
    assert!(editor.dirty);
    editor.mark_saved();
    assert!(!editor.rename_layer(1, "none".to_string()));
    assert!(!editor.dirty);
}

#[test]
fn set_instrument_previews_at_the_reference_pitch() {
    let mut editor = Editor::new();
    editor.add_note(1, 1);
    editor.select_all();
    assert_eq!(editor.set_layer_instrument(0, 15), Some(Trigger { instrument: 15, pitch: 66 }));
    assert_eq!(editor.project.layers[0].instrument, 15);
    assert_eq!(editor.selected_note_indices, vec![0]);
    assert!(editor.dirty);
}

#[test]
fn set_instrument_outside_the_catalog_is_refused() {
    let mut editor = Editor::new();
    assert_eq!(editor.set_layer_instrument(0, 16), None);
    assert_eq!(editor.set_layer_instrument(1, 3), None);
    assert_eq!(editor.project.layers[0].instrument, 0);
    assert!(!editor.dirty);
}

#[test]
fn switching_layers_clears_the_selection() {
    let mut editor = Editor::new();
    editor.add_note(1, 1);
    editor.add_layer();
    editor.mark_saved();
    assert!(editor.switch_active_layer(0));
    editor.select_all();
    assert_eq!(editor.selected_note_indices, vec![0]);
    assert!(editor.switch_active_layer(1));
    assert_eq!(editor.active_layer_index, 1);
    assert!(editor.selected_note_indices.is_empty());
    assert!(!editor.switch_active_layer(2));
    assert_eq!(editor.active_layer_index, 1);
    assert!(!editor.dirty);
}

#[test]
fn new_project_starts_over() {
    let mut editor = Editor::new();
    editor.add_layer();
    editor.add_note(1, 1);
    editor.select_all();
    editor.begin_drag((1, 1));
    editor.toggle_play();
    let transport = editor.transport;
    editor.new_project();
    assert_eq!(editor.project, Project::new());
    assert_eq!(editor.active_layer_index, 0);
    assert!(editor.selected_note_indices.is_empty());
    assert_eq!(editor.drag_anchor, None);
    assert!(!editor.dirty);
    assert_eq!(editor.transport, transport);
}

#[test]
fn saved_document_loads_back_field_for_field() {
    let mut source = Editor::new();
    source.add_layer();
    source.rename_layer(1, "melody".to_string());
    source.set_layer_instrument(1, 6);
    source.add_note(0, 60);
    source.add_note(4, 64);
    source.add_note(8, 67);
    let document = source.save_project();
    assert!(source.dirty);

    assert_eq!(document.layers.len(), 2);
    assert_eq!(document.layers[0].name, "Layer 1");
    assert_eq!(document.layers[0].instrument, 0);
    assert!(document.layers[0].notes.is_empty());
    assert_eq!(document.layers[1].name, "melody");
    assert_eq!(document.layers[1].instrument, 6);
    assert_eq!(
        document.layers[1].notes,
        vec![Note::new(0, 60), Note::new(4, 64), Note::new(8, 67)]
    );

    let mut target = Editor::new();
    target.add_note(9, 9);
    target.select_all();
    assert!(target.load_project(document));
    assert_eq!(target.project, source.project);
    assert_eq!(target.active_layer_index, 0);
    assert!(target.selected_note_indices.is_empty());
    assert!(!target.dirty);
}

#[test]
fn copies_are_equal_and_independent() {
    let mut project = Project::new();
    project.layers[0].notes.push(Note::new(1, 2));
    let mut copy = project.clone();
    assert_eq!(copy, project);
    copy.layers[0].notes.push(Note::new(3, 4));
    copy.layers[0].name.push('x');
    assert_eq!(project.layers[0].notes, vec![Note::new(1, 2)]);
    assert_eq!(project.layers[0].name, "Layer 1");
}

#[test]
fn a_document_without_layers_is_refused() {
    let mut editor = Editor::new();
    editor.add_note(1, 1);
    assert!(!editor.load_project(Project { layers: Vec::new() }));
    assert_eq!(editor.project.layers.len(), 1);
    assert_eq!(editor.project.layers[0].notes, vec![Note::new(1, 1)]);
    assert!(editor.dirty);
}

#[test]
fn mark_saved_clears_the_flag() {
    let mut editor = Editor::new();
    editor.add_note(1, 1);
    assert!(editor.dirty);
    editor.mark_saved();
    assert!(!editor.dirty);
    assert_eq!(editor.project.layers[0].notes, vec![Note::new(1, 1)]);
}

fn one_layer_document(instrument: u8) -> Project {
    let mut layer = Layer::new("lead".to_string(), instrument);
    layer.notes.push(Note::new(0, 70));
    Project { layers: vec![layer] }
}

#[test]
fn a_document_outside_the_catalog_is_refused() {
    let mut editor = Editor::new();
    editor.add_layer();
    editor.add_note(1, 1);
    editor.select_all();
    let before = editor.project.clone();

    assert!(!editor.load_project(one_layer_document(16)));
    assert!(!editor.load_project(one_layer_document(200)));
    let mut mixed = one_layer_document(3);
    mixed.layers.push(Layer::new("bad".to_string(), 255));
    assert!(!editor.load_project(mixed));

    assert_eq!(editor.project, before);
    assert_eq!(editor.active_layer_index, 1);
    assert_eq!(editor.selected_note_indices, vec![0]);
    assert!(editor.dirty);
    assert!(editor.is_well_formed());
}

#[test]
fn a_document_on_the_last_instrument_is_taken() {
    let mut editor = Editor::new();
    editor.add_layer();
    editor.add_note(1, 1);
    editor.select_all();
    assert!(editor.load_project(one_layer_document(15)));
    assert_eq!(editor.project, one_layer_document(15));
    assert_eq!(editor.active_layer_index, 0);
    assert!(editor.selected_note_indices.is_empty());
    assert!(!editor.dirty);
    assert!(editor.is_well_formed());
}

#[test]
fn projects_are_checked_for_layers_and_instruments() {
    assert!(Project::new().is_well_formed());
    assert!(one_layer_document(0).is_well_formed());
    assert!(one_layer_document(15).is_well_formed());
    assert!(!one_layer_document(16).is_well_formed());
    assert!(!Project { layers: Vec::new() }.is_well_formed());
    let mut project = one_layer_document(2);
    project.layers.push(Layer::new("b".to_string(), 16));
    project.layers.push(Layer::new("c".to_string(), 1));
    assert!(!project.is_well_formed());
}

#[test]
fn a_session_with_an_instrument_outside_the_catalog_is_not_well_formed() {
    let mut editor = Editor::new();
    editor.add_layer();
    assert!(editor.is_well_formed());
    editor.project.layers[0].instrument = 16;
    assert!(!editor.is_well_formed());
    editor.project.layers[0].instrument = 15;
    assert!(editor.is_well_formed());
}

#[test]
fn a_session_asks_only_for_catalog_instruments() {
    let mut editor = Editor::new();
    assert!(editor.load_project(one_layer_document(15)));
    assert_eq!(editor.set_layer_instrument(0, 200), None);
    assert_eq!(editor.audition(9), Trigger { instrument: 15, pitch: 9 });
    assert_eq!(editor.add_note(3, 71), Trigger { instrument: 15, pitch: 71 });
    editor.toggle_play();
    assert_eq!(editor.advance(0), vec![Trigger { instrument: 15, pitch: 70 }]);
    assert_eq!(editor.seek(3_000_000_000), vec![Trigger { instrument: 15, pitch: 71 }]);
    assert!(!editor.load_project(one_layer_document(16)));
    assert_eq!(editor.seek(0), vec![Trigger { instrument: 15, pitch: 70 }]);
}
