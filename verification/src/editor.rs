//! The editing session: the document, the active layer, the selection, the
//! transport and the unsaved-changes flag, and one operation for each thing
//! the user can do.

use vstd::prelude::*;
use crate::catalog::{
    decimal_string, decimal_text, preview, sound_in_catalog, Trigger, INSTRUMENT_COUNT,
    REFERENCE_PITCH,
};
use crate::edit;
use crate::edit::{
    copies_of, nudged, nudged_notes, occurrences, positions_from, shifted, without_first,
    without_selected, Direction,
};
use crate::project::{
    fresh_layers, instruments_in_catalog, well_formed_layers, Layer, LayerView, Note, Project,
};
use crate::selection;
use crate::selection::{all_positions, rectangle_picks, valid_selection, Cell};
use crate::transport::{lemma_triggers_sound_in_catalog, project_triggers, tick_at, Transport};

verus! {

/// An editing session.
#[derive(Debug)]
pub struct Editor {
    pub project: Project,
    /// The layer that edits apply to.
    pub active_layer_index: usize,
    /// Positions of the selected notes in the active layer.
    pub selected_note_indices: Vec<usize>,
    /// Where a drag that is under way began.
    pub drag_anchor: Option<Cell>,
    pub transport: Transport,
    /// Whether the document differs from what was last saved.
    pub dirty: bool,
}

/// What a session holds, as mathematical values.
pub struct EditorView {
    pub layers: Seq<LayerView>,
    pub active: int,
    pub selection: Seq<usize>,
    pub drag_anchor: Option<Cell>,
    pub transport: Transport,
    pub dirty: bool,
}

impl EditorView {
    /// The invariant of a session: the active layer exists, every layer
    /// sounds on an instrument of the catalog, and the selection is valid
    /// for the notes of the active layer. A project with an active layer
    /// has at least one layer.
    pub open spec fn wf(self) -> bool {
        &&& 0 <= self.active < self.layers.len()
        &&& instruments_in_catalog(self.layers)
        &&& valid_selection(self.selection, self.active_notes().len())
    }

    pub open spec fn active_layer(self) -> LayerView {
        self.layers[self.active]
    }

    pub open spec fn active_notes(self) -> Seq<Note> {
        self.layers[self.active].notes
    }

    /// The session with other notes in the active layer.
    pub open spec fn with_active_notes(self, notes: Seq<Note>) -> EditorView {
        EditorView {
            layers: self.layers.update(self.active, LayerView { notes, ..self.active_layer() }),
            ..self
        }
    }

    /// The request that lets the user hear `pitch` on the active layer's
    /// instrument.
    pub open spec fn audition(self, pitch: u8) -> Trigger {
        Trigger { instrument: self.active_layer().instrument, pitch }
    }

    /// After "add note": the selection is empty; the note stands at the end
    /// of the active layer and the document is dirty, unless a note already
    /// stood at that tick and pitch.
    pub open spec fn add_note(self, time: u32, pitch: u8) -> EditorView {
        let target = Note { time, note: pitch };
        let cleared = EditorView { selection: Seq::empty(), ..self };
        if self.active_notes().contains(target) {
            cleared
        } else {
            EditorView { dirty: true, ..cleared.with_active_notes(self.active_notes().push(target)) }
        }
    }

    /// After "remove note": the selection is empty; the first note at that
    /// tick and pitch is gone and the document is dirty, if there was one.
    pub open spec fn remove_note(self, time: u32, pitch: u8) -> EditorView {
        let target = Note { time, note: pitch };
        let cleared = EditorView { selection: Seq::empty(), ..self };
        if self.active_notes().contains(target) {
            EditorView {
                dirty: true,
                ..cleared.with_active_notes(without_first(self.active_notes(), target))
            }
        } else {
            cleared
        }
    }

    /// After the start of a drag at `at`: the cell is kept as the anchor.
    pub open spec fn begin_drag(self, at: Cell) -> EditorView {
        EditorView { drag_anchor: Some(at), ..self }
    }

    /// After a rectangle selection from `start` to `end`: the notes of the
    /// active layer in the rectangle are selected as well.
    pub open spec fn select_rectangle(self, start: Cell, end: Cell) -> EditorView {
        EditorView {
            selection: rectangle_picks(self.active_notes(), self.selection, start, end),
            ..self
        }
    }

    /// After the end of a drag at `at`: the rectangle from the anchor to
    /// `at` is selected and the anchor is gone. Without an anchor nothing
    /// changes.
    pub open spec fn end_drag(self, at: Cell) -> EditorView {
        match self.drag_anchor {
            Some(anchor) => EditorView { drag_anchor: None, ..self.select_rectangle(anchor, at) },
            None => self,
        }
    }

    /// After "select all": every note of the active layer is selected.
    pub open spec fn select_all(self) -> EditorView {
        EditorView { selection: all_positions(self.active_notes().len()), ..self }
    }

    /// After "clear selection".
    pub open spec fn clear_selection(self) -> EditorView {
        EditorView { selection: Seq::empty(), ..self }
    }

    /// After "duplicate": the shifted copies of the selected notes stand at
    /// the end of the active layer, and they are the selection.
    pub open spec fn duplicate_selection(self) -> EditorView {
        let notes = self.active_notes();
        EditorView {
            selection: positions_from(notes.len(), self.selection.len()),
            dirty: true,
            ..self.with_active_notes(notes + copies_of(notes, self.selection))
        }
    }

    /// After "delete": the selected notes are gone and nothing is selected.
    pub open spec fn delete_selection(self) -> EditorView {
        EditorView {
            selection: Seq::empty(),
            dirty: true,
            ..self.with_active_notes(without_selected(self.active_notes(), self.selection))
        }
    }

    /// After a nudge: each selected note has moved one step; the selection
    /// stays.
    pub open spec fn nudge_selection(self, direction: Direction) -> EditorView {
        EditorView {
            dirty: true,
            ..self.with_active_notes(nudged_notes(self.active_notes(), self.selection, direction))
        }
    }

    /// The name that the layer with this number gets when it is added.
    pub open spec fn layer_name(number: nat) -> Seq<char> {
        "Layer "@ + decimal_text(number)
    }

    /// After "add layer": an empty layer on instrument 0 stands at the end
    /// and is active; nothing is selected.
    pub open spec fn add_layer(self) -> EditorView {
        EditorView {
            layers: self.layers.push(
                LayerView {
                    name: Self::layer_name(self.layers.len() + 1),
                    instrument: 0,
                    notes: Seq::empty(),
                },
            ),
            active: self.layers.len() as int,
            selection: Seq::empty(),
            dirty: true,
            ..self
        }
    }

    /// Whether "remove layer" takes the layer at `index` out: it exists
    /// and is not the only one.
    pub open spec fn can_remove_layer(self, index: int) -> bool {
        self.layers.len() > 1 && 0 <= index < self.layers.len()
    }

    /// After "remove layer": where the layer can be removed it is gone,
    /// nothing is selected, and the active index has moved down by one if
    /// it stood at or behind the removed layer (it stays at 0). Otherwise
    /// nothing changes.
    pub open spec fn remove_layer(self, index: int) -> EditorView {
        if self.can_remove_layer(index) {
            EditorView {
                layers: self.layers.remove(index),
                active: if self.active >= index && self.active > 0 {
                    self.active - 1
                } else {
                    self.active
                },
                selection: Seq::empty(),
                dirty: true,
                ..self
            }
        } else {
            self
        }
    }

    /// After "rename layer": the layer at `index`, if there is one, has the
    /// new name.
    pub open spec fn rename_layer(self, index: int, name: Seq<char>) -> EditorView {
        if 0 <= index < self.layers.len() {
            EditorView {
                layers: self.layers.update(index, LayerView { name, ..self.layers[index] }),
                dirty: true,
                ..self
            }
        } else {
            self
        }
    }

    /// Whether "set instrument" applies: the layer exists and the catalog
    /// holds the instrument.
    pub open spec fn can_set_instrument(self, index: int, instrument: u8) -> bool {
        0 <= index < self.layers.len() && instrument < INSTRUMENT_COUNT
    }

    /// After "set instrument": where it applies, the layer at `index`
    /// sounds on `instrument`.
    pub open spec fn set_layer_instrument(self, index: int, instrument: u8) -> EditorView {
        if self.can_set_instrument(index, instrument) {
            EditorView {
                layers: self.layers.update(index, LayerView { instrument, ..self.layers[index] }),
                dirty: true,
                ..self
            }
        } else {
            self
        }
    }

    /// After "switch layer": the layer at `index`, if there is one, is
    /// active and nothing is selected.
    pub open spec fn switch_active_layer(self, index: int) -> EditorView {
        if 0 <= index < self.layers.len() {
            EditorView { active: index, selection: Seq::empty(), ..self }
        } else {
            self
        }
    }

    /// After "new project": a fresh document with nothing unsaved. The
    /// transport goes on as it was.
    pub open spec fn new_project(self) -> EditorView {
        EditorView {
            layers: fresh_layers(),
            active: 0,
            selection: Seq::empty(),
            drag_anchor: None,
            dirty: false,
            ..self
        }
    }

    /// After "load project": a well-formed document, one with at least one
    /// layer and only instruments of the catalog, takes the place of the
    /// present one, with its first layer active and nothing unsaved. Any
    /// other document is refused and nothing changes.
    pub open spec fn load_project(self, layers: Seq<LayerView>) -> EditorView {
        if well_formed_layers(layers) {
            EditorView {
                layers,
                active: 0,
                selection: Seq::empty(),
                drag_anchor: None,
                dirty: false,
                ..self
            }
        } else {
            self
        }
    }

    /// After the document was written out.
    pub open spec fn mark_saved(self) -> EditorView {
        EditorView { dirty: false, ..self }
    }

    /// After the play/pause toggle.
    pub open spec fn toggle_play(self) -> EditorView {
        EditorView { transport: self.transport.toggled(), ..self }
    }

    /// After Stop.
    pub open spec fn stop(self) -> EditorView {
        EditorView { transport: self.transport.stopped(), ..self }
    }

    /// After a change of the rate.
    pub open spec fn set_tick_rate(self, milliticks_per_second: i32) -> EditorView {
        EditorView { transport: self.transport.with_rate(milliticks_per_second), ..self }
    }

    /// After one frame of `dt_micros` microseconds.
    pub open spec fn advance(self, dt_micros: u32) -> EditorView {
        EditorView { transport: self.transport.stepped(dt_micros), ..self }
    }

    /// The notes that a frame of `dt_micros` microseconds hands out.
    pub open spec fn fired_by_advance(self, dt_micros: u32) -> Seq<Trigger> {
        self.transport.advanced(dt_micros).firing(self.layers)
    }

    /// After a seek to `position`.
    pub open spec fn seek(self, position: i64) -> EditorView {
        EditorView { transport: self.transport.sought(position).marked(), ..self }
    }

    /// The notes that a seek to `position` hands out.
    pub open spec fn fired_by_seek(self, position: i64) -> Seq<Trigger> {
        self.transport.sought(position).firing(self.layers)
    }
}

impl View for Editor {
    type V = EditorView;

    open spec fn view(&self) -> EditorView {
        EditorView {
            layers: self.project@,
            active: self.active_layer_index as int,
            selection: self.selected_note_indices@,
            drag_anchor: self.drag_anchor,
            transport: self.transport,
            dirty: self.dirty,
        }
    }
}

impl Editor {
    /// The invariant of a session, on the session itself.
    pub open spec fn wf(&self) -> bool {
        self@.wf()
    }

    /// A session on a fresh project: the first layer is active, nothing is
    /// selected, playback has not begun, nothing is unsaved.
    pub fn new() -> (result: Self)
        ensures
            result.wf(),
            result@ == (EditorView {
                layers: fresh_layers(),
                active: 0,
                selection: Seq::empty(),
                drag_anchor: None,
                transport: Transport::initial(),
                dirty: false,
            }),
    {
        Editor {
            project: Project::new(),
            active_layer_index: 0,
            selected_note_indices: Vec::new(),
            drag_anchor: None,
            transport: Transport::new(),
            dirty: false,
        }
    }

    /// Whether the session's invariant holds. The operations keep it; this
    /// is for a session whose fields were set by hand.
    pub fn is_well_formed(&self) -> (ok: bool)
        ensures
            ok == self.wf(),
    {
        if self.active_layer_index >= self.project.layers.len() {
            return false;
        }
        if !self.project.is_well_formed() {
            return false;
        }
        let count = self.project.layers[self.active_layer_index].notes.len();
        selection::is_valid_selection(&self.selected_note_indices, count)
    }

    /// The request that lets the user hear `pitch` on the active layer's
    /// instrument. Nothing changes.
    pub fn audition(&self, pitch: u8) -> (heard: Trigger)
        requires
            self.wf(),
        ensures
            heard == self@.audition(pitch),
            heard.instrument < INSTRUMENT_COUNT,
    {
        Trigger { instrument: self.project.layers[self.active_layer_index].instrument, pitch }
    }

    /// Places a note at `time` and `pitch` in the active layer, unless one
    /// stands there already, and clears the selection. Either way the
    /// result is the request that lets the user hear the pitch.
    pub fn add_note(&mut self, time: u32, pitch: u8) -> (heard: Trigger)
        requires
            old(self).wf(),
        ensures
            final(self).wf(),
            final(self)@ == old(self)@.add_note(time, pitch),
            heard == old(self)@.audition(pitch),
            heard.instrument < INSTRUMENT_COUNT,
    {
        let active = self.active_layer_index;
        let added = edit::add_note(&mut self.project.layers[active].notes, Note::new(time, pitch));
        self.selected_note_indices.clear();
        if added {
            self.dirty = true;
        }
        assert(self@.layers =~= old(self)@.add_note(time, pitch).layers);
        Trigger { instrument: self.project.layers[active].instrument, pitch }
    }

    /// Takes the first note at `time` and `pitch` out of the active layer,
    /// if there is one, and clears the selection.
    pub fn remove_note(&mut self, time: u32, pitch: u8)
        requires
            old(self).wf(),
        ensures
            final(self).wf(),
            final(self)@ == old(self)@.remove_note(time, pitch),
    {
        let active = self.active_layer_index;
        let removed = edit::remove_note(
            &mut self.project.layers[active].notes,
            Note::new(time, pitch),
        );
        self.selected_note_indices.clear();
        if removed {
            self.dirty = true;
        }
        assert(self@.layers =~= old(self)@.remove_note(time, pitch).layers);
    }
    /// Starts a drag at the cell `at`.
    pub fn begin_drag(&mut self, at: Cell)
        ensures
            old(self).wf() ==> final(self).wf(),
            final(self)@ == old(self)@.begin_drag(at),
    {
        self.drag_anchor = Some(at);
    }

    /// Selects, in addition to what is selected, the notes of the active
    /// layer whose cell lies in the rectangle from `start` to `end`.
    pub fn select_rectangle(&mut self, start: Cell, end: Cell)
        requires
            old(self).wf(),
        ensures
            final(self).wf(),
            final(self)@ == old(self)@.select_rectangle(start, end),
    {
        let active = self.active_layer_index;
        selection::select_rectangle(
            &self.project.layers[active].notes,
            &mut self.selected_note_indices,
            start,
            end,
        );
    }

    /// Ends a drag at the cell `at`: selects the rectangle between the
    /// anchor and `at`. Says whether a drag was under way.
    pub fn end_drag(&mut self, at: Cell) -> (selected: bool)
        requires
            old(self).wf(),
        ensures
            final(self).wf(),
            final(self)@ == old(self)@.end_drag(at),
            selected == old(self)@.drag_anchor.is_some(),
    {
        match self.drag_anchor {
            Some(anchor) => {
                self.select_rectangle(anchor, at);
                self.drag_anchor = None;
                true
            },
            None => false,
        }
    }

    /// Selects every note of the active layer.
    pub fn select_all(&mut self)
        requires
            old(self).wf(),
        ensures
            final(self).wf(),
            final(self)@ == old(self)@.select_all(),
    {
        let active = self.active_layer_index;
        self.selected_note_indices = selection::select_all(&self.project.layers[active].notes);
    }

    /// Empties the selection.
    pub fn clear_selection(&mut self)
        ensures
            old(self).wf() ==> final(self).wf(),
            final(self)@ == old(self)@.clear_selection(),
    {
        self.selected_note_indices.clear();
    }

    /// Copies the selected notes two ticks later and two pitches up, and
    /// selects the copies.
    pub fn duplicate_selection(&mut self)
        requires
            old(self).wf(),
        ensures
            final(self).wf(),
            final(self)@ == old(self)@.duplicate_selection(),
    {
        let active = self.active_layer_index;
        edit::duplicate_selected(
            &mut self.project.layers[active].notes,
            &mut self.selected_note_indices,
        );
        self.dirty = true;
        assert(self@.layers =~= old(self)@.duplicate_selection().layers);
    }

    /// Deletes the selected notes and empties the selection.
    pub fn delete_selection(&mut self)
        requires
            old(self).wf(),
        ensures
            final(self).wf(),
            final(self)@ == old(self)@.delete_selection(),
    {
        let active = self.active_layer_index;
        edit::delete_selected(&mut self.project.layers[active].notes, &self.selected_note_indices);
        self.selected_note_indices.clear();
        self.dirty = true;
        assert(self@.layers =~= old(self)@.delete_selection().layers);
    }

    /// Moves each selected note one step in `direction`.
    pub fn nudge_selection(&mut self, direction: Direction)
        requires
            old(self).wf(),
        ensures
            final(self).wf(),
            final(self)@ == old(self)@.nudge_selection(direction),
    {
        let active = self.active_layer_index;
        edit::nudge_selected(
            &mut self.project.layers[active].notes,
            &self.selected_note_indices,
            direction,
        );
        self.dirty = true;
        assert(self@.layers =~= old(self)@.nudge_selection(direction).layers);
    }
    /// Adds an empty layer named "Layer" and its number, makes it the
    /// active one and empties the selection.
    pub fn add_layer(&mut self)
        requires
            old(self).project.layers.len() < usize::MAX,
        ensures
            old(self).wf() ==> final(self).wf(),
            final(self)@ == old(self)@.add_layer(),
    {
        let count = self.project.layers.len();
        let mut name = String::from_str("Layer ");
        let number = decimal_string(count + 1);
        name.append(number.as_str());
        self.project.layers.push(Layer::new(name, 0));
        self.active_layer_index = count;
        self.selected_note_indices.clear();
        self.dirty = true;
        assert(self@.layers =~= old(self)@.add_layer().layers);
    }

    /// Removes the layer at `index`, unless it is the only layer or there
    /// is no such layer. Says whether it was removed.
    pub fn remove_layer(&mut self, index: usize) -> (removed: bool)
        ensures
            old(self).wf() ==> final(self).wf(),
            final(self)@ == old(self)@.remove_layer(index as int),
            removed == old(self)@.can_remove_layer(index as int),
    {
        if self.project.layers.len() > 1 && index < self.project.layers.len() {
            let _ = self.project.layers.remove(index);
            self.selected_note_indices.clear();
            if self.active_layer_index >= index {
                self.active_layer_index = self.active_layer_index.saturating_sub(1);
            }
            self.dirty = true;
            assert(self@.layers =~= old(self)@.remove_layer(index as int).layers);
            true
        } else {
            false
        }
    }

    /// Gives the layer at `index` another name. Says whether there is such
    /// a layer.
    pub fn rename_layer(&mut self, index: usize, name: String) -> (renamed: bool)
        ensures
            old(self).wf() ==> final(self).wf(),
            final(self)@ == old(self)@.rename_layer(index as int, name@),
            renamed == (index < old(self)@.layers.len()),
    {
        if index < self.project.layers.len() {
            self.project.layers[index].name = name;
            self.dirty = true;
            assert(self@.layers =~= old(self)@.rename_layer(index as int, name@).layers);
            true
        } else {
            false
        }
    }

    /// Lets the layer at `index` sound on `instrument`. Where the layer
    /// exists and the catalog holds the instrument, the result is the
    /// request that lets the user hear it at the reference pitch.
    pub fn set_layer_instrument(&mut self, index: usize, instrument: u8) -> (heard: Option<Trigger>)
        ensures
            old(self).wf() ==> final(self).wf(),
            final(self)@ == old(self)@.set_layer_instrument(index as int, instrument),
            heard == if old(self)@.can_set_instrument(index as int, instrument) {
                Some(Trigger { instrument, pitch: REFERENCE_PITCH })
            } else {
                None
            },
    {
        if index < self.project.layers.len() && instrument < INSTRUMENT_COUNT {
            self.project.layers[index].instrument = instrument;
            self.dirty = true;
            assert(self@.layers =~= old(self)@.set_layer_instrument(
                index as int,
                instrument,
            ).layers);
            Some(preview(instrument))
        } else {
            None
        }
    }

    /// Makes the layer at `index` the active one and empties the
    /// selection. Says whether there is such a layer.
    pub fn switch_active_layer(&mut self, index: usize) -> (switched: bool)
        ensures
            old(self).wf() ==> final(self).wf(),
            final(self)@ == old(self)@.switch_active_layer(index as int),
            switched == (index < old(self)@.layers.len()),
    {
        if index < self.project.layers.len() {
            self.active_layer_index = index;
            self.selected_note_indices.clear();
            true
        } else {
            false
        }
    }

    /// Starts over with a fresh document.
    pub fn new_project(&mut self)
        ensures
            final(self).wf(),
            final(self)@ == old(self)@.new_project(),
    {
        self.project = Project::new();
        self.active_layer_index = 0;
        self.selected_note_indices.clear();
        self.drag_anchor = None;
        self.dirty = false;
    }

    /// Takes `project` as the document if it is well formed: it has at
    /// least one layer, and each layer sounds on an instrument of the
    /// catalog. Says whether it was taken; a refused document leaves the
    /// session as it was.
    pub fn load_project(&mut self, project: Project) -> (loaded: bool)
        ensures
            old(self).wf() || loaded ==> final(self).wf(),
            final(self)@ == old(self)@.load_project(project@),
            loaded == project.wf(),
    {
        if project.is_well_formed() {
            self.project = project;
            self.active_layer_index = 0;
            self.selected_note_indices.clear();
            self.drag_anchor = None;
            self.dirty = false;
            true
        } else {
            false
        }
    }

    /// A copy of the document, to be written out. The session does not
    /// change: the caller reports a successful write with `mark_saved`.
    pub fn save_project(&self) -> (document: Project)
        ensures
            document@ == self@.layers,
            document.wf() == self.project.wf(),
            self.wf() ==> document.wf(),
    {
        self.project.clone()
    }

    /// Records that the document was written out.
    pub fn mark_saved(&mut self)
        ensures
            old(self).wf() ==> final(self).wf(),
            final(self)@ == old(self)@.mark_saved(),
    {
        self.dirty = false;
    }

    /// The play/pause toggle.
    pub fn toggle_play(&mut self)
        ensures
            old(self).wf() ==> final(self).wf(),
            final(self)@ == old(self)@.toggle_play(),
    {
        self.transport.toggle_play();
    }

    /// Stop.
    pub fn stop(&mut self)
        ensures
            old(self).wf() ==> final(self).wf(),
            final(self)@ == old(self)@.stop(),
    {
        self.transport.stop();
    }

    /// Sets the rate of playback, in thousandths of a tick per second.
    pub fn set_tick_rate(&mut self, milliticks_per_second: i32)
        ensures
            old(self).wf() ==> final(self).wf(),
            final(self)@ == old(self)@.set_tick_rate(milliticks_per_second),
    {
        self.transport.set_tick_rate(milliticks_per_second);
    }

    /// One frame: while playing, the position moves by the rate times
    /// `dt_micros` microseconds; then the notes at the tick that the
    /// position has reached are handed out, unless that tick was the last
    /// to be handed out.
    pub fn advance(&mut self, dt_micros: u32) -> (fired: Vec<Trigger>)
        ensures
            old(self).wf() ==> final(self).wf(),
            final(self)@ == old(self)@.advance(dt_micros),
            fired@ == old(self)@.fired_by_advance(dt_micros),
            old(self).wf() ==> sound_in_catalog(fired@),
    {
        self.transport.advance(dt_micros);
        self.transport.poll(&self.project)
    }

    /// Sets the position, playing or not; then the notes at the tick of
    /// that position are handed out, unless that tick was the last to be
    /// handed out. Ticks that the jump passes over hand out nothing.
    pub fn seek(&mut self, position: i64) -> (fired: Vec<Trigger>)
        ensures
            old(self).wf() ==> final(self).wf(),
            final(self)@ == old(self)@.seek(position),
            fired@ == old(self)@.fired_by_seek(position),
            old(self).wf() ==> sound_in_catalog(fired@),
    {
        self.transport.seek(position);
        self.transport.poll(&self.project)
    }
}

/// The operations on notes and on the selection keep the invariant of the
/// session: afterwards the active layer still exists and every selected
/// position is that of a note, once.
pub proof fn lemma_edits_keep_invariant(
    session: EditorView,
    time: u32,
    pitch: u8,
    start: Cell,
    end: Cell,
    direction: Direction,
)
    requires
        session.wf(),
        session.active_notes().len() + session.selection.len() <= usize::MAX,
    ensures
        session.add_note(time, pitch).wf(),
        session.remove_note(time, pitch).wf(),
        session.begin_drag(start).wf(),
        session.select_rectangle(start, end).wf(),
        session.end_drag(end).wf(),
        session.select_all().wf(),
        session.clear_selection().wf(),
        session.duplicate_selection().wf(),
        session.delete_selection().wf(),
        session.nudge_selection(direction).wf(),
{
    let notes = session.active_notes();
    selection::lemma_rectangle_picks_valid(notes, session.selection, start, end);
    if session.drag_anchor is Some {
        selection::lemma_rectangle_picks_valid(
            notes,
            session.selection,
            session.drag_anchor->0,
            end,
        );
    }
}

/// The operations on layers and on the document keep the invariant of the
/// session. The document of a session is always well formed, whatever was
/// offered to it: a document without layers, or with a layer on an
/// instrument outside the catalog, is refused and the session stays as it
/// was.
pub proof fn lemma_layer_operations_keep_invariant(
    session: EditorView,
    index: int,
    name: Seq<char>,
    instrument: u8,
    layers: Seq<LayerView>,
)
    requires
        session.wf(),
    ensures
        session.add_layer().wf(),
        session.remove_layer(index).wf(),
        session.rename_layer(index, name).wf(),
        session.set_layer_instrument(index, instrument).wf(),
        session.switch_active_layer(index).wf(),
        session.new_project().wf(),
        session.load_project(layers).wf(),
        well_formed_layers(session.load_project(layers).layers),
        !well_formed_layers(layers) ==> session.load_project(layers) == session,
        well_formed_layers(layers) ==> session.load_project(layers).layers == layers,
        session.mark_saved().wf(),
{
}

/// A well-formed session asks the audio player only for instruments of the
/// catalog: in the notes that a frame or a seek hands out, and when the
/// user auditions a pitch.
pub proof fn lemma_session_sounds_in_catalog(
    session: EditorView,
    dt_micros: u32,
    position: i64,
    pitch: u8,
)
    requires
        session.wf(),
    ensures
        sound_in_catalog(session.fired_by_advance(dt_micros)),
        sound_in_catalog(session.fired_by_seek(position)),
        session.audition(pitch).instrument < INSTRUMENT_COUNT,
{
    lemma_triggers_sound_in_catalog(
        session.layers,
        session.transport.advanced(dt_micros).spec_current_tick(),
    );
    lemma_triggers_sound_in_catalog(
        session.layers,
        session.transport.sought(position).spec_current_tick(),
    );
}

/// Placing a note twice at the same tick and pitch is the same as placing
/// it once, and where the active layer held that note at most once before,
/// it holds it exactly once afterwards.
pub proof fn lemma_add_note_twice(session: EditorView, time: u32, pitch: u8)
    requires
        session.wf(),
    ensures
        session.add_note(time, pitch).add_note(time, pitch) == session.add_note(time, pitch),
        occurrences(session.active_notes(), Note { time, note: pitch }) <= 1 ==> occurrences(
            session.add_note(time, pitch).add_note(time, pitch).active_notes(),
            Note { time, note: pitch },
        ) == 1,
{
    let target = Note { time, note: pitch };
    if !session.active_notes().contains(target) {
        let placed = session.active_notes().push(target);
        assert(placed[placed.len() - 1] == target);
    }
    if occurrences(session.active_notes(), target) <= 1 {
        edit::lemma_added_occurs_once(session.active_notes(), target);
    }
}

/// Removing a note from a tick and pitch where the active layer has none,
/// and so from an empty layer, leaves every layer and the unsaved-changes
/// flag as they were.
pub proof fn lemma_remove_absent_note(session: EditorView, time: u32, pitch: u8)
    requires
        session.wf(),
        !session.active_notes().contains(Note { time, note: pitch }),
    ensures
        session.remove_note(time, pitch) == session.clear_selection(),
        session.remove_note(time, pitch).layers == session.layers,
        session.remove_note(time, pitch).dirty == session.dirty,
{
}

/// Removing a layer keeps the session well formed, and the active layer
/// follows: an active layer in front of the removed one stays, one behind
/// it is still the same layer, and where the last layer was active and is
/// removed, the layer before it becomes active. The selection is empty
/// afterwards.
pub proof fn lemma_remove_layer_keeps_active_valid(session: EditorView, index: int)
    requires
        session.wf(),
        session.can_remove_layer(index),
    ensures
        session.remove_layer(index).wf(),
        session.remove_layer(index).layers.len() == session.layers.len() - 1,
        session.remove_layer(index).selection.len() == 0,
        session.active < index ==> session.remove_layer(index).active_layer()
            == session.active_layer(),
        session.active > index ==> session.remove_layer(index).active_layer()
            == session.active_layer(),
        session.active == index && index == session.layers.len() - 1 ==> session.remove_layer(
            index,
        ).active == session.layers.len() - 2,
{
}

/// The only layer is never removed, and no layer is removed at an index
/// that does not exist.
pub proof fn lemma_last_layer_stays(session: EditorView, index: int)
    requires
        session.wf(),
        session.layers.len() == 1 || !(0 <= index < session.layers.len()),
    ensures
        session.remove_layer(index) == session,
{
}

/// Each copy that "duplicate" makes stands two ticks later and two pitches
/// higher than the note it was made from, as far as the ranges reach, and
/// the copy's position takes that note's place in the selection.
pub proof fn lemma_duplicate_selects_copies(session: EditorView, k: int)
    requires
        session.wf(),
        session.active_notes().len() + session.selection.len() <= usize::MAX,
        0 <= k < session.selection.len(),
    ensures
        session.duplicate_selection().selection.len() == session.selection.len(),
        session.duplicate_selection().selection[k] == session.active_notes().len() + k,
        session.duplicate_selection().active_notes()[session.duplicate_selection().selection[k] as int]
            == shifted(session.active_notes()[session.selection[k] as int]),
        session.duplicate_selection().active_notes().take(session.active_notes().len() as int)
            == session.active_notes(),
{
}

/// A nudge to the left never moves a note before tick 0: a selected note at
/// tick 0 stays there, and any other selected note moves one tick.
pub proof fn lemma_nudge_left_stops_at_zero(session: EditorView, k: int)
    requires
        session.wf(),
        0 <= k < session.selection.len(),
    ensures
        ({
            let position = session.selection[k] as int;
            let before = session.active_notes()[position];
            let after = session.nudge_selection(Direction::Left).active_notes()[position];
            &&& after.note == before.note
            &&& before.time == 0 ==> after.time == 0
            &&& before.time > 0 ==> after.time == before.time - 1
        }),
{
}

/// Stop followed by the play toggle starts playback over: the position is
/// exactly 0, and the next frame or seek that stays within tick 0 hands out
/// the notes at tick 0, whatever was fired before.
pub proof fn lemma_stop_then_play_starts_over(session: EditorView, dt_micros: u32, position: i64)
    ensures
        session.stop().toggle_play().transport.is_playing,
        session.stop().toggle_play().transport.playback_position == 0,
        session.stop().toggle_play().layers == session.layers,
        tick_at(session.stop().toggle_play().transport.position_after(dt_micros as nat)) == 0
            ==> session.stop().toggle_play().fired_by_advance(dt_micros) == project_triggers(
            session.layers,
            0,
        ),
        tick_at(position) == 0 ==> session.stop().toggle_play().fired_by_seek(position)
            == project_triggers(session.layers, 0),
{
}

/// Saving and loading give the document back: a session that loads the
/// document that another saved holds the same layers, field for field, and
/// has nothing unsaved.
pub proof fn lemma_load_of_saved(source: EditorView, target: EditorView)
    requires
        source.wf(),
    ensures
        target.load_project(source.layers).layers == source.layers,
        !target.load_project(source.layers).dirty,
        target.load_project(source.layers).wf(),
{
}

} // verus!
