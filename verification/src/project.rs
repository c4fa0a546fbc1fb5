//! The document: notes, layers and the project that owns them.

use vstd::prelude::*;
use crate::catalog::INSTRUMENT_COUNT;

verus! {

/// One note event: the tick at which it sounds and its pitch.
#[derive(Clone, Copy, Debug, PartialEq, Eq, Structural)]
pub struct Note {
    pub time: u32,
    pub note: u8,
}

impl Note {
    /// A note at tick `time` with pitch `note`.
    pub fn new(time: u32, note: u8) -> (result: Self)
        ensures
            result == (Note { time, note }),
    {
        Self { time, note }
    }
}

/// A named track of notes that all sound on one instrument. The notes stand
/// in the order in which they were placed, not in order of time.
#[derive(Debug, PartialEq, Eq)]
pub struct Layer {
    pub name: String,
    pub instrument: u8,
    pub notes: Vec<Note>,
}

/// What a layer holds, as mathematical values.
pub struct LayerView {
    pub name: Seq<char>,
    pub instrument: u8,
    pub notes: Seq<Note>,
}

impl View for Layer {
    type V = LayerView;

    open spec fn view(&self) -> LayerView {
        LayerView { name: self.name@, instrument: self.instrument, notes: self.notes@ }
    }
}

impl Layer {
    /// An empty layer.
    pub fn new(name: String, instrument: u8) -> (result: Self)
        ensures
            result@ == (LayerView { name: name@, instrument, notes: Seq::empty() }),
    {
        Self { name, instrument, notes: Vec::new() }
    }
}

impl Clone for Layer {
    /// A copy that holds the same name, instrument and notes.
    fn clone(&self) -> (result: Self)
        ensures
            result@ == self@,
    {
        let mut notes: Vec<Note> = Vec::new();
        let mut i: usize = 0;
        while i < self.notes.len()
            invariant
                i <= self.notes.len(),
                notes@ == self.notes@.take(i as int),
            decreases self.notes.len() - i,
        {
            notes.push(self.notes[i]);
            i += 1;
        }
        assert(notes@ =~= self.notes@);
        Self { name: self.name.clone(), instrument: self.instrument, notes }
    }
}

/// The whole document: its layers, in display order.
#[derive(Debug, PartialEq, Eq)]
pub struct Project {
    pub layers: Vec<Layer>,
}

impl View for Project {
    type V = Seq<LayerView>;

    open spec fn view(&self) -> Seq<LayerView> {
        Seq::new(self.layers@.len(), |i: int| self.layers@[i]@)
    }
}

/// The name of the layer that a fresh project starts with.
pub open spec fn first_layer_name() -> Seq<char> {
    "Layer 1"@
}

/// The layers of a fresh project: one empty layer on instrument 0.
pub open spec fn fresh_layers() -> Seq<LayerView> {
    seq![LayerView { name: first_layer_name(), instrument: 0, notes: Seq::empty() }]
}

/// Whether each of these layers sounds on an instrument of the catalog.
pub open spec fn instruments_in_catalog(layers: Seq<LayerView>) -> bool {
    forall|l: int| 0 <= l < layers.len() ==> (#[trigger] layers[l]).instrument < INSTRUMENT_COUNT
}

/// Whether these layers make a document: there is at least one, and each
/// sounds on an instrument of the catalog.
pub open spec fn well_formed_layers(layers: Seq<LayerView>) -> bool {
    layers.len() >= 1 && instruments_in_catalog(layers)
}

impl Project {
    /// A project is well formed when it has at least one layer and each
    /// layer sounds on an instrument of the catalog.
    pub open spec fn wf(&self) -> bool {
        well_formed_layers(self@)
    }

    /// Whether the project is well formed.
    pub fn is_well_formed(&self) -> (ok: bool)
        ensures
            ok == self.wf(),
    {
        if self.layers.len() == 0 {
            return false;
        }
        let mut i: usize = 0;
        while i < self.layers.len()
            invariant
                i <= self.layers.len(),
                forall|l: int| 0 <= l < i ==> (#[trigger] self@[l]).instrument < INSTRUMENT_COUNT,
            decreases self.layers.len() - i,
        {
            if self.layers[i].instrument >= INSTRUMENT_COUNT {
                assert(self@[i as int].instrument >= INSTRUMENT_COUNT);
                return false;
            }
            i += 1;
        }
        true
    }

    /// A project with one empty layer, named "Layer 1", on instrument 0.
    pub fn new() -> (result: Self)
        ensures
            result.wf(),
            result@ == fresh_layers(),
    {
        let mut layers: Vec<Layer> = Vec::new();
        layers.push(Layer::new("Layer 1".to_string(), 0));
        let result = Self { layers };
        result
    }
}

impl Clone for Project {
    /// A copy that holds the same layers.
    fn clone(&self) -> (result: Self)
        ensures
            result@ == self@,
            result.wf() == self.wf(),
    {
        let mut layers: Vec<Layer> = Vec::new();
        let mut i: usize = 0;
        while i < self.layers.len()
            invariant
                i <= self.layers.len(),
                layers@.len() == i,
                forall|j: int| 0 <= j < i ==> layers@[j]@ == self.layers@[j]@,
            decreases self.layers.len() - i,
        {
            layers.push(self.layers[i].clone());
            i += 1;
        }
        let result = Self { layers };
        result
    }
}

} // verus!
