//! The transport: where playback stands, whether it runs, and which notes
//! are due when the position reaches a new tick.
//!
//! Positions are whole numbers of `UNITS_PER_TICK`-ths of a tick, rates are
//! thousandths of a tick per second, and elapsed time is given in
//! microseconds, so that a rate times an elapsed time is a distance in
//! position units.

use vstd::prelude::*;
use crate::catalog::{sound_in_catalog, Trigger, INSTRUMENT_COUNT};
use crate::project::{instruments_in_catalog, LayerView, Note, Project};

verus! {

/// How many position units make one tick.
pub const UNITS_PER_TICK: i64 = 1_000_000_000;

/// The tick number that stands for "no tick": the value of the current tick
/// while the position is negative, and of the last fired tick after a fresh
/// start.
pub const NO_TICK: u32 = 0xFFFF_FFFF;

/// The position of a transport that has not begun to play.
pub const NOT_STARTED: i64 = -0x8000_0000_0000_0000;

/// The rate of a new transport: ten ticks per second.
pub const DEFAULT_RATE: i32 = 10_000;

/// The tick in which a position lies: `NO_TICK` for a negative position,
/// else the whole ticks below it, held at `NO_TICK` where they exceed it.
pub open spec fn tick_at(position: i64) -> u32 {
    if position < 0 {
        NO_TICK
    } else if position / UNITS_PER_TICK >= NO_TICK {
        NO_TICK
    } else {
        (position / UNITS_PER_TICK) as u32
    }
}

/// A position held within the range of positions.
pub open spec fn clamp_position(position: int) -> i64 {
    if position < i64::MIN {
        i64::MIN
    } else if position > i64::MAX {
        i64::MAX
    } else {
        position as i64
    }
}

/// The requests for the notes of one layer that stand at `tick`, in the
/// order of the notes.
pub open spec fn layer_triggers(notes: Seq<Note>, instrument: u8, tick: u32) -> Seq<Trigger>
    decreases notes.len(),
{
    if notes.len() == 0 {
        Seq::empty()
    } else {
        let before = layer_triggers(notes.drop_last(), instrument, tick);
        if notes.last().time == tick {
            before.push(Trigger { instrument, pitch: notes.last().note })
        } else {
            before
        }
    }
}

/// The requests for all notes of a project that stand at `tick`: layer by
/// layer, and within a layer in the order of its notes.
pub open spec fn project_triggers(layers: Seq<LayerView>, tick: u32) -> Seq<Trigger>
    decreases layers.len(),
{
    if layers.len() == 0 {
        Seq::empty()
    } else {
        project_triggers(layers.drop_last(), tick) + layer_triggers(
            layers.last().notes,
            layers.last().instrument,
            tick,
        )
    }
}

/// The sum of a list of elapsed times.
pub open spec fn total_elapsed(steps: Seq<u32>) -> nat
    decreases steps.len(),
{
    if steps.len() == 0 {
        0
    } else {
        total_elapsed(steps.drop_last()) + steps.last() as nat
    }
}

/// The state of playback. It is not part of the document.
#[derive(Clone, Copy, Debug, PartialEq, Eq, Structural)]
pub struct Transport {
    /// Where playback stands, in position units. Negative: not begun.
    pub playback_position: i64,
    pub is_playing: bool,
    /// The rate, in thousandths of a tick per second. It may be negative.
    pub milliticks_per_second: i32,
    /// The tick whose notes were handed out last, or `NO_TICK`.
    pub last_fired_tick: u32,
}

impl Transport {
    /// The transport of a new session: not begun, paused, at the default
    /// rate.
    pub open spec fn initial() -> Transport {
        Transport {
            playback_position: NOT_STARTED,
            is_playing: false,
            milliticks_per_second: DEFAULT_RATE,
            last_fired_tick: 0,
        }
    }

    /// The tick in which the position lies.
    pub open spec fn spec_current_tick(self) -> u32 {
        tick_at(self.playback_position)
    }

    /// Whether the position has reached a tick whose notes were not yet
    /// handed out.
    pub open spec fn due(self) -> bool {
        self.spec_current_tick() != self.last_fired_tick
    }

    /// The notes to hand out now for a project with these layers.
    pub open spec fn firing(self, layers: Seq<LayerView>) -> Seq<Trigger> {
        if self.due() {
            project_triggers(layers, self.spec_current_tick())
        } else {
            Seq::empty()
        }
    }

    /// The transport after its due notes were handed out.
    pub open spec fn marked(self) -> Transport {
        Transport { last_fired_tick: self.spec_current_tick(), ..self }
    }

    /// The transport after Stop.
    pub open spec fn stopped(self) -> Transport {
        Transport { is_playing: false, playback_position: NOT_STARTED, ..self }
    }

    /// The transport after the play/pause toggle. Going into play from a
    /// negative position starts at 0 with no tick fired.
    pub open spec fn toggled(self) -> Transport {
        if !self.is_playing && self.playback_position < 0 {
            Transport {
                is_playing: true,
                playback_position: 0,
                last_fired_tick: NO_TICK,
                ..self
            }
        } else {
            Transport { is_playing: !self.is_playing, ..self }
        }
    }

    /// Where the position stands once `elapsed` microseconds have passed at
    /// the present rate: unmoved while paused, else moved by rate times
    /// time and held within the range of positions.
    pub open spec fn position_after(self, elapsed: nat) -> i64 {
        if self.is_playing {
            clamp_position(self.playback_position + elapsed * self.milliticks_per_second)
        } else {
            self.playback_position
        }
    }

    /// The transport after one Advance by `dt_micros` microseconds.
    pub open spec fn advanced(self, dt_micros: u32) -> Transport {
        Transport { playback_position: self.position_after(dt_micros as nat), ..self }
    }

    /// The transport after one frame: an Advance by `dt_micros`
    /// microseconds, then the hand-out of the notes that became due.
    pub open spec fn stepped(self, dt_micros: u32) -> Transport {
        self.advanced(dt_micros).marked()
    }

    /// The transport after one frame for each of `steps`, in order.
    pub open spec fn stepped_each(self, steps: Seq<u32>) -> Transport
        decreases steps.len(),
    {
        if steps.len() == 0 {
            self
        } else {
            self.stepped_each(steps.drop_last()).stepped(steps.last())
        }
    }

    /// The transport after a seek to `position`.
    pub open spec fn sought(self, position: i64) -> Transport {
        Transport { playback_position: position, ..self }
    }

    /// The transport with another rate.
    pub open spec fn with_rate(self, milliticks_per_second: i32) -> Transport {
        Transport { milliticks_per_second, ..self }
    }

    /// A transport that has not begun: paused, at the default rate.
    pub fn new() -> (result: Self)
        ensures
            result == Transport::initial(),
    {
        Transport {
            playback_position: NOT_STARTED,
            is_playing: false,
            milliticks_per_second: DEFAULT_RATE,
            last_fired_tick: 0,
        }
    }

    /// The tick in which the position lies.
    #[verifier::when_used_as_spec(spec_current_tick)]
    pub fn current_tick(self) -> (tick: u32)
        ensures
            tick == self.spec_current_tick(),
    {
        if self.playback_position < 0 {
            NO_TICK
        } else {
            let whole: i64 = self.playback_position / UNITS_PER_TICK;
            if whole >= NO_TICK as i64 {
                NO_TICK
            } else {
                whole as u32
            }
        }
    }

    /// Stop: playback halts and the position goes back to "not begun".
    pub fn stop(&mut self)
        ensures
            *final(self) == old(self).stopped(),
    {
        self.is_playing = false;
        self.playback_position = NOT_STARTED;
    }

    /// The play/pause toggle.
    pub fn toggle_play(&mut self)
        ensures
            *final(self) == old(self).toggled(),
    {
        if !self.is_playing && self.playback_position < 0 {
            self.playback_position = 0;
            self.last_fired_tick = NO_TICK;
        }
        self.is_playing = !self.is_playing;
    }

    /// Sets the rate. The position stays; only later advances go by the new
    /// rate.
    pub fn set_tick_rate(&mut self, milliticks_per_second: i32)
        ensures
            *final(self) == old(self).with_rate(milliticks_per_second),
    {
        self.milliticks_per_second = milliticks_per_second;
    }

    /// Advance: while playing, the position moves by rate times elapsed
    /// time; while paused nothing moves.
    pub fn advance(&mut self, dt_micros: u32)
        ensures
            *final(self) == old(self).advanced(dt_micros),
    {
        if self.is_playing {
            let dt: i64 = dt_micros as i64;
            let rate: i64 = self.milliticks_per_second as i64;
            assert(-0x8000_0000_0000_0000 <= dt * rate <= 0x7fff_ffff_ffff_ffff)
                by (nonlinear_arith)
                requires
                    0 <= dt <= 0xffff_ffff,
                    -0x8000_0000 <= rate <= 0x7fff_ffff,
            ;
            let step: i64 = dt * rate;
            self.playback_position = match self.playback_position.checked_add(step) {
                Some(position) => position,
                None => if step < 0 {
                    i64::MIN
                } else {
                    i64::MAX
                },
            };
        }
    }

    /// Seek: the position is set directly, playing or not.
    pub fn seek(&mut self, position: i64)
        ensures
            *final(self) == old(self).sought(position),
    {
        self.playback_position = position;
    }

    /// Hands out the notes that are due, each once: where the current tick
    /// differs from the last fired one, all notes of `project` at the
    /// current tick, and nothing otherwise. The current tick is then the
    /// last fired one.
    pub fn poll(&mut self, project: &Project) -> (fired: Vec<Trigger>)
        ensures
            *final(self) == old(self).marked(),
            fired@ == old(self).firing(project@),
            instruments_in_catalog(project@) ==> sound_in_catalog(fired@),
    {
        let tick = self.current_tick();
        let fired = if tick != self.last_fired_tick {
            notes_due_at(project, tick)
        } else {
            Vec::new()
        };
        self.last_fired_tick = tick;
        fired
    }
}

/// What a layer hands out at a tick: a request is among them exactly when
/// it names the layer's instrument and the pitch of one of the layer's
/// notes at that tick.
pub proof fn lemma_layer_triggers_are_the_notes_at_tick(
    notes: Seq<Note>,
    instrument: u8,
    tick: u32,
    trigger: Trigger,
)
    ensures
        layer_triggers(notes, instrument, tick).contains(trigger) <==> (trigger.instrument
            == instrument && notes.contains(Note { time: tick, note: trigger.pitch })),
    decreases notes.len(),
{
    let fired = layer_triggers(notes, instrument, tick);
    let wanted = Note { time: tick, note: trigger.pitch };
    if notes.len() > 0 {
        let shorter = notes.drop_last();
        let before = layer_triggers(shorter, instrument, tick);
        lemma_layer_triggers_are_the_notes_at_tick(shorter, instrument, tick, trigger);
        if trigger.instrument == instrument && notes.contains(wanted) {
            let i = choose|i: int| 0 <= i < notes.len() && notes[i] == wanted;
            if i < shorter.len() {
                assert(shorter[i] == wanted);
                let k = choose|k: int| 0 <= k < before.len() && before[k] == trigger;
                assert(fired[k] == trigger);
            } else {
                assert(fired[fired.len() - 1] == trigger);
            }
        }
    }
}

/// What a project hands out at a tick: a request is among them exactly when
/// some layer sounds on its instrument and holds a note of its pitch at
/// that tick.
pub proof fn lemma_project_triggers_are_the_notes_at_tick(
    layers: Seq<LayerView>,
    tick: u32,
    trigger: Trigger,
)
    ensures
        project_triggers(layers, tick).contains(trigger) <==> exists|l: int|
            0 <= l < layers.len() && (#[trigger] layers[l]).instrument == trigger.instrument
                && layers[l].notes.contains(Note { time: tick, note: trigger.pitch }),
    decreases layers.len(),
{
    let fired = project_triggers(layers, tick);
    let wanted = Note { time: tick, note: trigger.pitch };
    if layers.len() > 0 {
        let shorter = layers.drop_last();
        let last = layers.last();
        let before = project_triggers(shorter, tick);
        let here = layer_triggers(last.notes, last.instrument, tick);
        lemma_project_triggers_are_the_notes_at_tick(shorter, tick, trigger);
        lemma_layer_triggers_are_the_notes_at_tick(last.notes, last.instrument, tick, trigger);
        if exists|l: int|
            0 <= l < layers.len() && (#[trigger] layers[l]).instrument == trigger.instrument
                && layers[l].notes.contains(wanted) {
            let l = choose|l: int|
                0 <= l < layers.len() && (#[trigger] layers[l]).instrument == trigger.instrument
                    && layers[l].notes.contains(wanted);
            if l < shorter.len() {
                assert(shorter[l] == layers[l]);
                let k = choose|k: int| 0 <= k < before.len() && before[k] == trigger;
                assert(fired[k] == trigger);
            } else {
                let k = choose|k: int| 0 <= k < here.len() && here[k] == trigger;
                assert(fired[before.len() + k] == trigger);
            }
        }
    }
}

/// Every request that a project hands out names the instrument of one of
/// its layers, so a project whose layers sound on instruments of the
/// catalog hands out only requests for instruments of the catalog.
pub proof fn lemma_triggers_sound_in_catalog(layers: Seq<LayerView>, tick: u32)
    requires
        instruments_in_catalog(layers),
    ensures
        sound_in_catalog(project_triggers(layers, tick)),
{
    let fired = project_triggers(layers, tick);
    assert forall|k: int| 0 <= k < fired.len() implies (#[trigger] fired[k]).instrument
        < INSTRUMENT_COUNT by {
        assert(fired.contains(fired[k]));
        lemma_project_triggers_are_the_notes_at_tick(layers, tick, fired[k]);
    }
}

/// Two stretches of time in a row move a position as far as their sum does
/// at once, also where the position is held at an end of its range.
pub proof fn lemma_position_after_adds(transport: Transport, first: nat, second: nat)
    ensures
        (Transport {
            playback_position: transport.position_after(first),
            ..transport
        }).position_after(second) == transport.position_after(first + second),
{
    let rate = transport.milliticks_per_second as int;
    assert((first + second) * rate == first * rate + second * rate) by (nonlinear_arith);
    if rate >= 0 {
        assert(first * rate >= 0 && second * rate >= 0) by (nonlinear_arith)
            requires
                rate >= 0,
        ;
    } else {
        assert(first * rate <= 0 && second * rate <= 0) by (nonlinear_arith)
            requires
                rate < 0,
        ;
    }
}

/// Where a run of frames leaves the transport: the position is the one that
/// a single advance by the summed time reaches, the play state and the rate
/// are untouched, and after at least one frame the last fired tick is the
/// tick of that position.
pub proof fn lemma_stepped_each(transport: Transport, steps: Seq<u32>)
    ensures
        transport.stepped_each(steps) == (Transport {
            playback_position: transport.position_after(total_elapsed(steps)),
            last_fired_tick: if steps.len() == 0 {
                transport.last_fired_tick
            } else {
                tick_at(transport.position_after(total_elapsed(steps)))
            },
            ..transport
        }),
    decreases steps.len(),
{
    if steps.len() > 0 {
        lemma_stepped_each(transport, steps.drop_last());
        lemma_position_after_adds(
            transport,
            total_elapsed(steps.drop_last()),
            steps.last() as nat,
        );
    }
}

/// Advancing is linear in time: two runs of frames whose elapsed times have
/// the same sum leave the transport in the same state, however the time is
/// cut into frames, as long as each run has a frame at all. Which notes
/// were handed out on the way is not fixed by the sum: each frame hands out
/// the tick it lands on and no tick that it passed over.
pub proof fn lemma_chunking_keeps_state(transport: Transport, first: Seq<u32>, second: Seq<u32>)
    requires
        total_elapsed(first) == total_elapsed(second),
        first.len() > 0,
        second.len() > 0,
    ensures
        transport.stepped_each(first) == transport.stepped_each(second),
{
    lemma_stepped_each(transport, first);
    lemma_stepped_each(transport, second);
}

/// Which frames of a run hand out notes goes by where the frames end, not
/// by the time that passed in all: the frame at `index` hands out the tick
/// in which it ends exactly when that tick differs from the tick in which
/// the frame before it ended (for the first frame: from the tick that was
/// fired last before the run). A tick that lies between two frame ends is
/// passed over.
pub proof fn lemma_firing_goes_by_frame_ends(
    transport: Transport,
    layers: Seq<LayerView>,
    steps: Seq<u32>,
    index: int,
)
    requires
        0 <= index < steps.len(),
    ensures
        ({
            let before = transport.stepped_each(steps.take(index));
            let ends_in = tick_at(transport.position_after(total_elapsed(steps.take(index + 1))));
            let began_in = if index == 0 {
                transport.last_fired_tick
            } else {
                tick_at(transport.position_after(total_elapsed(steps.take(index))))
            };
            before.advanced(steps[index]).firing(layers) == if ends_in != began_in {
                project_triggers(layers, ends_in)
            } else {
                Seq::<Trigger>::empty()
            }
        }),
{
    let earlier = steps.take(index);
    assert(steps.take(index + 1).drop_last() =~= earlier);
    lemma_stepped_each(transport, earlier);
    lemma_position_after_adds(transport, total_elapsed(earlier), steps[index] as nat);
}

/// A frame that ends in the tick that was fired last hands out nothing:
/// each tick gives its notes once, however many frames fall into it.
pub proof fn lemma_no_second_firing(transport: Transport, layers: Seq<LayerView>, dt_micros: u32)
    requires
        tick_at(transport.position_after(dt_micros as nat)) == transport.last_fired_tick,
    ensures
        transport.advanced(dt_micros).firing(layers) == Seq::<Trigger>::empty(),
        transport.stepped(dt_micros).last_fired_tick == transport.last_fired_tick,
{
}

/// Stop followed by the play toggle starts over: the transport plays from
/// position 0 with no tick fired, so the notes at tick 0 are due, and they
/// are still due after any advance that stays within tick 0.
pub proof fn lemma_stop_then_play_restarts(
    transport: Transport,
    layers: Seq<LayerView>,
    dt_micros: u32,
)
    ensures
        transport.stopped().toggled().playback_position == 0,
        transport.stopped().toggled().is_playing,
        transport.stopped().toggled().last_fired_tick == NO_TICK,
        transport.stopped().toggled().firing(layers) == project_triggers(layers, 0),
        tick_at(transport.stopped().toggled().position_after(dt_micros as nat)) == 0
            ==> transport.stopped().toggled().advanced(dt_micros).firing(layers)
            == project_triggers(layers, 0),
{
}

/// All notes of `project` that stand at `tick`, as requests to the audio
/// player: layer by layer, and within a layer in the order of its notes.
pub fn notes_due_at(project: &Project, tick: u32) -> (fired: Vec<Trigger>)
    ensures
        fired@ == project_triggers(project@, tick),
        instruments_in_catalog(project@) ==> sound_in_catalog(fired@),
{
    let mut fired: Vec<Trigger> = Vec::new();
    let mut i: usize = 0;
    while i < project.layers.len()
        invariant
            i <= project.layers.len(),
            fired@ == project_triggers(project@.take(i as int), tick),
        decreases project.layers.len() - i,
    {
        let layer = &project.layers[i];
        let ghost done = fired@;
        let mut j: usize = 0;
        while j < layer.notes.len()
            invariant
                j <= layer.notes.len(),
                fired@ == done + layer_triggers(layer.notes@.take(j as int), layer.instrument, tick),
            decreases layer.notes.len() - j,
        {
            let note = layer.notes[j];
            proof {
                let upto = layer.notes@.take(j + 1);
                assert(upto.drop_last() =~= layer.notes@.take(j as int));
            }
            if note.time == tick {
                fired.push(Trigger { instrument: layer.instrument, pitch: note.note });
            }
            j += 1;
        }
        proof {
            let upto = project@.take(i + 1);
            assert(upto.drop_last() =~= project@.take(i as int));
            assert(layer.notes@.take(layer.notes@.len() as int) =~= layer.notes@);
        }
        i += 1;
    }
    assert(project@.take(project@.len() as int) =~= project@);
    proof {
        if instruments_in_catalog(project@) {
            lemma_triggers_sound_in_catalog(project@, tick);
        }
    }
    fired
}

} // verus!
