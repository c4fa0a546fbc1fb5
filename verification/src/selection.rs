//! Which notes of a layer are selected: a list of positions in the layer's
//! notes, filled by a drag rectangle or by "select all".

use vstd::prelude::*;
use crate::project::Note;

verus! {

/// A corner of a drag rectangle: the tick and the pitch of the cell under
/// the pointer.
pub type Cell = (u32, u8);

/// A selection is valid for a layer with `count` notes when each of its
/// entries is the position of a note and none occurs twice.
pub open spec fn valid_selection(selection: Seq<usize>, count: nat) -> bool {
    &&& forall|k: int| 0 <= k < selection.len() ==> selection[k] < count
    &&& selection.no_duplicates()
}

/// Whether the cell of `note` lies in the rectangle spanned by the cells
/// `start` and `end`, whichever of them is the lower in time or in pitch.
pub open spec fn spec_in_rectangle(note: Note, start: Cell, end: Cell) -> bool {
    &&& start.0 <= note.time <= end.0 || end.0 <= note.time <= start.0
    &&& start.1 <= note.note <= end.1 || end.1 <= note.note <= start.1
}

/// Whether the cell of `note` lies in the rectangle spanned by `start` and
/// `end`.
#[verifier::when_used_as_spec(spec_in_rectangle)]
pub fn in_rectangle(note: Note, start: Cell, end: Cell) -> (inside: bool)
    ensures
        inside == spec_in_rectangle(note, start, end),
{
    let in_time = (start.0 <= note.time && note.time <= end.0) || (end.0 <= note.time && note.time
        <= start.0);
    let in_pitch = (start.1 <= note.note && note.note <= end.1) || (end.1 <= note.note && note.note
        <= start.1);
    in_time && in_pitch
}

/// The selection after a drag over the rectangle from `start` to `end`:
/// what was selected stays, and behind it come, in rising order, the
/// positions of the notes in the rectangle that were not selected yet.
pub open spec fn rectangle_picks(
    notes: Seq<Note>,
    selection: Seq<usize>,
    start: Cell,
    end: Cell,
) -> Seq<usize>
    decreases notes.len(),
{
    if notes.len() == 0 {
        selection
    } else {
        let before = rectangle_picks(notes.drop_last(), selection, start, end);
        let position = (notes.len() - 1) as usize;
        if in_rectangle(notes.last(), start, end) && !selection.contains(position) {
            before.push(position)
        } else {
            before
        }
    }
}

/// What a rectangle selection holds, entry by entry: the old selection is
/// its beginning, every later entry is the position of an unselected note
/// in the rectangle, and every such position below `notes.len()` is in it.
pub proof fn lemma_rectangle_picks(notes: Seq<Note>, selection: Seq<usize>, start: Cell, end: Cell)
    requires
        notes.len() <= usize::MAX,
    ensures
        ({
            let picks = rectangle_picks(notes, selection, start, end);
            &&& selection.len() <= picks.len()
            &&& picks.take(selection.len() as int) == selection
            &&& forall|k: int|
                selection.len() <= k < picks.len() ==> {
                    &&& (#[trigger] picks[k]) < notes.len()
                    &&& in_rectangle(notes[picks[k] as int], start, end)
                    &&& !selection.contains(picks[k])
                }
            &&& forall|k: int, l: int|
                selection.len() <= k < l < picks.len() ==> picks[k] < picks[l]
            &&& forall|i: int|
                0 <= i < notes.len() && in_rectangle(notes[i], start, end) ==> picks.contains(
                    i as usize,
                )
        }),
    decreases notes.len(),
{
    let picks = rectangle_picks(notes, selection, start, end);
    if notes.len() > 0 {
        let shorter = notes.drop_last();
        let before = rectangle_picks(shorter, selection, start, end);
        let position = (notes.len() - 1) as usize;
        lemma_rectangle_picks(shorter, selection, start, end);
        assert forall|i: int|
            0 <= i < notes.len() && in_rectangle(notes[i], start, end) implies picks.contains(
            i as usize,
        ) by {
            if i < shorter.len() {
                assert(shorter[i] == notes[i]);
                let k = choose|k: int| 0 <= k < before.len() && before[k] == i as usize;
                assert(picks[k] == i as usize);
            } else if !selection.contains(position) {
                assert(picks[picks.len() - 1] == position);
            }
        }
    }
}

/// A rectangle selection on a valid selection is valid.
pub proof fn lemma_rectangle_picks_valid(
    notes: Seq<Note>,
    selection: Seq<usize>,
    start: Cell,
    end: Cell,
)
    requires
        notes.len() <= usize::MAX,
        valid_selection(selection, notes.len()),
    ensures
        valid_selection(rectangle_picks(notes, selection, start, end), notes.len()),
{
    let picks = rectangle_picks(notes, selection, start, end);
    lemma_rectangle_picks(notes, selection, start, end);
    let old_len = selection.len() as int;
    assert forall|k: int| 0 <= k < picks.len() implies picks[k] < notes.len() by {
        if k < old_len {
            assert(picks.take(old_len)[k] == selection[k]);
        }
    }
    assert forall|k: int, l: int| 0 <= k < picks.len() && 0 <= l < picks.len() && k != l implies picks[k]
        != picks[l] by {
        if k < old_len {
            assert(picks.take(old_len)[k] == selection[k]);
        }
        if l < old_len {
            assert(picks.take(old_len)[l] == selection[l]);
        }
    }
}

/// The selection that holds every note of a layer with `count` notes: the
/// positions from 0 up, in order.
pub open spec fn all_positions(count: nat) -> Seq<usize> {
    Seq::new(count, |i: int| i as usize)
}

fn holds_before(selection: &Vec<usize>, limit: usize, position: usize) -> (found: bool)
    requires
        limit <= selection.len(),
    ensures
        found == selection@.take(limit as int).contains(position),
{
    let mut k: usize = 0;
    while k < limit
        invariant
            k <= limit <= selection.len(),
            forall|l: int| 0 <= l < k ==> selection@[l] != position,
        decreases limit - k,
    {
        if selection[k] == position {
            assert(selection@.take(limit as int)[k as int] == position);
            return true;
        }
        k += 1;
    }
    false
}

/// Whether `selection` is valid for a layer with `count` notes.
pub fn is_valid_selection(selection: &Vec<usize>, count: usize) -> (valid: bool)
    ensures
        valid == valid_selection(selection@, count as nat),
{
    let mut k: usize = 0;
    while k < selection.len()
        invariant
            k <= selection.len(),
            forall|l: int| 0 <= l < k ==> selection@[l] < count,
            forall|l: int, m: int| 0 <= l < m < k ==> selection@[l] != selection@[m],
        decreases selection.len() - k,
    {
        if selection[k] >= count {
            return false;
        }
        if holds_before(selection, k, selection[k]) {
            return false;
        }
        proof {
            assert forall|l: int| 0 <= l < k implies selection@[l] != selection@[k as int] by {
                if selection@[l] == selection@[k as int] {
                    assert(selection@.take(k as int)[l] == selection@[k as int]);
                }
            }
        }
        k += 1;
    }
    true
}

/// Adds to `selection` the notes whose cell lies in the rectangle from
/// `start` to `end` and that are not selected yet. What was selected stays
/// selected.
pub fn select_rectangle(notes: &Vec<Note>, selection: &mut Vec<usize>, start: Cell, end: Cell)
    ensures
        final(selection)@ == rectangle_picks(notes@, old(selection)@, start, end),
        valid_selection(old(selection)@, notes@.len()) ==> valid_selection(
            final(selection)@,
            notes@.len(),
        ),
{
    let ghost before = selection@;
    let limit = selection.len();
    let mut i: usize = 0;
    while i < notes.len()
        invariant
            i <= notes.len(),
            limit == before.len(),
            selection@ == rectangle_picks(notes@.take(i as int), before, start, end),
        decreases notes.len() - i,
    {
        proof {
            lemma_rectangle_picks(notes@.take(i as int), before, start, end);
            let upto = notes@.take(i + 1);
            assert(upto.drop_last() =~= notes@.take(i as int));
        }
        if in_rectangle(notes[i], start, end) && !holds_before(selection, limit, i) {
            selection.push(i);
        }
        i += 1;
    }
    assert(notes@.take(notes@.len() as int) =~= notes@);
    proof {
        if valid_selection(before, notes@.len()) {
            lemma_rectangle_picks_valid(notes@, before, start, end);
        }
    }
}

/// The selection that holds every note of `notes`.
pub fn select_all(notes: &Vec<Note>) -> (selection: Vec<usize>)
    ensures
        selection@ == all_positions(notes@.len()),
        valid_selection(selection@, notes@.len()),
{
    let mut selection: Vec<usize> = Vec::new();
    let mut i: usize = 0;
    while i < notes.len()
        invariant
            i <= notes.len(),
            selection@ == all_positions(i as nat),
        decreases notes.len() - i,
    {
        selection.push(i);
        i += 1;
    }
    selection
}

} // verus!
