//! Changes to the notes of one layer: placing and removing a single note,
//! and moving, copying or deleting the selected ones.

use vstd::prelude::*;
use crate::project::Note;
use crate::selection::valid_selection;

verus! {

/// The four ways to nudge the selected notes by one step.
#[derive(Clone, Copy, Debug, PartialEq, Eq, Structural)]
pub enum Direction {
    /// One tick earlier.
    Left,
    /// One tick later.
    Right,
    /// One pitch higher.
    Up,
    /// One pitch lower.
    Down,
}

/// How often `target` occurs among `notes`.
pub open spec fn occurrences(notes: Seq<Note>, target: Note) -> nat
    decreases notes.len(),
{
    if notes.len() == 0 {
        0
    } else {
        occurrences(notes.drop_last(), target) + if notes.last() == target {
            1nat
        } else {
            0nat
        }
    }
}

/// Whether `index` is the position of the first note equal to `target`.
pub open spec fn is_first_at(notes: Seq<Note>, target: Note, index: int) -> bool {
    &&& 0 <= index < notes.len()
    &&& notes[index] == target
    &&& forall|j: int| 0 <= j < index ==> notes[j] != target
}

/// The notes after `target` was placed: unchanged where a note already
/// stands at its tick and pitch, else with `target` at the end.
pub open spec fn with_added(notes: Seq<Note>, target: Note) -> Seq<Note> {
    if notes.contains(target) {
        notes
    } else {
        notes.push(target)
    }
}

/// The notes after the first note equal to `target` was taken out; the same
/// notes where there is none.
pub open spec fn without_first(notes: Seq<Note>, target: Note) -> Seq<Note> {
    if notes.contains(target) {
        notes.remove(choose|index: int| is_first_at(notes, target, index))
    } else {
        notes
    }
}

/// A note moved two ticks later and two pitches up, held at the largest
/// tick and the largest pitch.
pub open spec fn shifted(note: Note) -> Note {
    Note {
        time: if note.time + 2 > u32::MAX {
            u32::MAX
        } else {
            (note.time + 2) as u32
        },
        note: if note.note + 2 > u8::MAX {
            u8::MAX
        } else {
            (note.note + 2) as u8
        },
    }
}

/// The shifted copies of the selected notes, in the order of the selection.
pub open spec fn copies_of(notes: Seq<Note>, selection: Seq<usize>) -> Seq<Note> {
    Seq::new(selection.len(), |k: int| shifted(notes[selection[k] as int]))
}

/// `count` positions in a row, from `first` on.
pub open spec fn positions_from(first: nat, count: nat) -> Seq<usize> {
    Seq::new(count, |k: int| (first + k) as usize)
}

/// The notes that are left when the selected ones are taken out, in their
/// old order.
pub open spec fn without_selected(notes: Seq<Note>, selection: Seq<usize>) -> Seq<Note>
    decreases notes.len(),
{
    if notes.len() == 0 {
        notes
    } else {
        let before = without_selected(notes.drop_last(), selection);
        if selection.contains((notes.len() - 1) as usize) {
            before
        } else {
            before.push(notes.last())
        }
    }
}

/// A note moved by one step in `direction`, held at the ends of the range
/// of ticks and of pitches.
pub open spec fn nudged(note: Note, direction: Direction) -> Note {
    match direction {
        Direction::Left => Note {
            time: if note.time == 0 {
                0
            } else {
                (note.time - 1) as u32
            },
            ..note
        },
        Direction::Right => Note {
            time: if note.time == u32::MAX {
                u32::MAX
            } else {
                (note.time + 1) as u32
            },
            ..note
        },
        Direction::Up => Note {
            note: if note.note == u8::MAX {
                u8::MAX
            } else {
                (note.note + 1) as u8
            },
            ..note
        },
        Direction::Down => Note {
            note: if note.note == 0 {
                0
            } else {
                (note.note - 1) as u8
            },
            ..note
        },
    }
}

/// The notes after each selected one was nudged; the others stay.
pub open spec fn nudged_notes(
    notes: Seq<Note>,
    selection: Seq<usize>,
    direction: Direction,
) -> Seq<Note> {
    Seq::new(
        notes.len(),
        |i: int|
            if selection.contains(i as usize) {
                nudged(notes[i], direction)
            } else {
                notes[i]
            },
    )
}

/// A note occurs at least once among `notes` exactly when `notes` contains
/// it.
pub proof fn lemma_occurs_iff_contained(notes: Seq<Note>, target: Note)
    ensures
        occurrences(notes, target) > 0 <==> notes.contains(target),
    decreases notes.len(),
{
    if notes.len() > 0 {
        let shorter = notes.drop_last();
        lemma_occurs_iff_contained(shorter, target);
        if notes.contains(target) && notes.last() != target {
            let i = choose|i: int| 0 <= i < notes.len() && notes[i] == target;
            assert(shorter[i] == target);
        }
    }
}

/// Placing a note where none stands adds one occurrence of it; placing it
/// where one stands changes nothing. So a note that occurred at most once
/// occurs exactly once after it was placed, however often it is placed
/// again.
pub proof fn lemma_added_occurs_once(notes: Seq<Note>, target: Note)
    requires
        occurrences(notes, target) <= 1,
    ensures
        occurrences(with_added(notes, target), target) == 1,
        with_added(with_added(notes, target), target) == with_added(notes, target),
{
    lemma_occurs_iff_contained(notes, target);
    let once = with_added(notes, target);
    if !notes.contains(target) {
        assert(once.drop_last() =~= notes);
        assert(once[once.len() - 1] == target);
    }
}

/// Which notes a delete keeps depends only on which positions of the layer
/// the selection holds, not on its order or on entries past the end.
pub proof fn lemma_delete_goes_by_membership(
    notes: Seq<Note>,
    selection: Seq<usize>,
    other: Seq<usize>,
)
    requires
        notes.len() <= usize::MAX,
        forall|position: usize|
            position < notes.len() ==> (selection.contains(position) <==> other.contains(position)),
    ensures
        without_selected(notes, selection) == without_selected(notes, other),
    decreases notes.len(),
{
    if notes.len() > 0 {
        lemma_delete_goes_by_membership(notes.drop_last(), selection, other);
    }
}

/// A delete with a valid selection takes out as many notes as are selected.
pub proof fn lemma_delete_takes_each_selected(notes: Seq<Note>, selection: Seq<usize>)
    requires
        notes.len() <= usize::MAX,
        valid_selection(selection, notes.len()),
    ensures
        without_selected(notes, selection).len() == notes.len() - selection.len(),
    decreases notes.len(),
{
    if notes.len() == 0 {
        if selection.len() > 0 {
            assert(selection[0] < notes.len());
        }
    } else {
        let shorter = notes.drop_last();
        let last = (notes.len() - 1) as usize;
        if selection.contains(last) {
            let at = choose|k: int| 0 <= k < selection.len() && selection[k] == last;
            let rest = selection.remove(at);
            assert forall|position: usize| position < shorter.len() implies (selection.contains(
                position,
            ) <==> rest.contains(position)) by {
                if selection.contains(position) {
                    let k = choose|k: int| 0 <= k < selection.len() && selection[k] == position;
                    if k < at {
                        assert(rest[k] == position);
                    } else {
                        assert(rest[k - 1] == position);
                    }
                }
            }
            lemma_delete_goes_by_membership(shorter, selection, rest);
            lemma_delete_takes_each_selected(shorter, rest);
        } else {
            lemma_delete_takes_each_selected(shorter, selection);
        }
    }
}

/// A delete keeps a note exactly when it stands at a position that is not
/// selected.
pub proof fn lemma_delete_keeps_the_unselected(
    notes: Seq<Note>,
    selection: Seq<usize>,
    note: Note,
)
    requires
        notes.len() <= usize::MAX,
    ensures
        without_selected(notes, selection).contains(note) <==> exists|i: int|
            0 <= i < notes.len() && !selection.contains(i as usize) && #[trigger] notes[i] == note,
    decreases notes.len(),
{
    let kept = without_selected(notes, selection);
    if notes.len() > 0 {
        let shorter = notes.drop_last();
        let before = without_selected(shorter, selection);
        let last = notes.len() - 1;
        lemma_delete_keeps_the_unselected(shorter, selection, note);
        if exists|i: int|
            0 <= i < notes.len() && !selection.contains(i as usize) && #[trigger] notes[i] == note {
            let i = choose|i: int|
                0 <= i < notes.len() && !selection.contains(i as usize) && #[trigger] notes[i]
                    == note;
            if i < last {
                assert(shorter[i] == note);
                let k = choose|k: int| 0 <= k < before.len() && before[k] == note;
                assert(kept[k] == note);
            } else {
                assert(kept[kept.len() - 1] == note);
            }
        }
    }
}

/// The first `k + 1` entries of a selection hold what the first `k` hold
/// and the entry at `k`.
pub proof fn lemma_one_more_entry(selection: Seq<usize>, k: int)
    requires
        0 <= k < selection.len(),
    ensures
        forall|position: usize| #[trigger]
            selection.take(k + 1).contains(position) <==> (selection.take(k).contains(position)
                || position == selection[k]),
{
    let earlier = selection.take(k);
    let now = selection.take(k + 1);
    assert(now =~= earlier.push(selection[k]));
    assert forall|position: usize| #[trigger]
        now.contains(position) <==> (earlier.contains(position) || position
            == selection[k]) by {
        if earlier.contains(position) {
            let l = choose|l: int| 0 <= l < earlier.len() && earlier[l] == position;
            assert(now[l] == position);
        }
        if position == selection[k] {
            assert(now[k] == position);
        }
    }
}

/// At most one position is the first at which `target` stands.
pub proof fn lemma_first_is_unique(notes: Seq<Note>, target: Note, one: int, other: int)
    requires
        is_first_at(notes, target, one),
        is_first_at(notes, target, other),
    ensures
        one == other,
{
}

/// The position of the first note equal to `target`, if there is one.
pub fn position_of(notes: &Vec<Note>, target: Note) -> (found: Option<usize>)
    ensures
        found is Some <==> notes@.contains(target),
        found matches Some(index) ==> is_first_at(notes@, target, index as int),
{
    let mut i: usize = 0;
    while i < notes.len()
        invariant
            i <= notes.len(),
            forall|j: int| 0 <= j < i ==> notes@[j] != target,
        decreases notes.len() - i,
    {
        if notes[i].time == target.time && notes[i].note == target.note {
            return Some(i);
        }
        i += 1;
    }
    None
}

/// Places `target` unless a note already stands at its tick and pitch.
/// Says whether it was placed.
pub fn add_note(notes: &mut Vec<Note>, target: Note) -> (added: bool)
    ensures
        final(notes)@ == with_added(old(notes)@, target),
        added == !old(notes)@.contains(target),
{
    match position_of(notes, target) {
        Some(_) => false,
        None => {
            notes.push(target);
            true
        },
    }
}

/// Takes out the first note equal to `target`, if there is one. Says
/// whether a note was taken out.
pub fn remove_note(notes: &mut Vec<Note>, target: Note) -> (removed: bool)
    ensures
        final(notes)@ == without_first(old(notes)@, target),
        removed == old(notes)@.contains(target),
{
    match position_of(notes, target) {
        Some(index) => {
            proof {
                let chosen = choose|i: int| is_first_at(notes@, target, i);
                lemma_first_is_unique(notes@, target, index as int, chosen);
            }
            notes.remove(index);
            true
        },
        None => false,
    }
}

/// Copies each selected note two ticks later and two pitches up, puts the
/// copies at the end in the order of the selection, and selects each copy
/// in place of the note it was made from.
pub fn duplicate_selected(notes: &mut Vec<Note>, selection: &mut Vec<usize>)
    requires
        valid_selection(old(selection)@, old(notes)@.len()),
    ensures
        final(notes)@ == old(notes)@ + copies_of(old(notes)@, old(selection)@),
        final(selection)@ == positions_from(old(notes)@.len(), old(selection)@.len()),
        valid_selection(final(selection)@, final(notes)@.len()),
{
    let ghost notes_before = notes@;
    let ghost selection_before = selection@;
    let mut k: usize = 0;
    while k < selection.len()
        invariant
            k <= selection.len(),
            selection@.len() == selection_before.len(),
            valid_selection(selection_before, notes_before.len()),
            notes@ == notes_before + copies_of(notes_before, selection_before).take(k as int),
            forall|l: int| 0 <= l < k ==> selection@[l] == notes_before.len() + l,
            forall|l: int| k <= l < selection@.len() ==> selection@[l] == selection_before[l],
        decreases selection.len() - k,
    {
        let index = selection[k];
        assert(index == selection_before[k as int]);
        let source = notes[index];
        let copy = Note {
            time: source.time.saturating_add(2),
            note: source.note.saturating_add(2),
        };
        notes.push(copy);
        selection[k] = notes.len() - 1;
        k += 1;
    }
}

/// Takes the selected notes out. The notes that stay keep their order.
/// Entries of `selection` that are no position of a note are ignored.
pub fn delete_selected(notes: &mut Vec<Note>, selection: &Vec<usize>)
    ensures
        final(notes)@ == without_selected(old(notes)@, selection@),
{
    let count = notes.len();
    let mut doomed: Vec<bool> = Vec::new();
    let mut i: usize = 0;
    while i < count
        invariant
            i <= count,
            doomed@.len() == i,
            forall|j: int| 0 <= j < i ==> !doomed@[j],
        decreases count - i,
    {
        doomed.push(false);
        i += 1;
    }
    let mut k: usize = 0;
    while k < selection.len()
        invariant
            k <= selection.len(),
            doomed@.len() == count,
            forall|j: int|
                0 <= j < count ==> (doomed@[j] <==> selection@.take(k as int).contains(j as usize)),
        decreases selection.len() - k,
    {
        let index = selection[k];
        if index < count {
            doomed[index] = true;
        }
        proof {
            lemma_one_more_entry(selection@, k as int);
        }
        k += 1;
    }
    assert(selection@.take(selection@.len() as int) =~= selection@);
    let mut kept: Vec<Note> = Vec::new();
    let mut i: usize = 0;
    while i < count
        invariant
            i <= count,
            count == notes@.len(),
            doomed@.len() == count,
            forall|j: int| 0 <= j < count ==> (doomed@[j] <==> selection@.contains(j as usize)),
            kept@ == without_selected(notes@.take(i as int), selection@),
        decreases count - i,
    {
        proof {
            let upto = notes@.take(i + 1);
            assert(upto.drop_last() =~= notes@.take(i as int));
        }
        if !doomed[i] {
            kept.push(notes[i]);
        }
        i += 1;
    }
    assert(notes@.take(count as int) =~= notes@);
    *notes = kept;
}

/// One step of the nudge on a single note.
pub fn nudge(note: Note, direction: Direction) -> (moved: Note)
    ensures
        moved == nudged(note, direction),
{
    match direction {
        Direction::Left => Note { time: note.time.saturating_sub(1), note: note.note },
        Direction::Right => Note { time: note.time.saturating_add(1), note: note.note },
        Direction::Up => Note { time: note.time, note: note.note.saturating_add(1) },
        Direction::Down => Note { time: note.time, note: note.note.saturating_sub(1) },
    }
}

/// Nudges each selected note by one step in `direction`. No note changes
/// its position in the layer, so the selection stays valid.
pub fn nudge_selected(notes: &mut Vec<Note>, selection: &Vec<usize>, direction: Direction)
    requires
        valid_selection(selection@, old(notes)@.len()),
    ensures
        final(notes)@ == nudged_notes(old(notes)@, selection@, direction),
{
    let ghost before = notes@;
    let count = notes.len();
    let mut k: usize = 0;
    while k < selection.len()
        invariant
            k <= selection.len(),
            valid_selection(selection@, before.len()),
            before.len() == count,
            notes@.len() == count,
            notes@ == nudged_notes(before, selection@.take(k as int), direction),
        decreases selection.len() - k,
    {
        let index = selection[k];
        proof {
            lemma_one_more_entry(selection@, k as int);
            if selection@.take(k as int).contains(index) {
                let l = choose|l: int| 0 <= l < k && selection@.take(k as int)[l] == index;
                assert(selection@[l] == selection@[k as int]);
            }
        }
        notes[index] = nudge(notes[index], direction);
        assert(notes@ =~= nudged_notes(before, selection@.take(k + 1), direction));
        k += 1;
    }
    assert(selection@.take(selection@.len() as int) =~= selection@);
}

} // verus!
