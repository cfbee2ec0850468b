//! What undo gives back, and what edits keep: each command, executed and
//! then undone, leaves the project as it found it (within the limits each
//! law states), and removing or moving tracks keeps a project well
//! numbered.

use vstd::prelude::*;
use crate::project::{
    ClipView, TrackView, order_without, renumbered_without,
    renumber, well_numbered, with_order, lemma_add_then_remove, lemma_first_index_unique,
    lemma_renumber_facts, lemma_renumber_identity,
};
use crate::state::channel_appended;
use crate::commands::command::{CommandContext, unchanged, others_kept, clip_pos};
use crate::commands::track_commands::{
    AddTrackCommand, RemoveTrackCommand, RenameTrackCommand, MoveTrackCommand, moved_order,
    clamp_index,
};
use crate::commands::clip_commands::{
    AddClipCommand, DeleteClipCommand, MoveClipCommand, TrimClipCommand, RenameClipCommand,
    DuplicateClipCommand, clips_without, trimmed,
};

verus! {

/// Where some clip has identifier `id`, `clip_pos` gives the first one.
pub proof fn lemma_clip_pos_found(s: Seq<ClipView>, id: u128, i: int)
    requires
        0 <= i < s.len(),
        s[i].id == id,
    ensures
        clip_pos(s, id) is Some,
        ({
            let k = clip_pos(s, id)->0;
            &&& 0 <= k <= i
            &&& s[k].id == id
            &&& forall|j: int| 0 <= j < k ==> s[j].id != id
        }),
    decreases i,
{
    if exists|j: int| 0 <= j < i && s[j].id == id {
        let j = choose|j: int| 0 <= j < i && s[j].id == id;
        lemma_clip_pos_found(s, id, j);
    } else {
        assert(0 <= i < s.len() && s[i].id == id && forall|j: int| 0 <= j < i ==> s[j].id != id);
    }
}

/// `clip_pos` is the first index with the identifier.
pub proof fn lemma_clip_pos_first(s: Seq<ClipView>, id: u128, i: int)
    requires
        0 <= i < s.len(),
        s[i].id == id,
        forall|j: int| 0 <= j < i ==> s[j].id != id,
    ensures
        clip_pos(s, id) == Some(i),
{
    lemma_clip_pos_found(s, id, i);
    let k = clip_pos(s, id)->0;
    assert(k == i) by {
        if k < i {
            assert(s[k].id != id);
        }
    }
}

/// Replacing a clip by one with the same identifier keeps `clip_pos`.
pub proof fn lemma_clip_pos_update(s: Seq<ClipView>, id: u128, i: int, c: ClipView)
    requires
        clip_pos(s, id) == Some(i),
        0 <= i < s.len(),
        s[i].id == id,
        c.id == id,
    ensures
        clip_pos(s.update(i, c), id) == Some(i),
{
    lemma_clip_pos_found(s, id, i);
    lemma_clip_pos_first(s.update(i, c), id, i);
}

/// Where clip `id` is found, `clip_pos` names a clip with that identifier,
/// and no earlier one has it.
pub proof fn lemma_clip_pos_some(s: Seq<ClipView>, id: u128)
    requires
        clip_pos(s, id) is Some,
    ensures
        ({
            let k = clip_pos(s, id)->0;
            &&& 0 <= k < s.len()
            &&& s[k].id == id
            &&& forall|j: int| 0 <= j < k ==> s[j].id != id
        }),
{
    let i = choose|i: int| 0 <= i < s.len() && s[i].id == id;
    lemma_clip_pos_found(s, id, i);
}

/// Adding a track and undoing it gives back the project's tracks and
/// order, where the project is well numbered and the new track's
/// identifier was not in use; the mixer keeps the channel that was added.
pub proof fn lemma_add_track_round_trip(
    a: AddTrackCommand,
    b: AddTrackCommand,
    b2: AddTrackCommand,
    c0: CommandContext,
    c1: CommandContext,
    c2: CommandContext,
)
    requires
        well_numbered(c0.project.track_map(), c0.project.track_order@),
        c0.project.track_order@.len() < usize::MAX,
        a.executed(b, c0, c1),
        b.undone(b2, c1, c2),
        !c0.project.track_map().contains_key(b.created_id->0),
    ensures
        c2.project.track_map() == c0.project.track_map(),
        c2.project.track_order@ == c0.project.track_order@,
        others_kept(c0, c2),
        channel_appended(c0.mixer, c2.mixer, a.name@),
{
    let id = b.created_id->0;
    let m0 = c0.project.track_map();
    let order0 = c0.project.track_order@;
    let t = crate::commands::track_commands::new_track_view(id, a.name@, a.track_type, order0.len() as usize);
    lemma_add_then_remove(m0, order0, t);
    assert(with_order(t, order0.len() as usize) == t);
}

/// Removing a listed track and undoing it gives back the track order and
/// the track itself; the tracks listed after it keep the order values
/// that the removal gave them. Where it was the last listed track, the
/// project is given back whole.
pub proof fn lemma_remove_track_round_trip(
    a: RemoveTrackCommand,
    b: RemoveTrackCommand,
    b2: RemoveTrackCommand,
    c0: CommandContext,
    c1: CommandContext,
    c2: CommandContext,
)
    requires
        well_numbered(c0.project.track_map(), c0.project.track_order@),
        c0.project.track_order@.contains(a.track_id),
        a.executed(b, c0, c1),
        b.undone(b2, c1, c2),
    ensures
        c2.project.track_order@ == c0.project.track_order@,
        c2.project.track_map() == renumbered_without(
            c0.project.track_map(),
            c0.project.track_order@,
            a.track_id,
        ),
        c2.project.track_map()[a.track_id] == c0.project.track_map()[a.track_id],
        c0.project.track_order@.last() == a.track_id ==> c2.project.track_map()
            == c0.project.track_map(),
        others_kept(c0, c2),
        c2.mixer == c0.mixer,
{
    let id = a.track_id;
    let m0 = c0.project.track_map();
    let order0 = c0.project.track_order@;
    let i = choose|i: int| 0 <= i < order0.len() && order0[i] == id;
    lemma_first_index_unique(order0, i);
    let rest = order0.remove(i);
    assert(rest.no_duplicates()) by {
        assert forall|x: int, y: int| 0 <= x < rest.len() && 0 <= y < rest.len() && x != y implies rest[x]
            != rest[y] by {
            let x0 = if x < i { x } else { x + 1 };
            let y0 = if y < i { y } else { y + 1 };
            assert(rest[x] == order0[x0]);
            assert(rest[y] == order0[y0]);
        }
    }
    let n = (order0.len() - 1) as nat;
    lemma_renumber_facts(m0, rest, n);
    let renumbered = renumber(m0, rest, n);
    assert(m0.contains_key(id));
    assert(renumbered.contains_key(id));
    assert(!rest.subrange(0, n as int).contains(id)) by {
        if rest.subrange(0, n as int).contains(id) {
            let x = choose|x: int| 0 <= x < n && #[trigger] rest.subrange(0, n as int)[x] == id;
            let x0 = if x < i { x } else { x + 1 };
            assert(rest[x] == order0[x0]);
        }
    }
    assert(renumbered[id] == m0[id]);
    assert(rest.insert(i, id) =~= order0);
    assert(renumbered.remove(id).insert(id, renumbered[id]) =~= renumbered);
    if order0.last() == id {
        assert(i == order0.len() - 1) by {
            if i < order0.len() - 1 {
                assert(order0[order0.len() - 1] == order0[i]);
            }
        }
        assert forall|j: int| 0 <= j < n implies m0.contains_key(#[trigger] rest[j]) && m0[rest[j]].order == j by {
            assert(rest[j] == order0[j]);
            assert(order0.contains(order0[j]));
        }
        lemma_renumber_identity(m0, rest, n);
    }
}

/// Renaming a track and undoing it gives back the project.
pub proof fn lemma_rename_track_round_trip(
    a: RenameTrackCommand,
    b: RenameTrackCommand,
    b2: RenameTrackCommand,
    c0: CommandContext,
    c1: CommandContext,
    c2: CommandContext,
)
    requires
        a.executed(b, c0, c1),
        b.undone(b2, c1, c2),
    ensures
        unchanged(c0, c2),
{
    let m0 = c0.project.track_map();
    if m0.contains_key(a.track_id) {
        assert(c2.project.track_map() =~= m0);
    }
}

/// Removing the entry at `i` of a sequence without duplicates and
/// inserting it at `k` keeps it without duplicates and with the same
/// elements.
pub proof fn lemma_reinsert(order0: Seq<u128>, i: int, k: int)
    requires
        order0.no_duplicates(),
        0 <= i < order0.len(),
        0 <= k < order0.len(),
    ensures
        ({
            let order1 = order0.remove(i).insert(k, order0[i]);
            &&& order1.no_duplicates()
            &&& order1.len() == order0.len()
            &&& order1[k] == order0[i]
            &&& forall|x: u128| order0.contains(x) ==> order1.contains(x)
            &&& !order0.remove(i).contains(order0[i])
        }),
{
    let id = order0[i];
    let rest = order0.remove(i);
    let order1 = rest.insert(k, id);
    assert(!rest.contains(id)) by {
        if rest.contains(id) {
            let x = choose|x: int| 0 <= x < rest.len() && rest[x] == id;
            let x0 = if x < i { x } else { x + 1 };
            assert(rest[x] == order0[x0]);
        }
    }
    assert forall|x: int, y: int| 0 <= x < order1.len() && 0 <= y < order1.len() && x != y implies order1[x]
        != order1[y] by {
        let xr = if x < k { x } else { x - 1 };
        let yr = if y < k { y } else { y - 1 };
        let x0 = if xr < i { xr } else { xr + 1 };
        let y0 = if yr < i { yr } else { yr + 1 };
        if x != k && y != k {
            assert(order1[x] == rest[xr]);
            assert(order1[y] == rest[yr]);
            assert(rest[xr] == order0[x0]);
            assert(rest[yr] == order0[y0]);
        } else if x == k {
            assert(order1[y] == rest[yr]);
        } else {
            assert(order1[x] == rest[xr]);
        }
    }
    assert forall|key: u128| order0.contains(key) implies order1.contains(key) by {
        let j = choose|j: int| 0 <= j < order0.len() && order0[j] == key;
        if key == id {
            assert(order1[k] == id);
        } else {
            assert(j != i);
            let jr = if j < i { j } else { j - 1 };
            assert(rest[jr] == key);
            let j1 = if jr < k { jr } else { jr + 1 };
            assert(order1[j1] == key);
        }
    }
}

/// Renumbering by any order that lists every track, then by the order of
/// a well-numbered project, gives back the project's tracks.
pub proof fn lemma_renumber_back(m0: Map<u128, TrackView>, order0: Seq<u128>, order1: Seq<u128>)
    requires
        well_numbered(m0, order0),
        order1.no_duplicates(),
        forall|x: u128| order0.contains(x) ==> order1.contains(x),
    ensures
        renumber(renumber(m0, order1, order1.len()), order0, order0.len()) == m0,
{
    let m1 = renumber(m0, order1, order1.len());
    lemma_renumber_facts(m0, order1, order1.len());
    lemma_renumber_facts(m1, order0, order0.len());
    let m2 = renumber(m1, order0, order0.len());
    assert forall|key: u128| m0.contains_key(key) implies m2[key] == m0[key] by {
        assert(order0.contains(key));
        let j = choose|j: int| 0 <= j < order0.len() && order0[j] == key;
        assert(order1.contains(key));
        let j1 = choose|j1: int| 0 <= j1 < order1.len() && order1[j1] == key;
        assert(m1[order1[j1]] == with_order(m0[order1[j1]], j1 as usize));
        assert(m2[order0[j]] == with_order(m1[order0[j]], j as usize));
        assert(m0[order0[j]].order == j);
    }
    assert(m2 =~= m0);
}

/// Moving a track of a well-numbered project and undoing it gives back
/// the project.
pub proof fn lemma_move_track_round_trip(
    a: MoveTrackCommand,
    b: MoveTrackCommand,
    b2: MoveTrackCommand,
    c0: CommandContext,
    c1: CommandContext,
    c2: CommandContext,
)
    requires
        well_numbered(c0.project.track_map(), c0.project.track_order@),
        c0.project.track_order@.len() <= usize::MAX,
        a.executed(b, c0, c1),
        b.undone(b2, c1, c2),
    ensures
        unchanged(c0, c2),
{
    let id = a.track_id;
    let m0 = c0.project.track_map();
    let order0 = c0.project.track_order@;
    if order0.contains(id) {
        let i = choose|i: int| 0 <= i < order0.len() && order0[i] == id;
        lemma_first_index_unique(order0, i);
        let rest = order0.remove(i);
        let k = clamp_index(a.new_index, rest.len() as int);
        let order1 = rest.insert(k, id);
        lemma_reinsert(order0, i, k);
        assert(order1 == moved_order(order0, id, a.new_index));
        lemma_first_index_unique(order1, k);
        assert(order1.remove(k) =~= rest);
        assert(rest.insert(i, id) =~= order0);
        assert(moved_order(order1, id, i as usize) == order0);
        lemma_renumber_back(m0, order0, order1);
    }
}

/// Adding a clip whose identifier the track does not hold, and undoing
/// it, gives back the project.
pub proof fn lemma_add_clip_round_trip(
    a: AddClipCommand,
    b: AddClipCommand,
    b2: AddClipCommand,
    c0: CommandContext,
    c1: CommandContext,
    c2: CommandContext,
)
    requires
        !a.added,
        c0.project.track_map().contains_key(a.track_id) ==> forall|j: int|
            0 <= j < c0.project.track_map()[a.track_id].clips.len() ==> (
            #[trigger] c0.project.track_map()[a.track_id].clips[j]).id != a.clip.id,
        a.executed(b, c0, c1),
        b.undone(b2, c1, c2),
    ensures
        unchanged(c0, c2),
{
    let m0 = c0.project.track_map();
    let tid = a.track_id;
    if m0.contains_key(tid) {
        lemma_push_then_remove(m0[tid].clips, a.clip@);
        assert(c2.project.track_map() =~= m0);
    }
}

/// Filtering by a predicate that holds of every element keeps the
/// sequence.
pub proof fn lemma_filter_all(s: Seq<ClipView>, pred: spec_fn(ClipView) -> bool)
    requires
        forall|j: int| 0 <= j < s.len() ==> pred(#[trigger] s[j]),
    ensures
        s.filter(pred) == s,
    decreases s.len(),
{
    reveal_with_fuel(Seq::<_>::filter, 1);
    if s.len() > 0 {
        lemma_filter_all(s.drop_last(), pred);
        assert(s.drop_last().push(s.last()) =~= s);
    }
}

/// Deleting a clip that the track holds and undoing it gives back the
/// project.
pub proof fn lemma_delete_clip_round_trip(
    a: DeleteClipCommand,
    b: DeleteClipCommand,
    b2: DeleteClipCommand,
    c0: CommandContext,
    c1: CommandContext,
    c2: CommandContext,
)
    requires
        c0.project.track_map().contains_key(a.track_id),
        clip_pos(c0.project.track_map()[a.track_id].clips, a.clip_id) is Some,
        c0.project.track_map()[a.track_id].clips.len() <= usize::MAX,
        a.executed(b, c0, c1),
        b.undone(b2, c1, c2),
    ensures
        unchanged(c0, c2),
{
    let m0 = c0.project.track_map();
    let clips = m0[a.track_id].clips;
    lemma_clip_pos_some(clips, a.clip_id);
    let i = clip_pos(clips, a.clip_id)->0;
    assert(clips.remove(i).insert(i, clips[i]) =~= clips);
    assert(c2.project.track_map() =~= m0);
}

/// Moving a clip and undoing it gives back the project.
pub proof fn lemma_move_clip_round_trip(
    a: MoveClipCommand,
    b: MoveClipCommand,
    b2: MoveClipCommand,
    c0: CommandContext,
    c1: CommandContext,
    c2: CommandContext,
)
    requires
        a.executed(b, c0, c1),
        b.undone(b2, c1, c2),
    ensures
        unchanged(c0, c2),
{
    let m0 = c0.project.track_map();
    let tid = a.track_id;
    if m0.contains_key(tid) && clip_pos(m0[tid].clips, a.clip_id) is Some {
        let clips = m0[tid].clips;
        lemma_clip_pos_some(clips, a.clip_id);
        let i = clip_pos(clips, a.clip_id)->0;
        let moved = ClipView { start: a.new_start, ..clips[i] };
        lemma_clip_pos_update(clips, a.clip_id, i, moved);
        assert(clips.update(i, moved).update(i, ClipView { start: clips[i].start, ..moved }) =~= clips);
        assert(c2.project.track_map() =~= m0);
    }
}

/// Trimming a clip and undoing it gives back the project.
pub proof fn lemma_trim_clip_round_trip(
    a: TrimClipCommand,
    b: TrimClipCommand,
    b2: TrimClipCommand,
    c0: CommandContext,
    c1: CommandContext,
    c2: CommandContext,
)
    requires
        a.executed(b, c0, c1),
        b.undone(b2, c1, c2),
    ensures
        unchanged(c0, c2),
{
    let m0 = c0.project.track_map();
    let tid = a.track_id;
    if m0.contains_key(tid) && clip_pos(m0[tid].clips, a.clip_id) is Some {
        let clips = m0[tid].clips;
        lemma_clip_pos_some(clips, a.clip_id);
        let i = clip_pos(clips, a.clip_id)->0;
        let c = clips[i];
        let t = trimmed(c, a.new_start, a.new_length, a.new_file_offset);
        lemma_clip_pos_update(clips, a.clip_id, i, t);
        assert(trimmed(t, b.old_start, b.old_length, b.old_file_offset) == c);
        assert(clips.update(i, t).update(i, c) =~= clips);
        assert(c2.project.track_map() =~= m0);
    }
}

/// Renaming a clip and undoing it gives back the project.
pub proof fn lemma_rename_clip_round_trip(
    a: RenameClipCommand,
    b: RenameClipCommand,
    b2: RenameClipCommand,
    c0: CommandContext,
    c1: CommandContext,
    c2: CommandContext,
)
    requires
        a.executed(b, c0, c1),
        b.undone(b2, c1, c2),
    ensures
        unchanged(c0, c2),
{
    let m0 = c0.project.track_map();
    let tid = a.track_id;
    if m0.contains_key(tid) && clip_pos(m0[tid].clips, a.clip_id) is Some {
        let clips = m0[tid].clips;
        lemma_clip_pos_some(clips, a.clip_id);
        let i = clip_pos(clips, a.clip_id)->0;
        let renamed = ClipView { name: a.new_name@, ..clips[i] };
        lemma_clip_pos_update(clips, a.clip_id, i, renamed);
        assert(clips.update(i, renamed).update(i, ClipView { name: clips[i].name, ..renamed }) =~= clips);
        assert(c2.project.track_map() =~= m0);
    }
}

/// Duplicating a clip that the track holds and undoing it gives back the
/// project, where the duplicate's identifier was not in use on the track.
pub proof fn lemma_duplicate_clip_round_trip(
    a: DuplicateClipCommand,
    b: DuplicateClipCommand,
    b2: DuplicateClipCommand,
    c0: CommandContext,
    c1: CommandContext,
    c2: CommandContext,
)
    requires
        c0.project.track_map().contains_key(a.track_id),
        clip_pos(c0.project.track_map()[a.track_id].clips, a.original_clip_id) is Some,
        a.executed(b, c0, c1),
        b.undone(b2, c1, c2),
        forall|j: int|
            0 <= j < c0.project.track_map()[a.track_id].clips.len() ==> (
            #[trigger] c0.project.track_map()[a.track_id].clips[j]).id != b.duplicate_id->0,
    ensures
        unchanged(c0, c2),
{
    let m0 = c0.project.track_map();
    let tid = a.track_id;
    let clips = m0[tid].clips;
    let d = b.duplicate_id->0;
    let dup = c1.project.track_map()[tid].clips.last();
    assert(c1.project.track_map()[tid].clips == clips.push(dup));
    lemma_push_then_remove(clips, dup);
    assert(c2.project.track_map() =~= m0);
}

/// Adding a clip whose identifier no clip holds, then taking out every
/// clip with that identifier, gives back the clips.
pub proof fn lemma_push_then_remove(clips: Seq<ClipView>, c: ClipView)
    requires
        forall|j: int| 0 <= j < clips.len() ==> (#[trigger] clips[j]).id != c.id,
    ensures
        clips_without(clips.push(c), c.id) == clips,
{
    let pred = |x: ClipView| x.id != c.id;
    reveal_with_fuel(Seq::<_>::filter, 2);
    assert(clips.push(c).drop_last() =~= clips);
    lemma_filter_all(clips, pred);
}

/// Removing a track keeps a well-numbered project well numbered.
pub proof fn lemma_remove_keeps_well_numbered(m0: Map<u128, TrackView>, order0: Seq<u128>, id: u128)
    requires
        well_numbered(m0, order0),
    ensures
        well_numbered(renumbered_without(m0, order0, id).remove(id), order_without(order0, id)),
{
    if order0.contains(id) {
        let i = choose|i: int| 0 <= i < order0.len() && order0[i] == id;
        lemma_first_index_unique(order0, i);
        let rest = order0.remove(i);
        let n = (order0.len() - 1) as nat;
        lemma_reinsert(order0, i, i);
        assert(rest.no_duplicates()) by {
            assert forall|x: int, y: int| 0 <= x < rest.len() && 0 <= y < rest.len() && x != y implies rest[x] != rest[y] by {
                let x0 = if x < i { x } else { x + 1 };
                let y0 = if y < i { y } else { y + 1 };
                assert(rest[x] == order0[x0]);
                assert(rest[y] == order0[y0]);
            }
        }
        lemma_renumber_facts(m0, rest, n);
        assert(rest.subrange(0, n as int) =~= rest);
        let f = renumber(m0, rest, n).remove(id);
        assert forall|k: u128| f.contains_key(k) <==> rest.contains(k) by {
            if rest.contains(k) {
                let x = choose|x: int| 0 <= x < rest.len() && rest[x] == k;
                let x0 = if x < i { x } else { x + 1 };
                assert(rest[x] == order0[x0]);
                assert(order0.contains(k));
            }
            if f.contains_key(k) {
                assert(m0.contains_key(k));
                assert(order0.contains(k));
                let x0 = choose|x0: int| 0 <= x0 < order0.len() && order0[x0] == k;
                assert(x0 != i);
                let x = if x0 < i { x0 } else { x0 - 1 };
                assert(rest[x] == k);
            }
        }
        assert forall|j: int| 0 <= j < rest.len() implies (#[trigger] f[rest[j]]).order == j by {
            let j0 = if j < i { j } else { j + 1 };
            assert(rest[j] == order0[j0]);
            assert(order0.contains(rest[j]));
            assert(m0.contains_key(rest[j]));
            assert(renumber(m0, rest, n)[rest[j]] == with_order(m0[rest[j]], j as usize));
        }
    } else {
        assert(!m0.contains_key(id));
        assert(m0.remove(id) =~= m0);
    }
}

/// Moving a listed track keeps a well-numbered project well numbered.
pub proof fn lemma_move_keeps_well_numbered(m0: Map<u128, TrackView>, order0: Seq<u128>, id: u128, index: usize)
    requires
        well_numbered(m0, order0),
        order0.len() <= usize::MAX,
        order0.contains(id),
    ensures
        ({
            let order1 = moved_order(order0, id, index);
            well_numbered(renumber(m0, order1, order1.len()), order1)
        }),
{
    let i = choose|i: int| 0 <= i < order0.len() && order0[i] == id;
    lemma_first_index_unique(order0, i);
    let rest = order0.remove(i);
    let k = clamp_index(index, rest.len() as int);
    let order1 = rest.insert(k, id);
    lemma_reinsert(order0, i, k);
    assert(order1 == moved_order(order0, id, index));
    let n = order1.len();
    lemma_renumber_facts(m0, order1, n);
    assert(order1.subrange(0, n as int) =~= order1);
    let f = renumber(m0, order1, n);
    assert forall|key: u128| f.contains_key(key) <==> order1.contains(key) by {
        if order1.contains(key) {
            let x = choose|x: int| 0 <= x < order1.len() && order1[x] == key;
            if x != k {
                let xr = if x < k { x } else { x - 1 };
                assert(order1[x] == rest[xr]);
                let x0 = if xr < i { xr } else { xr + 1 };
                assert(rest[xr] == order0[x0]);
                assert(order0.contains(key));
            } else {
                assert(order0.contains(key));
            }
        }
        if f.contains_key(key) {
            assert(order0.contains(key));
        }
    }
    assert forall|j: int| 0 <= j < order1.len() implies (#[trigger] f[order1[j]]).order == j by {
        assert(order1.contains(order1[j]));
        assert(m0.contains_key(order1[j]));
        assert(f[order1[j]] == with_order(m0[order1[j]], j as usize));
    }
}

} // verus!
