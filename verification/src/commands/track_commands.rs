//! Track-related commands for undo/redo.

use vstd::prelude::*;
use crate::error::Error;
use crate::project::{
    Track, TrackType, TrackView, InputSource, position_of, first_index_of, order_without,
    renumbered_without, renumber, with_order,
};
use crate::state::channel_appended;
use crate::commands::command::{CommandContext, Command, tracks_become, unchanged, others_kept};

verus! {

/// The view of a new empty track.
pub open spec fn new_track_view(id: u128, name: Seq<char>, track_type: TrackType, order: usize) -> TrackView {
    TrackView {
        id,
        name,
        track_type,
        order,
        clips: Seq::empty(),
        record_armed: false,
        input_source: InputSource::NoInput,
    }
}

/// The smaller of an index and a length.
pub open spec fn clamp_index(i: usize, len: int) -> int {
    if (i as int) < len {
        i as int
    } else {
        len
    }
}

/// The order with `id` put back at `index` (at the end where the index is
/// unknown or past the end).
pub open spec fn restore_at(order: Seq<u128>, index: Option<usize>, id: u128) -> Seq<u128> {
    match index {
        Some(i) => if i <= order.len() {
            order.insert(i as int, id)
        } else {
            order.push(id)
        },
        None => order.push(id),
    }
}

/// The order with the first occurrence of `id` moved to `index` (clamped
/// to the end).
pub open spec fn moved_order(order: Seq<u128>, id: u128, index: usize) -> Seq<u128> {
    match first_index_of(order, id) {
        Some(i) => {
            let rest = order.remove(i);
            rest.insert(clamp_index(index, rest.len() as int), id)
        },
        None => order,
    }
}

/// Command to add a new track.
pub struct AddTrackCommand {
    /// Name for the new track
    pub name: String,
    /// Type of track to add
    pub track_type: TrackType,
    /// ID of the created track (set after execution)
    pub created_id: Option<u128>,
}

impl AddTrackCommand {
    /// A command that adds a track of the given type.
    pub fn new(name: &str, track_type: TrackType) -> (c: AddTrackCommand)
        ensures
            c.name@ == name@,
            c.track_type == track_type,
            c.created_id is None,
    {
        AddTrackCommand { name: String::from_str(name), track_type, created_id: None }
    }

    /// A command that adds an audio track.
    pub fn audio(name: &str) -> (c: AddTrackCommand)
        ensures
            c.name@ == name@,
            c.track_type == TrackType::Audio,
            c.created_id is None,
    {
        AddTrackCommand::new(name, TrackType::Audio)
    }

    /// A command that adds a MIDI track.
    pub fn midi(name: &str) -> (c: AddTrackCommand)
        ensures
            c.name@ == name@,
            c.track_type == TrackType::Midi,
            c.created_id is None,
    {
        AddTrackCommand::new(name, TrackType::Midi)
    }

    /// Execution: a new empty track under a fresh identifier joins the end
    /// of the order, and the mixer gains a channel of the same name.
    pub open spec fn executed(self, after: Self, c0: CommandContext, c1: CommandContext) -> bool {
        &&& after.name == self.name
        &&& after.track_type == self.track_type
        &&& match after.created_id {
            Some(id) => {
                let order0 = c0.project.track_order@;
                &&& c1.project.track_map() == c0.project.track_map().insert(
                    id,
                    new_track_view(id, self.name@, self.track_type, order0.len() as usize),
                )
                &&& c1.project.track_order@ == order0.push(id)
                &&& others_kept(c0, c1)
                &&& channel_appended(c0.mixer, c1.mixer, self.name@)
            },
            None => false,
        }
    }

    /// Undo: the created track is removed again (the mixer channel stays).
    pub open spec fn undone(self, after: Self, c0: CommandContext, c1: CommandContext) -> bool {
        &&& after == self
        &&& match self.created_id {
            Some(id) => tracks_become(
                c0,
                c1,
                renumbered_without(c0.project.track_map(), c0.project.track_order@, id).remove(id),
                order_without(c0.project.track_order@, id),
            ),
            None => unchanged(c0, c1),
        }
    }

    /// Execute the command.
    pub fn execute(&mut self, ctx: &mut CommandContext) -> (r: Result<(), Error>)
        ensures
            r is Ok,
            old(self).executed(*final(self), *old(ctx), *final(ctx)),
    {
        let track = Track::new(self.name.as_str(), self.track_type);
        let ghost tv = track@;
        proof {
            assert(tv.clips =~= Seq::empty());
        }
        let ghost len = ctx.project.track_order@.len();
        let id = ctx.project.add_track(track);
        proof {
            assert(with_order(tv, len as usize) == new_track_view(id, self.name@, self.track_type, len as usize));
        }
        let _ = ctx.mixer.add_channel(self.name.as_str());
        self.created_id = Some(id);
        Ok(())
    }

    /// Undo the command.
    pub fn undo(&mut self, ctx: &mut CommandContext) -> (r: Result<(), Error>)
        ensures
            r is Ok,
            old(self).undone(*final(self), *old(ctx), *final(ctx)),
    {
        match self.created_id {
            Some(id) => {
                let _ = ctx.project.remove_track(id);
            },
            None => {},
        }
        Ok(())
    }
}

/// Command to remove a track.
pub struct RemoveTrackCommand {
    /// ID of the track to remove
    pub track_id: u128,
    /// Stored track data for undo
    pub removed_track: Option<Track>,
    /// Track's original position in order
    pub original_index: Option<usize>,
}

impl RemoveTrackCommand {
    /// A command that removes the track `track_id`.
    pub fn new(track_id: u128) -> (c: RemoveTrackCommand)
        ensures
            c.track_id == track_id,
            c.removed_track is None,
            c.original_index is None,
    {
        RemoveTrackCommand { track_id, removed_track: None, original_index: None }
    }

    /// Execution: the track's position is recorded, the track is removed
    /// as `Project::remove_track` removes it, and kept for undo.
    pub open spec fn executed(self, after: Self, c0: CommandContext, c1: CommandContext) -> bool {
        let id = self.track_id;
        let m0 = c0.project.track_map();
        let order0 = c0.project.track_order@;
        let renumbered = renumbered_without(m0, order0, id);
        &&& after.track_id == id
        &&& after.original_index == match first_index_of(order0, id) {
            Some(i) => Some(i as usize),
            None => None,
        }
        &&& tracks_become(c0, c1, renumbered.remove(id), order_without(order0, id))
        &&& if renumbered.contains_key(id) {
            match after.removed_track {
                Some(t) => t@ == renumbered[id],
                None => false,
            }
        } else {
            after.removed_track == self.removed_track
        }
    }

    /// Undo: the kept track goes back into the map and into the order at
    /// its recorded position.
    pub open spec fn undone(self, after: Self, c0: CommandContext, c1: CommandContext) -> bool {
        &&& after == self
        &&& match self.removed_track {
            Some(t) => tracks_become(
                c0,
                c1,
                c0.project.track_map().insert(self.track_id, t@),
                restore_at(c0.project.track_order@, self.original_index, self.track_id),
            ),
            None => unchanged(c0, c1),
        }
    }

    /// Execute the command.
    pub fn execute(&mut self, ctx: &mut CommandContext) -> (r: Result<(), Error>)
        ensures
            r is Ok,
            old(self).executed(*final(self), *old(ctx), *final(ctx)),
    {
        self.original_index = position_of(&ctx.project.track_order, self.track_id);
        match ctx.project.remove_track(self.track_id) {
            Some(track) => {
                self.removed_track = Some(track);
            },
            None => {},
        }
        Ok(())
    }

    /// Undo the command.
    pub fn undo(&mut self, ctx: &mut CommandContext) -> (r: Result<(), Error>)
        ensures
            r is Ok,
            old(self).undone(*final(self), *old(ctx), *final(ctx)),
    {
        match &self.removed_track {
            Some(track) => {
                let copy = track.duplicate();
                let ghost m0 = ctx.project.track_map();
                let _ = ctx.project.tracks.insert(self.track_id, copy);
                proof {
                    assert(ctx.project.track_map() =~= m0.insert(self.track_id, track@));
                }
                match self.original_index {
                    Some(idx) => {
                        if idx <= ctx.project.track_order.len() {
                            ctx.project.track_order.insert(idx, self.track_id);
                        } else {
                            ctx.project.track_order.push(self.track_id);
                        }
                    },
                    None => {
                        ctx.project.track_order.push(self.track_id);
                    },
                }
            },
            None => {},
        }
        Ok(())
    }
}

/// Command to rename a track.
pub struct RenameTrackCommand {
    /// ID of the track to rename
    pub track_id: u128,
    /// New name for the track
    pub new_name: String,
    /// Previous name (stored for undo)
    pub old_name: Option<String>,
}

impl RenameTrackCommand {
    /// A command that renames the track `track_id`.
    pub fn new(track_id: u128, new_name: &str) -> (c: RenameTrackCommand)
        ensures
            c.track_id == track_id,
            c.new_name@ == new_name@,
            c.old_name is None,
    {
        RenameTrackCommand { track_id, new_name: String::from_str(new_name), old_name: None }
    }

    /// Execution: where the track exists, its name is kept and replaced.
    pub open spec fn executed(self, after: Self, c0: CommandContext, c1: CommandContext) -> bool {
        let m0 = c0.project.track_map();
        let id = self.track_id;
        if m0.contains_key(id) {
            &&& after.track_id == id
            &&& after.new_name == self.new_name
            &&& (match after.old_name {
                Some(n) => n@ == m0[id].name,
                None => false,
            })
            &&& tracks_become(
                c0,
                c1,
                m0.insert(id, TrackView { name: self.new_name@, ..m0[id] }),
                c0.project.track_order@,
            )
        } else {
            after == self && unchanged(c0, c1)
        }
    }

    /// Undo: where a name was kept and the track exists, it is restored.
    pub open spec fn undone(self, after: Self, c0: CommandContext, c1: CommandContext) -> bool {
        let m0 = c0.project.track_map();
        let id = self.track_id;
        &&& after == self
        &&& match self.old_name {
            Some(n) => if m0.contains_key(id) {
                tracks_become(
                    c0,
                    c1,
                    m0.insert(id, TrackView { name: n@, ..m0[id] }),
                    c0.project.track_order@,
                )
            } else {
                unchanged(c0, c1)
            },
            None => unchanged(c0, c1),
        }
    }

    /// Execute the command.
    pub fn execute(&mut self, ctx: &mut CommandContext) -> (r: Result<(), Error>)
        ensures
            r is Ok,
            old(self).executed(*final(self), *old(ctx), *final(ctx)),
    {
        match ctx.project.get_track_mut(self.track_id) {
            Some(track) => {
                self.old_name = Some(track.name.clone());
                track.name = self.new_name.clone();
            },
            None => {},
        }
        Ok(())
    }

    /// Undo the command.
    pub fn undo(&mut self, ctx: &mut CommandContext) -> (r: Result<(), Error>)
        ensures
            r is Ok,
            old(self).undone(*final(self), *old(ctx), *final(ctx)),
    {
        match &self.old_name {
            Some(old_name) => {
                match ctx.project.get_track_mut(self.track_id) {
                    Some(track) => {
                        track.name = old_name.clone();
                    },
                    None => {},
                }
            },
            None => {},
        }
        Ok(())
    }

    /// Whether `other` renames the same track.
    pub fn can_merge(&self, other: &Command) -> (b: bool)
        ensures
            b == (match other {
                Command::RenameTrack(o) => o.track_id == self.track_id,
                _ => false,
            }),
    {
        match other {
            Command::RenameTrack(o) => o.track_id == self.track_id,
            _ => false,
        }
    }

    /// Merge a later rename of the same track: its name becomes the new
    /// name, and the kept old name stays.
    pub fn merge(&mut self, other: Command) -> (b: bool)
        ensures
            b == (match other {
                Command::RenameTrack(o) => o.track_id == old(self).track_id,
                _ => false,
            }),
            match other {
                Command::RenameTrack(o) => if b {
                    *final(self) == (RenameTrackCommand { new_name: o.new_name, ..*old(self) })
                } else {
                    *final(self) == *old(self)
                },
                _ => *final(self) == *old(self),
            },
    {
        match other {
            Command::RenameTrack(o) => {
                if o.track_id == self.track_id {
                    self.new_name = o.new_name;
                    true
                } else {
                    false
                }
            },
            _ => false,
        }
    }
}

/// Command to change track order.
pub struct MoveTrackCommand {
    /// ID of the track to move
    pub track_id: u128,
    /// New position index
    pub new_index: usize,
    /// Original position (stored for undo)
    pub old_index: Option<usize>,
}

impl MoveTrackCommand {
    /// A command that moves the track `track_id` to `new_index`.
    pub fn new(track_id: u128, new_index: usize) -> (c: MoveTrackCommand)
        ensures
            c.track_id == track_id,
            c.new_index == new_index,
            c.old_index is None,
    {
        MoveTrackCommand { track_id, new_index, old_index: None }
    }

    /// Execution: where the track is listed, its position is kept, it moves
    /// to the new index (clamped), and every listed track is renumbered.
    pub open spec fn executed(self, after: Self, c0: CommandContext, c1: CommandContext) -> bool {
        let order0 = c0.project.track_order@;
        match first_index_of(order0, self.track_id) {
            Some(i) => {
                let order1 = moved_order(order0, self.track_id, self.new_index);
                &&& after == (MoveTrackCommand { old_index: Some(i as usize), ..self })
                &&& tracks_become(
                    c0,
                    c1,
                    renumber(c0.project.track_map(), order1, order1.len()),
                    order1,
                )
            },
            None => after == self && unchanged(c0, c1),
        }
    }

    /// Undo: where a position was kept and the track is listed, it moves
    /// back there (clamped) and every listed track is renumbered.
    pub open spec fn undone(self, after: Self, c0: CommandContext, c1: CommandContext) -> bool {
        let order0 = c0.project.track_order@;
        &&& after == self
        &&& match (self.old_index, first_index_of(order0, self.track_id)) {
            (Some(oi), Some(_)) => {
                let order1 = moved_order(order0, self.track_id, oi);
                tracks_become(
                    c0,
                    c1,
                    renumber(c0.project.track_map(), order1, order1.len()),
                    order1,
                )
            },
            _ => unchanged(c0, c1),
        }
    }

    /// Execute the command.
    pub fn execute(&mut self, ctx: &mut CommandContext) -> (r: Result<(), Error>)
        ensures
            r is Ok,
            old(self).executed(*final(self), *old(ctx), *final(ctx)),
    {
        match position_of(&ctx.project.track_order, self.track_id) {
            Some(old_idx) => {
                self.old_index = Some(old_idx);
                move_in_order(ctx, old_idx, self.track_id, self.new_index);
            },
            None => {},
        }
        Ok(())
    }

    /// Undo the command.
    pub fn undo(&mut self, ctx: &mut CommandContext) -> (r: Result<(), Error>)
        ensures
            r is Ok,
            old(self).undone(*final(self), *old(ctx), *final(ctx)),
    {
        match self.old_index {
            Some(old_idx) => {
                match position_of(&ctx.project.track_order, self.track_id) {
                    Some(current_idx) => {
                        move_in_order(ctx, current_idx, self.track_id, old_idx);
                    },
                    None => {},
                }
            },
            None => {},
        }
        Ok(())
    }
}

/// Moves the entry at `from` (which is `id`, its first occurrence) to
/// `to`, clamped to the end, and renumbers the tracks.
fn move_in_order(ctx: &mut CommandContext, from: usize, id: u128, to: usize)
    requires
        from < old(ctx).project.track_order@.len(),
        first_index_of(old(ctx).project.track_order@, id) == Some(from as int),
    ensures
        ({
            let order1 = moved_order(old(ctx).project.track_order@, id, to);
            tracks_become(
                *old(ctx),
                *final(ctx),
                renumber(old(ctx).project.track_map(), order1, order1.len()),
                order1,
            )
        }),
{
    let ghost order0 = ctx.project.track_order@;
    let ghost rest = order0.remove(from as int);
    let _ = ctx.project.track_order.remove(from);
    let len = ctx.project.track_order.len();
    let insert_idx = if to < len {
        to
    } else {
        len
    };
    ctx.project.track_order.insert(insert_idx, id);
    proof {
        assert(ctx.project.track_order@ == rest.insert(clamp_index(to, rest.len() as int), id));
    }
    ctx.project.renumber_tracks();
}

} // verus!
