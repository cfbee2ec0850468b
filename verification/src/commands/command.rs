//! The command context, the set of undoable commands, and the relations
//! that their execution and undo establish.

use vstd::prelude::*;
use crate::error::Error;
use crate::project::{Project, TrackView, ClipView};
use crate::state::{AppState, MixerState, TransportState};
use crate::commands::track_commands::{
    AddTrackCommand, RemoveTrackCommand, RenameTrackCommand, MoveTrackCommand,
};
use crate::commands::clip_commands::{
    AddClipCommand, DeleteClipCommand, MoveClipCommand, TrimClipCommand, RenameClipCommand,
    DuplicateClipCommand,
};

verus! {

/// Context provided to commands for execution.
pub struct CommandContext {
    /// Project data
    pub project: Project,
    /// Application state
    pub state: AppState,
    /// Transport state
    pub transport: TransportState,
    /// Mixer state
    pub mixer: MixerState,
}

/// `c1` keeps the project's metadata, format and rate, the application
/// state and the transport of `c0`.
pub open spec fn others_kept(c0: CommandContext, c1: CommandContext) -> bool {
    &&& c1.project.metadata == c0.project.metadata
    &&& c1.project.format_version == c0.project.format_version
    &&& c1.project.sample_rate == c0.project.sample_rate
    &&& c1.state == c0.state
    &&& c1.transport == c0.transport
}

/// `c1` differs from `c0` only in the project's tracks and their order,
/// which are `tracks` and `order`.
pub open spec fn tracks_become(
    c0: CommandContext,
    c1: CommandContext,
    tracks: Map<u128, TrackView>,
    order: Seq<u128>,
) -> bool {
    &&& c1.project.track_map() == tracks
    &&& c1.project.track_order@ == order
    &&& others_kept(c0, c1)
    &&& c1.mixer == c0.mixer
}

/// `c1` holds the same tracks and order as `c0`, and nothing else changed.
pub open spec fn unchanged(c0: CommandContext, c1: CommandContext) -> bool {
    tracks_become(c0, c1, c0.project.track_map(), c0.project.track_order@)
}

/// The tracks with the clips of track `tid` replaced by `clips`.
pub open spec fn with_clips(m: Map<u128, TrackView>, tid: u128, clips: Seq<ClipView>) -> Map<
    u128,
    TrackView,
> {
    m.insert(tid, TrackView { clips, ..m[tid] })
}

/// The index of the first clip with identifier `id`, if any.
pub open spec fn clip_pos(clips: Seq<ClipView>, id: u128) -> Option<int> {
    if exists|i: int| 0 <= i < clips.len() && clips[i].id == id {
        Some(choose|i: int| 0 <= i < clips.len() && clips[i].id == id && forall|j: int| 0 <= j < i ==> clips[j].id != id)
    } else {
        None
    }
}

/// An undoable edit.
pub enum Command {
    AddTrack(AddTrackCommand),
    RemoveTrack(RemoveTrackCommand),
    RenameTrack(RenameTrackCommand),
    MoveTrack(MoveTrackCommand),
    AddClip(AddClipCommand),
    DeleteClip(DeleteClipCommand),
    MoveClip(MoveClipCommand),
    TrimClip(TrimClipCommand),
    RenameClip(RenameClipCommand),
    DuplicateClip(DuplicateClipCommand),
}

/// Boxed command type.
pub type BoxedCommand = Command;

/// Executing `before` in `c0` leaves the command as `after` and the
/// context as `c1`.
pub open spec fn executed(before: Command, after: Command, c0: CommandContext, c1: CommandContext) -> bool {
    match (before, after) {
        (Command::AddTrack(a), Command::AddTrack(b)) => a.executed(b, c0, c1),
        (Command::RemoveTrack(a), Command::RemoveTrack(b)) => a.executed(b, c0, c1),
        (Command::RenameTrack(a), Command::RenameTrack(b)) => a.executed(b, c0, c1),
        (Command::MoveTrack(a), Command::MoveTrack(b)) => a.executed(b, c0, c1),
        (Command::AddClip(a), Command::AddClip(b)) => a.executed(b, c0, c1),
        (Command::DeleteClip(a), Command::DeleteClip(b)) => a.executed(b, c0, c1),
        (Command::MoveClip(a), Command::MoveClip(b)) => a.executed(b, c0, c1),
        (Command::TrimClip(a), Command::TrimClip(b)) => a.executed(b, c0, c1),
        (Command::RenameClip(a), Command::RenameClip(b)) => a.executed(b, c0, c1),
        (Command::DuplicateClip(a), Command::DuplicateClip(b)) => a.executed(b, c0, c1),
        _ => false,
    }
}

/// Undoing `before` in `c0` leaves the command as `after` and the context
/// as `c1`.
pub open spec fn undone(before: Command, after: Command, c0: CommandContext, c1: CommandContext) -> bool {
    match (before, after) {
        (Command::AddTrack(a), Command::AddTrack(b)) => a.undone(b, c0, c1),
        (Command::RemoveTrack(a), Command::RemoveTrack(b)) => a.undone(b, c0, c1),
        (Command::RenameTrack(a), Command::RenameTrack(b)) => a.undone(b, c0, c1),
        (Command::MoveTrack(a), Command::MoveTrack(b)) => a.undone(b, c0, c1),
        (Command::AddClip(a), Command::AddClip(b)) => a.undone(b, c0, c1),
        (Command::DeleteClip(a), Command::DeleteClip(b)) => a.undone(b, c0, c1),
        (Command::MoveClip(a), Command::MoveClip(b)) => a.undone(b, c0, c1),
        (Command::TrimClip(a), Command::TrimClip(b)) => a.undone(b, c0, c1),
        (Command::RenameClip(a), Command::RenameClip(b)) => a.undone(b, c0, c1),
        (Command::DuplicateClip(a), Command::DuplicateClip(b)) => a.undone(b, c0, c1),
        _ => false,
    }
}

/// Whether `c` may run in `ctx` (a duplicate must not move past the end
/// of the timeline).
pub open spec fn can_run(c: Command, ctx: CommandContext) -> bool {
    match c {
        Command::DuplicateClip(d) => d.can_run(ctx),
        _ => true,
    }
}

impl Command {
    /// Display name for the command (shown in the Edit menu).
    pub fn name(&self) -> (s: &'static str)
        ensures
            s@ == command_name(*self),
    {
        match self {
            Command::AddTrack(_) => "Add Track",
            Command::RemoveTrack(_) => "Remove Track",
            Command::RenameTrack(_) => "Rename Track",
            Command::MoveTrack(_) => "Move Track",
            Command::AddClip(_) => "Add Clip",
            Command::DeleteClip(_) => "Delete Clip",
            Command::MoveClip(_) => "Move Clip",
            Command::TrimClip(_) => "Trim Clip",
            Command::RenameClip(_) => "Rename Clip",
            Command::DuplicateClip(_) => "Duplicate Clip",
        }
    }

    /// Execute the command.
    pub fn execute(&mut self, ctx: &mut CommandContext) -> (r: Result<(), Error>)
        requires
            can_run(*old(self), *old(ctx)),
        ensures
            r is Ok,
            executed(*old(self), *final(self), *old(ctx), *final(ctx)),
    {
        match self {
            Command::AddTrack(c) => c.execute(ctx),
            Command::RemoveTrack(c) => c.execute(ctx),
            Command::RenameTrack(c) => c.execute(ctx),
            Command::MoveTrack(c) => c.execute(ctx),
            Command::AddClip(c) => c.execute(ctx),
            Command::DeleteClip(c) => c.execute(ctx),
            Command::MoveClip(c) => c.execute(ctx),
            Command::TrimClip(c) => c.execute(ctx),
            Command::RenameClip(c) => c.execute(ctx),
            Command::DuplicateClip(c) => c.execute(ctx),
        }
    }

    /// Whether this command can be merged with another.
    pub fn can_merge(&self, other: &Command) -> (b: bool)
        ensures
            b == mergeable(*self, *other),
    {
        match self {
            Command::RenameTrack(c) => c.can_merge(other),
            Command::MoveClip(c) => c.can_merge(other),
            Command::TrimClip(c) => c.can_merge(other),
            _ => false,
        }
    }

    /// Merge another command into this one (for coalescing rapid changes).
    pub fn merge(&mut self, other: Command) -> (b: bool)
        ensures
            b == mergeable(*old(self), other),
            !b ==> *final(self) == *old(self),
            b ==> match (*old(self), other, *final(self)) {
                (Command::RenameTrack(a), Command::RenameTrack(o), Command::RenameTrack(f)) => f
                    == (RenameTrackCommand { new_name: o.new_name, ..a }),
                (Command::MoveClip(a), Command::MoveClip(o), Command::MoveClip(f)) => f == (
                MoveClipCommand { new_start: o.new_start, ..a }),
                (Command::TrimClip(a), Command::TrimClip(o), Command::TrimClip(f)) => f == (
                TrimClipCommand {
                    new_start: if o.new_start is Some {
                        o.new_start
                    } else {
                        a.new_start
                    },
                    new_length: if o.new_length is Some {
                        o.new_length
                    } else {
                        a.new_length
                    },
                    new_file_offset: if o.new_file_offset is Some {
                        o.new_file_offset
                    } else {
                        a.new_file_offset
                    },
                    ..a
                }),
                _ => false,
            },
    {
        match self {
            Command::RenameTrack(c) => c.merge(other),
            Command::MoveClip(c) => c.merge(other),
            Command::TrimClip(c) => c.merge(other),
            _ => false,
        }
    }

    /// Undo the command.
    pub fn undo(&mut self, ctx: &mut CommandContext) -> (r: Result<(), Error>)
        ensures
            r is Ok,
            undone(*old(self), *final(self), *old(ctx), *final(ctx)),
    {
        match self {
            Command::AddTrack(c) => c.undo(ctx),
            Command::RemoveTrack(c) => c.undo(ctx),
            Command::RenameTrack(c) => c.undo(ctx),
            Command::MoveTrack(c) => c.undo(ctx),
            Command::AddClip(c) => c.undo(ctx),
            Command::DeleteClip(c) => c.undo(ctx),
            Command::MoveClip(c) => c.undo(ctx),
            Command::TrimClip(c) => c.undo(ctx),
            Command::RenameClip(c) => c.undo(ctx),
            Command::DuplicateClip(c) => c.undo(ctx),
        }
    }
}

/// Whether `c` would merge `other` into itself: a rename of the same
/// track, or a move or trim of the same clip.
pub open spec fn mergeable(c: Command, other: Command) -> bool {
    match (c, other) {
        (Command::RenameTrack(a), Command::RenameTrack(o)) => o.track_id == a.track_id,
        (Command::MoveClip(a), Command::MoveClip(o)) => o.track_id == a.track_id && o.clip_id
            == a.clip_id,
        (Command::TrimClip(a), Command::TrimClip(o)) => o.track_id == a.track_id && o.clip_id
            == a.clip_id,
        _ => false,
    }
}

/// The display name of a command.
pub open spec fn command_name(c: Command) -> Seq<char> {
    match c {
        Command::AddTrack(_) => "Add Track"@,
        Command::RemoveTrack(_) => "Remove Track"@,
        Command::RenameTrack(_) => "Rename Track"@,
        Command::MoveTrack(_) => "Move Track"@,
        Command::AddClip(_) => "Add Clip"@,
        Command::DeleteClip(_) => "Delete Clip"@,
        Command::MoveClip(_) => "Move Clip"@,
        Command::TrimClip(_) => "Trim Clip"@,
        Command::RenameClip(_) => "Rename Clip"@,
        Command::DuplicateClip(_) => "Duplicate Clip"@,
    }
}

} // verus!
