//! Clip-related commands for undo/redo.

use vstd::prelude::*;
use crate::error::Error;
use crate::project::{
    Clip, ClipView, ClipContent, ClipContentView, MidiNote, clip_views, fresh_id,
};
use crate::commands::command::{
    CommandContext, Command, tracks_become, unchanged, with_clips, clip_pos,
};

verus! {

/// The value that an optional setting gives, or `current` where it is unset.
pub open spec fn or_keep(setting: Option<u64>, current: u64) -> u64 {
    match setting {
        Some(v) => v,
        None => current,
    }
}

/// A clip with its start, length and (for audio) file offset replaced
/// where a setting is given.
pub open spec fn trimmed(
    c: ClipView,
    start: Option<u64>,
    length: Option<u64>,
    file_offset: Option<u64>,
) -> ClipView {
    ClipView {
        start: or_keep(start, c.start),
        length: or_keep(length, c.length),
        content: match c.content {
            ClipContentView::Audio { file_path, file_offset: off } => ClipContentView::Audio {
                file_path,
                file_offset: or_keep(file_offset, off),
            },
            ClipContentView::Midi { notes } => ClipContentView::Midi { notes },
        },
        ..c
    }
}

/// The clips without those whose identifier is `id`.
pub open spec fn clips_without(clips: Seq<ClipView>, id: u128) -> Seq<ClipView> {
    clips.filter(|c: ClipView| c.id != id)
}

/// Finds the first clip with identifier `id`.
pub fn find_clip(clips: &Vec<Clip>, id: u128) -> (r: Option<usize>)
    ensures
        match r {
            Some(i) => i < clips@.len() && clip_pos(clip_views(clips@), id) == Some(i as int),
            None => clip_pos(clip_views(clips@), id) is None,
        },
{
    let ghost cv = clip_views(clips@);
    let mut i: usize = 0;
    while i < clips.len()
        invariant
            i <= clips@.len(),
            cv == clip_views(clips@),
            cv.len() == clips@.len(),
            forall|j: int| 0 <= j < i ==> cv[j].id != id,
        decreases clips@.len() - i,
    {
        if clips[i].id == id {
            proof {
                assert(cv[i as int].id == id);
                let k = choose|k: int|
                    0 <= k < cv.len() && cv[k].id == id && forall|j: int| 0 <= j < k ==> cv[j].id != id;
                assert(k == i as int) by {
                    if k > i {
                        assert(cv[i as int].id == id);
                    }
                }
            }
            return Some(i);
        }
        i = i + 1;
    }
    None
}

/// The clips whose identifier is not `id`, in their order.
pub fn retain_other_clips(clips: &Vec<Clip>, id: u128) -> (r: Vec<Clip>)
    ensures
        clip_views(r@) == clips_without(clip_views(clips@), id),
{
    let ghost cv = clip_views(clips@);
    let ghost pred = |c: ClipView| c.id != id;
    let mut out: Vec<Clip> = Vec::new();
    let mut i: usize = 0;
    while i < clips.len()
        invariant
            i <= clips@.len(),
            cv == clip_views(clips@),
            cv.len() == clips@.len(),
            pred == (|c: ClipView| c.id != id),
            clip_views(out@) == cv.subrange(0, i as int).filter(pred),
        decreases clips@.len() - i,
    {
        let ghost prefix = cv.subrange(0, i as int);
        proof {
            assert(cv.subrange(0, i + 1) =~= prefix.push(cv[i as int]));
            reveal_with_fuel(Seq::<_>::filter, 2);
            assert(prefix.push(cv[i as int]).drop_last() =~= prefix);
        }
        if clips[i].id != id {
            let ghost old_out = out@;
            out.push(clips[i].duplicate());
            proof {
                assert(clip_views(out@) =~= clip_views(old_out).push(cv[i as int]));
            }
        }
        i = i + 1;
    }
    proof {
        assert(cv.subrange(0, cv.len() as int) =~= cv);
    }
    out
}

/// Command to add a new clip to a track.
pub struct AddClipCommand {
    /// Track ID to add clip to
    pub track_id: u128,
    /// The clip to add
    pub clip: Clip,
    /// Whether the clip was successfully added
    pub added: bool,
}

impl AddClipCommand {
    /// A command that adds `clip` to the track `track_id`.
    pub fn new(track_id: u128, clip: Clip) -> (c: AddClipCommand)
        ensures
            c.track_id == track_id,
            c.clip == clip,
            !c.added,
    {
        AddClipCommand { track_id, clip, added: false }
    }

    /// A command that adds an audio clip with a fresh identifier.
    pub fn audio(track_id: u128, name: &str, start: u64, length: u64, file_path: &str) -> (c:
        AddClipCommand)
        ensures
            c.track_id == track_id,
            c.clip.name@ == name@,
            c.clip.start == start,
            c.clip.length == length,
            c.clip.content@ == (ClipContentView::Audio { file_path: file_path@, file_offset: 0 }),
            !c.added,
    {
        let clip = Clip {
            id: fresh_id(),
            name: String::from_str(name),
            start,
            length,
            content: ClipContent::Audio { file_path: String::from_str(file_path), file_offset: 0 },
        };
        AddClipCommand::new(track_id, clip)
    }

    /// A command that adds an empty MIDI clip with a fresh identifier.
    pub fn midi(track_id: u128, name: &str, start: u64, length: u64) -> (c: AddClipCommand)
        ensures
            c.track_id == track_id,
            c.clip.name@ == name@,
            c.clip.start == start,
            c.clip.length == length,
            c.clip.content@ == (ClipContentView::Midi { notes: Seq::<MidiNote>::empty() }),
            !c.added,
    {
        let clip = Clip {
            id: fresh_id(),
            name: String::from_str(name),
            start,
            length,
            content: ClipContent::Midi { notes: Vec::new() },
        };
        AddClipCommand::new(track_id, clip)
    }

    /// Execution: where the track exists, a copy of the clip joins its end.
    pub open spec fn executed(self, after: Self, c0: CommandContext, c1: CommandContext) -> bool {
        let m0 = c0.project.track_map();
        if m0.contains_key(self.track_id) {
            &&& after == (AddClipCommand { added: true, ..self })
            &&& tracks_become(
                c0,
                c1,
                with_clips(m0, self.track_id, m0[self.track_id].clips.push(self.clip@)),
                c0.project.track_order@,
            )
        } else {
            after == self && unchanged(c0, c1)
        }
    }

    /// Undo: where the clip was added and the track exists, every clip with
    /// its identifier leaves the track.
    pub open spec fn undone(self, after: Self, c0: CommandContext, c1: CommandContext) -> bool {
        let m0 = c0.project.track_map();
        &&& after == self
        &&& if self.added && m0.contains_key(self.track_id) {
            tracks_become(
                c0,
                c1,
                with_clips(
                    m0,
                    self.track_id,
                    clips_without(m0[self.track_id].clips, self.clip.id),
                ),
                c0.project.track_order@,
            )
        } else {
            unchanged(c0, c1)
        }
    }

    /// Execute the command.
    pub fn execute(&mut self, ctx: &mut CommandContext) -> (r: Result<(), Error>)
        ensures
            r is Ok,
            old(self).executed(*final(self), *old(ctx), *final(ctx)),
    {
        match ctx.project.get_track_mut(self.track_id) {
            Some(track) => {
                let ghost before = track.clips@;
                track.clips.push(self.clip.duplicate());
                proof {
                    assert(clip_views(track.clips@) =~= clip_views(before).push(self.clip@));
                }
                self.added = true;
            },
            None => {},
        }
        Ok(())
    }

    /// Undo the command.
    pub fn undo(&mut self, ctx: &mut CommandContext) -> (r: Result<(), Error>)
        ensures
            r is Ok,
            old(self).undone(*final(self), *old(ctx), *final(ctx)),
    {
        if self.added {
            match ctx.project.get_track_mut(self.track_id) {
                Some(track) => {
                    let kept = retain_other_clips(&track.clips, self.clip.id);
                    track.clips = kept;
                },
                None => {},
            }
        }
        Ok(())
    }
}

/// The clips with `clip` put back at `index` (at the end where the index
/// is unknown or past the end).
pub open spec fn clip_restored(clips: Seq<ClipView>, index: Option<usize>, clip: ClipView) -> Seq<
    ClipView,
> {
    match index {
        Some(i) => if i <= clips.len() {
            clips.insert(i as int, clip)
        } else {
            clips.push(clip)
        },
        None => clips.push(clip),
    }
}

/// Command to delete a clip from a track.
pub struct DeleteClipCommand {
    /// Track ID containing the clip
    pub track_id: u128,
    /// Clip ID to delete
    pub clip_id: u128,
    /// Stored clip for undo
    pub deleted_clip: Option<Clip>,
    /// Original index in clips array
    pub original_index: Option<usize>,
}

impl DeleteClipCommand {
    /// A command that deletes the clip `clip_id` from the track `track_id`.
    pub fn new(track_id: u128, clip_id: u128) -> (c: DeleteClipCommand)
        ensures
            c.track_id == track_id,
            c.clip_id == clip_id,
            c.deleted_clip is None,
            c.original_index is None,
    {
        DeleteClipCommand { track_id, clip_id, deleted_clip: None, original_index: None }
    }

    /// Execution: where the track holds the clip, its first occurrence is
    /// removed and kept with its index.
    pub open spec fn executed(self, after: Self, c0: CommandContext, c1: CommandContext) -> bool {
        let m0 = c0.project.track_map();
        let tid = self.track_id;
        if m0.contains_key(tid) && clip_pos(m0[tid].clips, self.clip_id) is Some {
            let clips = m0[tid].clips;
            let i = clip_pos(clips, self.clip_id)->0;
            &&& after.track_id == tid
            &&& after.clip_id == self.clip_id
            &&& after.original_index == Some(i as usize)
            &&& (match after.deleted_clip {
                Some(c) => c@ == clips[i],
                None => false,
            })
            &&& tracks_become(c0, c1, with_clips(m0, tid, clips.remove(i)), c0.project.track_order@)
        } else {
            after == self && unchanged(c0, c1)
        }
    }

    /// Undo: the kept clip goes back at its index where the track exists;
    /// where it does not, the kept clip is dropped.
    pub open spec fn undone(self, after: Self, c0: CommandContext, c1: CommandContext) -> bool {
        let m0 = c0.project.track_map();
        let tid = self.track_id;
        match self.deleted_clip {
            Some(c) => if m0.contains_key(tid) {
                &&& after == self
                &&& tracks_become(
                    c0,
                    c1,
                    with_clips(m0, tid, clip_restored(m0[tid].clips, self.original_index, c@)),
                    c0.project.track_order@,
                )
            } else {
                after == (DeleteClipCommand { deleted_clip: None, ..self }) && unchanged(c0, c1)
            },
            None => after == self && unchanged(c0, c1),
        }
    }

    /// Execute the command.
    pub fn execute(&mut self, ctx: &mut CommandContext) -> (r: Result<(), Error>)
        ensures
            r is Ok,
            old(self).executed(*final(self), *old(ctx), *final(ctx)),
    {
        match ctx.project.get_track_mut(self.track_id) {
            Some(track) => {
                match find_clip(&track.clips, self.clip_id) {
                    Some(idx) => {
                        let ghost before = track.clips@;
                        self.original_index = Some(idx);
                        let clip = track.clips.remove(idx);
                        proof {
                            assert(clip_views(track.clips@) =~= clip_views(before).remove(idx as int));
                        }
                        self.deleted_clip = Some(clip);
                    },
                    None => {},
                }
            },
            None => {},
        }
        Ok(())
    }

    /// Undo the command.
    pub fn undo(&mut self, ctx: &mut CommandContext) -> (r: Result<(), Error>)
        ensures
            r is Ok,
            old(self).undone(*final(self), *old(ctx), *final(ctx)),
    {
        match &self.deleted_clip {
            Some(clip) => {
                match ctx.project.get_track_mut(self.track_id) {
                    Some(track) => {
                        let ghost before = track.clips@;
                        let copy = clip.duplicate();
                        match self.original_index {
                            Some(idx) => {
                                if idx <= track.clips.len() {
                                    track.clips.insert(idx, copy);
                                    proof {
                                        assert(clip_views(track.clips@) =~= clip_views(before).insert(
                                            idx as int,
                                            clip@,
                                        ));
                                    }
                                } else {
                                    track.clips.push(copy);
                                    proof {
                                        assert(clip_views(track.clips@) =~= clip_views(before).push(clip@));
                                    }
                                }
                            },
                            None => {
                                track.clips.push(copy);
                                proof {
                                    assert(clip_views(track.clips@) =~= clip_views(before).push(clip@));
                                }
                            },
                        }
                    },
                    None => {
                        self.deleted_clip = None;
                    },
                }
            },
            None => {},
        }
        Ok(())
    }
}

/// Command to move a clip to a new position.
pub struct MoveClipCommand {
    /// Track ID containing the clip
    pub track_id: u128,
    /// Clip ID to move
    pub clip_id: u128,
    /// New start position in samples
    pub new_start: u64,
    /// Old start position (stored for undo)
    pub old_start: Option<u64>,
}

impl MoveClipCommand {
    /// A command that moves the clip `clip_id` to `new_start`.
    pub fn new(track_id: u128, clip_id: u128, new_start: u64) -> (c: MoveClipCommand)
        ensures
            c.track_id == track_id,
            c.clip_id == clip_id,
            c.new_start == new_start,
            c.old_start is None,
    {
        MoveClipCommand { track_id, clip_id, new_start, old_start: None }
    }

    /// Execution: where the track holds the clip, the first such clip's
    /// start is kept and replaced.
    pub open spec fn executed(self, after: Self, c0: CommandContext, c1: CommandContext) -> bool {
        let m0 = c0.project.track_map();
        let tid = self.track_id;
        if m0.contains_key(tid) && clip_pos(m0[tid].clips, self.clip_id) is Some {
            let clips = m0[tid].clips;
            let i = clip_pos(clips, self.clip_id)->0;
            &&& after == (MoveClipCommand { old_start: Some(clips[i].start), ..self })
            &&& tracks_become(
                c0,
                c1,
                with_clips(m0, tid, clips.update(i, ClipView { start: self.new_start, ..clips[i] })),
                c0.project.track_order@,
            )
        } else {
            after == self && unchanged(c0, c1)
        }
    }

    /// Undo: where a start was kept and the clip is found, it is restored.
    pub open spec fn undone(self, after: Self, c0: CommandContext, c1: CommandContext) -> bool {
        let m0 = c0.project.track_map();
        let tid = self.track_id;
        &&& after == self
        &&& if self.old_start is Some && m0.contains_key(tid) && clip_pos(
            m0[tid].clips,
            self.clip_id,
        ) is Some {
            let clips = m0[tid].clips;
            let i = clip_pos(clips, self.clip_id)->0;
            tracks_become(
                c0,
                c1,
                with_clips(
                    m0,
                    tid,
                    clips.update(i, ClipView { start: self.old_start->0, ..clips[i] }),
                ),
                c0.project.track_order@,
            )
        } else {
            unchanged(c0, c1)
        }
    }

    /// Execute the command.
    pub fn execute(&mut self, ctx: &mut CommandContext) -> (r: Result<(), Error>)
        ensures
            r is Ok,
            old(self).executed(*final(self), *old(ctx), *final(ctx)),
    {
        match ctx.project.get_track_mut(self.track_id) {
            Some(track) => {
                match find_clip(&track.clips, self.clip_id) {
                    Some(idx) => {
                        self.old_start = Some(track.clips[idx].start);
                        set_clip_start(&mut track.clips, idx, self.new_start);
                    },
                    None => {},
                }
            },
            None => {},
        }
        Ok(())
    }

    /// Undo the command.
    pub fn undo(&mut self, ctx: &mut CommandContext) -> (r: Result<(), Error>)
        ensures
            r is Ok,
            old(self).undone(*final(self), *old(ctx), *final(ctx)),
    {
        match self.old_start {
            Some(old_start) => {
                match ctx.project.get_track_mut(self.track_id) {
                    Some(track) => {
                        match find_clip(&track.clips, self.clip_id) {
                            Some(idx) => {
                                set_clip_start(&mut track.clips, idx, old_start);
                            },
                            None => {},
                        }
                    },
                    None => {},
                }
            },
            None => {},
        }
        Ok(())
    }

    /// Whether `other` moves the same clip.
    pub fn can_merge(&self, other: &Command) -> (b: bool)
        ensures
            b == (match other {
                Command::MoveClip(o) => o.track_id == self.track_id && o.clip_id == self.clip_id,
                _ => false,
            }),
    {
        match other {
            Command::MoveClip(o) => o.track_id == self.track_id && o.clip_id == self.clip_id,
            _ => false,
        }
    }

    /// Merge a later move of the same clip: its target becomes the target.
    pub fn merge(&mut self, other: Command) -> (b: bool)
        ensures
            b == (match other {
                Command::MoveClip(o) => o.track_id == old(self).track_id && o.clip_id == old(
                    self,
                ).clip_id,
                _ => false,
            }),
            match other {
                Command::MoveClip(o) => if b {
                    *final(self) == (MoveClipCommand { new_start: o.new_start, ..*old(self) })
                } else {
                    *final(self) == *old(self)
                },
                _ => *final(self) == *old(self),
            },
    {
        match other {
            Command::MoveClip(o) => {
                if o.track_id == self.track_id && o.clip_id == self.clip_id {
                    self.new_start = o.new_start;
                    true
                } else {
                    false
                }
            },
            _ => false,
        }
    }
}

/// Sets the start of the clip at `idx`.
fn set_clip_start(clips: &mut Vec<Clip>, idx: usize, start: u64)
    requires
        idx < old(clips)@.len(),
    ensures
        clip_views(final(clips)@) == clip_views(old(clips)@).update(
            idx as int,
            ClipView { start, ..old(clips)@[idx as int]@ },
        ),
{
    let mut c = clips[idx].duplicate();
    c.start = start;
    let ghost before = clips@;
    clips.set(idx, c);
    proof {
        assert(clip_views(clips@) =~= clip_views(before).update(
            idx as int,
            ClipView { start, ..before[idx as int]@ },
        ));
    }
}

/// Replaces the clip at `idx` by one whose view is `v`, built from `c`.
fn replace_clip(clips: &mut Vec<Clip>, idx: usize, c: Clip)
    requires
        idx < old(clips)@.len(),
    ensures
        clip_views(final(clips)@) == clip_views(old(clips)@).update(idx as int, c@),
{
    let ghost before = clips@;
    let ghost cv = c@;
    clips.set(idx, c);
    proof {
        assert(clip_views(clips@) =~= clip_views(before).update(idx as int, cv));
    }
}

/// Command to trim a clip (change start offset and/or length).
pub struct TrimClipCommand {
    /// Track ID containing the clip
    pub track_id: u128,
    /// Clip ID to trim
    pub clip_id: u128,
    /// New start position (if trimming from left)
    pub new_start: Option<u64>,
    /// New length
    pub new_length: Option<u64>,
    /// Old start position
    pub old_start: Option<u64>,
    /// Old length
    pub old_length: Option<u64>,
    /// Old file offset (for audio clips)
    pub old_file_offset: Option<u64>,
    /// New file offset (for audio clips)
    pub new_file_offset: Option<u64>,
}

impl TrimClipCommand {
    /// A command that trims the clip `clip_id`; nothing is set yet.
    pub fn new(track_id: u128, clip_id: u128) -> (c: TrimClipCommand)
        ensures
            c == (TrimClipCommand {
                track_id,
                clip_id,
                new_start: None,
                new_length: None,
                old_start: None,
                old_length: None,
                old_file_offset: None,
                new_file_offset: None,
            }),
    {
        TrimClipCommand {
            track_id,
            clip_id,
            new_start: None,
            new_length: None,
            old_start: None,
            old_length: None,
            old_file_offset: None,
            new_file_offset: None,
        }
    }

    /// Set new start position (trim from left).
    pub fn with_start(self, start: u64) -> (c: TrimClipCommand)
        ensures
            c == (TrimClipCommand { new_start: Some(start), ..self }),
    {
        let mut c = self;
        c.new_start = Some(start);
        c
    }

    /// Set new length (trim from right).
    pub fn with_length(self, length: u64) -> (c: TrimClipCommand)
        ensures
            c == (TrimClipCommand { new_length: Some(length), ..self }),
    {
        let mut c = self;
        c.new_length = Some(length);
        c
    }

    /// Set new file offset (for audio clips trimmed from left).
    pub fn with_file_offset(self, offset: u64) -> (c: TrimClipCommand)
        ensures
            c == (TrimClipCommand { new_file_offset: Some(offset), ..self }),
    {
        let mut c = self;
        c.new_file_offset = Some(offset);
        c
    }

    /// Execution: where the track holds the clip, its start, length and
    /// (for audio) file offset are kept, and the given settings applied.
    pub open spec fn executed(self, after: Self, c0: CommandContext, c1: CommandContext) -> bool {
        let m0 = c0.project.track_map();
        let tid = self.track_id;
        if m0.contains_key(tid) && clip_pos(m0[tid].clips, self.clip_id) is Some {
            let clips = m0[tid].clips;
            let i = clip_pos(clips, self.clip_id)->0;
            let c = clips[i];
            &&& after == (TrimClipCommand {
                old_start: Some(c.start),
                old_length: Some(c.length),
                old_file_offset: match c.content {
                    ClipContentView::Audio { file_offset, .. } => Some(file_offset),
                    ClipContentView::Midi { .. } => self.old_file_offset,
                },
                ..self
            })
            &&& tracks_become(
                c0,
                c1,
                with_clips(
                    m0,
                    tid,
                    clips.update(i, trimmed(c, self.new_start, self.new_length, self.new_file_offset)),
                ),
                c0.project.track_order@,
            )
        } else {
            after == self && unchanged(c0, c1)
        }
    }

    /// Undo: where the clip is found, the kept values are put back.
    pub open spec fn undone(self, after: Self, c0: CommandContext, c1: CommandContext) -> bool {
        let m0 = c0.project.track_map();
        let tid = self.track_id;
        &&& after == self
        &&& if m0.contains_key(tid) && clip_pos(m0[tid].clips, self.clip_id) is Some {
            let clips = m0[tid].clips;
            let i = clip_pos(clips, self.clip_id)->0;
            tracks_become(
                c0,
                c1,
                with_clips(
                    m0,
                    tid,
                    clips.update(
                        i,
                        trimmed(clips[i], self.old_start, self.old_length, self.old_file_offset),
                    ),
                ),
                c0.project.track_order@,
            )
        } else {
            unchanged(c0, c1)
        }
    }

    /// Execute the command.
    pub fn execute(&mut self, ctx: &mut CommandContext) -> (r: Result<(), Error>)
        ensures
            r is Ok,
            old(self).executed(*final(self), *old(ctx), *final(ctx)),
    {
        match ctx.project.get_track_mut(self.track_id) {
            Some(track) => {
                match find_clip(&track.clips, self.clip_id) {
                    Some(idx) => {
                        let mut clip = track.clips[idx].duplicate();
                        self.old_start = Some(clip.start);
                        self.old_length = Some(clip.length);
                        match self.new_start {
                            Some(s) => {
                                clip.start = s;
                            },
                            None => {},
                        }
                        match self.new_length {
                            Some(l) => {
                                clip.length = l;
                            },
                            None => {},
                        }
                        match &mut clip.content {
                            ClipContent::Audio { file_offset, .. } => {
                                self.old_file_offset = Some(*file_offset);
                                match self.new_file_offset {
                                    Some(o) => {
                                        *file_offset = o;
                                    },
                                    None => {},
                                }
                            },
                            ClipContent::Midi { .. } => {},
                        }
                        replace_clip(&mut track.clips, idx, clip);
                    },
                    None => {},
                }
            },
            None => {},
        }
        Ok(())
    }

    /// Undo the command.
    pub fn undo(&mut self, ctx: &mut CommandContext) -> (r: Result<(), Error>)
        ensures
            r is Ok,
            old(self).undone(*final(self), *old(ctx), *final(ctx)),
    {
        match ctx.project.get_track_mut(self.track_id) {
            Some(track) => {
                match find_clip(&track.clips, self.clip_id) {
                    Some(idx) => {
                        let mut clip = track.clips[idx].duplicate();
                        match self.old_start {
                            Some(s) => {
                                clip.start = s;
                            },
                            None => {},
                        }
                        match self.old_length {
                            Some(l) => {
                                clip.length = l;
                            },
                            None => {},
                        }
                        match &mut clip.content {
                            ClipContent::Audio { file_offset, .. } => {
                                match self.old_file_offset {
                                    Some(o) => {
                                        *file_offset = o;
                                    },
                                    None => {},
                                }
                            },
                            ClipContent::Midi { .. } => {},
                        }
                        replace_clip(&mut track.clips, idx, clip);
                    },
                    None => {},
                }
            },
            None => {},
        }
        Ok(())
    }

    /// Whether `other` trims the same clip.
    pub fn can_merge(&self, other: &Command) -> (b: bool)
        ensures
            b == (match other {
                Command::TrimClip(o) => o.track_id == self.track_id && o.clip_id == self.clip_id,
                _ => false,
            }),
    {
        match other {
            Command::TrimClip(o) => o.track_id == self.track_id && o.clip_id == self.clip_id,
            _ => false,
        }
    }

    /// Merge a later trim of the same clip: each setting it gives replaces
    /// this one's.
    pub fn merge(&mut self, other: Command) -> (b: bool)
        ensures
            b == (match other {
                Command::TrimClip(o) => o.track_id == old(self).track_id && o.clip_id == old(
                    self,
                ).clip_id,
                _ => false,
            }),
            match other {
                Command::TrimClip(o) => if b {
                    *final(self) == (TrimClipCommand {
                        new_start: if o.new_start is Some {
                            o.new_start
                        } else {
                            old(self).new_start
                        },
                        new_length: if o.new_length is Some {
                            o.new_length
                        } else {
                            old(self).new_length
                        },
                        new_file_offset: if o.new_file_offset is Some {
                            o.new_file_offset
                        } else {
                            old(self).new_file_offset
                        },
                        ..*old(self)
                    })
                } else {
                    *final(self) == *old(self)
                },
                _ => *final(self) == *old(self),
            },
    {
        match other {
            Command::TrimClip(o) => {
                if o.track_id == self.track_id && o.clip_id == self.clip_id {
                    if o.new_start.is_some() {
                        self.new_start = o.new_start;
                    }
                    if o.new_length.is_some() {
                        self.new_length = o.new_length;
                    }
                    if o.new_file_offset.is_some() {
                        self.new_file_offset = o.new_file_offset;
                    }
                    true
                } else {
                    false
                }
            },
            _ => false,
        }
    }
}

/// Command to rename a clip.
pub struct RenameClipCommand {
    /// Track ID containing the clip
    pub track_id: u128,
    /// Clip ID to rename
    pub clip_id: u128,
    /// New name
    pub new_name: String,
    /// Old name (stored for undo)
    pub old_name: Option<String>,
}

impl RenameClipCommand {
    /// A command that renames the clip `clip_id`.
    pub fn new(track_id: u128, clip_id: u128, new_name: &str) -> (c: RenameClipCommand)
        ensures
            c.track_id == track_id,
            c.clip_id == clip_id,
            c.new_name@ == new_name@,
            c.old_name is None,
    {
        RenameClipCommand { track_id, clip_id, new_name: String::from_str(new_name), old_name: None }
    }

    /// Execution: where the track holds the clip, the first such clip's
    /// name is kept and replaced.
    pub open spec fn executed(self, after: Self, c0: CommandContext, c1: CommandContext) -> bool {
        let m0 = c0.project.track_map();
        let tid = self.track_id;
        if m0.contains_key(tid) && clip_pos(m0[tid].clips, self.clip_id) is Some {
            let clips = m0[tid].clips;
            let i = clip_pos(clips, self.clip_id)->0;
            &&& after.track_id == tid
            &&& after.clip_id == self.clip_id
            &&& after.new_name == self.new_name
            &&& (match after.old_name {
                Some(n) => n@ == clips[i].name,
                None => false,
            })
            &&& tracks_become(
                c0,
                c1,
                with_clips(m0, tid, clips.update(i, ClipView { name: self.new_name@, ..clips[i] })),
                c0.project.track_order@,
            )
        } else {
            after == self && unchanged(c0, c1)
        }
    }

    /// Undo: where a name was kept and the clip is found, it is restored.
    pub open spec fn undone(self, after: Self, c0: CommandContext, c1: CommandContext) -> bool {
        let m0 = c0.project.track_map();
        let tid = self.track_id;
        &&& after == self
        &&& match self.old_name {
            Some(n) => if m0.contains_key(tid) && clip_pos(m0[tid].clips, self.clip_id) is Some {
                let clips = m0[tid].clips;
                let i = clip_pos(clips, self.clip_id)->0;
                tracks_become(
                    c0,
                    c1,
                    with_clips(m0, tid, clips.update(i, ClipView { name: n@, ..clips[i] })),
                    c0.project.track_order@,
                )
            } else {
                unchanged(c0, c1)
            },
            None => unchanged(c0, c1),
        }
    }

    /// Execute the command.
    pub fn execute(&mut self, ctx: &mut CommandContext) -> (r: Result<(), Error>)
        ensures
            r is Ok,
            old(self).executed(*final(self), *old(ctx), *final(ctx)),
    {
        match ctx.project.get_track_mut(self.track_id) {
            Some(track) => {
                match find_clip(&track.clips, self.clip_id) {
                    Some(idx) => {
                        let mut clip = track.clips[idx].duplicate();
                        self.old_name = Some(clip.name.clone());
                        clip.name = self.new_name.clone();
                        replace_clip(&mut track.clips, idx, clip);
                    },
                    None => {},
                }
            },
            None => {},
        }
        Ok(())
    }

    /// Undo the command.
    pub fn undo(&mut self, ctx: &mut CommandContext) -> (r: Result<(), Error>)
        ensures
            r is Ok,
            old(self).undone(*final(self), *old(ctx), *final(ctx)),
    {
        match &self.old_name {
            Some(old_name) => {
                match ctx.project.get_track_mut(self.track_id) {
                    Some(track) => {
                        match find_clip(&track.clips, self.clip_id) {
                            Some(idx) => {
                                let mut clip = track.clips[idx].duplicate();
                                clip.name = old_name.clone();
                                replace_clip(&mut track.clips, idx, clip);
                            },
                            None => {},
                        }
                    },
                    None => {},
                }
            },
            None => {},
        }
        Ok(())
    }
}

/// The name of a duplicated clip.
pub open spec fn copy_name(name: Seq<char>) -> Seq<char> {
    name + " (copy)"@
}

/// Command to duplicate a clip.
pub struct DuplicateClipCommand {
    /// Track ID containing the clip
    pub track_id: u128,
    /// Original clip ID
    pub original_clip_id: u128,
    /// Offset for the duplicate (added to original start)
    pub offset: u64,
    /// Created duplicate clip ID
    pub duplicate_id: Option<u128>,
}

impl DuplicateClipCommand {
    /// A command that duplicates the clip `original_clip_id`, `offset`
    /// samples later.
    pub fn new(track_id: u128, original_clip_id: u128, offset: u64) -> (c: DuplicateClipCommand)
        ensures
            c.track_id == track_id,
            c.original_clip_id == original_clip_id,
            c.offset == offset,
            c.duplicate_id is None,
    {
        DuplicateClipCommand { track_id, original_clip_id, offset, duplicate_id: None }
    }

    /// The duplicate's start stays on the timeline.
    pub open spec fn can_run(self, c0: CommandContext) -> bool {
        let m0 = c0.project.track_map();
        let tid = self.track_id;
        m0.contains_key(tid) && clip_pos(m0[tid].clips, self.original_clip_id) is Some ==> {
            let clips = m0[tid].clips;
            clips[clip_pos(clips, self.original_clip_id)->0].start + self.offset <= u64::MAX
        }
    }

    /// Execution: where the track holds the clip, a copy under a fresh
    /// identifier, named with " (copy)" and moved by the offset, joins the
    /// end of the track.
    pub open spec fn executed(self, after: Self, c0: CommandContext, c1: CommandContext) -> bool {
        let m0 = c0.project.track_map();
        let tid = self.track_id;
        if m0.contains_key(tid) && clip_pos(m0[tid].clips, self.original_clip_id) is Some {
            let clips = m0[tid].clips;
            let o = clips[clip_pos(clips, self.original_clip_id)->0];
            match after.duplicate_id {
                Some(d) => {
                    &&& after == (DuplicateClipCommand { duplicate_id: Some(d), ..self })
                    &&& tracks_become(
                        c0,
                        c1,
                        with_clips(
                            m0,
                            tid,
                            clips.push(
                                ClipView {
                                    id: d,
                                    name: copy_name(o.name),
                                    start: (o.start + self.offset) as u64,
                                    ..o
                                },
                            ),
                        ),
                        c0.project.track_order@,
                    )
                },
                None => false,
            }
        } else {
            after == self && unchanged(c0, c1)
        }
    }

    /// Undo: every clip with the duplicate's identifier leaves the track.
    pub open spec fn undone(self, after: Self, c0: CommandContext, c1: CommandContext) -> bool {
        let m0 = c0.project.track_map();
        let tid = self.track_id;
        &&& after == self
        &&& match self.duplicate_id {
            Some(d) => if m0.contains_key(tid) {
                tracks_become(
                    c0,
                    c1,
                    with_clips(m0, tid, clips_without(m0[tid].clips, d)),
                    c0.project.track_order@,
                )
            } else {
                unchanged(c0, c1)
            },
            None => unchanged(c0, c1),
        }
    }

    /// Execute the command.
    pub fn execute(&mut self, ctx: &mut CommandContext) -> (r: Result<(), Error>)
        requires
            old(self).can_run(*old(ctx)),
        ensures
            r is Ok,
            old(self).executed(*final(self), *old(ctx), *final(ctx)),
    {
        match ctx.project.get_track_mut(self.track_id) {
            Some(track) => {
                match find_clip(&track.clips, self.original_clip_id) {
                    Some(idx) => {
                        let ghost before = track.clips@;
                        let original = &track.clips[idx];
                        let mut duplicate = original.duplicate();
                        duplicate.id = fresh_id();
                        duplicate.name = original.name.clone().concat(" (copy)");
                        duplicate.start = original.start + self.offset;
                        self.duplicate_id = Some(duplicate.id);
                        let ghost dv = duplicate@;
                        track.clips.push(duplicate);
                        proof {
                            assert(clip_views(track.clips@) =~= clip_views(before).push(dv));
                        }
                    },
                    None => {},
                }
            },
            None => {},
        }
        Ok(())
    }

    /// Undo the command.
    pub fn undo(&mut self, ctx: &mut CommandContext) -> (r: Result<(), Error>)
        ensures
            r is Ok,
            old(self).undone(*final(self), *old(ctx), *final(ctx)),
    {
        match self.duplicate_id {
            Some(dup_id) => {
                match ctx.project.get_track_mut(self.track_id) {
                    Some(track) => {
                        let kept = retain_other_clips(&track.clips, dup_id);
                        track.clips = kept;
                    },
                    None => {},
                }
            },
            None => {},
        }
        Ok(())
    }
}

} // verus!
