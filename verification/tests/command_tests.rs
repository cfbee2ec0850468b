use orpheus::commands::clip_commands::{
    AddClipCommand, DeleteClipCommand, DuplicateClipCommand, MoveClipCommand, RenameClipCommand,
    TrimClipCommand,
};
use orpheus::commands::command::{Command, CommandContext};
use orpheus::commands::history::CommandHistory;
use orpheus::commands::registry::{CommandCategory, CommandInfo, CommandRegistry};
use orpheus::commands::track_commands::{
    AddTrackCommand, MoveTrackCommand, RemoveTrackCommand, RenameTrackCommand,
};
use orpheus::project::{Clip, ClipContent, Project, Track};
use orpheus::state::{AppState, MixerState, TransportState};

fn context_with(project: Project) -> CommandContext {
    CommandContext {
        project,
        state: AppState::new(),
        transport: TransportState::new(),
        mixer: MixerState::new(),
    }
}

fn context_with_track() -> (CommandContext, u128) {
    let mut project = Project::new("Test");
    let track_id = project.add_track(Track::audio("Test Track"));
    (context_with(project), track_id)
}

fn audio_clip(id: u128, start: u64) -> Clip {
    Clip {
        id,
        name: "Test Clip".to_string(),
        start,
        length: 48000,
        content: ClipContent::Audio { file_path: "/test.wav".to_string(), file_offset: 0 },
    }
}

#[test]
fn test_add_track_command() {
    let mut ctx = context_with(Project::new("Test"));
    let mut cmd = AddTrackCommand::audio("Test Track");
    assert!(cmd.execute(&mut ctx).is_ok());
    assert_eq!(ctx.project.track_count(), 1);
    assert!(cmd.created_id.is_some());
    assert_eq!(ctx.mixer.channels.len(), 1);

    assert!(cmd.undo(&mut ctx).is_ok());
    assert_eq!(ctx.project.track_count(), 0);
}

#[test]
fn test_rename_track_command() {
    let mut project = Project::new("Test");
    let track_id = project.add_track(Track::audio("Original Name"));
    let mut ctx = context_with(project);

    let mut cmd = RenameTrackCommand::new(track_id, "New Name");
    assert!(cmd.execute(&mut ctx).is_ok());
    assert_eq!(ctx.project.get_track(track_id).unwrap().name, "New Name");

    assert!(cmd.undo(&mut ctx).is_ok());
    assert_eq!(ctx.project.get_track(track_id).unwrap().name, "Original Name");
}

#[test]
fn test_add_clip_command() {
    let (mut ctx, track_id) = context_with_track();
    let mut cmd = AddClipCommand::audio(track_id, "Test Clip", 0, 48000, "/path/to/file.wav");
    assert!(cmd.execute(&mut ctx).is_ok());
    assert_eq!(ctx.project.get_track(track_id).unwrap().clips.len(), 1);

    assert!(cmd.undo(&mut ctx).is_ok());
    assert_eq!(ctx.project.get_track(track_id).unwrap().clips.len(), 0);
}

#[test]
fn test_move_clip_command() {
    let (mut ctx, track_id) = context_with_track();
    let clip_id = 77u128;
    ctx.project.get_track_mut(track_id).unwrap().clips.push(audio_clip(clip_id, 0));

    let mut cmd = MoveClipCommand::new(track_id, clip_id, 96000);
    assert!(cmd.execute(&mut ctx).is_ok());
    assert_eq!(ctx.project.get_track(track_id).unwrap().clips[0].start, 96000);

    assert!(cmd.undo(&mut ctx).is_ok());
    assert_eq!(ctx.project.get_track(track_id).unwrap().clips[0].start, 0);
}

#[test]
fn remove_track_and_undo_restores_order() {
    let mut project = Project::new("Test");
    let a = project.add_track(Track::audio("A"));
    let b = project.add_track(Track::midi("B"));
    let c = project.add_track(Track::audio("C"));
    let mut ctx = context_with(project);
    let mut cmd = RemoveTrackCommand::new(b);
    cmd.execute(&mut ctx).unwrap();
    assert_eq!(ctx.project.track_order, vec![a, c]);
    assert_eq!(ctx.project.get_track(c).unwrap().order, 1);
    assert_eq!(cmd.original_index, Some(1));
    cmd.undo(&mut ctx).unwrap();
    assert_eq!(ctx.project.track_order, vec![a, b, c]);
    assert_eq!(ctx.project.get_track(b).unwrap().name, "B");
    assert_eq!(ctx.project.get_track(b).unwrap().order, 1);
    // the track after it keeps the index that the removal gave it
    assert_eq!(ctx.project.get_track(c).unwrap().order, 1);
}

#[test]
fn move_track_and_undo() {
    let mut project = Project::new("Test");
    let a = project.add_track(Track::audio("A"));
    let b = project.add_track(Track::audio("B"));
    let c = project.add_track(Track::audio("C"));
    let mut ctx = context_with(project);
    let mut cmd = MoveTrackCommand::new(a, 10);
    cmd.execute(&mut ctx).unwrap();
    assert_eq!(ctx.project.track_order, vec![b, c, a]);
    assert_eq!(ctx.project.get_track(a).unwrap().order, 2);
    assert_eq!(ctx.project.get_track(b).unwrap().order, 0);
    cmd.undo(&mut ctx).unwrap();
    assert_eq!(ctx.project.track_order, vec![a, b, c]);
    assert_eq!(ctx.project.get_track(a).unwrap().order, 0);
    assert_eq!(ctx.project.get_track(c).unwrap().order, 2);
}

#[test]
fn clip_commands_round_trip() {
    let (mut ctx, t) = context_with_track();
    ctx.project.get_track_mut(t).unwrap().clips.push(audio_clip(1, 100));
    ctx.project.get_track_mut(t).unwrap().clips.push(audio_clip(2, 200));

    let mut del = DeleteClipCommand::new(t, 1);
    del.execute(&mut ctx).unwrap();
    assert_eq!(ctx.project.get_track(t).unwrap().clips.len(), 1);
    assert_eq!(del.original_index, Some(0));
    del.undo(&mut ctx).unwrap();
    assert_eq!(ctx.project.get_track(t).unwrap().clips[0].id, 1);

    let mut trim = TrimClipCommand::new(t, 2).with_start(250).with_length(10).with_file_offset(50);
    trim.execute(&mut ctx).unwrap();
    let clip = &ctx.project.get_track(t).unwrap().clips[1];
    assert_eq!((clip.start, clip.length), (250, 10));
    match &clip.content {
        ClipContent::Audio { file_offset, .. } => assert_eq!(*file_offset, 50),
        _ => panic!("audio clip expected"),
    }
    trim.undo(&mut ctx).unwrap();
    let clip = &ctx.project.get_track(t).unwrap().clips[1];
    assert_eq!((clip.start, clip.length), (200, 48000));
    match &clip.content {
        ClipContent::Audio { file_offset, .. } => assert_eq!(*file_offset, 0),
        _ => panic!("audio clip expected"),
    }

    let mut rename = RenameClipCommand::new(t, 2, "Chorus take");
    rename.execute(&mut ctx).unwrap();
    assert_eq!(ctx.project.get_track(t).unwrap().clips[1].name, "Chorus take");
    rename.undo(&mut ctx).unwrap();
    assert_eq!(ctx.project.get_track(t).unwrap().clips[1].name, "Test Clip");

    let mut dup = DuplicateClipCommand::new(t, 1, 1000);
    dup.execute(&mut ctx).unwrap();
    let clips = &ctx.project.get_track(t).unwrap().clips;
    assert_eq!(clips.len(), 3);
    assert_eq!(clips[2].name, "Test Clip (copy)");
    assert_eq!(clips[2].start, 1100);
    assert_eq!(Some(clips[2].id), dup.duplicate_id);
    dup.undo(&mut ctx).unwrap();
    assert_eq!(ctx.project.get_track(t).unwrap().clips.len(), 2);
}

#[test]
fn commands_on_missing_tracks_change_nothing() {
    let (mut ctx, t) = context_with_track();
    let mut rename = RenameTrackCommand::new(t + 1, "X");
    rename.execute(&mut ctx).unwrap();
    assert!(rename.old_name.is_none());
    let mut add = AddClipCommand::midi(t + 1, "M", 0, 10);
    add.execute(&mut ctx).unwrap();
    assert!(!add.added);
    let mut mv = MoveClipCommand::new(t, 9, 5);
    mv.execute(&mut ctx).unwrap();
    assert!(mv.old_start.is_none());
    assert_eq!(ctx.project.get_track(t).unwrap().name, "Test Track");
}

#[test]
fn merging_commands() {
    let mut first = Command::MoveClip(MoveClipCommand::new(1, 2, 10));
    let later = Command::MoveClip(MoveClipCommand::new(1, 2, 20));
    let other = Command::MoveClip(MoveClipCommand::new(1, 3, 30));
    assert!(first.can_merge(&later));
    assert!(!first.can_merge(&other));
    assert!(first.merge(later));
    match &first {
        Command::MoveClip(m) => assert_eq!(m.new_start, 20),
        _ => panic!("move expected"),
    }
    let mut rename = Command::RenameTrack(RenameTrackCommand::new(5, "a"));
    assert!(!rename.merge(Command::RenameTrack(RenameTrackCommand::new(6, "b"))));
    assert!(rename.merge(Command::RenameTrack(RenameTrackCommand::new(5, "c"))));
    assert_eq!(rename.name(), "Rename Track");
    let mut trim = Command::TrimClip(TrimClipCommand::new(1, 2).with_start(5));
    assert!(trim.merge(Command::TrimClip(TrimClipCommand::new(1, 2).with_length(9))));
    match &trim {
        Command::TrimClip(t) => assert_eq!((t.new_start, t.new_length), (Some(5), Some(9))),
        _ => panic!("trim expected"),
    }
    let add = Command::AddTrack(AddTrackCommand::midi("x"));
    assert!(!add.can_merge(&add_like()));
}

fn add_like() -> Command {
    Command::AddTrack(AddTrackCommand::midi("y"))
}

#[test]
fn history_undo_redo() {
    let mut ctx = context_with(Project::new("Test"));
    let mut history = CommandHistory::new();
    assert!(!history.can_undo());
    assert_eq!(history.undo(&mut ctx).unwrap(), false);
    history.execute(Command::AddTrack(AddTrackCommand::audio("A")), &mut ctx).unwrap();
    history.execute(Command::AddTrack(AddTrackCommand::audio("B")), &mut ctx).unwrap();
    assert_eq!(history.undo_count(), 2);
    assert_eq!(history.undo_name(), Some("Add Track"));
    assert_eq!(history.undo(&mut ctx).unwrap(), true);
    assert_eq!(ctx.project.track_count(), 1);
    assert!(history.can_redo());
    assert_eq!(history.redo_name(), Some("Add Track"));
    assert_eq!(history.redo(&mut ctx).unwrap(), true);
    assert_eq!(ctx.project.track_count(), 2);
    assert_eq!(history.redo_count(), 0);
    history.undo(&mut ctx).unwrap();
    history.execute(Command::AddTrack(AddTrackCommand::audio("C")), &mut ctx).unwrap();
    assert_eq!(history.redo_count(), 0);
    history.clear();
    assert_eq!(history.undo_count(), 0);
    history.set_merge_enabled(false);
    assert!(!history.merge_enabled);
}

#[test]
fn history_keeps_the_last_hundred() {
    let mut ctx = context_with(Project::new("Test"));
    let mut history = CommandHistory::new();
    for _ in 0..105 {
        history.execute(Command::RenameTrack(RenameTrackCommand::new(1, "n")), &mut ctx).unwrap();
    }
    assert_eq!(history.undo_count(), 100);
}

#[test]
fn registry_defaults_and_search() {
    let mut registry = CommandRegistry::new();
    assert_eq!(registry.all().len(), 11);
    assert_eq!(registry.get("file.save").unwrap().name, "Save");
    assert!(registry.get("file.print").is_none());
    assert_eq!(registry.by_category(CommandCategory::Transport).len(), 3);
    let found = registry.search("UNDO");
    assert_eq!(found.len(), 2);
    assert_eq!(found[0].id, "edit.undo");
    assert_eq!(registry.search("panel").len(), 1);
    registry.register(CommandInfo::new("file.save", "Save Now", "Save", CommandCategory::File, "Ctrl+S"));
    assert_eq!(registry.all().len(), 11);
    assert_eq!(registry.get("file.save").unwrap().name, "Save Now");
    assert_eq!(CommandCategory::Mix.display_name(), "Mix");
    registry.register(CommandInfo::new("mix.solo", "Solo", "Solo the track", CommandCategory::Mix, "S"));
    assert_eq!(registry.all().len(), 12);
    let ids: Vec<&String> = registry.search("s").iter().map(|c| &c.id).collect();
    let mut unique = ids.clone();
    unique.sort();
    unique.dedup();
    assert_eq!(ids.len(), unique.len());
}
