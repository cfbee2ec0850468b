//! Application settings: audio and MIDI devices, project locations and
//! the list of recent projects.

use vstd::prelude::*;
use crate::text::str_eq;

verus! {

/// Audio settings.
#[derive(Debug, Clone)]
pub struct AudioSettings {
    /// Sample rate
    pub sample_rate: u32,
    /// Buffer size
    pub buffer_size: u32,
    /// Input device name
    pub input_device: Option<String>,
    /// Output device name
    pub output_device: Option<String>,
}

impl Default for AudioSettings {
    fn default() -> (s: AudioSettings)
        ensures
            s.sample_rate == 48000,
            s.buffer_size == 512,
            s.input_device is None,
            s.output_device is None,
    {
        AudioSettings { sample_rate: 48000, buffer_size: 512, input_device: None, output_device: None }
    }
}

/// MIDI settings.
#[derive(Debug, Clone)]
pub struct MidiSettings {
    /// Input device name
    pub input_device: Option<String>,
    /// Output device name
    pub output_device: Option<String>,
    /// Enable MIDI sync
    pub sync_enabled: bool,
}

impl Default for MidiSettings {
    fn default() -> (s: MidiSettings)
        ensures
            s.input_device is None,
            s.output_device is None,
            !s.sync_enabled,
    {
        MidiSettings { input_device: None, output_device: None, sync_enabled: false }
    }
}

/// Project settings.
#[derive(Debug, Clone)]
pub struct ProjectSettings {
    /// Default project location
    pub default_location: String,
    /// Recent projects, most recent first
    pub recent_projects: Vec<String>,
    /// Maximum recent projects to remember
    pub max_recent: usize,
    /// Auto-save interval in seconds (0 = disabled)
    pub auto_save_interval: u32,
}

/// The recent projects after opening `path`: it moves to the front, once,
/// and the list keeps at most `max` entries.
pub open spec fn with_recent(recent: Seq<Seq<char>>, path: Seq<char>, max: usize) -> Seq<Seq<char>> {
    let list = seq![path] + recent.filter(|p: Seq<char>| p != path);
    if list.len() > max {
        list.subrange(0, max as int)
    } else {
        list
    }
}

/// The texts of a list of strings.
pub open spec fn texts(v: Seq<String>) -> Seq<Seq<char>> {
    v.map_values(|s: String| s@)
}

impl ProjectSettings {
    /// Settings with the given default location, no recent projects, ten
    /// remembered and a one-minute auto-save.
    pub fn new(default_location: &str) -> (s: ProjectSettings)
        ensures
            s.default_location@ == default_location@,
            s.recent_projects@.len() == 0,
            s.max_recent == 10,
            s.auto_save_interval == 60,
    {
        ProjectSettings {
            default_location: String::from_str(default_location),
            recent_projects: Vec::new(),
            max_recent: 10,
            auto_save_interval: 60,
        }
    }

    /// Add a project to the front of the recent list.
    pub fn add_recent_project(&mut self, path: &str)
        ensures
            texts(final(self).recent_projects@) == with_recent(
                texts(old(self).recent_projects@),
                path@,
                old(self).max_recent,
            ),
            final(self).max_recent == old(self).max_recent,
            final(self).default_location == old(self).default_location,
            final(self).auto_save_interval == old(self).auto_save_interval,
    {
        let ghost old_texts = texts(self.recent_projects@);
        let ghost pred = |p: Seq<char>| p != path@;
        let mut list: Vec<String> = Vec::new();
        list.push(String::from_str(path));
        let mut i: usize = 0;
        while i < self.recent_projects.len()
            invariant
                i <= self.recent_projects@.len(),
                old_texts == texts(self.recent_projects@),
                pred == (|p: Seq<char>| p != path@),
                texts(list@) == seq![path@] + old_texts.subrange(0, i as int).filter(pred),
            decreases self.recent_projects@.len() - i,
        {
            proof {
                assert(old_texts.subrange(0, i + 1).drop_last() =~= old_texts.subrange(0, i as int));
                reveal_with_fuel(Seq::<_>::filter, 2);
            }
            let ghost before = list@;
            if !str_eq(self.recent_projects[i].as_str(), path) {
                list.push(self.recent_projects[i].clone());
                proof {
                    assert(texts(list@) =~= texts(before).push(old_texts[i as int]));
                }
            }
            i = i + 1;
        }
        proof {
            assert(old_texts.subrange(0, old_texts.len() as int) =~= old_texts);
        }
        if list.len() > self.max_recent {
            let ghost before = list@;
            list.truncate(self.max_recent);
            proof {
                assert(texts(list@) =~= texts(before).subrange(0, self.max_recent as int));
            }
        }
        self.recent_projects = list;
    }
}

} // verus!
