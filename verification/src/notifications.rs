//! Transient notifications: severity levels and the list of messages that
//! are shown for five seconds.
//!
//! Times are milliseconds of a monotonic clock read by the caller.

use vstd::prelude::*;

verus! {

/// How long a notification is shown, in milliseconds.
pub const NOTIFICATION_LIFETIME_MS: u64 = 5000;

/// Notification severity level.
#[derive(Debug, Clone, Copy, PartialEq, Eq, Structural)]
pub enum NotificationLevel {
    Info,
    Success,
    Warning,
    Error,
}

/// The color of a level.
pub open spec fn level_rgb(l: NotificationLevel) -> (u8, u8, u8) {
    match l {
        NotificationLevel::Info => (100u8, 150u8, 200u8),
        NotificationLevel::Success => (52u8, 168u8, 83u8),
        NotificationLevel::Warning => (251u8, 188u8, 4u8),
        NotificationLevel::Error => (234u8, 67u8, 53u8),
    }
}

/// The icon of a level.
pub open spec fn level_icon(l: NotificationLevel) -> Seq<char> {
    match l {
        NotificationLevel::Info => "ℹ"@,
        NotificationLevel::Success => "✓"@,
        NotificationLevel::Warning => "⚠"@,
        NotificationLevel::Error => "✕"@,
    }
}

impl NotificationLevel {
    /// Display color.
    pub fn rgb(&self) -> (c: (u8, u8, u8))
        ensures
            c == level_rgb(*self),
    {
        match self {
            NotificationLevel::Info => (100, 150, 200),
            NotificationLevel::Success => (52, 168, 83),
            NotificationLevel::Warning => (251, 188, 4),
            NotificationLevel::Error => (234, 67, 53),
        }
    }

    /// Display icon.
    pub fn icon(&self) -> (s: &'static str)
        ensures
            s@ == level_icon(*self),
    {
        match self {
            NotificationLevel::Info => "ℹ",
            NotificationLevel::Success => "✓",
            NotificationLevel::Warning => "⚠",
            NotificationLevel::Error => "✕",
        }
    }
}

/// A notification message.
#[derive(Debug, Clone)]
pub struct Notification {
    pub message: String,
    pub level: NotificationLevel,
    /// When it was raised
    pub created_at_ms: u64,
}

/// A notification raised at `created` is still shown at `now`.
pub open spec fn still_shown(created: u64, now: u64) -> bool {
    now < created || now - created < NOTIFICATION_LIFETIME_MS
}

/// The notifications shown.
#[derive(Debug, Clone)]
pub struct NotificationState {
    pub notifications: Vec<Notification>,
}

impl NotificationState {
    /// No notifications.
    pub fn new() -> (s: NotificationState)
        ensures
            s.notifications@.len() == 0,
    {
        NotificationState { notifications: Vec::new() }
    }

    /// Raise a notification at time `now`.
    pub fn push(&mut self, message: &str, level: NotificationLevel, now: u64)
        ensures
            final(self).notifications@.len() == old(self).notifications@.len() + 1,
            final(self).notifications@.drop_last() == old(self).notifications@,
            final(self).notifications@.last().message@ == message@,
            final(self).notifications@.last().level == level,
            final(self).notifications@.last().created_at_ms == now,
    {
        let ghost before = self.notifications@;
        self.notifications.push(
            Notification { message: String::from_str(message), level, created_at_ms: now },
        );
        assert(self.notifications@.drop_last() =~= before);
    }

    /// Raise an information.
    pub fn info(&mut self, message: &str, now: u64)
        ensures
            final(self).notifications@.drop_last() == old(self).notifications@,
            final(self).notifications@.len() == old(self).notifications@.len() + 1,
            final(self).notifications@.last().level == NotificationLevel::Info,
            final(self).notifications@.last().message@ == message@,
            final(self).notifications@.last().created_at_ms == now,
    {
        self.push(message, NotificationLevel::Info, now);
    }

    /// Raise a success.
    pub fn success(&mut self, message: &str, now: u64)
        ensures
            final(self).notifications@.drop_last() == old(self).notifications@,
            final(self).notifications@.len() == old(self).notifications@.len() + 1,
            final(self).notifications@.last().level == NotificationLevel::Success,
            final(self).notifications@.last().message@ == message@,
            final(self).notifications@.last().created_at_ms == now,
    {
        self.push(message, NotificationLevel::Success, now);
    }

    /// Raise a warning.
    pub fn warning(&mut self, message: &str, now: u64)
        ensures
            final(self).notifications@.drop_last() == old(self).notifications@,
            final(self).notifications@.len() == old(self).notifications@.len() + 1,
            final(self).notifications@.last().level == NotificationLevel::Warning,
            final(self).notifications@.last().message@ == message@,
            final(self).notifications@.last().created_at_ms == now,
    {
        self.push(message, NotificationLevel::Warning, now);
    }

    /// Raise an error.
    pub fn error(&mut self, message: &str, now: u64)
        ensures
            final(self).notifications@.drop_last() == old(self).notifications@,
            final(self).notifications@.len() == old(self).notifications@.len() + 1,
            final(self).notifications@.last().level == NotificationLevel::Error,
            final(self).notifications@.last().message@ == message@,
            final(self).notifications@.last().created_at_ms == now,
    {
        self.push(message, NotificationLevel::Error, now);
    }

    /// Drop the notifications older than five seconds at time `now`.
    pub fn cleanup(&mut self, now: u64)
        ensures
            final(self).notifications@ == old(self).notifications@.filter(
                |n: Notification| still_shown(n.created_at_ms, now),
            ),
    {
        let ghost pred = |n: Notification| still_shown(n.created_at_ms, now);
        let ghost all = self.notifications@;
        let mut kept: Vec<Notification> = Vec::new();
        let mut rest: Vec<Notification> = Vec::new();
        std::mem::swap(&mut rest, &mut self.notifications);
        let mut reversed: Vec<Notification> = Vec::new();
        while rest.len() > 0
            invariant
                rest@ == all.subrange(0, rest@.len() as int),
                rest@.len() <= all.len(),
                reversed@.len() == all.len() - rest@.len(),
                forall|k: int| 0 <= k < reversed@.len() ==> #[trigger] reversed@[k] == all[all.len() - 1 - k],
            decreases rest@.len(),
        {
            let last = rest.pop().unwrap();
            reversed.push(last);
        }
        while reversed.len() > 0
            invariant
                reversed@.len() <= all.len(),
                forall|k: int| 0 <= k < reversed@.len() ==> #[trigger] reversed@[k] == all[all.len() - 1 - k],
                pred == (|n: Notification| still_shown(n.created_at_ms, now)),
                kept@ == all.subrange(0, all.len() - reversed@.len()).filter(pred),
            decreases reversed@.len(),
        {
            let ghost j = all.len() - reversed@.len();
            let item = reversed.pop().unwrap();
            proof {
                assert(item == all[j]);
                assert(all.subrange(0, j + 1).drop_last() =~= all.subrange(0, j));
                reveal_with_fuel(Seq::<_>::filter, 2);
            }
            let shown = now < item.created_at_ms || now - item.created_at_ms < NOTIFICATION_LIFETIME_MS;
            if shown {
                kept.push(item);
            }
        }
        proof {
            assert(all.subrange(0, all.len() as int) =~= all);
        }
        self.notifications = kept;
    }
}

} // verus!
