use crate::tui::progress_bar::millis_between;
use vstd::prelude::*;

verus! {

/// A message shown for a while in a corner of the screen, then faded out.
pub struct Notification {
    title: String,
    content: String,
    instant: Option<std::time::Instant>,
    duration_ms: u64,
    fade_ms: u64,
    should_disappear: bool,
}

/// Draws a notification.
pub struct NotificationWidget;

/// How long a notification shows, and how long of that it fades, in milliseconds.
pub const NOTIFICATION_MS: u64 = 5000;

pub const FADE_MS: u64 = 1000;

impl Notification {
    pub closed spec fn spec_title(&self) -> Seq<char> {
        self.title@
    }

    pub closed spec fn spec_content(&self) -> Seq<char> {
        self.content@
    }

    pub closed spec fn spec_duration(&self) -> u64 {
        self.duration_ms
    }

    pub closed spec fn spec_fade(&self) -> u64 {
        self.fade_ms
    }

    pub closed spec fn spec_shown_at(&self) -> Option<std::time::Instant> {
        self.instant
    }

    pub closed spec fn spec_should_disappear(&self) -> bool {
        self.should_disappear
    }

    /// A notification not yet shown, for five seconds, the last of them fading.
    pub fn new(title: String, content: String) -> (r: Self)
        ensures
            r.spec_title() == title@,
            r.spec_content() == content@,
            r.spec_shown_at() is None,
            r.spec_duration() == NOTIFICATION_MS,
            r.spec_fade() == FADE_MS,
            !r.spec_should_disappear(),
    {
        Self {
            title,
            content,
            instant: None,
            duration_ms: NOTIFICATION_MS,
            fade_ms: FADE_MS,
            should_disappear: false,
        }
    }

    /// The same notification, shown for `duration_ms` milliseconds; it must be
    /// no shorter than its fading.
    pub fn duration(self, duration_ms: u64) -> (r: Self)
        requires
            duration_ms >= self.spec_fade(),
        ensures
            r.spec_duration() == duration_ms,
            r.spec_title() == self.spec_title(),
            r.spec_content() == self.spec_content(),
            r.spec_shown_at() == self.spec_shown_at(),
            r.spec_fade() == self.spec_fade(),
            r.spec_should_disappear() == self.spec_should_disappear(),
    {
        let mut s = self;
        s.duration_ms = duration_ms;
        s
    }

    /// Whether the notification has been shown long enough to go away.
    pub fn should_disappear(&self) -> (r: bool)
        ensures
            r == self.spec_should_disappear(),
    {
        self.should_disappear
    }

    pub fn title(&self) -> (r: &str)
        ensures
            r@ == self.spec_title(),
    {
        self.title.as_str()
    }

    pub fn content(&self) -> (r: &str)
        ensures
            r@ == self.spec_content(),
    {
        self.content.as_str()
    }

    pub fn fade_ms(&self) -> (r: u64)
        ensures
            r == self.spec_fade(),
    {
        self.fade_ms
    }

    pub fn duration_ms(&self) -> (r: u64)
        ensures
            r == self.spec_duration(),
    {
        self.duration_ms
    }

    /// The notification is drawn at `now`: the first time, it starts its time
    /// and gives `None`; afterwards it gives its age in milliseconds and, once
    /// the age passes its duration, it is to disappear.
    pub fn observe(&mut self, now: std::time::Instant) -> (r: Option<u128>)
        ensures
            old(self).spec_shown_at() is None ==> r is None && final(self).spec_shown_at() == Some(now)
                && final(self).spec_should_disappear() == old(self).spec_should_disappear(),
            old(self).spec_shown_at() is Some ==> (r matches Some(age) && final(self).spec_shown_at() == old(self).spec_shown_at()
                && final(self).spec_should_disappear() == (old(self).spec_should_disappear() || age > old(self).spec_duration())),
            final(self).spec_title() == old(self).spec_title(),
            final(self).spec_content() == old(self).spec_content(),
            final(self).spec_duration() == old(self).spec_duration(),
            final(self).spec_fade() == old(self).spec_fade(),
    {
        match self.instant {
            Some(instant) => {
                let age = millis_between(now, instant);
                if age > self.duration_ms as u128 {
                    self.should_disappear = true;
                }
                Some(age)
            },
            None => {
                self.instant = Some(now);
                None
            },
        }
    }
}

} // verus!
