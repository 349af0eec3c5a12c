//! Notifications: which alerts an event raises, with what words, and how
//! often. An event of one kind raises no alert again until its delay has
//! passed since the last one that was raised.
//!
//! Showing a toast and playing a sound are the caller's: `notify` returns
//! the alerts to raise.

use vstd::prelude::*;
use crate::clock::{utc_now, Timestamp};

verus! {

/// The delay, in milliseconds, of a notification that configures none.
pub const DEFAULT_DELAY: u64 = 500;

/// How one kind of notification is configured.
#[derive(Debug, Clone, PartialEq, Eq)]
pub struct Loaded {
    /// Whether a toast is shown.
    pub show_toast: bool,
    /// The sound that is played, if any, by its name.
    pub sound: Option<String>,
    /// Milliseconds in which the notification is not raised again.
    pub delay: Option<u64>,
}

/// How each kind of notification is configured.
#[derive(Debug, Clone, PartialEq, Eq)]
pub struct Settings {
    pub connected: Loaded,
    pub disconnected: Loaded,
    pub reconnected: Loaded,
    pub direct_message: Loaded,
    pub highlight: Loaded,
    pub file_transfer_request: Loaded,
    pub monitored_online: Loaded,
    pub monitored_offline: Loaded,
}

/// Something worth telling the user. Users are named by their nicks.
#[derive(Debug, Clone, PartialEq, Eq)]
pub enum Notification {
    Connected,
    Disconnected,
    Reconnected,
    DirectMessage(String),
    Highlight { enabled: bool, user: String, channel: String },
    FileTransferRequest(String),
    MonitoredOnline(Vec<String>),
    MonitoredOffline(Vec<String>),
}

/// A notification as a value: its kind and the names it carries.
pub enum Topic {
    Connected,
    Disconnected,
    Reconnected,
    DirectMessage(Seq<char>),
    Highlight { enabled: bool, user: Seq<char>, channel: Seq<char> },
    FileTransferRequest(Seq<char>),
    MonitoredOnline(Seq<Seq<char>>),
    MonitoredOffline(Seq<Seq<char>>),
}

/// The names of a list, as values.
pub open spec fn names_of(list: Seq<String>) -> Seq<Seq<char>> {
    Seq::new(list.len(), |i: int| list[i]@)
}

impl View for Notification {
    type V = Topic;

    open spec fn view(&self) -> Topic {
        match *self {
            Notification::Connected => Topic::Connected,
            Notification::Disconnected => Topic::Disconnected,
            Notification::Reconnected => Topic::Reconnected,
            Notification::DirectMessage(user) => Topic::DirectMessage(user@),
            Notification::Highlight { enabled, user, channel } => Topic::Highlight {
                enabled,
                user: user@,
                channel: channel@,
            },
            Notification::FileTransferRequest(nick) => Topic::FileTransferRequest(nick@),
            Notification::MonitoredOnline(targets) => Topic::MonitoredOnline(names_of(targets@)),
            Notification::MonitoredOffline(targets) => Topic::MonitoredOffline(names_of(targets@)),
        }
    }
}

/// Compares two lists of names.
pub fn same_names(a: &Vec<String>, b: &Vec<String>) -> (same: bool)
    ensures
        same == (names_of(a@) == names_of(b@)),
{
    if a.len() != b.len() {
        assert(names_of(a@).len() != names_of(b@).len());
        return false;
    }
    let mut i: usize = 0;
    while i < a.len()
        invariant
            i <= a.len(),
            a.len() == b.len(),
            forall|k: int| 0 <= k < i ==> a@[k]@ == b@[k]@,
        decreases a.len() - i,
    {
        if a[i] != b[i] {
            assert(names_of(a@)[i as int] != names_of(b@)[i as int]);
            return false;
        }
        i = i + 1;
    }
    assert(names_of(a@) =~= names_of(b@));
    true
}

/// Copies a list of names.
pub fn copy_names(list: &Vec<String>) -> (copy: Vec<String>)
    ensures
        copy@ == list@,
{
    let mut copy: Vec<String> = Vec::new();
    let mut i: usize = 0;
    while i < list.len()
        invariant
            i <= list.len(),
            copy@ == list@.take(i as int),
        decreases list.len() - i,
    {
        copy.push(list[i].clone());
        assert(copy@ =~= list@.take(i as int + 1));
        i = i + 1;
    }
    assert(list@.take(list.len() as int) =~= list@);
    copy
}

impl Notification {
    /// Whether two notifications are of one kind and carry the same names.
    pub fn same(&self, other: &Notification) -> (same: bool)
        ensures
            same == (self@ == other@),
    {
        match (self, other) {
            (Notification::Connected, Notification::Connected) => true,
            (Notification::Disconnected, Notification::Disconnected) => true,
            (Notification::Reconnected, Notification::Reconnected) => true,
            (Notification::DirectMessage(a), Notification::DirectMessage(b)) => *a == *b,
            (
                Notification::Highlight { enabled: e, user: u, channel: c },
                Notification::Highlight { enabled: f, user: v, channel: d },
            ) => *e == *f && *u == *v && *c == *d,
            (Notification::FileTransferRequest(a), Notification::FileTransferRequest(b)) => *a
                == *b,
            (Notification::MonitoredOnline(a), Notification::MonitoredOnline(b)) => same_names(
                a,
                b,
            ),
            (Notification::MonitoredOffline(a), Notification::MonitoredOffline(b)) => same_names(
                a,
                b,
            ),
            _ => false,
        }
    }

    /// A copy of the notification.
    pub fn duplicate(&self) -> (copy: Notification)
        ensures
            copy@ == self@,
    {
        match self {
            Notification::Connected => Notification::Connected,
            Notification::Disconnected => Notification::Disconnected,
            Notification::Reconnected => Notification::Reconnected,
            Notification::DirectMessage(user) => Notification::DirectMessage(user.clone()),
            Notification::Highlight { enabled, user, channel } => Notification::Highlight {
                enabled: *enabled,
                user: user.clone(),
                channel: channel.clone(),
            },
            Notification::FileTransferRequest(nick) => Notification::FileTransferRequest(
                nick.clone(),
            ),
            Notification::MonitoredOnline(targets) => Notification::MonitoredOnline(
                copy_names(targets),
            ),
            Notification::MonitoredOffline(targets) => Notification::MonitoredOffline(
                copy_names(targets),
            ),
        }
    }
}

/// An alert to raise: the toast to show, if any is to be shown, and the
/// sound to play, if any.
#[derive(Debug, Clone, PartialEq, Eq)]
pub struct Alert {
    pub show_toast: bool,
    pub title: String,
    pub body: String,
    pub sound: Option<String>,
}

/// An alert as a value.
pub struct Notice {
    pub show_toast: bool,
    pub title: Seq<char>,
    pub body: Seq<char>,
    pub sound: Option<Seq<char>>,
}

impl View for Alert {
    type V = Notice;

    open spec fn view(&self) -> Notice {
        Notice {
            show_toast: self.show_toast,
            title: self.title@,
            body: self.body@,
            sound: match self.sound {
                Some(sound) => Some(sound@),
                None => None,
            },
        }
    }
}

/// The alert that a notification configured as `settings` raises under
/// `title` and `body`.
pub open spec fn notice_of(settings: Loaded, title: Seq<char>, body: Seq<char>) -> Notice {
    Notice {
        show_toast: settings.show_toast,
        title,
        body,
        sound: match settings.sound {
            Some(sound) => Some(sound@),
            None => None,
        },
    }
}

/// The delay of a notification, in milliseconds.
pub open spec fn delay_of(settings: Loaded) -> u64 {
    match settings.delay {
        Some(delay) => delay,
        None => DEFAULT_DELAY,
    }
}

/// Whether a notification that was last raised at `last` is held back at the
/// time `now`: it was raised, and less than its delay ago.
pub open spec fn held_back(last: Option<Timestamp>, delay: u64, now: Timestamp) -> bool {
    last matches Some(last) && last.within(delay, now)
}

/// Where `topic` stands among `entries`, if it does.
pub open spec fn place_of(entries: Seq<(Notification, Timestamp)>, topic: Topic) -> Option<int> {
    if exists|i: int| 0 <= i < entries.len() && (#[trigger] entries[i]).0@ == topic {
        Some(choose|i: int| 0 <= i < entries.len() && (#[trigger] entries[i]).0@ == topic)
    } else {
        None
    }
}

/// No two entries are of the same topic.
pub open spec fn distinct(entries: Seq<(Notification, Timestamp)>) -> bool {
    forall|i: int, j: int|
        0 <= i < j < entries.len() ==> (#[trigger] entries[i]).0@ != (#[trigger] entries[j]).0@
}

/// When each topic in `entries` was last raised.
pub open spec fn times_of(entries: Seq<(Notification, Timestamp)>) -> Map<Topic, Timestamp> {
    Map::new(
        |topic: Topic| place_of(entries, topic) is Some,
        |topic: Topic| entries[place_of(entries, topic)->Some_0].1,
    )
}

proof fn lemma_place(entries: Seq<(Notification, Timestamp)>, i: int)
    requires
        distinct(entries),
        0 <= i < entries.len(),
    ensures
        place_of(entries, entries[i].0@) == Some(i),
{
    let topic = entries[i].0@;
    let found = choose|k: int| 0 <= k < entries.len() && (#[trigger] entries[k]).0@ == topic;
    if found < i {
        assert(entries[found].0@ != entries[i].0@);
    } else if i < found {
        assert(entries[i].0@ != entries[found].0@);
    }
}

proof fn lemma_set_time(
    entries: Seq<(Notification, Timestamp)>,
    i: int,
    entry: (Notification, Timestamp),
)
    requires
        distinct(entries),
        0 <= i < entries.len(),
        entry.0@ == entries[i].0@,
    ensures
        distinct(entries.update(i, entry)),
        times_of(entries.update(i, entry)) == times_of(entries).insert(entry.0@, entry.1),
{
    let updated = entries.update(i, entry);
    assert forall|a: int, b: int| 0 <= a < b < updated.len() implies (#[trigger] updated[a]).0@ != (
    #[trigger] updated[b]).0@ by {
        assert(entries[a].0@ != entries[b].0@);
    }
    assert forall|topic: Topic|
        times_of(updated).contains_key(topic) == times_of(entries).insert(
            entry.0@,
            entry.1,
        ).contains_key(topic) by {
        if place_of(updated, topic) is Some {
            let k = place_of(updated, topic)->Some_0;
            assert(entries[k].0@ == topic);
        }
        if place_of(entries, topic) is Some {
            let k = place_of(entries, topic)->Some_0;
            assert(updated[k].0@ == topic);
        }
        assert(updated[i].0@ == entry.0@);
    }
    assert forall|topic: Topic| times_of(updated).contains_key(topic) implies times_of(
        updated,
    )[topic] == times_of(entries).insert(entry.0@, entry.1)[topic] by {
        let k = place_of(updated, topic)->Some_0;
        lemma_place(updated, k);
        assert(entries[k].0@ == topic);
        lemma_place(entries, k);
    }
    assert(times_of(updated) =~= times_of(entries).insert(entry.0@, entry.1));
}

proof fn lemma_add_time(entries: Seq<(Notification, Timestamp)>, entry: (Notification, Timestamp))
    requires
        distinct(entries),
        place_of(entries, entry.0@) is None,
    ensures
        distinct(entries.push(entry)),
        times_of(entries.push(entry)) == times_of(entries).insert(entry.0@, entry.1),
{
    let pushed = entries.push(entry);
    assert forall|a: int, b: int| 0 <= a < b < pushed.len() implies (#[trigger] pushed[a]).0@ != (
    #[trigger] pushed[b]).0@ by {
        if b < entries.len() {
            assert(entries[a].0@ != entries[b].0@);
        } else {
            assert(entries[a].0@ != entry.0@);
        }
    }
    assert forall|topic: Topic|
        times_of(pushed).contains_key(topic) == times_of(entries).insert(
            entry.0@,
            entry.1,
        ).contains_key(topic) by {
        if place_of(pushed, topic) is Some {
            let k = place_of(pushed, topic)->Some_0;
            if k < entries.len() {
                assert(entries[k].0@ == topic);
            }
        }
        if place_of(entries, topic) is Some {
            let k = place_of(entries, topic)->Some_0;
            assert(pushed[k].0@ == topic);
        }
        assert(pushed[entries.len() as int].0@ == entry.0@);
    }
    assert forall|topic: Topic| times_of(pushed).contains_key(topic) implies times_of(
        pushed,
    )[topic] == times_of(entries).insert(entry.0@, entry.1)[topic] by {
        let k = place_of(pushed, topic)->Some_0;
        lemma_place(pushed, k);
        if k < entries.len() {
            assert(entries[k].0@ == topic);
            lemma_place(entries, k);
        }
    }
    assert(times_of(pushed) =~= times_of(entries).insert(entry.0@, entry.1));
}

/// What one occasion to alert comes to: nothing, where the topic is held
/// back; else the alert, with `now` noted as the time the topic was last
/// raised.
pub open spec fn raised(
    times: Map<Topic, Timestamp>,
    topic: Topic,
    settings: Loaded,
    title: Seq<char>,
    body: Seq<char>,
    now: Timestamp,
) -> (Map<Topic, Timestamp>, Option<Notice>) {
    let last = if times.contains_key(topic) {
        Some(times[topic])
    } else {
        None
    };
    if held_back(last, delay_of(settings), now) {
        (times, None)
    } else {
        (times.insert(topic, now), Some(notice_of(settings, title, body)))
    }
}

/// An occasion to alert: how its kind is configured, and the words.
pub struct Occasion {
    pub settings: Loaded,
    pub title: Seq<char>,
    pub body: Seq<char>,
}

/// The occasions that a notification gives, in order. What concerns a
/// server gives its occasions only if the server is named: one for a
/// connection made, lost or made again and for a file that is offered, one
/// for each monitored user that came or went. A direct message gives one
/// whether or not a server is named, and so does a highlight that is
/// enabled.
pub open spec fn occasions(
    settings: Settings,
    notification: Notification,
    server: Option<Seq<char>>,
) -> Seq<Occasion> {
    (match server {
        Some(server) => match notification {
            Notification::Connected => seq![
                Occasion { settings: settings.connected, title: "Connected"@, body: server },
            ],
            Notification::Disconnected => seq![
                Occasion { settings: settings.disconnected, title: "Disconnected"@, body: server },
            ],
            Notification::Reconnected => seq![
                Occasion { settings: settings.reconnected, title: "Reconnected"@, body: server },
            ],
            Notification::MonitoredOnline(targets) => Seq::new(
                targets@.len(),
                |i: int|
                    Occasion {
                        settings: settings.monitored_online,
                        title: targets@[i]@ + " is online"@,
                        body: server,
                    },
            ),
            Notification::MonitoredOffline(targets) => Seq::new(
                targets@.len(),
                |i: int|
                    Occasion {
                        settings: settings.monitored_offline,
                        title: targets@[i]@ + " is offline"@,
                        body: server,
                    },
            ),
            Notification::FileTransferRequest(nick) => seq![
                Occasion {
                    settings: settings.file_transfer_request,
                    title: "File transfer from "@ + nick@,
                    body: server,
                },
            ],
            _ => Seq::<Occasion>::empty(),
        },
        None => Seq::<Occasion>::empty(),
    }) + (match notification {
        Notification::DirectMessage(user) => seq![
            Occasion {
                settings: settings.direct_message,
                title: "Direct message"@,
                body: user@ + " sent you a direct message"@,
            },
        ],
        Notification::Highlight { enabled, user, channel } => if enabled {
            seq![
                Occasion {
                    settings: settings.highlight,
                    title: "Highlight"@,
                    body: user@ + " highlighted you in "@ + channel@,
                },
            ]
        } else {
            Seq::<Occasion>::empty()
        },
        _ => Seq::<Occasion>::empty(),
    })
}

/// What a row of occasions of one topic comes to when the clock reads
/// `clock[i]` at the `i`-th of them: the times after them, and the alerts
/// raised, in order.
pub open spec fn raised_all(
    times: Map<Topic, Timestamp>,
    topic: Topic,
    occasions: Seq<Occasion>,
    clock: Seq<Timestamp>,
) -> (Map<Topic, Timestamp>, Seq<Notice>)
    decreases occasions.len(),
{
    if occasions.len() == 0 || clock.len() != occasions.len() {
        (times, Seq::<Notice>::empty())
    } else {
        let before = raised_all(times, topic, occasions.drop_last(), clock.drop_last());
        let last = occasions.last();
        let now = raised(before.0, topic, last.settings, last.title, last.body, clock.last());
        (
            now.0,
            match now.1 {
                Some(notice) => before.1.push(notice),
                None => before.1,
            },
        )
    }
}

/// The name of the server, as a value.
pub open spec fn named(server: Option<&str>) -> Option<Seq<char>> {
    match server {
        Some(server) => Some(server@),
        None => None,
    }
}

/// The alerts as values.
pub open spec fn notices_of(alerts: Seq<Alert>) -> Seq<Notice> {
    Seq::new(alerts.len(), |i: int| alerts[i]@)
}

/// When each kind of notification was last raised.
pub struct Notifications {
    notified_times: Vec<(Notification, Timestamp)>,
}

impl Notifications {
    /// When each topic was last raised.
    pub closed spec fn times(self) -> Map<Topic, Timestamp> {
        times_of(self.notified_times@)
    }

    /// No topic is noted twice.
    pub closed spec fn wf(self) -> bool {
        distinct(self.notified_times@)
    }

    /// Nothing was raised yet.
    pub fn new() -> (notifications: Notifications)
        ensures
            notifications.wf(),
            notifications.times() == Map::<Topic, Timestamp>::empty(),
    {
        let notifications = Notifications { notified_times: Vec::new() };
        assert(notifications.times() =~= Map::<Topic, Timestamp>::empty());
        notifications
    }

    fn find(&self, notification: &Notification) -> (r: Option<usize>)
        requires
            self.wf(),
        ensures
            match r {
                Some(i) => i < self.notified_times@.len() && self.notified_times@[i as int].0@
                    == notification@ && place_of(self.notified_times@, notification@) == Some(
                    i as int,
                ),
                None => place_of(self.notified_times@, notification@) is None,
            },
    {
        let mut i: usize = 0;
        while i < self.notified_times.len()
            invariant
                i <= self.notified_times.len(),
                self.wf(),
                forall|k: int| 0 <= k < i ==> (#[trigger] self.notified_times@[k]).0@ != notification@,
            decreases self.notified_times.len() - i,
        {
            if self.notified_times[i].0.same(notification) {
                proof {
                    lemma_place(self.notified_times@, i as int);
                }
                return Some(i);
            }
            i = i + 1;
        }
        None
    }

    /// When `notification` was last raised, if it ever was.
    pub fn last_raised(&self, notification: &Notification) -> (last: Option<Timestamp>)
        requires
            self.wf(),
        ensures
            last == (if self.times().contains_key(notification@) {
                Some(self.times()[notification@])
            } else {
                None
            }),
    {
        match self.find(notification) {
            Some(i) => Some(self.notified_times[i].1),
            None => None,
        }
    }

    /// One occasion to alert, at the time `now`. A topic that was raised
    /// less than its delay ago is held back: nothing is returned and nothing
    /// noted. Otherwise the alert is returned and `now` is noted as the time
    /// the topic was last raised.
    pub fn execute_at(
        &mut self,
        settings: &Loaded,
        notification: &Notification,
        title: String,
        body: String,
        now: Timestamp,
    ) -> (alert: Option<Alert>)
        requires
            old(self).wf(),
        ensures
            final(self).wf(),
            ({
                let after = raised(old(self).times(), notification@, *settings, title@, body@, now);
                &&& final(self).times() == after.0
                &&& match alert {
                    Some(alert) => after.1 == Some(alert@),
                    None => after.1 is None,
                }
            }),
    {
        let delay = match settings.delay {
            Some(delay) => delay,
            None => DEFAULT_DELAY,
        };
        let place = self.find(notification);
        match place {
            Some(i) => {
                if self.notified_times[i].1.is_within(delay, &now) {
                    return None;
                }
                proof {
                    lemma_set_time(
                        self.notified_times@,
                        i as int,
                        (self.notified_times@[i as int].0, now),
                    );
                }
                self.notified_times[i].1 = now;
                assert(self.notified_times@ =~= old(self).notified_times@.update(
                    i as int,
                    (old(self).notified_times@[i as int].0, now),
                ));
            },
            None => {
                let copy = notification.duplicate();
                proof {
                    lemma_add_time(self.notified_times@, (copy, now));
                }
                self.notified_times.push((copy, now));
            },
        }
        let sound = match &settings.sound {
            Some(sound) => Some(sound.clone()),
            None => None,
        };
        Some(Alert { show_toast: settings.show_toast, title, body, sound })
    }

    /// One occasion to alert, at the time that the clock reads. The alert, if
    /// one is raised, goes to the end of `alerts`. `trail` holds the
    /// occasions taken in so far and the times read at them, and what is
    /// returned holds this one too.
    fn raise(
        &mut self,
        settings: &Loaded,
        notification: &Notification,
        title: String,
        body: String,
        alerts: &mut Vec<Alert>,
        Ghost(start): Ghost<Map<Topic, Timestamp>>,
        Ghost(trail): Ghost<(Seq<Occasion>, Seq<Timestamp>)>,
    ) -> (after: Ghost<(Seq<Occasion>, Seq<Timestamp>)>)
        requires
            old(self).wf(),
            trail.0.len() == trail.1.len(),
            raised_all(start, notification@, trail.0, trail.1) == (
                old(self).times(),
                notices_of(old(alerts)@),
            ),
        ensures
            final(self).wf(),
            after@.0 == trail.0.push(Occasion { settings: *settings, title: title@, body: body@ }),
            after@.1.len() == after@.0.len(),
            raised_all(start, notification@, after@.0, after@.1) == (
                final(self).times(),
                notices_of(final(alerts)@),
            ),
    {
        let ghost occasion = Occasion { settings: *settings, title: title@, body: body@ };
        let now = utc_now();
        let alert = self.execute_at(settings, notification, title, body, now);
        proof {
            lemma_one_more(start, notification@, trail.0, trail.1, occasion, now);
        }
        take_in(alerts, alert);
        Ghost((trail.0.push(occasion), trail.1.push(now)))
    }

    /// One occasion to alert for each of `targets`, in order, under the
    /// target's name followed by `suffix`.
    fn raise_each(
        &mut self,
        settings: &Loaded,
        notification: &Notification,
        targets: &Vec<String>,
        suffix: &str,
        server: &str,
        alerts: &mut Vec<Alert>,
        Ghost(start): Ghost<Map<Topic, Timestamp>>,
        Ghost(trail): Ghost<(Seq<Occasion>, Seq<Timestamp>)>,
    ) -> (after: Ghost<(Seq<Occasion>, Seq<Timestamp>)>)
        requires
            old(self).wf(),
            trail.0.len() == trail.1.len(),
            raised_all(start, notification@, trail.0, trail.1) == (
                old(self).times(),
                notices_of(old(alerts)@),
            ),
        ensures
            final(self).wf(),
            after@.0 == trail.0 + Seq::new(
                targets@.len(),
                |i: int|
                    Occasion { settings: *settings, title: targets@[i]@ + suffix@, body: server@ },
            ),
            after@.1.len() == after@.0.len(),
            raised_all(start, notification@, after@.0, after@.1) == (
                final(self).times(),
                notices_of(final(alerts)@),
            ),
    {
        let ghost each = Seq::new(
            targets@.len(),
            |i: int| Occasion { settings: *settings, title: targets@[i]@ + suffix@, body: server@ },
        );
        let mut now: Ghost<(Seq<Occasion>, Seq<Timestamp>)> = Ghost(trail);
        let mut i: usize = 0;
        proof {
            assert(trail.0 =~= trail.0 + each.take(0));
        }
        while i < targets.len()
            invariant
                i <= targets.len(),
                self.wf(),
                each == Seq::new(
                    targets@.len(),
                    |i: int|
                        Occasion {
                            settings: *settings,
                            title: targets@[i]@ + suffix@,
                            body: server@,
                        },
                ),
                now@.0 == trail.0 + each.take(i as int),
                now@.1.len() == now@.0.len(),
                raised_all(start, notification@, now@.0, now@.1) == (
                    self.times(),
                    notices_of(alerts@),
                ),
            decreases targets.len() - i,
        {
            let title = targets[i].clone().concat(suffix);
            now =
            self.raise(
                settings,
                notification,
                title,
                String::from_str(server),
                alerts,
                Ghost(start),
                now,
            );
            proof {
                assert(now@.0 =~= trail.0 + each.take(i as int + 1));
            }
            i = i + 1;
        }
        proof {
            assert(each.take(targets.len() as int) =~= each);
        }
        now
    }

    /// Takes in a notification and returns the alerts to raise, in order.
    /// The clock is read once for each occasion that the notification
    /// gives; whatever it reads, what is returned and what is noted is what
    /// those occasions come to, one after the other, at the times read.
    pub fn notify(
        &mut self,
        settings: &Settings,
        notification: &Notification,
        server: Option<&str>,
    ) -> (alerts: Vec<Alert>)
        requires
            old(self).wf(),
        ensures
            final(self).wf(),
            exists|clock: Seq<Timestamp>|
                #![trigger clock.len()]
                clock.len() == occasions(*settings, *notification, named(server)).len()
                    && raised_all(
                    old(self).times(),
                    notification@,
                    occasions(*settings, *notification, named(server)),
                    clock,
                ) == (final(self).times(), notices_of(alerts@)),
    {
        let ghost all = occasions(*settings, *notification, named(server));
        let ghost start = self.times();
        let mut alerts: Vec<Alert> = Vec::new();
        let mut trail: Ghost<(Seq<Occasion>, Seq<Timestamp>)> = Ghost(
            (Seq::empty(), Seq::empty()),
        );
        proof {
            assert(notices_of(alerts@) =~= Seq::<Notice>::empty());
        }
        if let Some(server) = server {
            match notification {
                Notification::Connected => {
                    trail =
                    self.raise(
                        &settings.connected,
                        notification,
                        String::from_str("Connected"),
                        String::from_str(server),
                        &mut alerts,
                        Ghost(start),
                        trail,
                    );
                },
                Notification::Disconnected => {
                    trail =
                    self.raise(
                        &settings.disconnected,
                        notification,
                        String::from_str("Disconnected"),
                        String::from_str(server),
                        &mut alerts,
                        Ghost(start),
                        trail,
                    );
                },
                Notification::Reconnected => {
                    trail =
                    self.raise(
                        &settings.reconnected,
                        notification,
                        String::from_str("Reconnected"),
                        String::from_str(server),
                        &mut alerts,
                        Ghost(start),
                        trail,
                    );
                },
                Notification::MonitoredOnline(targets) => {
                    trail =
                    self.raise_each(
                        &settings.monitored_online,
                        notification,
                        targets,
                        " is online",
                        server,
                        &mut alerts,
                        Ghost(start),
                        trail,
                    );
                },
                Notification::MonitoredOffline(targets) => {
                    trail =
                    self.raise_each(
                        &settings.monitored_offline,
                        notification,
                        targets,
                        " is offline",
                        server,
                        &mut alerts,
                        Ghost(start),
                        trail,
                    );
                },
                Notification::FileTransferRequest(nick) => {
                    trail =
                    self.raise(
                        &settings.file_transfer_request,
                        notification,
                        String::from_str("File transfer from ").concat(nick.as_str()),
                        String::from_str(server),
                        &mut alerts,
                        Ghost(start),
                        trail,
                    );
                },
                _ => {},
            }
        }
        match notification {
            Notification::DirectMessage(user) => {
                trail =
                self.raise(
                    &settings.direct_message,
                    notification,
                    String::from_str("Direct message"),
                    user.clone().concat(" sent you a direct message"),
                    &mut alerts,
                    Ghost(start),
                    trail,
                );
            },
            Notification::Highlight { enabled, user, channel } => {
                if *enabled {
                    trail =
                    self.raise(
                        &settings.highlight,
                        notification,
                        String::from_str("Highlight"),
                        user.clone().concat(" highlighted you in ").concat(channel.as_str()),
                        &mut alerts,
                        Ghost(start),
                        trail,
                    );
                }
            },
            _ => {},
        }
        proof {
            assert(trail@.0 =~= all);
            assert(trail@.1.len() == all.len());
        }
        alerts
    }
}

/// Adds the alert to the list, if there is one.
fn take_in(alerts: &mut Vec<Alert>, alert: Option<Alert>)
    ensures
        notices_of(final(alerts)@) == (match alert {
            Some(alert) => notices_of(old(alerts)@).push(alert@),
            None => notices_of(old(alerts)@),
        }),
{
    match alert {
        Some(alert) => {
            alerts.push(alert);
            assert(notices_of(alerts@) =~= notices_of(old(alerts)@).push(alert@));
        },
        None => {},
    }
}

proof fn lemma_one_more(
    times: Map<Topic, Timestamp>,
    topic: Topic,
    occasions: Seq<Occasion>,
    clock: Seq<Timestamp>,
    occasion: Occasion,
    now: Timestamp,
)
    requires
        occasions.len() == clock.len(),
    ensures
        raised_all(times, topic, occasions.push(occasion), clock.push(now)) == ({
            let before = raised_all(times, topic, occasions, clock);
            let next = raised(before.0, topic, occasion.settings, occasion.title, occasion.body, now);
            (
                next.0,
                match next.1 {
                    Some(notice) => before.1.push(notice),
                    None => before.1,
                },
            )
        }),
{
    assert(occasions.push(occasion).drop_last() =~= occasions);
    assert(clock.push(now).drop_last() =~= clock);
}

/// A topic that was never raised is not held back, whatever the time and
/// the delay; one that was raised is held back while less than its delay has
/// passed and no longer.
pub proof fn lemma_held_back_for_the_delay(last: Timestamp, delay: u64, now: Timestamp)
    ensures
        !held_back(None, delay, now),
        held_back(Some(last), delay, now) <==> now.nanoseconds() - last.nanoseconds() < delay
            * 1_000_000,
{
}

} // verus!
