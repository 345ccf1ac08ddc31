//! Tracker statistics: one counter per kind of event, and how an event
//! changes or sets its counter.

use vstd::prelude::*;
use crate::tracker::{TorrentTracker, TrackerModel};

verus! {

/// The kinds of events that the tracker counts.
#[derive(PartialEq, Eq, Structural, Clone, Copy, Debug)]
pub enum StatsEvent {
    Torrents,
    TorrentsUpdates,
    TorrentsShadow,
    Users,
    UsersUpdates,
    UsersShadow,
    TimestampSave,
    TimestampTimeout,
    TimestampConsole,
    TimestampKeysTimeout,
    MaintenanceMode,
    Seeds,
    Peers,
    Completed,
    Whitelist,
    Blacklist,
    Key,
    Tcp4ConnectionsHandled,
    Tcp4ApiHandled,
    Tcp4AnnouncesHandled,
    Tcp4ScrapesHandled,
    Tcp6ConnectionsHandled,
    Tcp6ApiHandled,
    Tcp6AnnouncesHandled,
    Tcp6ScrapesHandled,
    Udp4ConnectionsHandled,
    Udp4AnnouncesHandled,
    Udp4ScrapesHandled,
    Udp6ConnectionsHandled,
    Udp6AnnouncesHandled,
    Udp6ScrapesHandled,
    Udp4InvalidRequest,
    Udp6InvalidRequest,
    Udp4BadRequest,
    Udp6BadRequest,
}

/// The tracker's counters, and whether the lists are enforced.
#[derive(PartialEq, Eq, Structural, Clone, Copy, Debug)]
pub struct Stats {
    pub started: i64,
    pub timestamp_run_save: i64,
    pub timestamp_run_timeout: i64,
    pub timestamp_run_console: i64,
    pub timestamp_run_keys_timeout: i64,
    pub torrents: i64,
    pub torrents_updates: i64,
    pub torrents_shadow: i64,
    pub users: i64,
    pub users_updates: i64,
    pub users_shadow: i64,
    pub maintenance_mode: i64,
    pub seeds: i64,
    pub peers: i64,
    pub completed: i64,
    pub whitelist_enabled: bool,
    pub whitelist: i64,
    pub blacklist_enabled: bool,
    pub blacklist: i64,
    pub keys_enabled: bool,
    pub keys: i64,
    pub tcp4_connections_handled: i64,
    pub tcp4_api_handled: i64,
    pub tcp4_announces_handled: i64,
    pub tcp4_scrapes_handled: i64,
    pub tcp6_connections_handled: i64,
    pub tcp6_api_handled: i64,
    pub tcp6_announces_handled: i64,
    pub tcp6_scrapes_handled: i64,
    pub udp4_connections_handled: i64,
    pub udp4_announces_handled: i64,
    pub udp4_scrapes_handled: i64,
    pub udp6_connections_handled: i64,
    pub udp6_announces_handled: i64,
    pub udp6_scrapes_handled: i64,
    pub udp4_invalid_request: i64,
    pub udp6_invalid_request: i64,
    pub udp4_bad_request: i64,
    pub udp6_bad_request: i64,
}

/// The counter that `e` changes.
pub open spec fn counter(s: Stats, e: StatsEvent) -> i64 {
    match e {
        StatsEvent::Torrents => s.torrents,
        StatsEvent::TorrentsUpdates => s.torrents_updates,
        StatsEvent::TorrentsShadow => s.torrents_shadow,
        StatsEvent::Users => s.users,
        StatsEvent::UsersUpdates => s.users_updates,
        StatsEvent::UsersShadow => s.users_shadow,
        StatsEvent::TimestampSave => s.timestamp_run_save,
        StatsEvent::TimestampTimeout => s.timestamp_run_timeout,
        StatsEvent::TimestampConsole => s.timestamp_run_console,
        StatsEvent::TimestampKeysTimeout => s.timestamp_run_keys_timeout,
        StatsEvent::MaintenanceMode => s.maintenance_mode,
        StatsEvent::Seeds => s.seeds,
        StatsEvent::Peers => s.peers,
        StatsEvent::Completed => s.completed,
        StatsEvent::Whitelist => s.whitelist,
        StatsEvent::Blacklist => s.blacklist,
        StatsEvent::Key => s.keys,
        StatsEvent::Tcp4ConnectionsHandled => s.tcp4_connections_handled,
        StatsEvent::Tcp4ApiHandled => s.tcp4_api_handled,
        StatsEvent::Tcp4AnnouncesHandled => s.tcp4_announces_handled,
        StatsEvent::Tcp4ScrapesHandled => s.tcp4_scrapes_handled,
        StatsEvent::Tcp6ConnectionsHandled => s.tcp6_connections_handled,
        StatsEvent::Tcp6ApiHandled => s.tcp6_api_handled,
        StatsEvent::Tcp6AnnouncesHandled => s.tcp6_announces_handled,
        StatsEvent::Tcp6ScrapesHandled => s.tcp6_scrapes_handled,
        StatsEvent::Udp4ConnectionsHandled => s.udp4_connections_handled,
        StatsEvent::Udp4AnnouncesHandled => s.udp4_announces_handled,
        StatsEvent::Udp4ScrapesHandled => s.udp4_scrapes_handled,
        StatsEvent::Udp6ConnectionsHandled => s.udp6_connections_handled,
        StatsEvent::Udp6AnnouncesHandled => s.udp6_announces_handled,
        StatsEvent::Udp6ScrapesHandled => s.udp6_scrapes_handled,
        StatsEvent::Udp4InvalidRequest => s.udp4_invalid_request,
        StatsEvent::Udp6InvalidRequest => s.udp6_invalid_request,
        StatsEvent::Udp4BadRequest => s.udp4_bad_request,
        StatsEvent::Udp6BadRequest => s.udp6_bad_request,
    }
}

/// `s` with the counter of `e` set to `v`, everything else as it was.
pub open spec fn with_counter(s: Stats, e: StatsEvent, v: i64) -> Stats {
    match e {
        StatsEvent::Torrents => Stats { torrents: v, ..s },
        StatsEvent::TorrentsUpdates => Stats { torrents_updates: v, ..s },
        StatsEvent::TorrentsShadow => Stats { torrents_shadow: v, ..s },
        StatsEvent::Users => Stats { users: v, ..s },
        StatsEvent::UsersUpdates => Stats { users_updates: v, ..s },
        StatsEvent::UsersShadow => Stats { users_shadow: v, ..s },
        StatsEvent::TimestampSave => Stats { timestamp_run_save: v, ..s },
        StatsEvent::TimestampTimeout => Stats { timestamp_run_timeout: v, ..s },
        StatsEvent::TimestampConsole => Stats { timestamp_run_console: v, ..s },
        StatsEvent::TimestampKeysTimeout => Stats { timestamp_run_keys_timeout: v, ..s },
        StatsEvent::MaintenanceMode => Stats { maintenance_mode: v, ..s },
        StatsEvent::Seeds => Stats { seeds: v, ..s },
        StatsEvent::Peers => Stats { peers: v, ..s },
        StatsEvent::Completed => Stats { completed: v, ..s },
        StatsEvent::Whitelist => Stats { whitelist: v, ..s },
        StatsEvent::Blacklist => Stats { blacklist: v, ..s },
        StatsEvent::Key => Stats { keys: v, ..s },
        StatsEvent::Tcp4ConnectionsHandled => Stats { tcp4_connections_handled: v, ..s },
        StatsEvent::Tcp4ApiHandled => Stats { tcp4_api_handled: v, ..s },
        StatsEvent::Tcp4AnnouncesHandled => Stats { tcp4_announces_handled: v, ..s },
        StatsEvent::Tcp4ScrapesHandled => Stats { tcp4_scrapes_handled: v, ..s },
        StatsEvent::Tcp6ConnectionsHandled => Stats { tcp6_connections_handled: v, ..s },
        StatsEvent::Tcp6ApiHandled => Stats { tcp6_api_handled: v, ..s },
        StatsEvent::Tcp6AnnouncesHandled => Stats { tcp6_announces_handled: v, ..s },
        StatsEvent::Tcp6ScrapesHandled => Stats { tcp6_scrapes_handled: v, ..s },
        StatsEvent::Udp4ConnectionsHandled => Stats { udp4_connections_handled: v, ..s },
        StatsEvent::Udp4AnnouncesHandled => Stats { udp4_announces_handled: v, ..s },
        StatsEvent::Udp4ScrapesHandled => Stats { udp4_scrapes_handled: v, ..s },
        StatsEvent::Udp6ConnectionsHandled => Stats { udp6_connections_handled: v, ..s },
        StatsEvent::Udp6AnnouncesHandled => Stats { udp6_announces_handled: v, ..s },
        StatsEvent::Udp6ScrapesHandled => Stats { udp6_scrapes_handled: v, ..s },
        StatsEvent::Udp4InvalidRequest => Stats { udp4_invalid_request: v, ..s },
        StatsEvent::Udp6InvalidRequest => Stats { udp6_invalid_request: v, ..s },
        StatsEvent::Udp4BadRequest => Stats { udp4_bad_request: v, ..s },
        StatsEvent::Udp6BadRequest => Stats { udp6_bad_request: v, ..s },
    }
}

/// Setting one counter changes that counter only.
pub proof fn lemma_with_counter(s: Stats, e: StatsEvent, v: i64, other: StatsEvent)
    ensures
        counter(with_counter(s, e, v), other) == if other == e {
            v
        } else {
            counter(s, other)
        },
        with_counter(s, e, v).started == s.started,
        with_counter(s, e, v).whitelist_enabled == s.whitelist_enabled,
        with_counter(s, e, v).blacklist_enabled == s.blacklist_enabled,
        with_counter(s, e, v).keys_enabled == s.keys_enabled,
{
}

/// Setting a counter to the value it has changes nothing.
pub proof fn lemma_with_counter_same(s: Stats, e: StatsEvent)
    ensures
        with_counter(s, e, counter(s, e)) == s,
{
}

impl Stats {
    /// Fresh statistics: every counter zero, `started` and the list flags as
    /// given.
    pub fn new(started: i64, whitelist_enabled: bool, blacklist_enabled: bool, keys_enabled: bool) -> (r: Stats)
        ensures
            r.started == started,
            r.whitelist_enabled == whitelist_enabled,
            r.blacklist_enabled == blacklist_enabled,
            r.keys_enabled == keys_enabled,
            r.timestamp_run_save == 0,
            r.timestamp_run_timeout == 0,
            r.timestamp_run_console == 0,
            r.timestamp_run_keys_timeout == 0,
            forall|e: StatsEvent| counter(r, e) == 0,
    {
        Stats {
            started,
            timestamp_run_save: 0,
            timestamp_run_timeout: 0,
            timestamp_run_console: 0,
            timestamp_run_keys_timeout: 0,
            torrents: 0,
            torrents_updates: 0,
            torrents_shadow: 0,
            users: 0,
            users_updates: 0,
            users_shadow: 0,
            maintenance_mode: 0,
            seeds: 0,
            peers: 0,
            completed: 0,
            whitelist_enabled,
            whitelist: 0,
            blacklist_enabled,
            blacklist: 0,
            keys_enabled,
            keys: 0,
            tcp4_connections_handled: 0,
            tcp4_api_handled: 0,
            tcp4_announces_handled: 0,
            tcp4_scrapes_handled: 0,
            tcp6_connections_handled: 0,
            tcp6_api_handled: 0,
            tcp6_announces_handled: 0,
            tcp6_scrapes_handled: 0,
            udp4_connections_handled: 0,
            udp4_announces_handled: 0,
            udp4_scrapes_handled: 0,
            udp6_connections_handled: 0,
            udp6_announces_handled: 0,
            udp6_scrapes_handled: 0,
            udp4_invalid_request: 0,
            udp6_invalid_request: 0,
            udp4_bad_request: 0,
            udp6_bad_request: 0,
        }
    }

    /// The counter of `event`.
    pub fn get(&self, event: StatsEvent) -> (r: i64)
        ensures
            r == counter(*self, event),
    {
        match event {
            StatsEvent::Torrents => self.torrents,
            StatsEvent::TorrentsUpdates => self.torrents_updates,
            StatsEvent::TorrentsShadow => self.torrents_shadow,
            StatsEvent::Users => self.users,
            StatsEvent::UsersUpdates => self.users_updates,
            StatsEvent::UsersShadow => self.users_shadow,
            StatsEvent::TimestampSave => self.timestamp_run_save,
            StatsEvent::TimestampTimeout => self.timestamp_run_timeout,
            StatsEvent::TimestampConsole => self.timestamp_run_console,
            StatsEvent::TimestampKeysTimeout => self.timestamp_run_keys_timeout,
            StatsEvent::MaintenanceMode => self.maintenance_mode,
            StatsEvent::Seeds => self.seeds,
            StatsEvent::Peers => self.peers,
            StatsEvent::Completed => self.completed,
            StatsEvent::Whitelist => self.whitelist,
            StatsEvent::Blacklist => self.blacklist,
            StatsEvent::Key => self.keys,
            StatsEvent::Tcp4ConnectionsHandled => self.tcp4_connections_handled,
            StatsEvent::Tcp4ApiHandled => self.tcp4_api_handled,
            StatsEvent::Tcp4AnnouncesHandled => self.tcp4_announces_handled,
            StatsEvent::Tcp4ScrapesHandled => self.tcp4_scrapes_handled,
            StatsEvent::Tcp6ConnectionsHandled => self.tcp6_connections_handled,
            StatsEvent::Tcp6ApiHandled => self.tcp6_api_handled,
            StatsEvent::Tcp6AnnouncesHandled => self.tcp6_announces_handled,
            StatsEvent::Tcp6ScrapesHandled => self.tcp6_scrapes_handled,
            StatsEvent::Udp4ConnectionsHandled => self.udp4_connections_handled,
            StatsEvent::Udp4AnnouncesHandled => self.udp4_announces_handled,
            StatsEvent::Udp4ScrapesHandled => self.udp4_scrapes_handled,
            StatsEvent::Udp6ConnectionsHandled => self.udp6_connections_handled,
            StatsEvent::Udp6AnnouncesHandled => self.udp6_announces_handled,
            StatsEvent::Udp6ScrapesHandled => self.udp6_scrapes_handled,
            StatsEvent::Udp4InvalidRequest => self.udp4_invalid_request,
            StatsEvent::Udp6InvalidRequest => self.udp6_invalid_request,
            StatsEvent::Udp4BadRequest => self.udp4_bad_request,
            StatsEvent::Udp6BadRequest => self.udp6_bad_request,
        }
    }

    /// Adds `value` to the counter of `event` and returns the new statistics.
    pub fn update(&mut self, event: StatsEvent, value: i64) -> (r: Stats)
        requires
            i64::MIN <= counter(*old(self), event) + value <= i64::MAX,
        ensures
            *final(self) == with_counter(*old(self), event, (counter(*old(self), event) + value) as i64),
            r == *final(self),
    {
        match event {
            StatsEvent::Torrents => { self.torrents = self.torrents + value; },
            StatsEvent::TorrentsUpdates => { self.torrents_updates = self.torrents_updates + value; },
            StatsEvent::TorrentsShadow => { self.torrents_shadow = self.torrents_shadow + value; },
            StatsEvent::Users => { self.users = self.users + value; },
            StatsEvent::UsersUpdates => { self.users_updates = self.users_updates + value; },
            StatsEvent::UsersShadow => { self.users_shadow = self.users_shadow + value; },
            StatsEvent::TimestampSave => { self.timestamp_run_save = self.timestamp_run_save + value; },
            StatsEvent::TimestampTimeout => { self.timestamp_run_timeout = self.timestamp_run_timeout + value; },
            StatsEvent::TimestampConsole => { self.timestamp_run_console = self.timestamp_run_console + value; },
            StatsEvent::TimestampKeysTimeout => { self.timestamp_run_keys_timeout = self.timestamp_run_keys_timeout + value; },
            StatsEvent::MaintenanceMode => { self.maintenance_mode = self.maintenance_mode + value; },
            StatsEvent::Seeds => { self.seeds = self.seeds + value; },
            StatsEvent::Peers => { self.peers = self.peers + value; },
            StatsEvent::Completed => { self.completed = self.completed + value; },
            StatsEvent::Whitelist => { self.whitelist = self.whitelist + value; },
            StatsEvent::Blacklist => { self.blacklist = self.blacklist + value; },
            StatsEvent::Key => { self.keys = self.keys + value; },
            StatsEvent::Tcp4ConnectionsHandled => { self.tcp4_connections_handled = self.tcp4_connections_handled + value; },
            StatsEvent::Tcp4ApiHandled => { self.tcp4_api_handled = self.tcp4_api_handled + value; },
            StatsEvent::Tcp4AnnouncesHandled => { self.tcp4_announces_handled = self.tcp4_announces_handled + value; },
            StatsEvent::Tcp4ScrapesHandled => { self.tcp4_scrapes_handled = self.tcp4_scrapes_handled + value; },
            StatsEvent::Tcp6ConnectionsHandled => { self.tcp6_connections_handled = self.tcp6_connections_handled + value; },
            StatsEvent::Tcp6ApiHandled => { self.tcp6_api_handled = self.tcp6_api_handled + value; },
            StatsEvent::Tcp6AnnouncesHandled => { self.tcp6_announces_handled = self.tcp6_announces_handled + value; },
            StatsEvent::Tcp6ScrapesHandled => { self.tcp6_scrapes_handled = self.tcp6_scrapes_handled + value; },
            StatsEvent::Udp4ConnectionsHandled => { self.udp4_connections_handled = self.udp4_connections_handled + value; },
            StatsEvent::Udp4AnnouncesHandled => { self.udp4_announces_handled = self.udp4_announces_handled + value; },
            StatsEvent::Udp4ScrapesHandled => { self.udp4_scrapes_handled = self.udp4_scrapes_handled + value; },
            StatsEvent::Udp6ConnectionsHandled => { self.udp6_connections_handled = self.udp6_connections_handled + value; },
            StatsEvent::Udp6AnnouncesHandled => { self.udp6_announces_handled = self.udp6_announces_handled + value; },
            StatsEvent::Udp6ScrapesHandled => { self.udp6_scrapes_handled = self.udp6_scrapes_handled + value; },
            StatsEvent::Udp4InvalidRequest => { self.udp4_invalid_request = self.udp4_invalid_request + value; },
            StatsEvent::Udp6InvalidRequest => { self.udp6_invalid_request = self.udp6_invalid_request + value; },
            StatsEvent::Udp4BadRequest => { self.udp4_bad_request = self.udp4_bad_request + value; },
            StatsEvent::Udp6BadRequest => { self.udp6_bad_request = self.udp6_bad_request + value; },
        }
        *self
    }

    /// Sets the counter of `event` to `value` and returns the new statistics.
    pub fn set(&mut self, event: StatsEvent, value: i64) -> (r: Stats)
        ensures
            *final(self) == with_counter(*old(self), event, value),
            r == *final(self),
    {
        match event {
            StatsEvent::Torrents => { self.torrents = value; },
            StatsEvent::TorrentsUpdates => { self.torrents_updates = value; },
            StatsEvent::TorrentsShadow => { self.torrents_shadow = value; },
            StatsEvent::Users => { self.users = value; },
            StatsEvent::UsersUpdates => { self.users_updates = value; },
            StatsEvent::UsersShadow => { self.users_shadow = value; },
            StatsEvent::TimestampSave => { self.timestamp_run_save = value; },
            StatsEvent::TimestampTimeout => { self.timestamp_run_timeout = value; },
            StatsEvent::TimestampConsole => { self.timestamp_run_console = value; },
            StatsEvent::TimestampKeysTimeout => { self.timestamp_run_keys_timeout = value; },
            StatsEvent::MaintenanceMode => { self.maintenance_mode = value; },
            StatsEvent::Seeds => { self.seeds = value; },
            StatsEvent::Peers => { self.peers = value; },
            StatsEvent::Completed => { self.completed = value; },
            StatsEvent::Whitelist => { self.whitelist = value; },
            StatsEvent::Blacklist => { self.blacklist = value; },
            StatsEvent::Key => { self.keys = value; },
            StatsEvent::Tcp4ConnectionsHandled => { self.tcp4_connections_handled = value; },
            StatsEvent::Tcp4ApiHandled => { self.tcp4_api_handled = value; },
            StatsEvent::Tcp4AnnouncesHandled => { self.tcp4_announces_handled = value; },
            StatsEvent::Tcp4ScrapesHandled => { self.tcp4_scrapes_handled = value; },
            StatsEvent::Tcp6ConnectionsHandled => { self.tcp6_connections_handled = value; },
            StatsEvent::Tcp6ApiHandled => { self.tcp6_api_handled = value; },
            StatsEvent::Tcp6AnnouncesHandled => { self.tcp6_announces_handled = value; },
            StatsEvent::Tcp6ScrapesHandled => { self.tcp6_scrapes_handled = value; },
            StatsEvent::Udp4ConnectionsHandled => { self.udp4_connections_handled = value; },
            StatsEvent::Udp4AnnouncesHandled => { self.udp4_announces_handled = value; },
            StatsEvent::Udp4ScrapesHandled => { self.udp4_scrapes_handled = value; },
            StatsEvent::Udp6ConnectionsHandled => { self.udp6_connections_handled = value; },
            StatsEvent::Udp6AnnouncesHandled => { self.udp6_announces_handled = value; },
            StatsEvent::Udp6ScrapesHandled => { self.udp6_scrapes_handled = value; },
            StatsEvent::Udp4InvalidRequest => { self.udp4_invalid_request = value; },
            StatsEvent::Udp6InvalidRequest => { self.udp6_invalid_request = value; },
            StatsEvent::Udp4BadRequest => { self.udp4_bad_request = value; },
            StatsEvent::Udp6BadRequest => { self.udp6_bad_request = value; },
        }
        *self
    }
}

impl TorrentTracker {
    /// A copy of the statistics.
    pub fn get_stats(&self) -> (r: Stats)
        ensures
            r == self@.stats,
    {
        self.stats
    }

    /// Adds `value` to the counter of `event`; returns the new statistics.
    pub fn update_stats(&mut self, event: StatsEvent, value: i64) -> (r: Stats)
        requires
            i64::MIN <= counter(old(self)@.stats, event) + value <= i64::MAX,
        ensures
            final(self)@ == (TrackerModel {
                stats: with_counter(old(self)@.stats, event, (counter(old(self)@.stats, event) + value) as i64),
                ..old(self)@
            }),
            r == final(self)@.stats,
    {
        let r = self.stats.update(event, value);
        assert(self@ =~= (TrackerModel {
            stats: with_counter(old(self)@.stats, event, (counter(old(self)@.stats, event) + value) as i64),
            ..old(self)@
        }));
        r
    }

    /// Sets the counter of `event` to `value`; returns the new statistics.
    pub fn set_stats(&mut self, event: StatsEvent, value: i64) -> (r: Stats)
        ensures
            final(self)@ == (TrackerModel { stats: with_counter(old(self)@.stats, event, value), ..old(self)@ }),
            r == final(self)@.stats,
    {
        let r = self.stats.set(event, value);
        assert(self@ =~= (TrackerModel { stats: with_counter(old(self)@.stats, event, value), ..old(self)@ }));
        r
    }
}

} // verus!
