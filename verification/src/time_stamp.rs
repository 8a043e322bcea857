//! The decisions of a clock that is corrected by network time.
//!
//! The clock keeps two numbers: the offset that the last accepted server
//! reading had from the local clock, and the local time at which that
//! reading was taken. Everything that touches the outside world (reading the
//! local clock, asking a server) is left to the caller; this module decides
//! what to do with the answers.

use vstd::prelude::*;

verus! {

/// The time servers, in the order in which they are asked.
pub const NTP_SERVERS: [&'static str; 9] = [
    "ntp.aliyun.com",
    "ntp.tencent.com",
    "ntp.ntsc.ac.cn",
    "cn.pool.ntp.org",
    "time.google.com",
    "time.apple.com",
    "time.cloudflare.com",
    "time.windows.com",
    "pool.ntp.org",
];

/// How long an accepted server reading is used before the servers are asked
/// again, in milliseconds.
pub const SYNC_INTERVAL_MS: i64 = 3600 * 1000;

/// How long to wait before asking again after no server answered, in
/// milliseconds.
pub const RETRY_INTERVAL_MS: i64 = 60 * 1000;

/// How long one server is given to answer, in seconds.
pub const NTP_TIMEOUT_SECS: u64 = 3;

/// The largest offset from the local clock that is believed, in
/// milliseconds.
pub const MAX_TIME_OFFSET_MS: i64 = 24 * 3600 * 1000;

/// The local clock's reading as a millisecond timestamp, where there is
/// one: the time since the epoch must be known and fit in 63 bits.
pub open spec fn system_time_millis(since_epoch_millis: Option<u128>) -> Option<i64> {
    match since_epoch_millis {
        Some(millis) if millis <= i64::MAX => Some(millis as i64),
        _ => None,
    }
}

/// Turns the time since the epoch, as far as the local clock gave it, into a
/// millisecond timestamp.
pub fn get_system_time_millis(since_epoch_millis: Option<u128>) -> (now: Option<i64>)
    ensures
        now == system_time_millis(since_epoch_millis),
{
    match since_epoch_millis {
        Some(millis) => {
            if millis <= i64::MAX as u128 {
                Some(millis as i64)
            } else {
                None
            }
        },
        None => None,
    }
}

/// Whether a server's timestamp can be used: positive and below the largest
/// 64-bit value.
pub open spec fn acceptable_reading(timestamp_millis: i64) -> bool {
    0 < timestamp_millis < i64::MAX
}

/// What a run over the servers gives when they answer with `replies` in
/// the order in which they are asked, a server that failed counting as
/// `None`: the first acceptable timestamp, if there is one.
pub open spec fn fetch_outcome(replies: Seq<Option<i64>>) -> Option<i64>
    decreases replies.len(),
{
    if replies.len() == 0 {
        None
    } else {
        match replies[0] {
            Some(timestamp) if acceptable_reading(timestamp) => Some(timestamp),
            _ => fetch_outcome(replies.skip(1)),
        }
    }
}

/// What to do next while asking the servers.
#[derive(Clone, Copy, Debug, PartialEq, Eq, Structural)]
pub enum FetchStep {
    /// Ask the server with this index in [`NTP_SERVERS`].
    Query(usize),
    /// Stop: with the timestamp found, or with none once every server failed.
    Finished(Option<i64>),
}

/// The step that follows the reply of server `server`.
pub open spec fn fetch_step_after(server: usize, reply: Option<i64>) -> FetchStep {
    match reply {
        Some(timestamp) if acceptable_reading(timestamp) => FetchStep::Finished(Some(timestamp)),
        _ => if server + 1 < NTP_SERVERS@.len() {
            FetchStep::Query((server + 1) as usize)
        } else {
            FetchStep::Finished(None)
        },
    }
}

/// The first step of a run over the servers: ask the first one.
pub fn first_fetch_step() -> (step: FetchStep)
    ensures
        step == FetchStep::Query(0),
{
    FetchStep::Query(0)
}

/// Decides what follows the reply of server `server`: `reply` is the
/// timestamp it gave in milliseconds, or `None` if it failed, timed out or
/// gave no usable date. The first acceptable timestamp ends the run; after
/// the last server the run ends without one.
pub fn next_fetch_step(server: usize, reply: Option<i64>) -> (step: FetchStep)
    requires
        server < NTP_SERVERS@.len(),
    ensures
        step == fetch_step_after(server, reply),
{
    match reply {
        Some(timestamp) => {
            if timestamp > 0 && timestamp < i64::MAX {
                return FetchStep::Finished(Some(timestamp));
            }
        },
        None => {},
    }
    if server + 1 < NTP_SERVERS.len() {
        FetchStep::Query(server + 1)
    } else {
        FetchStep::Finished(None)
    }
}

/// The result of following the steps from server `server` on, when the
/// servers from there on answer with `replies`.
pub open spec fn run_fetch(server: usize, replies: Seq<Option<i64>>) -> Option<i64>
    decreases replies.len(),
{
    if replies.len() == 0 {
        None
    } else {
        match fetch_step_after(server, replies[0]) {
            FetchStep::Finished(found) => found,
            FetchStep::Query(next) => run_fetch(next, replies.skip(1)),
        }
    }
}

/// Following the steps server by server finds the first acceptable
/// timestamp among the replies, and none if there is none.
pub proof fn lemma_run_fetch_finds_first_acceptable(server: usize, replies: Seq<Option<i64>>)
    requires
        server + replies.len() == NTP_SERVERS@.len(),
    ensures
        run_fetch(server, replies) == fetch_outcome(replies),
    decreases replies.len(),
{
    if replies.len() > 0 {
        let rest = replies.skip(1);
        match fetch_step_after(server, replies[0]) {
            FetchStep::Finished(found) => {
                if found is None {
                    assert(rest.len() == 0);
                    assert(fetch_outcome(rest) == None::<i64>);
                }
            },
            FetchStep::Query(next) => {
                lemma_run_fetch_finds_first_acceptable(next, rest);
            },
        }
    }
}

/// What the clock remembers between calls.
#[derive(Clone, Copy, Debug, PartialEq, Eq, Structural)]
pub struct ClockState {
    /// Server time minus local time at the last accepted reading, in
    /// milliseconds.
    pub offset: i64,
    /// Local time of the last accepted reading, in milliseconds; 0 while
    /// there has been none.
    pub last_sync: i64,
}

/// Whether the servers are to be asked at local time `now`: always before
/// the first accepted reading, and later once more than the sync interval
/// lies between `now` and the last one, in either direction.
pub open spec fn sync_needed(state: ClockState, now: i64) -> bool {
    state.last_sync == 0 || now - state.last_sync > SYNC_INTERVAL_MS || state.last_sync - now
        > SYNC_INTERVAL_MS
}

/// Whether the server timestamp `ntp_millis` lies within the bound of
/// belief around the local time `now`.
pub open spec fn plausible(now: i64, ntp_millis: i64) -> bool {
    -MAX_TIME_OFFSET_MS <= ntp_millis - now <= MAX_TIME_OFFSET_MS
}

/// The state after an attempt to ask the servers at local time `now` that
/// ended with `fetched`.
pub open spec fn state_after_fetch(state: ClockState, now: i64, fetched: Option<i64>) -> ClockState {
    match fetched {
        Some(ntp_millis) => if plausible(now, ntp_millis) {
            ClockState { offset: (ntp_millis - now) as i64, last_sync: now }
        } else {
            state
        },
        None => ClockState {
            offset: state.offset,
            last_sync: (now - (SYNC_INTERVAL_MS - RETRY_INTERVAL_MS)) as i64,
        },
    }
}

/// The time that such an attempt makes the clock show: a plausible server
/// timestamp itself, and otherwise the local time corrected by the offset
/// kept from before.
pub open spec fn time_after_fetch(state: ClockState, now: i64, fetched: Option<i64>) -> int {
    match fetched {
        Some(ntp_millis) if plausible(now, ntp_millis) => ntp_millis as int,
        _ => now + state.offset,
    }
}

/// The state after one whole reading of the clock at local time `now`,
/// where asking the servers, if it comes to that, ends with `fetched`.
pub open spec fn state_after_sync(state: ClockState, now: i64, fetched: Option<i64>) -> ClockState {
    if sync_needed(state, now) {
        state_after_fetch(state, now, fetched)
    } else {
        state
    }
}

/// The time that such a reading shows.
pub open spec fn time_after_sync(state: ClockState, now: i64, fetched: Option<i64>) -> int {
    if sync_needed(state, now) {
        time_after_fetch(state, now, fetched)
    } else {
        now + state.offset
    }
}

/// The local clock's best effort where it gave no usable timestamp: the
/// low 64 bits of the milliseconds since the epoch, or 0 if the clock stands
/// before the epoch.
pub open spec fn best_effort_millis(since_epoch_millis: Option<u128>) -> i64 {
    match since_epoch_millis {
        Some(millis) => millis as i64,
        None => 0,
    }
}

/// Whether the server timestamp `ntp_millis` lies within the bound of
/// belief around the local time `now`.
pub fn is_plausible(now: i64, ntp_millis: i64) -> (believed: bool)
    ensures
        believed == plausible(now, ntp_millis),
{
    let offset: i128 = ntp_millis as i128 - now as i128;
    -(MAX_TIME_OFFSET_MS as i128) <= offset && offset <= MAX_TIME_OFFSET_MS as i128
}

impl ClockState {
    /// The state of a clock that has never been set by a server.
    pub fn new() -> (state: Self)
        ensures
            state == (ClockState { offset: 0, last_sync: 0 }),
    {
        ClockState { offset: 0, last_sync: 0 }
    }

    /// Whether the servers are to be asked at local time `now`.
    pub fn needs_sync(&self, now: i64) -> (needed: bool)
        ensures
            needed == sync_needed(*self, now),
    {
        let elapsed: i128 = now as i128 - self.last_sync as i128;
        self.last_sync == 0 || elapsed > SYNC_INTERVAL_MS as i128 || -elapsed
            > SYNC_INTERVAL_MS as i128
    }

    /// The local time `now` corrected by the offset kept.
    pub fn corrected_time(&self, now: i64) -> (time: i64)
        requires
            i64::MIN <= now + self.offset <= i64::MAX,
        ensures
            time == now + self.offset,
    {
        now + self.offset
    }

    /// The time to show when the local clock gave no usable timestamp: its
    /// best effort corrected by the offset kept.
    pub fn degraded_time(&self, since_epoch_millis: Option<u128>) -> (time: i64)
        requires
            i64::MIN <= best_effort_millis(since_epoch_millis) + self.offset <= i64::MAX,
        ensures
            time == best_effort_millis(since_epoch_millis) + self.offset,
    {
        let best_effort: i64 = match since_epoch_millis {
            Some(millis) => {
                #[verifier::truncate]
                (millis as i64)
            },
            None => 0,
        };
        best_effort + self.offset
    }

    /// Takes in how an attempt to ask the servers at local time `now` ended,
    /// and returns the time to show.
    ///
    /// A plausible timestamp is kept as the new offset, `now` becomes the
    /// time of the last reading, and the timestamp itself is the time to
    /// show. A timestamp further from `now` than the bound of belief changes
    /// nothing. Where every server failed, the time of the last reading is
    /// set so that the servers are asked again after the retry interval.
    pub fn complete_sync(&mut self, now: i64, fetched: Option<i64>) -> (time: i64)
        requires
            fetched is None ==> i64::MIN <= now - (SYNC_INTERVAL_MS - RETRY_INTERVAL_MS),
            !(fetched matches Some(ntp_millis) && plausible(now, ntp_millis)) ==> i64::MIN <= now
                + old(self).offset <= i64::MAX,
        ensures
            *final(self) == state_after_fetch(*old(self), now, fetched),
            time == time_after_fetch(*old(self), now, fetched),
    {
        match fetched {
            Some(ntp_millis) => {
                if is_plausible(now, ntp_millis) {
                    self.offset = ntp_millis - now;
                    self.last_sync = now;
                    return ntp_millis;
                }
            },
            None => {
                self.last_sync = now - (SYNC_INTERVAL_MS - RETRY_INTERVAL_MS);
            },
        }
        now + self.offset
    }
}

/// While no server can be reached, the clock keeps its offset and the time
/// it shows does not go back: of two readings in a row at local times
/// `earlier <= later`, the second shows no less than the first.
pub proof fn lemma_time_monotonic_without_servers(state: ClockState, earlier: i64, later: i64)
    requires
        earlier <= later,
    ensures
        state_after_sync(state, earlier, None).offset == state.offset,
        time_after_sync(state, earlier, None) <= time_after_sync(
            state_after_sync(state, earlier, None),
            later,
            None,
        ),
{
}

/// A server timestamp further from the local time than the bound of belief
/// changes nothing: the state stays as it was, and the time shown is the
/// local time corrected by the offset kept from before.
pub proof fn lemma_implausible_reading_is_ignored(state: ClockState, now: i64, ntp_millis: i64)
    requires
        !plausible(now, ntp_millis),
    ensures
        state_after_sync(state, now, Some(ntp_millis)) == state,
        time_after_sync(state, now, Some(ntp_millis)) == now + state.offset,
{
}

/// The offset kept never leaves the bound of belief.
pub proof fn lemma_offset_stays_plausible(state: ClockState, now: i64, fetched: Option<i64>)
    requires
        -MAX_TIME_OFFSET_MS <= state.offset <= MAX_TIME_OFFSET_MS,
    ensures
        -MAX_TIME_OFFSET_MS <= state_after_sync(state, now, fetched).offset <= MAX_TIME_OFFSET_MS,
{
}

} // verus!
