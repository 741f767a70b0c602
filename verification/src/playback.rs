//! Synchronized playback rooms: room state anchored by a wallclock
//! timestamp, idempotent application of remote sync events, and the
//! expected-position computation. Positions are in milliseconds and
//! speeds in thousandths (1000 is normal speed), so the arithmetic is
//! exact.

use crate::errors::StreamError;
use crate::metadata::now_millis;
use vstd::prelude::*;

verus! {

/// Normal playback speed, in thousandths.
pub const SPEED_NORMAL: u32 = 1000;

/// A media source for a stream room.
#[derive(Debug, Clone)]
pub enum StreamSource {
    /// An HTTP(S) URL
    Url {
        /// The URL text
        url: String,
    },
    /// A local file (host only)
    LocalFile {
        /// The file's path
        path: String,
        /// The file's size in bytes
        size: u64,
    },
    /// A file shared over the peer network
    P2PFile {
        /// The hosting node's id
        host_id: String,
        /// The shared file's id
        file_id: String,
        /// The file's size in bytes
        size: u64,
    },
}

/// Playback state for synchronization.
#[derive(Debug, Clone, Copy)]
pub struct PlaybackState {
    /// Whether playback is running
    pub playing: bool,
    /// Current position, in milliseconds
    pub position_ms: u64,
    /// Playback speed, in thousandths (1000 is normal)
    pub speed_permille: u32,
    /// Wallclock anchor of the last state change, milliseconds since the
    /// epoch
    pub sync_time_ms: u64,
}

impl PlaybackState {
    /// A paused state at the start, at normal speed, anchored now.
    pub fn initial() -> (r: Self)
        ensures
            !r.playing,
            r.position_ms == 0,
            r.speed_permille == SPEED_NORMAL,
    {
        Self {
            playing: false,
            position_ms: 0,
            speed_permille: SPEED_NORMAL,
            sync_time_ms: now_millis(),
        }
    }
}

/// The expected playback position at wallclock time `now_ms`: frozen
/// while paused, and the anchored position plus elapsed wallclock time
/// scaled by the speed while playing (saturating at the top of u64).
pub open spec fn expected_position_spec(state: PlaybackState, now_ms: u64) -> u64 {
    if !state.playing || now_ms <= state.sync_time_ms {
        state.position_ms
    } else {
        let advance = (now_ms - state.sync_time_ms) * state.speed_permille / 1000;
        if state.position_ms + advance > u64::MAX {
            u64::MAX
        } else {
            (state.position_ms + advance) as u64
        }
    }
}

/// A playback room shared by peers.
#[derive(Debug, Clone)]
pub struct StreamRoom {
    /// Unique room id
    pub room_id: String,
    /// Room name
    pub name: String,
    /// Host node id
    pub host_id: String,
    /// Current media source
    pub source: StreamSource,
    /// Current playback state
    pub playback: PlaybackState,
    /// Connected peer ids
    pub peers: Vec<String>,
    /// Creation time, milliseconds since the epoch
    pub created_at: u64,
}

/// A playback synchronization event.
#[derive(Debug, Clone)]
pub enum SyncEvent {
    /// Playback started at a position
    Play {
        /// The position in milliseconds
        position_ms: u64,
    },
    /// Playback paused at a position
    Pause {
        /// The position in milliseconds
        position_ms: u64,
    },
    /// Playback sought to a position
    Seek {
        /// The position in milliseconds
        position_ms: u64,
    },
    /// Playback speed changed
    Speed {
        /// The speed in thousandths
        speed_permille: u32,
    },
    /// A peer joined the room
    PeerJoined {
        /// The peer's id
        peer_id: String,
    },
    /// A peer left the room
    PeerLeft {
        /// The peer's id
        peer_id: String,
    },
    /// The host changed the media source
    SourceChanged {
        /// The new source
        source: StreamSource,
    },
    /// A member asked for a state sync
    RequestSync,
    /// The host broadcast the full playback state
    StateSync {
        /// The playback state to adopt
        state: PlaybackState,
    },
}

/// A stream session: one participant's view of a playback room, with the
/// events it has to broadcast queued for the surrounding runtime.
pub struct StreamSession {
    /// The session id (the room's id)
    pub session_id: String,
    room: StreamRoom,
    is_host: bool,
    pending: Vec<SyncEvent>,
}

impl StreamSession {
    /// The room state, for contracts.
    pub closed spec fn spec_room(&self) -> StreamRoom {
        self.room
    }

    /// Whether this session hosts the room, for contracts.
    pub closed spec fn spec_is_host(&self) -> bool {
        self.is_host
    }

    /// The queued outgoing events, for contracts.
    pub closed spec fn spec_pending(&self) -> Seq<SyncEvent> {
        self.pending@
    }

    /// Create a room and host it.
    pub fn create_room(name: String, source: StreamSource, host_id: String, room_id: String) -> (r:
        Self)
        ensures
            r.spec_is_host(),
            r.spec_room().name@ == name@,
            r.spec_room().host_id@ == host_id@,
            r.spec_room().room_id@ == room_id@,
            !r.spec_room().playback.playing,
            r.spec_room().playback.position_ms == 0,
            r.spec_room().playback.speed_permille == SPEED_NORMAL,
            r.spec_room().peers@.len() == 0,
            r.spec_pending().len() == 0,
    {
        let session_id = room_id.clone();
        let room = StreamRoom {
            room_id,
            name,
            host_id,
            source,
            playback: PlaybackState::initial(),
            peers: Vec::new(),
            created_at: now_millis(),
        };
        Self { session_id, room, is_host: true, pending: Vec::new() }
    }

    /// Join an existing room as a member.
    pub fn join_room(room: StreamRoom) -> (r: Self)
        ensures
            !r.spec_is_host(),
            r.spec_room() == room,
            r.spec_pending().len() == 0,
    {
        let session_id = room.room_id.clone();
        Self { session_id, room, is_host: false, pending: Vec::new() }
    }

    /// The current room state.
    pub fn room(&self) -> (r: &StreamRoom)
        ensures
            r == self.spec_room(),
    {
        &self.room
    }

    /// The current playback state.
    pub fn playback_state(&self) -> (r: PlaybackState)
        ensures
            r == self.spec_room().playback,
    {
        self.room.playback.clone()
    }

    /// Drain the queued events for broadcast.
    pub fn take_events(&mut self) -> (r: Vec<SyncEvent>)
        ensures
            r@ == old(self).spec_pending(),
            final(self).spec_pending().len() == 0,
            final(self).spec_room() == old(self).spec_room(),
            final(self).spec_is_host() == old(self).spec_is_host(),
    {
        let mut out: Vec<SyncEvent> = Vec::new();
        core::mem::swap(&mut out, &mut self.pending);
        out
    }

    /// Start playback: anchored now, position kept, a Play event queued.
    pub fn play(&mut self)
        ensures
            final(self).spec_room().playback.playing,
            final(self).spec_room().playback.position_ms == old(
                self,
            ).spec_room().playback.position_ms,
            final(self).spec_room().playback.speed_permille == old(
                self,
            ).spec_room().playback.speed_permille,
            final(self).spec_pending().len() == old(self).spec_pending().len() + 1,
            final(self).spec_pending().last() matches SyncEvent::Play { position_ms }
                && position_ms == old(self).spec_room().playback.position_ms,
            final(self).spec_is_host() == old(self).spec_is_host(),
    {
        self.room.playback.playing = true;
        self.room.playback.sync_time_ms = now_millis();
        self.pending.push(SyncEvent::Play { position_ms: self.room.playback.position_ms });
    }

    /// Pause playback: anchored now, position kept, a Pause event queued.
    pub fn pause(&mut self)
        ensures
            !final(self).spec_room().playback.playing,
            final(self).spec_room().playback.position_ms == old(
                self,
            ).spec_room().playback.position_ms,
            final(self).spec_pending().len() == old(self).spec_pending().len() + 1,
            final(self).spec_pending().last() matches SyncEvent::Pause { position_ms }
                && position_ms == old(self).spec_room().playback.position_ms,
    {
        self.room.playback.playing = false;
        self.room.playback.sync_time_ms = now_millis();
        self.pending.push(SyncEvent::Pause { position_ms: self.room.playback.position_ms });
    }

    /// Seek: position set, anchored now, a Seek event queued.
    pub fn seek(&mut self, position_ms: u64)
        ensures
            final(self).spec_room().playback.position_ms == position_ms,
            final(self).spec_room().playback.playing == old(self).spec_room().playback.playing,
            final(self).spec_pending().len() == old(self).spec_pending().len() + 1,
            final(self).spec_pending().last() matches SyncEvent::Seek { position_ms: p } && p
                == position_ms,
    {
        self.room.playback.position_ms = position_ms;
        self.room.playback.sync_time_ms = now_millis();
        self.pending.push(SyncEvent::Seek { position_ms });
    }

    /// Update the position without re-anchoring (periodic local reports).
    pub fn update_position(&mut self, position_ms: u64)
        ensures
            final(self).spec_room().playback.position_ms == position_ms,
            final(self).spec_room().playback.playing == old(self).spec_room().playback.playing,
            final(self).spec_room().playback.sync_time_ms == old(
                self,
            ).spec_room().playback.sync_time_ms,
            final(self).spec_pending() == old(self).spec_pending(),
    {
        self.room.playback.position_ms = position_ms;
    }

    /// Change the playback speed: anchored now, a Speed event queued.
    pub fn set_speed(&mut self, speed_permille: u32)
        ensures
            final(self).spec_room().playback.speed_permille == speed_permille,
            final(self).spec_pending().len() == old(self).spec_pending().len() + 1,
            final(self).spec_pending().last() matches SyncEvent::Speed { speed_permille: s }
                && s == speed_permille,
    {
        self.room.playback.speed_permille = speed_permille;
        self.room.playback.sync_time_ms = now_millis();
        self.pending.push(SyncEvent::Speed { speed_permille });
    }

    /// Change the media source. Only the host may; playback resets and a
    /// SourceChanged event is queued.
    pub fn change_source(&mut self, source: StreamSource) -> (r: Result<(), StreamError>)
        ensures
            !old(self).spec_is_host() ==> (r matches Err(e) && e is NotFound && *final(self)
                == *old(self)),
            old(self).spec_is_host() ==> r is Ok && {
                &&& !final(self).spec_room().playback.playing
                &&& final(self).spec_room().playback.position_ms == 0
                &&& final(self).spec_room().playback.speed_permille == SPEED_NORMAL
                &&& final(self).spec_pending().len() == old(self).spec_pending().len() + 1
                &&& final(self).spec_pending().last() is SourceChanged
            },
    {
        if !self.is_host {
            return Err(StreamError::NotFound("Only host can change source".to_owned()));
        }
        let broadcast_source = source.clone();
        self.room.source = source;
        self.room.playback = PlaybackState::initial();
        self.pending.push(SyncEvent::SourceChanged { source: broadcast_source });
        Ok(())
    }

    /// Apply an incoming remote event to the local room state,
    /// re-queueing it for local subscribers. A RequestSync from a member
    /// makes the host queue a full StateSync instead.
    pub fn handle_event(&mut self, event: SyncEvent)
        ensures
            final(self).spec_is_host() == old(self).spec_is_host(),
            match event {
                SyncEvent::Play { position_ms } => final(self).spec_room().playback.playing
                    && final(self).spec_room().playback.position_ms == position_ms,
                SyncEvent::Pause { position_ms } => !final(self).spec_room().playback.playing
                    && final(self).spec_room().playback.position_ms == position_ms,
                SyncEvent::Seek { position_ms } => final(self).spec_room().playback.position_ms
                    == position_ms,
                SyncEvent::Speed { speed_permille } => final(self).spec_room()
                    .playback.speed_permille == speed_permille,
                SyncEvent::StateSync { state } => final(self).spec_room().playback == state,
                _ => true,
            },
    {
        match &event {
            SyncEvent::Play { position_ms } => {
                self.room.playback.playing = true;
                self.room.playback.position_ms = *position_ms;
                self.room.playback.sync_time_ms = now_millis();
            },
            SyncEvent::Pause { position_ms } => {
                self.room.playback.playing = false;
                self.room.playback.position_ms = *position_ms;
                self.room.playback.sync_time_ms = now_millis();
            },
            SyncEvent::Seek { position_ms } => {
                self.room.playback.position_ms = *position_ms;
                self.room.playback.sync_time_ms = now_millis();
            },
            SyncEvent::Speed { speed_permille } => {
                self.room.playback.speed_permille = *speed_permille;
            },
            SyncEvent::PeerJoined { peer_id } => {
                self.add_peer(peer_id);
            },
            SyncEvent::PeerLeft { peer_id } => {
                self.remove_peer(peer_id);
            },
            SyncEvent::SourceChanged { source } => {
                self.room.source = source.clone();
                self.room.playback = PlaybackState::initial();
            },
            SyncEvent::RequestSync => {
                if self.is_host {
                    let state = self.room.playback.clone();
                    self.pending.push(SyncEvent::StateSync { state });
                }
            },
            SyncEvent::StateSync { state } => {
                self.room.playback = state.clone();
            },
        }
        self.pending.push(event);
    }

    /// Add a peer id if not present.
    fn add_peer(&mut self, peer_id: &String)
        ensures
            final(self).room.playback == old(self).room.playback,
            final(self).is_host == old(self).is_host,
            final(self).pending == old(self).pending,
    {
        let mut i: usize = 0;
        while i < self.room.peers.len()
            invariant
                self.room.playback == old(self).room.playback,
                self.is_host == old(self).is_host,
                self.pending == old(self).pending,
                i <= self.room.peers@.len(),
            decreases self.room.peers@.len() - i,
        {
            if crate::textutil::str_eq(self.room.peers[i].as_str(), peer_id.as_str()) {
                return;
            }
            i = i + 1;
        }
        self.room.peers.push(peer_id.clone());
    }

    /// Remove a peer id if present.
    fn remove_peer(&mut self, peer_id: &String)
        ensures
            final(self).room.playback == old(self).room.playback,
            final(self).is_host == old(self).is_host,
            final(self).pending == old(self).pending,
    {
        let mut i: usize = 0;
        while i < self.room.peers.len()
            invariant
                self.room.playback == old(self).room.playback,
                self.is_host == old(self).is_host,
                self.pending == old(self).pending,
                i <= self.room.peers@.len(),
            decreases self.room.peers@.len() - i,
        {
            if crate::textutil::str_eq(self.room.peers[i].as_str(), peer_id.as_str()) {
                self.room.peers.remove(i);
                return;
            }
            i = i + 1;
        }
    }

    /// The expected playback position at a given wallclock time.
    pub fn expected_position_at(&self, now_ms: u64) -> (r: u64)
        ensures
            r == expected_position_spec(self.spec_room().playback, now_ms),
    {
        let pb = &self.room.playback;
        if !pb.playing || now_ms <= pb.sync_time_ms {
            return pb.position_ms;
        }
        let elapsed = now_ms - pb.sync_time_ms;
        let s = pb.speed_permille as u64;
        if s == 0 {
            proof {
                assert(elapsed * 0int == 0) by (nonlinear_arith);
            }
            return pb.position_ms;
        }
        // elapsed * s / 1000 computed without overflow: split elapsed at
        // the divisor, so only the quotient part can saturate.
        let q = elapsed / 1000;
        let r = elapsed % 1000;
        proof {
            assert((r as int) * (s as int) <= 999 * 0xFFFF_FFFF) by (nonlinear_arith)
                requires
                    0 <= r <= 999 && 0 <= s <= 0xFFFF_FFFF,
            ;
        }
        let rs = r * s / 1000;
        proof {
            lemma_split_scale(elapsed as int, s as int, q as int, r as int);
        }
        if q > (u64::MAX - rs) / s {
            proof {
                lemma_scale_saturates(q as int, s as int, rs as int, u64::MAX as int);
                assert(expected_position_spec(*pb, now_ms) == u64::MAX);
            }
            return u64::MAX;
        }
        proof {
            vstd::arithmetic::div_mod::lemma_fundamental_div_mod(
                u64::MAX as int - rs as int,
                s as int,
            );
            assert((q as int) * (s as int) <= u64::MAX - rs) by (nonlinear_arith)
                requires
                    s > 0 && 0 <= q <= (u64::MAX as int - rs as int) / (s as int) && u64::MAX
                        as int - rs == (s as int) * ((u64::MAX as int - rs) / (s as int)) + (
                    u64::MAX as int - rs) % (s as int) && 0 <= (u64::MAX as int - rs) % (
                    s as int) < s,
            ;
        }
        let advance = q * s + rs;
        if pb.position_ms <= u64::MAX - advance {
            pb.position_ms + advance
        } else {
            u64::MAX
        }
    }

    /// The expected playback position now.
    pub fn expected_position(&self) -> (r: u64)
        ensures
            exists|now_ms: u64| r == expected_position_spec(self.spec_room().playback, now_ms),
    {
        let now = now_millis();
        let r = self.expected_position_at(now);
        proof {
            assert(r == expected_position_spec(self.spec_room().playback, now));
        }
        r
    }
}

/// While playing, the expected position grows linearly with wallclock
/// time: over any interval, it advances by exactly the elapsed time
/// scaled by the speed (up to the division's rounding, and absent
/// saturation).
pub proof fn lemma_expected_position_linear(state: PlaybackState, t1: u64, t2: u64)
    requires
        state.playing,
        state.sync_time_ms <= t1 <= t2,
        state.position_ms + (t2 - state.sync_time_ms) * state.speed_permille / 1000
            <= u64::MAX,
    ensures
        expected_position_spec(state, t2) >= expected_position_spec(state, t1),
        expected_position_spec(state, t2) - expected_position_spec(state, t1) == (t2
            - state.sync_time_ms) * state.speed_permille / 1000 - (t1 - state.sync_time_ms)
            * state.speed_permille / 1000,
{
    let e1 = (t1 - state.sync_time_ms) as int;
    let e2 = (t2 - state.sync_time_ms) as int;
    let s = state.speed_permille as int;
    assert(0 <= e1 * s <= e2 * s) by (nonlinear_arith)
        requires
            0 <= e1 <= e2 && s >= 0,
    ;
    assert(0 <= e1 * s / 1000 <= e2 * s / 1000) by (nonlinear_arith)
        requires
            0 <= e1 * s <= e2 * s,
    ;
    if t2 > state.sync_time_ms {
        assert(expected_position_spec(state, t2) == state.position_ms + e2 * s / 1000);
    } else {
        assert(e2 == 0);
        assert(e2 * s == 0) by (nonlinear_arith)
            requires
                e2 == 0,
        ;
        assert(expected_position_spec(state, t2) == state.position_ms);
    }
    if t1 > state.sync_time_ms {
        assert(expected_position_spec(state, t1) == state.position_ms + e1 * s / 1000);
    } else {
        assert(e1 == 0);
        assert(e1 * s == 0) by (nonlinear_arith)
            requires
                e1 == 0,
        ;
        assert(expected_position_spec(state, t1) == state.position_ms);
    }
}

/// Splitting the elapsed time at the divisor computes the scaled advance
/// exactly: elapsed * s / 1000 == (elapsed / 1000) * s + (elapsed % 1000)
/// * s / 1000.
proof fn lemma_split_scale(elapsed: int, s: int, q: int, r: int)
    requires
        elapsed >= 0,
        s >= 0,
        q == elapsed / 1000,
        r == elapsed % 1000,
    ensures
        elapsed * s / 1000 == q * s + r * s / 1000,
        r * s >= 0,
        q * s >= 0,
{
    vstd::arithmetic::div_mod::lemma_fundamental_div_mod(elapsed, 1000);
    assert(elapsed * s == 1000 * (q * s) + r * s) by (nonlinear_arith)
        requires
            elapsed == 1000 * q + r,
    ;
    assert(r * s >= 0 && q * s >= 0) by (nonlinear_arith)
        requires
            r >= 0 && s >= 0 && q >= 0,
    ;
    assert((1000 * (q * s) + r * s) / 1000 == q * s + r * s / 1000) by (nonlinear_arith)
        requires
            q * s >= 0 && r * s >= 0,
    ;
}

/// When the quotient part alone passes the saturation check, the exact
/// advance is beyond the top of u64.
proof fn lemma_scale_saturates(q: int, s: int, rs: int, top: int)
    requires
        s > 0,
        0 <= rs <= top,
        q > (top - rs) / s,
    ensures
        q * s + rs > top,
{
    vstd::arithmetic::div_mod::lemma_fundamental_div_mod(top - rs, s);
    assert(q * s > top - rs) by (nonlinear_arith)
        requires
            s > 0 && q >= (top - rs) / s + 1 && top - rs == s * ((top - rs) / s) + (top - rs)
                % s && 0 <= (top - rs) % s < s,
    ;
}

} // verus!
