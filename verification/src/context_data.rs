//! Per-guild session state and the concurrent session store.
//!
//! A session holds the playback state machine, the ordered queue, the loop
//! policy and the per-user search selections of one guild.  `SessionV` is the
//! mathematical content of a session; every transition is specified as a
//! function on `SessionV` and implemented as a verified method.
use vstd::prelude::*;

use dashmap::DashMap;
use std::collections::HashMap;
use std::collections::VecDeque;

use crate::Error;
use crate::audio_link::AudioLink;

verus! {

broadcast use {vstd::std_specs::hash::group_hash_axioms, vstd::std_specs::vecdeque::group_vec_dequeue_axioms};

/// The playback state of one guild: no voice connection, connected but
/// silent, or streaming the held track.
#[derive(Debug)]
pub enum PlayerState {
    Offline,
    Idle,
    Playing(AudioLink),
}

/// Determine what to do with a song after it ends.
#[derive(Debug, Clone, Copy, PartialEq, Eq, Structural)]
pub enum LoopPolicy {
    /// Drop the song.
    Normal,
    /// Cycle the song to the tail of the queue.
    Loop,
    /// Reserved for shuffle-pool semantics; completion currently drops the
    /// song, exactly as `Normal` does.
    Random,
}

/// One guild's player: state machine, queue, loop policy and the pending
/// search selections keyed by user.
#[derive(Debug)]
pub struct PlayerData {
    pub queue: VecDeque<AudioLink>,
    pub state: PlayerState,
    pub loop_policy: LoopPolicy,
    pub search_item: HashMap<u64, Vec<AudioLink>>,
}

/// The aggregate root per guild.
#[derive(Debug)]
pub struct PerGuildData {
    pub player: PlayerData,
}

/// The mathematical content of one guild's session.
#[verifier::ext_equal]
pub struct SessionV {
    pub state: PlayerState,
    pub queue: Seq<AudioLink>,
    pub loop_policy: LoopPolicy,
    pub search_item: Map<u64, Seq<AudioLink>>,
}

impl View for PerGuildData {
    type V = SessionV;

    open spec fn view(&self) -> SessionV {
        SessionV {
            state: self.player.state,
            queue: self.player.queue@,
            loop_policy: self.player.loop_policy,
            search_item: self.player.search_item@.map_values(|v: Vec<AudioLink>| v@),
        }
    }
}

impl SessionV {
    /// The session a guild starts with: disconnected and empty.
    pub open spec fn init() -> SessionV {
        SessionV {
            state: PlayerState::Offline,
            queue: Seq::empty(),
            loop_policy: LoopPolicy::Normal,
            search_item: Map::empty(),
        }
    }

    /// One track appended at the tail of the queue.
    pub open spec fn enqueue(self, track: AudioLink) -> SessionV {
        SessionV { queue: self.queue.push(track), ..self }
    }

    /// A batch of tracks appended at the tail of the queue, in order.
    pub open spec fn enqueue_all(self, tracks: Seq<AudioLink>) -> SessionV {
        SessionV { queue: self.queue + tracks, ..self }
    }

    /// The outcome of an explicit join command: a successful join connects a
    /// disconnected session; anything else changes nothing.
    pub open spec fn noted_join(self, joined: bool) -> SessionV {
        if joined && self.state is Offline {
            SessionV { state: PlayerState::Idle, ..self }
        } else {
            self
        }
    }

    /// How an enqueue-style command settles a disconnected session: a
    /// successful join connects it, a failed join discards what was just
    /// queued.  A connected session is left alone.
    pub open spec fn resolve_offline(self, joined: bool) -> SessionV {
        if self.state is Offline {
            if joined {
                SessionV { state: PlayerState::Idle, ..self }
            } else {
                SessionV { queue: Seq::empty(), ..self }
            }
        } else {
            self
        }
    }

    /// The idle-start transition: a connected, silent session with a
    /// non-empty queue starts playing its front track, which leaves the
    /// queue.  Any other session is left alone.
    pub open spec fn start_next(self) -> SessionV {
        if self.state is Idle && self.queue.len() > 0 {
            SessionV {
                state: PlayerState::Playing(self.queue[0]),
                queue: self.queue.drop_first(),
                ..self
            }
        } else {
            self
        }
    }

    /// The track `start_next` would start, if any.
    pub open spec fn started_track(self) -> Option<AudioLink> {
        if self.state is Idle && self.queue.len() > 0 {
            Option::Some(self.queue[0])
        } else {
            Option::None
        }
    }

    /// The whole enqueue transition of a play-style command: append the
    /// tracks, settle a disconnected session with the join outcome, then
    /// apply the idle-start transition.
    pub open spec fn play(self, tracks: Seq<AudioLink>, joined: bool) -> SessionV {
        self.enqueue_all(tracks).resolve_offline(joined).start_next()
    }

    /// The track a play-style command starts, if any.
    pub open spec fn play_started(self, tracks: Seq<AudioLink>, joined: bool) -> Option<AudioLink> {
        self.enqueue_all(tracks).resolve_offline(joined).started_track()
    }

    /// A stop command: playback ends, the queue is cleared, the connection
    /// (or its absence) is kept.
    pub open spec fn stop(self) -> SessionV {
        SessionV {
            state: if self.state is Offline { PlayerState::Offline } else { PlayerState::Idle },
            queue: Seq::empty(),
            ..self
        }
    }

    /// A skip while playing: the current track is dropped — the loop policy
    /// does not apply to it — and the front of the queue takes its place, or
    /// the session falls idle.  A session that is not playing is left alone.
    pub open spec fn skip(self) -> SessionV {
        if self.state is Playing {
            if self.queue.len() > 0 {
                SessionV {
                    state: PlayerState::Playing(self.queue[0]),
                    queue: self.queue.drop_first(),
                    ..self
                }
            } else {
                SessionV { state: PlayerState::Idle, ..self }
            }
        } else {
            self
        }
    }

    /// A track-completion event while playing: the front of the queue takes
    /// the finished track's place (or the session falls idle), and under the
    /// `Loop` policy the finished track then cycles to the tail — behind the
    /// track that just started, not in front of it.  A completion observed
    /// in any other state finds nothing to do.
    pub open spec fn complete(self) -> SessionV {
        match self.state {
            PlayerState::Playing(t) => {
                let advanced = if self.queue.len() > 0 {
                    SessionV {
                        state: PlayerState::Playing(self.queue[0]),
                        queue: self.queue.drop_first(),
                        ..self
                    }
                } else {
                    SessionV { state: PlayerState::Idle, ..self }
                };
                if self.loop_policy is Loop {
                    SessionV { queue: advanced.queue.push(t), ..advanced }
                } else {
                    advanced
                }
            },
            _ => self,
        }
    }

    /// A leave command: the session is forced offline and its queue cleared.
    pub open spec fn leave(self) -> SessionV {
        SessionV { state: PlayerState::Offline, queue: Seq::empty(), ..self }
    }

    /// A loop-mode toggle: `Normal` becomes `Loop`, anything else `Normal`.
    pub open spec fn toggled(self) -> SessionV {
        SessionV {
            loop_policy: if self.loop_policy is Normal { LoopPolicy::Loop } else { LoopPolicy::Normal },
            ..self
        }
    }

    /// A search stores its candidate list for the searching user, replacing
    /// any list that user had pending.
    pub open spec fn searched(self, user: u64, list: Seq<AudioLink>) -> SessionV {
        SessionV { search_item: self.search_item.insert(user, list), ..self }
    }

    /// A selection consumes the user's pending list.
    pub open spec fn selection_taken(self, user: u64) -> SessionV {
        SessionV { search_item: self.search_item.remove(user), ..self }
    }

    /// A completed selection: the pending list is consumed and the chosen
    /// candidate is enqueued exactly as a play command would enqueue it.
    pub open spec fn selected(self, user: u64, index: usize, joined: bool) -> SessionV
        recommends
            self.select_valid(user, index),
    {
        self.selection_taken(user).play(seq![self.search_item[user][index - 1]], joined)
    }

    /// Whether a one-based selection index is valid against the user's
    /// pending list.
    pub open spec fn select_valid(self, user: u64, index: usize) -> bool {
        self.search_item.contains_key(user) && 1 <= index && index <= self.search_item[user].len()
    }

    /// The tracks an export captures: the playing track first, then the
    /// queue in order.
    pub open spec fn export_tracks(self) -> Seq<AudioLink> {
        (match self.state {
            PlayerState::Playing(t) => seq![t],
            _ => Seq::<AudioLink>::empty(),
        }) + self.queue
    }
}

impl PerGuildData {
    /// A fresh session: offline, empty queue, `Normal` policy, no pending
    /// selections.
    pub fn new() -> (r: Self)
        ensures
            r@ == SessionV::init(),
    {
        let r = PerGuildData {
            player: PlayerData {
                queue: VecDeque::new(),
                state: PlayerState::Offline,
                loop_policy: LoopPolicy::Normal,
                search_item: HashMap::new(),
            },
        };
        proof {
            assert(r@ =~~= SessionV::init());
        }
        r
    }

    pub fn is_offline(&self) -> (r: bool)
        ensures
            r == (self@.state is Offline),
    {
        match &self.player.state {
            PlayerState::Offline => true,
            _ => false,
        }
    }

    pub fn is_idle(&self) -> (r: bool)
        ensures
            r == (self@.state is Idle),
    {
        match &self.player.state {
            PlayerState::Idle => true,
            _ => false,
        }
    }

    pub fn is_playing(&self) -> (r: bool)
        ensures
            r == (self@.state is Playing),
    {
        match &self.player.state {
            PlayerState::Playing(_) => true,
            _ => false,
        }
    }

    /// Appends one track at the tail of the queue.
    pub fn enqueue(&mut self, track: AudioLink)
        ensures
            final(self)@ == old(self)@.enqueue(track),
    {
        self.player.queue.push_back(track);
    }

    /// Appends a batch of tracks at the tail of the queue, in order.
    pub fn enqueue_all(&mut self, tracks: Vec<AudioLink>)
        ensures
            final(self)@ == old(self)@.enqueue_all(tracks@),
    {
        let ghost s0 = self@;
        let ghost all = tracks@;
        let mut rest = tracks;
        let ghost k: int = 0;
        while rest.len() > 0
            invariant
                0 <= k <= all.len(),
                rest@ =~= all.skip(k),
                self@ == s0.enqueue_all(all.take(k)),
            decreases rest@.len(),
        {
            let t = rest.remove(0);
            self.player.queue.push_back(t);
            proof {
                assert(all.take(k + 1) =~= all.take(k).push(all[k]));
                assert(s0.queue + all.take(k + 1) =~= (s0.queue + all.take(k)).push(all[k]));
                k = k + 1;
            }
        }
        proof {
            assert(all.take(k) =~= all);
        }
    }

    /// Records the outcome of an explicit join command.
    pub fn note_join(&mut self, joined: bool)
        ensures
            final(self)@ == old(self)@.noted_join(joined),
    {
        if joined && self.is_offline() {
            self.player.state = PlayerState::Idle;
        }
    }

    /// Settles a disconnected session after an enqueue-style command: keep
    /// the queue and connect on a successful join, discard it otherwise.
    pub fn resolve_offline(&mut self, joined: bool)
        ensures
            final(self)@ == old(self)@.resolve_offline(joined),
    {
        if self.is_offline() {
            if joined {
                self.player.state = PlayerState::Idle;
            } else {
                self.player.queue.clear();
            }
        }
    }

    /// Applies the idle-start transition and hands back a copy of the track
    /// that must now be started on the voice transport, if any.
    pub fn start_next(&mut self) -> (r: Option<AudioLink>)
        ensures
            final(self)@ == old(self)@.start_next(),
            match r {
                Some(t) => old(self)@.started_track() matches Some(u) && t@ == u@,
                None => old(self)@.started_track() is None,
            },
    {
        if self.is_idle() {
            match self.player.queue.pop_front() {
                Some(t) => {
                    let copy = t.clone();
                    self.player.state = PlayerState::Playing(t);
                    Some(copy)
                },
                None => None,
            }
        } else {
            None
        }
    }

    /// Stops playback and clears the queue.
    pub fn stop(&mut self)
        ensures
            final(self)@ == old(self)@.stop(),
    {
        if !self.is_offline() {
            self.player.state = PlayerState::Idle;
        }
        self.player.queue.clear();
    }

    /// Skips the current track; hands back a copy of the track that takes
    /// its place, if any.  Does nothing unless the session is playing.
    pub fn skip(&mut self) -> (r: Option<AudioLink>)
        ensures
            final(self)@ == old(self)@.skip(),
            (old(self)@.state is Playing && old(self)@.queue.len() > 0) ==> (
                r matches Some(t) && t@ == old(self)@.queue[0]@
            ),
            !(old(self)@.state is Playing && old(self)@.queue.len() > 0) ==> r is None,
    {
        if self.is_playing() {
            match self.player.queue.pop_front() {
                Some(t) => {
                    let copy = t.clone();
                    self.player.state = PlayerState::Playing(t);
                    Some(copy)
                },
                None => {
                    self.player.state = PlayerState::Idle;
                    None
                },
            }
        } else {
            None
        }
    }

    /// Applies a track-completion event; hands back a copy of the track that
    /// must now be started, if any.
    pub fn complete(&mut self) -> (r: Option<AudioLink>)
        ensures
            final(self)@ == old(self)@.complete(),
            (old(self)@.state is Playing && old(self)@.queue.len() > 0) ==> (
                r matches Some(t) && t@ == old(self)@.queue[0]@
            ),
            !(old(self)@.state is Playing && old(self)@.queue.len() > 0) ==> r is None,
    {
        let mut taken = PlayerState::Idle;
        core::mem::swap(&mut self.player.state, &mut taken);
        match taken {
            PlayerState::Playing(t) => {
                let r = match self.player.queue.pop_front() {
                    Some(next) => {
                        let copy = next.clone();
                        self.player.state = PlayerState::Playing(next);
                        Some(copy)
                    },
                    None => None,
                };
                match self.player.loop_policy {
                    LoopPolicy::Loop => {
                        self.player.queue.push_back(t);
                    },
                    _ => {},
                }
                r
            },
            other => {
                self.player.state = other;
                None
            },
        }
    }

    /// Forces the session offline and clears the queue.
    pub fn leave(&mut self)
        ensures
            final(self)@ == old(self)@.leave(),
    {
        self.player.state = PlayerState::Offline;
        self.player.queue.clear();
    }

    /// Toggles the loop policy and reports the new one.
    pub fn toggle_loop(&mut self) -> (r: LoopPolicy)
        ensures
            final(self)@ == old(self)@.toggled(),
            r == final(self)@.loop_policy,
    {
        self.player.loop_policy = match self.player.loop_policy {
            LoopPolicy::Normal => LoopPolicy::Loop,
            _ => LoopPolicy::Normal,
        };
        self.player.loop_policy
    }

    /// Stores a search's candidate list for one user, replacing any pending
    /// list of that user.
    pub fn store_search(&mut self, user: u64, list: Vec<AudioLink>)
        ensures
            final(self)@ == old(self)@.searched(user, list@),
    {
        let ghost l = list@;
        self.player.search_item.insert(user, list);
        proof {
            assert(self.player.search_item@.map_values(|v: Vec<AudioLink>| v@)
                =~= old(self).player.search_item@.map_values(|v: Vec<AudioLink>| v@).insert(user, l));
            assert(final(self)@ =~~= old(self)@.searched(user, l));
        }
    }

    /// The number of candidates pending for one user, if any list is pending.
    pub fn pending_len(&self, user: u64) -> (r: Option<usize>)
        ensures
            match r {
                Some(n) => self@.search_item.contains_key(user)
                    && n == self@.search_item[user].len(),
                None => !self@.search_item.contains_key(user),
            },
    {
        match self.player.search_item.get(&user) {
            Some(l) => Some(l.len()),
            None => None,
        }
    }

    /// Consumes the user's pending list and hands out the chosen candidate.
    /// An out-of-range one-based index, or a user without a pending list, is
    /// rejected without any mutation.
    pub fn take_selection(&mut self, user: u64, index: usize) -> (r: Result<AudioLink, Error>)
        ensures
            match r {
                Ok(t) => old(self)@.select_valid(user, index)
                    && t == old(self)@.search_item[user][index - 1]
                    && final(self)@ == old(self)@.selection_taken(user),
                Err(e) => final(self)@ == old(self)@ && match e {
                    Error::NoPendingSelection => !old(self)@.search_item.contains_key(user),
                    Error::SelectionOutOfRange => old(self)@.search_item.contains_key(user)
                        && !old(self)@.select_valid(user, index),
                    _ => false,
                },
            },
    {
        let len = match self.player.search_item.get(&user) {
            Some(l) => l.len(),
            None => {
                return Err(Error::NoPendingSelection);
            },
        };
        if index == 0 || index > len {
            return Err(Error::SelectionOutOfRange);
        }
        let mut list = self.player.search_item.remove(&user).unwrap();
        let t = list.remove(index - 1);
        proof {
            assert(self.player.search_item@.map_values(|v: Vec<AudioLink>| v@)
                =~= old(self).player.search_item@.map_values(|v: Vec<AudioLink>| v@).remove(user));
            assert(final(self)@ =~~= old(self)@.selection_taken(user));
        }
        Ok(t)
    }

    /// The durable references of the session's tracks, the playing track
    /// first, then the queue in order.
    pub fn export_refs(&self) -> (r: Vec<crate::audio_link::UnloadedAudioLink>)
        ensures
            r@.len() == self@.export_tracks().len(),
            forall|i: int| 0 <= i < r@.len() ==> r@[i]@ == self@.export_tracks()[i]@.id,
    {
        let mut r: Vec<crate::audio_link::UnloadedAudioLink> = Vec::new();
        let ghost all = self@.export_tracks();
        match &self.player.state {
            PlayerState::Playing(t) => {
                r.push(t.unload());
            },
            _ => {},
        }
        let ghost base = r@.len() as int;
        let n = self.player.queue.len();
        let mut i: usize = 0;
        while i < n
            invariant
                n == self.player.queue@.len(),
                all == self@.export_tracks(),
                base + n == all.len(),
                i <= n,
                r@.len() == base + i,
                forall|j: int| 0 <= j < r@.len() ==> r@[j]@ == all[j]@.id,
            decreases n - i,
        {
            r.push(self.player.queue[i].unload());
            i = i + 1;
        }
        r
    }
}

/// The concurrent session store: one lazily created session per guild.  The
/// map itself lives in an outside concurrent hash map and is opaque to the
/// verifier; `sessions` names its contents and the accessors below state how
/// each call changes them.
#[verifier::external_body]
pub struct Data {
    map: DashMap<u64, PerGuildData>,
}

/// The sessions a store holds: a map from guild id to session content.
pub uninterp spec fn sessions(d: Data) -> Map<u64, SessionV>;

/// The content of a store that holds no session yet.
pub open spec fn no_sessions() -> Map<u64, SessionV> {
    Map::empty()
}

/// The session a store holds for a guild, or the fresh session the store
/// would create for it on first access.
pub open spec fn session_or_init(m: Map<u64, SessionV>, guild_id: u64) -> SessionV {
    if m.contains_key(guild_id) {
        m[guild_id]
    } else {
        SessionV::init()
    }
}

impl Data {
    /// Relies on `dashmap::DashMap::new`: creates an empty map.
    #[verifier::external_body]
    pub fn new() -> (r: Data)
        ensures
            sessions(r) == no_sessions(),
    {
        Data { map: DashMap::new() }
    }

    /// Relies on `dashmap::DashMap::remove`: removes and returns the entry
    /// under this guild id, if there is one.
    #[verifier::external_body]
    fn take(&mut self, guild_id: u64) -> (r: Option<PerGuildData>)
        ensures
            sessions(*final(self)) == sessions(*old(self)).remove(guild_id),
            match r {
                Some(s) => sessions(*old(self)).contains_key(guild_id)
                    && s@ == sessions(*old(self))[guild_id],
                None => !sessions(*old(self)).contains_key(guild_id),
            },
    {
        self.map.remove(&guild_id).map(|e| e.1)
    }

    /// Relies on `dashmap::DashMap::insert`: stores the session under the
    /// guild id, replacing any session held there.
    #[verifier::external_body]
    fn put(&mut self, guild_id: u64, session: PerGuildData)
        ensures
            sessions(*final(self)) == sessions(*old(self)).insert(guild_id, session@),
    {
        self.map.insert(guild_id, session);
    }

    /// Takes the guild's session out of the store, creating the fresh
    /// session on first access.  The caller owns it exclusively until
    /// `restore` hands it back.
    pub(crate) fn take_or_create(&mut self, guild_id: u64) -> (s: PerGuildData)
        ensures
            s@ == session_or_init(sessions(*old(self)), guild_id),
            sessions(*final(self)) == sessions(*old(self)).remove(guild_id),
    {
        match self.take(guild_id) {
            Some(s) => s,
            None => PerGuildData::new(),
        }
    }

    /// Hands a session back to the store at the end of a command's
    /// exclusive section.
    pub(crate) fn restore(&mut self, guild_id: u64, session: PerGuildData)
        ensures
            sessions(*final(self)) == sessions(*old(self)).insert(guild_id, session@),
    {
        self.put(guild_id, session);
    }
}

/// `play` applied once per track, in order, each join succeeding.
pub open spec fn played_singly(s: SessionV, tracks: Seq<AudioLink>) -> SessionV
    decreases tracks.len(),
{
    if tracks.len() == 0 {
        s
    } else {
        played_singly(s.play(seq![tracks[0]], true), tracks.drop_first())
    }
}

/// On a playing session, a single-track play only appends: the state, the
/// policy and the pending selections stay as they are.
proof fn lemma_played_singly_playing(s: SessionV, tracks: Seq<AudioLink>)
    requires
        s.state is Playing,
    ensures
        played_singly(s, tracks) == (SessionV { queue: s.queue + tracks, ..s }),
    decreases tracks.len(),
{
    if tracks.len() == 0 {
        assert(s.queue + tracks =~= s.queue);
        assert(played_singly(s, tracks) =~~= (SessionV { queue: s.queue + tracks, ..s }));
    } else {
        let t = tracks[0];
        assert(s.play(seq![t], true) =~~= (SessionV { queue: s.queue.push(t), ..s }));
        lemma_played_singly_playing(SessionV { queue: s.queue.push(t), ..s }, tracks.drop_first());
        assert(s.queue.push(t) + tracks.drop_first() =~= s.queue + tracks);
    }
}

/// The first play on a fresh session starts its track at once: the session
/// plays it with an empty queue.
pub proof fn lemma_first_play(t: AudioLink)
    ensures
        SessionV::init().play(seq![t], true) == (SessionV {
            state: PlayerState::Playing(t),
            ..SessionV::init()
        }),
{
    let s1 = SessionV::init().enqueue_all(seq![t]).resolve_offline(true);
    assert(s1.queue == seq![t]);
    assert(s1.queue[0] == t);
    assert(s1.queue.drop_first() =~= Seq::<AudioLink>::empty());
    assert(SessionV::init().play(seq![t], true) =~~= (SessionV {
        state: PlayerState::Playing(t),
        ..SessionV::init()
    }));
}

/// For any sequence of single-track plays on a fresh session, each join
/// succeeding: the first track is the one playing, the rest stand in the
/// queue in their order, and the playing track is not among them unless it
/// was enqueued a second time.
pub proof fn lemma_play_sequence(tracks: Seq<AudioLink>)
    requires
        tracks.len() > 0,
    ensures
        played_singly(SessionV::init(), tracks).state == PlayerState::Playing(tracks[0]),
        played_singly(SessionV::init(), tracks).queue == tracks.drop_first(),
        !tracks.drop_first().contains(tracks[0]) ==> !played_singly(
            SessionV::init(),
            tracks,
        ).queue.contains(tracks[0]),
{
    lemma_first_play(tracks[0]);
    let s1 = SessionV { state: PlayerState::Playing(tracks[0]), ..SessionV::init() };
    lemma_played_singly_playing(s1, tracks.drop_first());
    assert(s1.queue + tracks.drop_first() =~= tracks.drop_first());
}

/// Completion under `Normal`: playing `a` with queue `[b, c]` yields
/// playing `b` with queue `[c]`, and `a` — if it is a distinct track —
/// appears nowhere afterwards.
pub proof fn lemma_complete_normal(s: SessionV, a: AudioLink, b: AudioLink, c: AudioLink)
    requires
        s.state == PlayerState::Playing(a),
        s.queue == seq![b, c],
        s.loop_policy == LoopPolicy::Normal,
    ensures
        s.complete().state == PlayerState::Playing(b),
        s.complete().queue == seq![c],
        a != b && a != c ==> s.complete().state != PlayerState::Playing(a)
            && !s.complete().queue.contains(a),
{
    assert(s.queue.drop_first() =~= seq![c]);
    assert(s.queue[0] == b);
}

/// Completion under `Loop`: playing `a` with queue `[b]` yields playing
/// `b` with queue `[a]` — the finished track cycles to the tail, it does
/// not become the next one.
pub proof fn lemma_complete_loop(s: SessionV, a: AudioLink, b: AudioLink)
    requires
        s.state == PlayerState::Playing(a),
        s.queue == seq![b],
        s.loop_policy == LoopPolicy::Loop,
    ensures
        s.complete().state == PlayerState::Playing(b),
        s.complete().queue == seq![a],
{
    assert(s.queue[0] == b);
    assert(s.queue.drop_first() =~= Seq::<AudioLink>::empty());
    assert(s.queue.drop_first().push(a) =~= seq![a]);
}

/// Skip is force-completing the current track: under the `Normal` policy
/// the two transitions agree on every session.
pub proof fn lemma_skip_is_complete_normal(s: SessionV)
    requires
        s.loop_policy == LoopPolicy::Normal,
    ensures
        s.skip() == s.complete(),
{
    match s.state {
        PlayerState::Playing(t) => {
            assert(s.skip() =~~= s.complete());
        },
        _ => {},
    }
}

/// Import into a fresh session, every reference resolved and the join
/// succeeding: before the idle-start transition the queue holds the
/// imported tracks in export order; after it the first plays and the rest
/// stay queued.
pub proof fn lemma_import_fresh(tracks: Seq<AudioLink>)
    requires
        tracks.len() > 0,
    ensures
        SessionV::init().enqueue_all(tracks).resolve_offline(true).queue == tracks,
        SessionV::init().play(tracks, true).state == PlayerState::Playing(tracks[0]),
        SessionV::init().play(tracks, true).queue == tracks.drop_first(),
{
    assert(SessionV::init().enqueue_all(tracks).queue =~= tracks);
}

/// What an export captures of a playing session: the playing track first,
/// then the queue in order.
pub proof fn lemma_export_order(s: SessionV, a: AudioLink)
    requires
        s.state == PlayerState::Playing(a),
    ensures
        s.export_tracks() == seq![a] + s.queue,
{
}

/// Search then select: storing a candidate list and selecting a valid
/// index enqueues exactly the chosen candidate and consumes the list, so a
/// further selection finds nothing pending for that user.
pub proof fn lemma_search_select(
    s: SessionV,
    user: u64,
    list: Seq<AudioLink>,
    index: usize,
    joined: bool,
)
    requires
        1 <= index <= list.len(),
    ensures
        s.searched(user, list).select_valid(user, index),
        s.searched(user, list).selected(user, index, joined) == s.searched(
            user,
            list,
        ).selection_taken(user).play(seq![list[index - 1]], joined),
        !s.searched(user, list).selected(user, index, joined).search_item.contains_key(user),
{
    let after = s.searched(user, list);
    assert(after.search_item[user] == list);
    let taken = after.selection_taken(user);
    assert(!taken.search_item.contains_key(user));
    assert(!taken.play(seq![list[index - 1]], joined).search_item.contains_key(user));
}


impl SessionV {
    /// The resting-state invariant: a disconnected session holds no queue.
    /// A play-style command may queue tracks while still disconnected, but
    /// only inside its own enqueue transition: settling the join outcome
    /// either connects the session or discards what was queued.
    pub open spec fn offline_queue_empty(self) -> bool {
        self.state is Offline ==> self.queue.len() == 0
    }
}

/// Every transition a command applies keeps the resting-state invariant,
/// and a fresh session satisfies it.
pub proof fn lemma_transitions_keep_offline_queue_empty(
    s: SessionV,
    tracks: Seq<AudioLink>,
    joined: bool,
    user: u64,
    list: Seq<AudioLink>,
    index: usize,
)
    requires
        s.offline_queue_empty(),
    ensures
        SessionV::init().offline_queue_empty(),
        s.play(tracks, joined).offline_queue_empty(),
        s.noted_join(joined).offline_queue_empty(),
        s.stop().offline_queue_empty(),
        s.skip().offline_queue_empty(),
        s.complete().offline_queue_empty(),
        s.leave().offline_queue_empty(),
        s.toggled().offline_queue_empty(),
        s.searched(user, list).offline_queue_empty(),
        s.select_valid(user, index) ==> s.selected(user, index, joined).offline_queue_empty(),
{
}

} // verus!
