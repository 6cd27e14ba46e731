//! The command layer: each function is the session mutation of one user
//! command, or of the track-completion event, applied to one guild's session
//! in the store under exclusive access.  Everything external — the resolver
//! lookup, the voice transport, message rendering — happens outside the
//! library, which takes the outcome it needs as a plain value and hands back
//! the track the transport must start, if any.
use vstd::prelude::*;

use crate::Error;
use crate::audio_link::AudioLink;
use crate::audio_link::ParseResult;
use crate::audio_link::parse_tracks;
use crate::audio_link::time_str_spec;
use crate::context_data::Data;
use crate::context_data::LoopPolicy;
use crate::context_data::PlayerState;
use crate::codec::base64_encoding;
use crate::codec::cbor_refs;
use crate::codec::export_token;
use crate::codec::ids_of;
use crate::codec::parse_refs;
use crate::codec::pow256;
use crate::context_data::SessionV;
use crate::context_data::session_or_init;
use crate::context_data::sessions;

verus! {

/// What a skip command ran into.
pub enum SkipOutcome {
    /// The session has no voice connection.
    NotConnected,
    /// The session is connected but nothing is playing.
    NotPlaying,
    /// The current track was skipped; the held track, if any, must now be
    /// started on the voice transport.
    Skipped(Option<AudioLink>),
}

proof fn lemma_remove_insert<K, V>(m: Map<K, V>, k: K, v: V)
    ensures
        m.remove(k).insert(k, v) == m.insert(k, v),
{
    assert(m.remove(k).insert(k, v) =~= m.insert(k, v));
}

/// Whether a play-style command for this guild must first join a voice
/// channel.  As with every command, touching the store creates the guild's
/// session on first access.
pub fn needs_join(data: &mut Data, guild_id: u64) -> (r: bool)
    ensures
        ({
            let pre = session_or_init(sessions(*old(data)), guild_id);
            &&& sessions(*final(data)) == sessions(*old(data)).insert(guild_id, pre)
            &&& r == (pre.state is Offline)
        }),
{
    let s = data.take_or_create(guild_id);
    let r = s.is_offline();
    data.restore(guild_id, s);
    proof {
        lemma_remove_insert(sessions(*old(data)), guild_id, session_or_init(sessions(*old(data)), guild_id));
    }
    r
}

/// The join command, after the caller attempted to join the user's voice
/// channel: a successful join connects a disconnected session; anything
/// else leaves the session as it was.
pub fn join(data: &mut Data, guild_id: u64, joined: bool)
    ensures
        ({
            let pre = session_or_init(sessions(*old(data)), guild_id);
            sessions(*final(data)) == sessions(*old(data)).insert(guild_id, pre.noted_join(joined))
        }),
{
    let mut s = data.take_or_create(guild_id);
    s.note_join(joined);
    data.restore(guild_id, s);
    proof {
        let pre = session_or_init(sessions(*old(data)), guild_id);
        lemma_remove_insert(sessions(*old(data)), guild_id, pre.noted_join(joined));
    }
}

/// The leave command: the session is forced offline and its queue cleared,
/// whatever state it was in.  The caller then disconnects the transport.
pub fn leave(data: &mut Data, guild_id: u64)
    ensures
        ({
            let pre = session_or_init(sessions(*old(data)), guild_id);
            sessions(*final(data)) == sessions(*old(data)).insert(guild_id, pre.leave())
        }),
{
    let mut s = data.take_or_create(guild_id);
    s.leave();
    data.restore(guild_id, s);
    proof {
        let pre = session_or_init(sessions(*old(data)), guild_id);
        lemma_remove_insert(sessions(*old(data)), guild_id, pre.leave());
    }
}

/// The play command, after the resolver answered and — for a disconnected
/// session — after the join attempt: appends the parsed tracks in order,
/// settles the connection with the join outcome, then starts the front of
/// the queue when the session sits idle.  The returned track, if any, must
/// now be started on the voice transport.
pub fn play(data: &mut Data, guild_id: u64, parsed: ParseResult, joined: bool) -> (r: Option<
    AudioLink,
>)
    ensures
        ({
            let pre = session_or_init(sessions(*old(data)), guild_id);
            &&& sessions(*final(data)) == sessions(*old(data)).insert(
                guild_id,
                pre.play(parse_tracks(parsed), joined),
            )
            &&& match r {
                Some(t) => pre.play_started(parse_tracks(parsed), joined) matches Some(u) && t@
                    == u@,
                None => pre.play_started(parse_tracks(parsed), joined) is None,
            }
        }),
{
    let ghost pre = session_or_init(sessions(*old(data)), guild_id);
    let ghost tracks = parse_tracks(parsed);
    let mut s = data.take_or_create(guild_id);
    match parsed {
        ParseResult::Single(a) => {
            let ghost a0 = a;
            s.enqueue(a);
            proof {
                assert(pre.queue.push(a0) =~= pre.queue + tracks);
                assert(s@ =~~= pre.enqueue_all(tracks));
            }
        },
        ParseResult::Multiple(list, _meta) => {
            s.enqueue_all(list);
        },
    }
    s.resolve_offline(joined);
    let r = s.start_next();
    data.restore(guild_id, s);
    proof {
        lemma_remove_insert(sessions(*old(data)), guild_id, pre.play(tracks, joined));
    }
    r
}

/// The search command, after the resolver produced the candidate list: the
/// list is stored for the searching user, replacing any list that user had
/// pending in this guild.  No playback state changes.
pub fn search(data: &mut Data, guild_id: u64, user_id: u64, list: Vec<AudioLink>)
    ensures
        ({
            let pre = session_or_init(sessions(*old(data)), guild_id);
            sessions(*final(data)) == sessions(*old(data)).insert(
                guild_id,
                pre.searched(user_id, list@),
            )
        }),
{
    let ghost l = list@;
    let mut s = data.take_or_create(guild_id);
    s.store_search(user_id, list);
    data.restore(guild_id, s);
    proof {
        let pre = session_or_init(sessions(*old(data)), guild_id);
        lemma_remove_insert(sessions(*old(data)), guild_id, pre.searched(user_id, l));
    }
}

/// The select command: a valid one-based index consumes the user's pending
/// list and enqueues the chosen candidate exactly as a play command would,
/// with `joined` the join outcome for a disconnected session.  An
/// out-of-range index, or a user without a pending list, is rejected with
/// the matching error and mutates nothing.
pub fn select(data: &mut Data, guild_id: u64, user_id: u64, index: usize, joined: bool) -> (r:
    Result<Option<AudioLink>, Error>)
    ensures
        ({
            let pre = session_or_init(sessions(*old(data)), guild_id);
            match r {
                Ok(start) => {
                    &&& pre.select_valid(user_id, index)
                    &&& sessions(*final(data)) == sessions(*old(data)).insert(
                        guild_id,
                        pre.selected(user_id, index, joined),
                    )
                    &&& match start {
                        Some(t) => pre.selection_taken(user_id).play_started(
                            seq![pre.search_item[user_id][index - 1]],
                            joined,
                        ) matches Some(u) && t@ == u@,
                        None => pre.selection_taken(user_id).play_started(
                            seq![pre.search_item[user_id][index - 1]],
                            joined,
                        ) is None,
                    }
                },
                Err(e) => {
                    &&& sessions(*final(data)) == sessions(*old(data)).insert(guild_id, pre)
                    &&& match e {
                        Error::NoPendingSelection => !pre.search_item.contains_key(user_id),
                        Error::SelectionOutOfRange => pre.search_item.contains_key(user_id)
                            && !pre.select_valid(user_id, index),
                        _ => false,
                    }
                },
            }
        }),
{
    let ghost pre = session_or_init(sessions(*old(data)), guild_id);
    let mut s = data.take_or_create(guild_id);
    let r = match s.take_selection(user_id, index) {
        Ok(t) => {
            let ghost t0 = t;
            s.enqueue(t);
            proof {
                assert(pre.selection_taken(user_id).queue.push(t0) =~= pre.selection_taken(
                    user_id,
                ).queue + seq![t0]);
                assert(s@ =~~= pre.selection_taken(user_id).enqueue_all(seq![t0]));
            }
            s.resolve_offline(joined);
            Ok(s.start_next())
        },
        Err(e) => Err(e),
    };
    data.restore(guild_id, s);
    proof {
        lemma_remove_insert(sessions(*old(data)), guild_id, s@);
    }
    r
}

/// The stop command: playback ends and the queue is cleared; the voice
/// connection, or its absence, is kept.  Reports whether the session was
/// connected at all.
pub fn stop(data: &mut Data, guild_id: u64) -> (r: bool)
    ensures
        ({
            let pre = session_or_init(sessions(*old(data)), guild_id);
            &&& sessions(*final(data)) == sessions(*old(data)).insert(guild_id, pre.stop())
            &&& r == !(pre.state is Offline)
        }),
{
    let mut s = data.take_or_create(guild_id);
    let r = !s.is_offline();
    s.stop();
    data.restore(guild_id, s);
    proof {
        let pre = session_or_init(sessions(*old(data)), guild_id);
        lemma_remove_insert(sessions(*old(data)), guild_id, pre.stop());
    }
    r
}

/// The skip command: while playing, the current track is dropped — the loop
/// policy does not apply — and the front of the queue takes its place, or
/// the session falls idle.  In any other state it reports why nothing was
/// skipped and mutates nothing.
pub fn skip(data: &mut Data, guild_id: u64) -> (r: SkipOutcome)
    ensures
        ({
            let pre = session_or_init(sessions(*old(data)), guild_id);
            &&& sessions(*final(data)) == sessions(*old(data)).insert(guild_id, pre.skip())
            &&& match r {
                SkipOutcome::NotConnected => pre.state is Offline,
                SkipOutcome::NotPlaying => pre.state is Idle,
                SkipOutcome::Skipped(start) => pre.state is Playing && match start {
                    Some(t) => pre.queue.len() > 0 && t@ == pre.queue[0]@,
                    None => pre.queue.len() == 0,
                },
            }
        }),
{
    let mut s = data.take_or_create(guild_id);
    let r = if s.is_offline() {
        SkipOutcome::NotConnected
    } else if !s.is_playing() {
        SkipOutcome::NotPlaying
    } else {
        SkipOutcome::Skipped(s.skip())
    };
    data.restore(guild_id, s);
    proof {
        lemma_remove_insert(sessions(*old(data)), guild_id, s@);
    }
    r
}

/// The queue listing: the title and formatted duration of each queued
/// track, in queue order.
pub fn queue(data: &mut Data, guild_id: u64) -> (r: Vec<(String, String)>)
    ensures
        ({
            let pre = session_or_init(sessions(*old(data)), guild_id);
            &&& sessions(*final(data)) == sessions(*old(data)).insert(guild_id, pre)
            &&& r@.len() == pre.queue.len()
            &&& forall|i: int|
                0 <= i < r@.len() ==> (#[trigger] r@[i]).0@ == pre.queue[i]@.title && r@[i].1@
                    == time_str_spec(pre.queue[i]@.duration)
        }),
{
    let s = data.take_or_create(guild_id);
    let mut r: Vec<(String, String)> = Vec::new();
    let n = s.player.queue.len();
    let mut i: usize = 0;
    while i < n
        invariant
            n == s.player.queue@.len(),
            i <= n,
            r@.len() == i,
            forall|j: int|
                0 <= j < i ==> (#[trigger] r@[j]).0@ == s.player.queue@[j]@.title && r@[j].1@
                    == time_str_spec(s.player.queue@[j]@.duration),
        decreases n - i,
    {
        let t = &s.player.queue[i];
        r.push((t.title(), t.time_str()));
        i = i + 1;
    }
    data.restore(guild_id, s);
    proof {
        lemma_remove_insert(sessions(*old(data)), guild_id, session_or_init(sessions(*old(data)), guild_id));
    }
    r
}

/// The now-playing query: a copy of the track the session is streaming, if
/// any.
pub fn now_playing(data: &mut Data, guild_id: u64) -> (r: Option<AudioLink>)
    ensures
        ({
            let pre = session_or_init(sessions(*old(data)), guild_id);
            &&& sessions(*final(data)) == sessions(*old(data)).insert(guild_id, pre)
            &&& match r {
                Some(t) => pre.state matches PlayerState::Playing(u) && t@ == u@,
                None => !(pre.state is Playing),
            }
        }),
{
    let s = data.take_or_create(guild_id);
    let r = match &s.player.state {
        PlayerState::Playing(t) => Some(t.clone()),
        _ => None,
    };
    data.restore(guild_id, s);
    proof {
        lemma_remove_insert(sessions(*old(data)), guild_id, session_or_init(sessions(*old(data)), guild_id));
    }
    r
}

/// The loop command: toggles the loop mode — `Normal` becomes `Loop`,
/// anything else `Normal` — and reports the new mode.
pub fn cmd_loop(data: &mut Data, guild_id: u64) -> (r: LoopPolicy)
    ensures
        ({
            let pre = session_or_init(sessions(*old(data)), guild_id);
            &&& sessions(*final(data)) == sessions(*old(data)).insert(guild_id, pre.toggled())
            &&& r == pre.toggled().loop_policy
        }),
{
    let mut s = data.take_or_create(guild_id);
    let r = s.toggle_loop();
    data.restore(guild_id, s);
    proof {
        let pre = session_or_init(sessions(*old(data)), guild_id);
        lemma_remove_insert(sessions(*old(data)), guild_id, pre.toggled());
    }
    r
}

/// The track-completion event: fired by the voice transport when a track
/// ends, it advances the state machine under the loop policy.  The returned
/// track, if any, must now be started on the transport — before the guild's
/// session is touched again, so no command can observe a playing session
/// with nothing streaming.
pub fn track_end(data: &mut Data, guild_id: u64) -> (r: Option<AudioLink>)
    ensures
        ({
            let pre = session_or_init(sessions(*old(data)), guild_id);
            &&& sessions(*final(data)) == sessions(*old(data)).insert(guild_id, pre.complete())
            &&& match r {
                Some(t) => pre.state is Playing && pre.queue.len() > 0 && t@ == pre.queue[0]@,
                None => !(pre.state is Playing) || pre.queue.len() == 0,
            }
        }),
{
    let mut s = data.take_or_create(guild_id);
    let r = s.complete();
    data.restore(guild_id, s);
    proof {
        let pre = session_or_init(sessions(*old(data)), guild_id);
        lemma_remove_insert(sessions(*old(data)), guild_id, pre.complete());
    }
    r
}

/// The import command, after the token was decoded and every reference
/// resolved: appends the resolved tracks and starts playback exactly as a
/// play command with a playlist would.
pub fn import(data: &mut Data, guild_id: u64, tracks: Vec<AudioLink>, joined: bool) -> (r: Option<
    AudioLink,
>)
    ensures
        ({
            let pre = session_or_init(sessions(*old(data)), guild_id);
            &&& sessions(*final(data)) == sessions(*old(data)).insert(
                guild_id,
                pre.play(tracks@, joined),
            )
            &&& match r {
                Some(t) => pre.play_started(tracks@, joined) matches Some(u) && t@ == u@,
                None => pre.play_started(tracks@, joined) is None,
            }
        }),
{
    let ghost ts = tracks@;
    let mut s = data.take_or_create(guild_id);
    s.enqueue_all(tracks);
    s.resolve_offline(joined);
    let r = s.start_next();
    data.restore(guild_id, s);
    proof {
        let pre = session_or_init(sessions(*old(data)), guild_id);
        lemma_remove_insert(sessions(*old(data)), guild_id, pre.play(ts, joined));
    }
    r
}


/// The identifier byte strings of a session's snapshot: the playing
/// track's first, then the queue's in order.
pub open spec fn export_ids(s: SessionV) -> Seq<Seq<u8>> {
    Seq::new(
        s.export_tracks().len(),
        |i: int| vstd::utf8::encode_utf8(s.export_tracks()[i]@.id),
    )
}

/// The export command: the session's tracks — the playing track first,
/// then the queue in order — as one opaque token.  The session itself is
/// left as it was.
pub fn export(data: &mut Data, guild_id: u64) -> (r: String)
    ensures
        ({
            let pre = session_or_init(sessions(*old(data)), guild_id);
            &&& sessions(*final(data)) == sessions(*old(data)).insert(guild_id, pre)
            &&& r@ == base64_encoding(cbor_refs(export_ids(pre)))
        }),
{
    let s = data.take_or_create(guild_id);
    let refs = s.export_refs();
    let token = export_token(&refs);
    data.restore(guild_id, s);
    proof {
        lemma_remove_insert(
            sessions(*old(data)),
            guild_id,
            session_or_init(sessions(*old(data)), guild_id),
        );
        assert(ids_of(refs@) =~= export_ids(s@));
    }
    token
}

/// The export/import round trip, over the terms the commands' contracts
/// use: whatever reference list `import_decode` accepts for the token that
/// `export` produced, it carries exactly the identifiers of the exported
/// session's tracks — the playing track first, then the queue in order.
pub proof fn lemma_export_import_round_trip(
    pre: SessionV,
    out: Seq<crate::audio_link::UnloadedAudioLink>,
)
    requires
        pre.export_tracks().len() < pow256(8),
        forall|i: int|
            0 <= i < pre.export_tracks().len() ==> vstd::utf8::encode_utf8(
                (#[trigger] pre.export_tracks()[i])@.id,
            ).len() < pow256(8),
        parse_refs(cbor_refs(export_ids(pre))) == Some(ids_of(out)),
    ensures
        out.len() == pre.export_tracks().len(),
        forall|i: int| 0 <= i < out.len() ==> (#[trigger] out[i])@ == pre.export_tracks()[i]@.id,
{
    assert forall|i: int| 0 <= i < export_ids(pre).len() implies (#[trigger] export_ids(pre)[i]).len()
        < pow256(8) by {
        assert(export_ids(pre)[i] == vstd::utf8::encode_utf8(pre.export_tracks()[i]@.id));
    }
    crate::codec::lemma_parse_refs_cbor(export_ids(pre));
    assert(ids_of(out) == export_ids(pre));
    assert(out.len() == pre.export_tracks().len());
    broadcast use vstd::utf8::group_utf8_lib;

    assert forall|i: int| 0 <= i < out.len() implies (#[trigger] out[i])@ == pre.export_tracks()[i]@.id by {
        assert(ids_of(out)[i] == export_ids(pre)[i]);
        assert(vstd::utf8::encode_utf8(out[i]@) == vstd::utf8::encode_utf8(
            pre.export_tracks()[i]@.id,
        ));
        assert(vstd::utf8::decode_utf8(vstd::utf8::encode_utf8(out[i]@)) == out[i]@);
        assert(vstd::utf8::decode_utf8(vstd::utf8::encode_utf8(pre.export_tracks()[i]@.id))
            == pre.export_tracks()[i]@.id);
    }
}

/// Cross-guild isolation: every command's contract shows the store change
/// as an `insert` at the touched guild alone, so no command is visible to
/// any other guild's session.
pub proof fn lemma_guild_isolation(m: Map<u64, SessionV>, guild_id: u64, s: SessionV, other: u64)
    requires
        other != guild_id,
    ensures
        session_or_init(m.insert(guild_id, s), other) == session_or_init(m, other),
{
}

} // verus!
