//! The playable track type, its durable unresolved form, and the shape of a
//! resolver answer after parsing.
use vstd::prelude::*;
use vstd::string::StringExecFns;

use crate::Error;
use crate::youtube::InfoType;
use crate::youtube::TrackView;
use crate::youtube::YoutubeInfo;

verus! {

/// A resolved, playable track.
#[derive(Debug)]
pub enum AudioLink {
    Youtube(YoutubeInfo),
}

/// Lazy version of `AudioLink`: the durable, resolver-independent identity of
/// a track.  It must be re-resolved (an external lookup) before it can play
/// again, so the library only ever carries it between the codec and callers.
#[derive(Debug)]
pub enum UnloadedAudioLink {
    Youtube(String),
}

/// A successfully parsed resolver answer: one track, or a playlist of tracks
/// together with the playlist's own metadata.
#[derive(Debug)]
pub enum ParseResult {
    Single(AudioLink),
    Multiple(Vec<AudioLink>, Metadata),
}

/// The metadata of a playlist as a whole.
#[derive(Debug)]
pub struct Metadata {
    pub title: String,
}

impl View for AudioLink {
    type V = TrackView;

    open spec fn view(&self) -> TrackView {
        match self {
            AudioLink::Youtube(info) => info@,
        }
    }
}

impl View for UnloadedAudioLink {
    type V = Seq<char>;

    open spec fn view(&self) -> Seq<char> {
        match self {
            UnloadedAudioLink::Youtube(id) => id@,
        }
    }
}

impl Clone for AudioLink {
    fn clone(&self) -> (res: Self)
        ensures
            res@ == self@,
    {
        match self {
            AudioLink::Youtube(info) => AudioLink::Youtube(info.clone()),
        }
    }
}

impl Clone for UnloadedAudioLink {
    fn clone(&self) -> (res: Self)
        ensures
            res@ == self@,
    {
        match self {
            UnloadedAudioLink::Youtube(id) => UnloadedAudioLink::Youtube(id.clone()),
        }
    }
}

impl From<YoutubeInfo> for AudioLink {
    fn from(value: YoutubeInfo) -> (r: AudioLink) {
        AudioLink::Youtube(value)
    }
}

impl vstd::std_specs::convert::FromSpecImpl<YoutubeInfo> for AudioLink {
    open spec fn obeys_from_spec() -> bool {
        true
    }

    open spec fn from_spec(value: YoutubeInfo) -> AudioLink {
        AudioLink::Youtube(value)
    }
}

/// The decimal digit `d` as a character, for `d < 10`.
pub open spec fn digit_char(d: nat) -> char {
    if d == 0 { '0' }
    else if d == 1 { '1' }
    else if d == 2 { '2' }
    else if d == 3 { '3' }
    else if d == 4 { '4' }
    else if d == 5 { '5' }
    else if d == 6 { '6' }
    else if d == 7 { '7' }
    else if d == 8 { '8' }
    else { '9' }
}

/// The decimal digits of `n`, most significant first, without leading zeros
/// (except for `n == 0` itself).
pub open spec fn dec_chars(n: nat) -> Seq<char>
    decreases n,
{
    if n < 10 {
        seq![digit_char(n)]
    } else {
        dec_chars(n / 10).push(digit_char(n % 10))
    }
}

/// `minutes:seconds`, the seconds always two digits.
pub open spec fn time_str_spec(t: u32) -> Seq<char> {
    dec_chars((t / 60) as nat) + seq![':'] + (
        if t % 60 < 10 {
            seq!['0'] + dec_chars((t % 60) as nat)
        } else {
            dec_chars((t % 60) as nat)
        }
    )
}

fn digit_str(d: u32) -> (r: &'static str)
    requires
        d < 10,
    ensures
        r@ == seq![digit_char(d as nat)],
{
    let r: &'static str = if d == 0 { "0" }
    else if d == 1 { "1" }
    else if d == 2 { "2" }
    else if d == 3 { "3" }
    else if d == 4 { "4" }
    else if d == 5 { "5" }
    else if d == 6 { "6" }
    else if d == 7 { "7" }
    else if d == 8 { "8" }
    else { "9" };
    proof {
        reveal_strlit("0");
        reveal_strlit("1");
        reveal_strlit("2");
        reveal_strlit("3");
        reveal_strlit("4");
        reveal_strlit("5");
        reveal_strlit("6");
        reveal_strlit("7");
        reveal_strlit("8");
        reveal_strlit("9");
        assert(r@ =~= seq![digit_char(d as nat)]);
    }
    r
}

/// Appends the decimal digits of `n` to `s`.
fn push_dec(s: &mut String, n: u32)
    ensures
        final(s)@ == old(s)@ + dec_chars(n as nat),
    decreases n,
{
    if n < 10 {
        s.append(digit_str(n));
    } else {
        push_dec(s, n / 10);
        s.append(digit_str(n % 10));
        proof {
            assert(final(s)@ =~= old(s)@ + dec_chars(n as nat));
        }
    }
}

impl AudioLink {
    /// The track's duration in seconds.
    pub fn time(&self) -> (t: u32)
        ensures
            t == self@.duration,
    {
        match self {
            AudioLink::Youtube(info) => info.duration,
        }
    }

    /// The track's duration as `minutes:seconds`.
    pub fn time_str(&self) -> (r: String)
        ensures
            r@ == time_str_spec(self@.duration),
    {
        let t = self.time();
        let mut s = String::new();
        push_dec(&mut s, t / 60);
        s.append(":");
        proof {
            reveal_strlit(":");
            reveal_strlit("0");
        }
        if t % 60 < 10 {
            s.append("0");
        }
        push_dec(&mut s, t % 60);
        proof {
            assert(s@ =~= time_str_spec(self@.duration));
        }
        s
    }

    /// The track's display title.
    pub fn title(&self) -> (r: String)
        ensures
            r@ == self@.title,
    {
        match self {
            AudioLink::Youtube(info) => info.title.clone(),
        }
    }

    /// The durable reference of this track: its source and identifier alone.
    pub fn unload(&self) -> (r: UnloadedAudioLink)
        ensures
            r@ == self@.id,
    {
        match self {
            AudioLink::Youtube(info) => UnloadedAudioLink::Youtube(info.id.clone()),
        }
    }
}

/// The tracks a parsed resolver answer carries, in order.
pub open spec fn parse_tracks(p: ParseResult) -> Seq<AudioLink> {
    match p {
        ParseResult::Single(a) => seq![a],
        ParseResult::Multiple(list, _) => list@,
    }
}

impl AudioLink {
    /// Turns a classified resolver answer into a parse result: one video
    /// becomes a single track, a playlist becomes the track list together
    /// with the playlist title taken from its first entry.
    pub fn parse(info: Result<InfoType, Error>) -> (r: Result<ParseResult, Error>)
        requires
            (info matches Ok(InfoType::Playlist(v)) ==> v@.len() > 0),
        ensures
            match info {
                Ok(InfoType::Video(i)) => r matches Ok(p)
                    && p matches ParseResult::Single(a) && a == AudioLink::Youtube(i),
                Ok(InfoType::Playlist(v)) => r matches Ok(p)
                    && (p matches ParseResult::Multiple(list, meta)
                        && list@ =~= v@.map_values(|i: YoutubeInfo| AudioLink::Youtube(i))
                        && meta.title@ == (match v@[0]@.playlist {
                            Option::Some(p) => p,
                            Option::None => "Unknown"@,
                        })),
                Err(e) => r matches Err(e2) && e2 == e,
            },
    {
        match info {
            Ok(InfoType::Video(i)) => Ok(ParseResult::Single(AudioLink::Youtube(i))),
            Ok(InfoType::Playlist(v)) => {
                let title: String = match &v[0].playlist {
                    Option::Some(p) => p.clone(),
                    Option::None => "Unknown".to_owned(),
                };
                let mut list: Vec<AudioLink> = Vec::new();
                let mut v = v;
                let ghost all = v@;
                let ghost k: int = 0;
                while v.len() > 0
                    invariant
                        0 <= k <= all.len(),
                        v@ =~= all.skip(k),
                        list@ =~= all.take(k).map_values(|i: YoutubeInfo| AudioLink::Youtube(i)),
                    decreases v@.len(),
                {
                    let i = v.remove(0);
                    list.push(AudioLink::Youtube(i));
                    proof {
                        assert(all.take(k + 1) =~= all.take(k).push(all[k]));
                        assert(all.take(k + 1).map_values(|i: YoutubeInfo| AudioLink::Youtube(i))
                            =~= all.take(k).map_values(|i: YoutubeInfo| AudioLink::Youtube(i))
                                .push(AudioLink::Youtube(all[k])));
                        k = k + 1;
                    }
                }
                proof {
                    assert(all.take(k) =~= all);
                }
                Ok(ParseResult::Multiple(list, Metadata { title }))
            },
            Err(e) => Err(e),
        }
    }
}

} // verus!
