//! Track metadata as the resolver reports it, and the classification of a
//! resolver answer into a single video or a playlist.  The lookup itself is
//! an external, fallible call and stays outside the library; only its result
//! is handled here.
use vstd::prelude::*;

use crate::Error;

verus! {

/// The metadata of one playable item.  Immutable once constructed.
#[derive(Debug)]
pub struct YoutubeInfo {
    pub id: String,
    pub title: String,
    pub description: Option<String>,
    pub channel: String,
    pub channel_url: String,
    pub duration: u32,
    pub playlist: Option<String>,
}

/// The mathematical content of one track: every field a plain value.
pub struct TrackView {
    pub id: Seq<char>,
    pub title: Seq<char>,
    pub description: Option<Seq<char>>,
    pub channel: Seq<char>,
    pub channel_url: Seq<char>,
    pub duration: u32,
    pub playlist: Option<Seq<char>>,
}

pub open spec fn opt_str_view(o: Option<String>) -> Option<Seq<char>> {
    match o {
        Option::Some(s) => Option::Some(s@),
        Option::None => Option::None,
    }
}

impl View for YoutubeInfo {
    type V = TrackView;

    open spec fn view(&self) -> TrackView {
        TrackView {
            id: self.id@,
            title: self.title@,
            description: opt_str_view(self.description),
            channel: self.channel@,
            channel_url: self.channel_url@,
            duration: self.duration,
            playlist: opt_str_view(self.playlist),
        }
    }
}

fn clone_opt_string(o: &Option<String>) -> (r: Option<String>)
    ensures
        opt_str_view(r) == opt_str_view(*o),
{
    match o {
        Option::Some(s) => Option::Some(s.clone()),
        Option::None => Option::None,
    }
}

impl Clone for YoutubeInfo {
    fn clone(&self) -> (res: Self)
        ensures
            res@ == self@,
    {
        YoutubeInfo {
            id: self.id.clone(),
            title: self.title.clone(),
            description: clone_opt_string(&self.description),
            channel: self.channel.clone(),
            channel_url: self.channel_url.clone(),
            duration: self.duration,
            playlist: clone_opt_string(&self.playlist),
        }
    }
}

/// What the resolver returned for one user input.
#[derive(Debug)]
pub enum InfoType {
    Video(YoutubeInfo),
    Playlist(Vec<YoutubeInfo>),
}

/// Classifies the records the resolver produced for one input: exactly one
/// record is a single video, several are a playlist, none is a failure.
pub fn classify_infos(list: Vec<YoutubeInfo>) -> (r: Result<InfoType, Error>)
    ensures
        match r {
            Ok(InfoType::Video(info)) => list@.len() == 1 && info == list@[0],
            Ok(InfoType::Playlist(infos)) => list@.len() > 1 && infos@ == list@,
            Err(e) => list@.len() == 0 && e == Error::ResolutionFailure,
        },
{
    if list.len() == 0 {
        Err(Error::ResolutionFailure)
    } else if list.len() == 1 {
        let mut list = list;
        let info = list.remove(0);
        Ok(InfoType::Video(info))
    } else {
        Ok(InfoType::Playlist(list))
    }
}

} // verus!
