use playback::Error;
use playback::audio_link::AudioLink;
use playback::audio_link::ParseResult;
use playback::audio_link::UnloadedAudioLink;
use playback::command;
use playback::command::SkipOutcome;
use playback::context_data::Data;
use playback::context_data::LoopPolicy;
use playback::context_data::PerGuildData;
use playback::context_data::PlayerState;
use playback::youtube::InfoType;
use playback::youtube::YoutubeInfo;

fn info(id: &str, title: &str, secs: u32) -> YoutubeInfo {
    YoutubeInfo {
        id: id.to_string(),
        title: title.to_string(),
        description: None,
        channel: "channel".to_string(),
        channel_url: "https://example.invalid/channel".to_string(),
        duration: secs,
        playlist: None,
    }
}

fn track(id: &str, title: &str, secs: u32) -> AudioLink {
    AudioLink::Youtube(info(id, title, secs))
}

fn single(id: &str, title: &str, secs: u32) -> ParseResult {
    ParseResult::Single(track(id, title, secs))
}

fn playing_title(data: &mut Data, guild: u64) -> Option<String> {
    command::now_playing(data, guild).map(|t| t.title())
}

fn queue_titles(data: &mut Data, guild: u64) -> Vec<String> {
    command::queue(data, guild).into_iter().map(|e| e.0).collect()
}

#[test]
fn first_play_starts_playback() {
    let mut data = Data::new();
    let started = command::play(&mut data, 1, single("a", "Alpha", 100), true);
    assert!(matches!(started, Some(_)));
    assert_eq!(started.unwrap().title(), "Alpha");
    assert_eq!(playing_title(&mut data, 1), Some("Alpha".to_string()));
    assert!(queue_titles(&mut data, 1).is_empty());
}

#[test]
fn later_plays_append_to_queue() {
    let mut data = Data::new();
    command::play(&mut data, 1, single("a", "Alpha", 100), true);
    let started = command::play(&mut data, 1, single("b", "Beta", 200), true);
    assert!(started.is_none());
    command::play(&mut data, 1, single("c", "Gamma", 300), true);
    assert_eq!(playing_title(&mut data, 1), Some("Alpha".to_string()));
    assert_eq!(queue_titles(&mut data, 1), vec!["Beta".to_string(), "Gamma".to_string()]);
    let queued = queue_titles(&mut data, 1);
    assert!(!queued.contains(&"Alpha".to_string()));
}

#[test]
fn play_with_failed_join_discards() {
    let mut data = Data::new();
    assert!(command::needs_join(&mut data, 1));
    let started = command::play(&mut data, 1, single("a", "Alpha", 100), false);
    assert!(started.is_none());
    assert_eq!(playing_title(&mut data, 1), None);
    assert!(queue_titles(&mut data, 1).is_empty());
    assert!(command::needs_join(&mut data, 1));
}

#[test]
fn playlist_play_starts_first_of_batch() {
    let mut data = Data::new();
    let parsed = ParseResult::Multiple(
        vec![track("a", "Alpha", 1), track("b", "Beta", 2), track("c", "Gamma", 3)],
        playback::audio_link::Metadata { title: "Mix".to_string() },
    );
    let started = command::play(&mut data, 1, parsed, true);
    assert_eq!(started.unwrap().title(), "Alpha");
    assert_eq!(queue_titles(&mut data, 1), vec!["Beta".to_string(), "Gamma".to_string()]);
}

#[test]
fn completion_normal_drops_finished_track() {
    let mut data = Data::new();
    command::play(&mut data, 1, single("a", "Alpha", 1), true);
    command::play(&mut data, 1, single("b", "Beta", 2), true);
    command::play(&mut data, 1, single("c", "Gamma", 3), true);
    let started = command::track_end(&mut data, 1);
    assert_eq!(started.unwrap().title(), "Beta");
    assert_eq!(playing_title(&mut data, 1), Some("Beta".to_string()));
    assert_eq!(queue_titles(&mut data, 1), vec!["Gamma".to_string()]);
}

#[test]
fn completion_loop_cycles_to_tail() {
    let mut data = Data::new();
    command::play(&mut data, 1, single("a", "Alpha", 1), true);
    command::play(&mut data, 1, single("b", "Beta", 2), true);
    assert_eq!(command::cmd_loop(&mut data, 1), LoopPolicy::Loop);
    let started = command::track_end(&mut data, 1);
    assert_eq!(started.unwrap().title(), "Beta");
    assert_eq!(playing_title(&mut data, 1), Some("Beta".to_string()));
    assert_eq!(queue_titles(&mut data, 1), vec!["Alpha".to_string()]);
}

#[test]
fn completion_loop_on_empty_queue_requeues() {
    let mut session = PerGuildData::new();
    session.player.state = PlayerState::Playing(track("a", "Alpha", 1));
    session.player.loop_policy = LoopPolicy::Loop;
    let started = session.complete();
    assert!(started.is_none());
    assert!(matches!(session.player.state, PlayerState::Idle));
    assert_eq!(session.player.queue.len(), 1);
    assert_eq!(session.player.queue[0].title(), "Alpha");
}

#[test]
fn completion_random_drops_like_normal() {
    let mut session = PerGuildData::new();
    session.player.state = PlayerState::Playing(track("a", "Alpha", 1));
    session.player.queue.push_back(track("b", "Beta", 2));
    session.player.loop_policy = LoopPolicy::Random;
    let started = session.complete();
    assert_eq!(started.unwrap().title(), "Beta");
    assert!(session.player.queue.is_empty());
}

#[test]
fn completion_when_not_playing_is_noop() {
    let mut data = Data::new();
    command::join(&mut data, 1, true);
    assert!(command::track_end(&mut data, 1).is_none());
    assert_eq!(playing_title(&mut data, 1), None);
}

#[test]
fn skip_matches_forced_completion_under_normal() {
    let mut one = Data::new();
    let mut two = Data::new();
    for data in [&mut one, &mut two] {
        command::play(data, 1, single("a", "Alpha", 1), true);
        command::play(data, 1, single("b", "Beta", 2), true);
        command::play(data, 1, single("c", "Gamma", 3), true);
    }
    let skipped = match command::skip(&mut one, 1) {
        SkipOutcome::Skipped(t) => t,
        _ => panic!("expected a skip while playing"),
    };
    let completed = command::track_end(&mut two, 1);
    assert_eq!(skipped.unwrap().title(), completed.unwrap().title());
    assert_eq!(playing_title(&mut one, 1), playing_title(&mut two, 1));
    assert_eq!(queue_titles(&mut one, 1), queue_titles(&mut two, 1));
}

#[test]
fn skip_reports_state() {
    let mut data = Data::new();
    assert!(matches!(command::skip(&mut data, 1), SkipOutcome::NotConnected));
    command::join(&mut data, 1, true);
    assert!(matches!(command::skip(&mut data, 1), SkipOutcome::NotPlaying));
    command::play(&mut data, 1, single("a", "Alpha", 1), true);
    match command::skip(&mut data, 1) {
        SkipOutcome::Skipped(next) => assert!(next.is_none()),
        _ => panic!("expected a skip while playing"),
    }
    assert_eq!(playing_title(&mut data, 1), None);
}

#[test]
fn stop_clears_queue_and_keeps_connection() {
    let mut data = Data::new();
    command::play(&mut data, 1, single("a", "Alpha", 1), true);
    command::play(&mut data, 1, single("b", "Beta", 2), true);
    assert!(command::stop(&mut data, 1));
    assert_eq!(playing_title(&mut data, 1), None);
    assert!(queue_titles(&mut data, 1).is_empty());
    assert!(!command::needs_join(&mut data, 1));
}

#[test]
fn stop_while_offline_reports_not_connected() {
    let mut data = Data::new();
    assert!(!command::stop(&mut data, 1));
    assert!(command::needs_join(&mut data, 1));
}

#[test]
fn leave_forces_offline_and_clears() {
    let mut data = Data::new();
    command::play(&mut data, 1, single("a", "Alpha", 1), true);
    command::play(&mut data, 1, single("b", "Beta", 2), true);
    command::leave(&mut data, 1);
    assert_eq!(playing_title(&mut data, 1), None);
    assert!(queue_titles(&mut data, 1).is_empty());
    assert!(command::needs_join(&mut data, 1));
}

#[test]
fn toggle_cycles_normal_and_loop() {
    let mut data = Data::new();
    assert_eq!(command::cmd_loop(&mut data, 1), LoopPolicy::Loop);
    assert_eq!(command::cmd_loop(&mut data, 1), LoopPolicy::Normal);
    assert_eq!(command::cmd_loop(&mut data, 1), LoopPolicy::Loop);
}

#[test]
fn search_then_select_enqueues_choice() {
    let mut data = Data::new();
    let candidates: Vec<AudioLink> = (1..=5)
        .map(|i| track(&format!("t{i}"), &format!("Track {i}"), i))
        .collect();
    command::search(&mut data, 1, 42, candidates);
    let started = command::select(&mut data, 1, 42, 3, true).expect("valid selection");
    assert_eq!(started.unwrap().title(), "Track 3");
    assert_eq!(playing_title(&mut data, 1), Some("Track 3".to_string()));
    let second = command::select(&mut data, 1, 42, 3, true);
    assert_eq!(second.unwrap_err(), Error::NoPendingSelection);
}

#[test]
fn select_out_of_range_keeps_pending_list() {
    let mut data = Data::new();
    let candidates: Vec<AudioLink> = (1..=5)
        .map(|i| track(&format!("t{i}"), &format!("Track {i}"), i))
        .collect();
    command::search(&mut data, 1, 42, candidates);
    assert_eq!(command::select(&mut data, 1, 42, 0, true).unwrap_err(), Error::SelectionOutOfRange);
    assert_eq!(command::select(&mut data, 1, 42, 6, true).unwrap_err(), Error::SelectionOutOfRange);
    let started = command::select(&mut data, 1, 42, 2, true).expect("list still pending");
    assert_eq!(started.unwrap().title(), "Track 2");
}

#[test]
fn select_without_search_is_rejected() {
    let mut data = Data::new();
    assert_eq!(command::select(&mut data, 1, 42, 1, true).unwrap_err(), Error::NoPendingSelection);
}

#[test]
fn search_replaces_previous_list() {
    let mut data = Data::new();
    command::search(&mut data, 1, 42, vec![track("x", "Old", 1)]);
    command::search(&mut data, 1, 42, vec![track("y", "New", 2)]);
    let started = command::select(&mut data, 1, 42, 1, true).expect("valid selection");
    assert_eq!(started.unwrap().title(), "New");
}

#[test]
fn selections_are_per_user() {
    let mut data = Data::new();
    command::search(&mut data, 1, 42, vec![track("x", "ForFortyTwo", 1)]);
    assert_eq!(command::select(&mut data, 1, 7, 1, true).unwrap_err(), Error::NoPendingSelection);
    let started = command::select(&mut data, 1, 42, 1, true).expect("valid selection");
    assert_eq!(started.unwrap().title(), "ForFortyTwo");
}

#[test]
fn guilds_are_isolated() {
    let mut data = Data::new();
    command::play(&mut data, 1, single("a", "Alpha", 1), true);
    command::play(&mut data, 2, single("b", "Beta", 2), true);
    command::play(&mut data, 1, single("c", "Gamma", 3), true);
    assert_eq!(playing_title(&mut data, 1), Some("Alpha".to_string()));
    assert_eq!(playing_title(&mut data, 2), Some("Beta".to_string()));
    assert_eq!(queue_titles(&mut data, 1), vec!["Gamma".to_string()]);
    assert!(queue_titles(&mut data, 2).is_empty());
    command::skip(&mut data, 1);
    assert_eq!(playing_title(&mut data, 1), Some("Gamma".to_string()));
    assert_eq!(playing_title(&mut data, 2), Some("Beta".to_string()));
}

#[test]
fn join_connects_only_offline_sessions() {
    let mut data = Data::new();
    command::join(&mut data, 1, false);
    assert!(command::needs_join(&mut data, 1));
    command::join(&mut data, 1, true);
    assert!(!command::needs_join(&mut data, 1));
    command::play(&mut data, 1, single("a", "Alpha", 1), true);
    command::join(&mut data, 1, true);
    assert_eq!(playing_title(&mut data, 1), Some("Alpha".to_string()));
}

#[test]
fn queue_listing_has_titles_and_times() {
    let mut data = Data::new();
    command::play(&mut data, 1, single("a", "Alpha", 1), true);
    command::play(&mut data, 1, single("b", "Beta", 125), true);
    command::play(&mut data, 1, single("c", "Gamma", 59), true);
    let listing = command::queue(&mut data, 1);
    assert_eq!(listing.len(), 2);
    assert_eq!(listing[0], ("Beta".to_string(), "2:05".to_string()));
    assert_eq!(listing[1], ("Gamma".to_string(), "0:59".to_string()));
}

#[test]
fn time_str_pads_seconds() {
    assert_eq!(track("a", "Alpha", 0).time_str(), "0:00");
    assert_eq!(track("a", "Alpha", 9).time_str(), "0:09");
    assert_eq!(track("a", "Alpha", 59).time_str(), "0:59");
    assert_eq!(track("a", "Alpha", 60).time_str(), "1:00");
    assert_eq!(track("a", "Alpha", 125).time_str(), "2:05");
    assert_eq!(track("a", "Alpha", 600).time_str(), "10:00");
    assert_eq!(track("a", "Alpha", 3725).time_str(), "62:05");
}

#[test]
fn time_reports_duration() {
    assert_eq!(track("a", "Alpha", 321).time(), 321);
}

#[test]
fn unload_keeps_identifier() {
    let r = track("abc123", "Alpha", 1).unload();
    let UnloadedAudioLink::Youtube(id) = r;
    assert_eq!(id, "abc123");
}

#[test]
fn classify_infos_by_count() {
    assert_eq!(
        playback::youtube::classify_infos(vec![]).unwrap_err(),
        Error::ResolutionFailure
    );
    match playback::youtube::classify_infos(vec![info("a", "Alpha", 1)]) {
        Ok(InfoType::Video(v)) => assert_eq!(v.title, "Alpha"),
        _ => panic!("one record is a single video"),
    }
    match playback::youtube::classify_infos(vec![info("a", "Alpha", 1), info("b", "Beta", 2)]) {
        Ok(InfoType::Playlist(list)) => assert_eq!(list.len(), 2),
        _ => panic!("several records are a playlist"),
    }
}

#[test]
fn parse_takes_playlist_title_from_first_entry() {
    let mut first = info("a", "Alpha", 1);
    first.playlist = Some("Mix".to_string());
    let answer = Ok(InfoType::Playlist(vec![first, info("b", "Beta", 2)]));
    match AudioLink::parse(answer) {
        Ok(ParseResult::Multiple(list, meta)) => {
            assert_eq!(meta.title, "Mix");
            assert_eq!(list.len(), 2);
        },
        _ => panic!("a playlist parses to a multiple result"),
    }
    let unnamed = Ok(InfoType::Playlist(vec![info("a", "Alpha", 1), info("b", "Beta", 2)]));
    match AudioLink::parse(unnamed) {
        Ok(ParseResult::Multiple(_, meta)) => assert_eq!(meta.title, "Unknown"),
        _ => panic!("a playlist parses to a multiple result"),
    }
    assert!(matches!(
        AudioLink::parse(Err(Error::ResolutionFailure)),
        Err(Error::ResolutionFailure)
    ));
}
