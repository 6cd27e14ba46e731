use playback::Error;
use playback::audio_link::AudioLink;
use playback::audio_link::ParseResult;
use playback::audio_link::UnloadedAudioLink;
use playback::codec;
use playback::command;
use playback::context_data::Data;
use playback::youtube::YoutubeInfo;

fn track(id: &str, title: &str, secs: u32) -> AudioLink {
    AudioLink::Youtube(YoutubeInfo {
        id: id.to_string(),
        title: title.to_string(),
        description: None,
        channel: "channel".to_string(),
        channel_url: "https://example.invalid/channel".to_string(),
        duration: secs,
        playlist: None,
    })
}

fn single(id: &str, title: &str, secs: u32) -> ParseResult {
    ParseResult::Single(track(id, title, secs))
}

fn ref_id(r: &UnloadedAudioLink) -> String {
    let UnloadedAudioLink::Youtube(id) = r;
    id.clone()
}

/// Re-resolving a reference in these tests just rebuilds a track with the
/// same identifier, standing in for the external lookup.
fn resolve(r: &UnloadedAudioLink) -> AudioLink {
    let id = ref_id(r);
    track(&id, &format!("Resolved {id}"), 1)
}

#[test]
fn export_token_has_known_form() {
    let mut data = Data::new();
    command::play(&mut data, 1, single("abc", "Alpha", 1), true);
    let token = command::export(&mut data, 1);
    assert_eq!(token, "gaFieXRjYWJj");
}

#[test]
fn export_of_empty_session_is_empty_array() {
    let mut data = Data::new();
    let token = command::export(&mut data, 1);
    assert_eq!(token, "gA==");
    let refs = codec::import_decode(&token).expect("an exported token decodes");
    assert!(refs.is_empty());
}

#[test]
fn export_lists_playing_track_first() {
    let mut data = Data::new();
    command::play(&mut data, 1, single("a", "Alpha", 1), true);
    command::play(&mut data, 1, single("b", "Beta", 2), true);
    command::play(&mut data, 1, single("c", "Gamma", 3), true);
    let token = command::export(&mut data, 1);
    let refs = codec::import_decode(&token).expect("an exported token decodes");
    let ids: Vec<String> = refs.iter().map(ref_id).collect();
    assert_eq!(ids, vec!["a".to_string(), "b".to_string(), "c".to_string()]);
}

#[test]
fn export_import_round_trip_into_fresh_session() {
    let mut data = Data::new();
    command::play(&mut data, 1, single("a", "Alpha", 1), true);
    command::play(&mut data, 1, single("b", "Beta", 2), true);
    command::play(&mut data, 1, single("c", "Gamma", 3), true);
    let token = command::export(&mut data, 1);

    let refs = codec::import_decode(&token).expect("an exported token decodes");
    let tracks: Vec<AudioLink> = refs.iter().map(resolve).collect();
    let started = command::import(&mut data, 2, tracks, true);
    assert_eq!(started.unwrap().title(), "Resolved a");

    let playing = command::now_playing(&mut data, 2).expect("the import started playback");
    let UnloadedAudioLink::Youtube(playing_id) = playing.unload();
    assert_eq!(playing_id, "a");
    let queued: Vec<String> = command::queue(&mut data, 2)
        .into_iter()
        .map(|e| e.0)
        .collect();
    assert_eq!(queued, vec!["Resolved b".to_string(), "Resolved c".to_string()]);
}

#[test]
fn long_identifiers_round_trip() {
    let long_a = "a".repeat(40);
    let long_b = "b".repeat(300);
    let refs = vec![
        UnloadedAudioLink::Youtube(long_a.clone()),
        UnloadedAudioLink::Youtube(long_b.clone()),
        UnloadedAudioLink::Youtube(String::new()),
    ];
    let token = codec::export_token(&refs);
    let back = codec::import_decode(&token).expect("an exported token decodes");
    let ids: Vec<String> = back.iter().map(ref_id).collect();
    assert_eq!(ids, vec![long_a, long_b, String::new()]);
}

#[test]
fn non_ascii_identifiers_round_trip() {
    let odd = "identifiant-épatant-日本語";
    let refs = vec![UnloadedAudioLink::Youtube(odd.to_string())];
    let token = codec::export_token(&refs);
    let back = codec::import_decode(&token).expect("an exported token decodes");
    assert_eq!(ref_id(&back[0]), odd);
}

#[test]
fn import_of_garbled_text_fails() {
    assert_eq!(
        codec::import_decode("not a token!").unwrap_err(),
        Error::ImportDecodeFailure
    );
}

#[test]
fn import_of_wrong_binary_form_fails() {
    // Valid text encoding, but the bytes underneath spell no snapshot.
    assert_eq!(
        codec::import_decode("AAAA").unwrap_err(),
        Error::ImportDecodeFailure
    );
}

#[test]
fn import_of_truncated_token_fails() {
    let refs = vec![UnloadedAudioLink::Youtube("abcdefgh".to_string())];
    let bytes = codec::encode_refs(&refs);
    let truncated: Vec<u8> = bytes[..bytes.len() - 2].to_vec();
    assert!(codec::decode_refs(&truncated).is_err());
}

#[test]
fn import_with_trailing_bytes_fails() {
    let refs = vec![UnloadedAudioLink::Youtube("abc".to_string())];
    let mut bytes = codec::encode_refs(&refs);
    bytes.push(0);
    assert!(codec::decode_refs(&bytes).is_err());
}

#[test]
fn decode_accepts_wider_headers() {
    // The same single-reference snapshot, with the array count spelled out
    // in a two-byte header instead of the short form.
    let canonical = codec::encode_refs(&vec![UnloadedAudioLink::Youtube("abc".to_string())]);
    let mut wide: Vec<u8> = vec![0x99, 0x00, 0x01];
    wide.extend_from_slice(&canonical[1..]);
    let refs = codec::decode_refs(&wide).expect("a definite-length header decodes");
    assert_eq!(ref_id(&refs[0]), "abc");
}

#[test]
fn decode_rejects_text_that_is_not_utf8() {
    // An array of one reference whose two identifier bytes are not UTF-8.
    let bytes: Vec<u8> = vec![0x81, 0xa1, 0x62, 0x79, 0x74, 0x62, 0xff, 0xfe];
    assert_eq!(
        codec::decode_refs(&bytes).unwrap_err(),
        Error::ImportDecodeFailure
    );
}

#[test]
fn many_references_round_trip() {
    // More than 23 references, so the array count needs a wide header.
    let refs: Vec<UnloadedAudioLink> = (0..30)
        .map(|i: u32| UnloadedAudioLink::Youtube(format!("id{i}")))
        .collect();
    let token = codec::export_token(&refs);
    let back = codec::import_decode(&token).expect("an exported token decodes");
    assert_eq!(back.len(), 30);
    for (i, r) in back.iter().enumerate() {
        assert_eq!(ref_id(r), format!("id{i}"));
    }
}

#[test]
fn very_long_identifier_round_trips() {
    // An identifier beyond 65535 bytes, so its length needs a four-byte
    // header.
    let huge = "x".repeat(70_000);
    let refs = vec![UnloadedAudioLink::Youtube(huge.clone())];
    let token = codec::export_token(&refs);
    let back = codec::import_decode(&token).expect("an exported token decodes");
    assert_eq!(ref_id(&back[0]), huge);
}

#[test]
fn import_of_empty_token_changes_nothing() {
    let mut data = Data::new();
    let token = command::export(&mut data, 1);
    let refs = codec::import_decode(&token).expect("an exported token decodes");
    let tracks: Vec<AudioLink> = refs.iter().map(resolve).collect();
    let started = command::import(&mut data, 1, tracks, true);
    assert!(started.is_none());
    assert!(command::now_playing(&mut data, 1).is_none());
    assert!(command::queue(&mut data, 1).is_empty());
}
