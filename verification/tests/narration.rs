use spotifast::narration::{
    choose_narration, encode_tts_request, parse_provider, parse_voice, NarrationPart, TtsAction,
    TtsEvent, TtsFailure, TtsFetch,
};

#[test]
fn test_parse_voice() {
    assert_eq!(parse_voice(Some("VOICE1")), 1);
    assert_eq!(parse_voice(Some("VOICE2")), 2);
    assert_eq!(parse_voice(Some("VOICE15")), 15);
    assert_eq!(parse_voice(Some("VOICEXYZ")), 1);
    assert_eq!(parse_voice(Some("OTHER")), 1);
    assert_eq!(parse_voice(None), 1);
}

#[test]
fn test_parse_provider() {
    assert_eq!(parse_provider(Some("SONANTIC_FAST")), 6);
    assert_eq!(parse_provider(Some("SONANTIC_DEPRECATED")), 5);
    assert_eq!(parse_provider(Some("WELL_SAID")), 4);
    assert_eq!(parse_provider(Some("POLLY")), 3);
    assert_eq!(parse_provider(Some("READSPEAKER")), 2);
    assert_eq!(parse_provider(Some("CLOUD_TTS")), 1);
    assert_eq!(parse_provider(Some("CUSTOM_FALLBACK")), 6);
    assert_eq!(parse_provider(None), 6);
}

#[test]
fn test_encode_tts_request_structure() {
    let ssml = "<speak>Here is your mix</speak>";
    let voice = 1;
    let provider = 6;
    let sample_rate = 44100;
    let format = 5; // MP3

    let encoded = encode_tts_request(ssml, voice, provider, sample_rate, format);

    // Field 2 (prompt): tag (2 << 3) | 2 = 0x12
    assert_eq!(encoded[0], 0x12);
    assert_eq!(encoded[1], ssml.len() as u8);
    assert_eq!(&encoded[2..2 + ssml.len()], ssml.as_bytes());

    // Field tags 3, 5, 6 and 7 are 0x18, 0x28, 0x30 and 0x38.
    assert!(encoded.windows(2).any(|w| w == [0x18, format as u8]));
    assert!(encoded.windows(2).any(|w| w == [0x28, voice as u8]));
    assert!(encoded.windows(2).any(|w| w == [0x30, provider as u8]));
}

#[test]
fn the_whole_request_is_encoded_field_by_field() {
    let encoded = encode_tts_request("hi", 2, 3, 44100, 4);
    assert_eq!(
        encoded,
        vec![0x12, 2, b'h', b'i', 0x18, 4, 0x28, 2, 0x30, 3, 0x38, 0xc4, 0xd8, 0x02]
    );
}

#[test]
fn long_prompts_and_large_values_take_multibyte_varints() {
    let prompt = "x".repeat(300);
    let encoded = encode_tts_request(&prompt, 4294967295, 6, 44100, 5);
    // 300 is 0xac 0x02 as a varint.
    assert_eq!(&encoded[..3], &[0x12, 0xac, 0x02]);
    // The voice, u32::MAX, takes five bytes after its tag.
    let voice_at = 3 + 300 + 2;
    assert_eq!(&encoded[voice_at..voice_at + 6], &[0x28, 0xff, 0xff, 0xff, 0xff, 0x0f]);
    // A prompt that is not ASCII counts its bytes.
    let accented = encode_tts_request("é", 1, 6, 44100, 5);
    assert_eq!(&accented[..4], &[0x12, 2, 0xc3, 0xa9]);
}

#[test]
fn voice_numbers_parse_like_u32() {
    assert_eq!(parse_voice(Some("VOICE+7")), 7);
    assert_eq!(parse_voice(Some("VOICE+")), 1);
    assert_eq!(parse_voice(Some("VOICE")), 1);
    assert_eq!(parse_voice(Some("VOICE-3")), 1);
    assert_eq!(parse_voice(Some("VOICE007")), 7);
    assert_eq!(parse_voice(Some("VOICE4294967295")), 4294967295);
    assert_eq!(parse_voice(Some("VOICE4294967296")), 1);
    assert_eq!(parse_voice(Some("voice3")), 1);
}

#[test]
fn the_first_present_commentary_is_voiced() {
    assert_eq!(choose_narration(Some("<speak/>"), Some("x"), None), Some(NarrationPart::Intro));
    assert_eq!(choose_narration(None, Some("<speak/>"), Some("x")), Some(NarrationPart::Jump));
    assert_eq!(choose_narration(None, None, Some("<speak/>")), Some(NarrationPart::Outro));
    assert_eq!(choose_narration(None, None, None), None);
    // An empty commentary stops narration rather than falling through.
    assert_eq!(choose_narration(Some(""), Some("<speak/>"), None), None);
    assert_eq!(NarrationPart::Jump.prefix(), "narration.jump");
}

#[test]
fn the_speech_fetch_tries_mp3_then_vorbis_then_wav() {
    let (f, a) = TtsFetch::start();
    assert_eq!(a, TtsAction::Request { format: 5 });
    let (f, a) = f.step(TtsEvent::SendFailed);
    assert_eq!(a, TtsAction::Request { format: 4 });
    assert_eq!(f.last_failure, Some(TtsFailure::Unsent));
    let (f, a) = f.step(TtsEvent::Answered { status: 500, has_location: false });
    assert_eq!(a, TtsAction::Request { format: 1 });
    assert_eq!(f.last_failure, Some(TtsFailure::ServiceStatus(500)));
    let (f, a) = f.step(TtsEvent::Answered { status: 302, has_location: false });
    assert_eq!(a, TtsAction::GiveUp);
    assert_eq!(f.attempt, 3);
    assert_eq!(f.last_failure, Some(TtsFailure::ServiceStatus(500)));
}

#[test]
fn redirects_are_followed_and_empty_bodies_move_on() {
    let (f, _) = TtsFetch::start();
    let (f, a) = f.step(TtsEvent::Answered { status: 303, has_location: true });
    assert_eq!(a, TtsAction::FollowRedirect);
    let (f, a) = f.step(TtsEvent::Downloaded { status: 404 });
    assert_eq!(a, TtsAction::Request { format: 4 });
    assert_eq!(f.last_failure, Some(TtsFailure::DownloadStatus(404)));
    let (f, a) = f.step(TtsEvent::Answered { status: 200, has_location: false });
    assert_eq!(a, TtsAction::ReadBody);
    let (f, a) = f.step(TtsEvent::BodyRead { empty: true });
    assert_eq!(a, TtsAction::Request { format: 1 });
    assert_eq!(f.last_failure, Some(TtsFailure::DownloadStatus(404)));
    let (_, a) = f.step(TtsEvent::Answered { status: 307, has_location: true });
    assert_eq!(a, TtsAction::FollowRedirect);
    let (f, _) = TtsFetch::start();
    let (f, a) = f.step(TtsEvent::Answered { status: 204, has_location: false });
    assert_eq!(a, TtsAction::ReadBody);
    assert_eq!(f.step(TtsEvent::BodyRead { empty: false }).1, TtsAction::Deliver);
}
