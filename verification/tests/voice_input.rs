use cdc::voice::recorder::RecorderError;
use cdc::voice::transcriber::{
    find_stt_script, script_candidates, stt_candidates, write_wav, ProgramRun, Transcriber,
    TranscriberError,
};
use cdc::voice::{
    load_event, transcription_event, VoiceEvent, VoiceManager, VoiceRequest, VoiceState,
};

#[test]
fn test_initial_state_is_idle() {
    let mgr = VoiceManager::new();
    assert!(matches!(mgr.state(), VoiceState::Idle));
}

#[test]
fn test_toggle_while_transcribing_is_ignored() {
    let mut mgr = VoiceManager::new();
    mgr.state = VoiceState::Transcribing;
    mgr.toggle(); // should not panic
    assert!(matches!(mgr.state(), VoiceState::Transcribing));
}

#[test]
fn test_toggle_while_downloading_is_ignored() {
    let mut mgr = VoiceManager::new();
    mgr.state = VoiceState::Downloading(50, 100);
    mgr.toggle(); // should not panic
    assert!(matches!(mgr.state(), VoiceState::Downloading(_, _)));
}

#[test]
fn a_recording_goes_through_its_states() {
    let mut mgr = VoiceManager::new();
    assert_eq!(mgr.toggle(), VoiceRequest::Start);
    let events = mgr.recording_started(Ok(()), 1000);
    assert_eq!(events.len(), 1);
    assert!(matches!(events[0], VoiceEvent::StateChanged(VoiceState::Recording)));
    assert!(matches!(mgr.state(), VoiceState::Recording));
    assert_eq!(mgr.toggle(), VoiceRequest::Stop);
    assert!(!mgr.recorder);
    // A second key press finds no recording any more.
    assert_eq!(mgr.toggle(), VoiceRequest::Nothing);
    let (events, request) = mgr.recording_stopped(Ok(16000));
    assert_eq!(request, VoiceRequest::LoadAndTranscribe);
    assert!(matches!(
        events[0],
        VoiceEvent::StateChanged(VoiceState::Downloading(0, 0))
    ));
    assert!(matches!(mgr.state(), VoiceState::Transcribing));
    assert_eq!(mgr.toggle(), VoiceRequest::Nothing);
}

#[test]
fn a_loaded_transcriber_is_used_at_once() {
    let mut mgr = VoiceManager::new();
    mgr.transcriber = true;
    mgr.recording_started(Ok(()), 0);
    mgr.toggle();
    let (events, request) = mgr.recording_stopped(Ok(1));
    assert_eq!(request, VoiceRequest::Transcribe);
    assert!(matches!(events[0], VoiceEvent::StateChanged(VoiceState::Transcribing)));
}

#[test]
fn an_empty_recording_is_dropped() {
    let mut mgr = VoiceManager::new();
    mgr.recording_started(Ok(()), 0);
    mgr.toggle();
    let (events, request) = mgr.recording_stopped(Ok(0));
    assert_eq!(request, VoiceRequest::Nothing);
    assert!(matches!(events[0], VoiceEvent::StateChanged(VoiceState::Idle)));
    assert!(matches!(mgr.state(), VoiceState::Idle));
}

#[test]
fn recorder_errors_are_shown_and_cleared() {
    let mut mgr = VoiceManager::new();
    let events = mgr.recording_started(Err(RecorderError::NoInputDevice), 0);
    match &events[0] {
        VoiceEvent::Error(msg) => assert_eq!(
            msg,
            "No audio input device found. Grant microphone access to your terminal in System Settings > Privacy > Microphone"
        ),
        _ => panic!("expected an error"),
    }
    assert!(matches!(mgr.state(), VoiceState::Error(_)));
    // The next key press tries again.
    assert_eq!(mgr.toggle(), VoiceRequest::Start);
    mgr.recording_started(Ok(()), 0);
    mgr.toggle();
    let (events, request) = mgr.recording_stopped(Err(RecorderError::StreamError("x".to_string())));
    assert_eq!(request, VoiceRequest::Nothing);
    assert!(matches!(&events[0], VoiceEvent::Error(msg) if msg == "Audio stream error: x"));
    assert_eq!(
        RecorderError::StreamConfig("y".to_string()).message(),
        "Audio config error: y"
    );
}

#[test]
fn a_recording_stops_after_five_minutes() {
    let mut mgr = VoiceManager::new();
    assert_eq!(mgr.check_timeout(1_000_000), VoiceRequest::Nothing);
    mgr.recording_started(Ok(()), 5_000);
    assert_eq!(mgr.check_timeout(304_999), VoiceRequest::Nothing);
    assert_eq!(mgr.check_timeout(1_000), VoiceRequest::Nothing);
    assert_eq!(mgr.check_timeout(305_000), VoiceRequest::Stop);
    assert_eq!(mgr.recording_start, None);
}

#[test]
fn load_and_transcription_are_reported() {
    assert!(matches!(
        load_event(Some(Ok(()))),
        VoiceEvent::StateChanged(VoiceState::Transcribing)
    ));
    assert!(matches!(
        load_event(None),
        VoiceEvent::Error(msg) if msg == "Transcriber init failed"
    ));
    assert!(matches!(
        load_event(Some(Err(TranscriberError::WavWrite("disk".to_string())))),
        VoiceEvent::Error(msg) if msg == "WAV write failed: disk"
    ));
    assert!(matches!(
        transcription_event(Ok("text".to_string())),
        VoiceEvent::Transcribed(text) if text == "text"
    ));
    assert!(matches!(
        transcription_event(Err(TranscriberError::Transcription("no".to_string()))),
        VoiceEvent::Error(msg) if msg == "Transcription failed: no"
    ));
}

fn ended(success: bool, stdout: &[u8], stderr: &[u8]) -> ProgramRun {
    ProgramRun::Ended { success, stdout: stdout.to_vec(), stderr: stderr.to_vec() }
}

#[test]
fn the_check_for_python_decides() {
    assert!(Transcriber::new(&ended(true, b"", b"")).is_ok());
    match Transcriber::new(&ended(false, b"", b"  no module \n")) {
        Err(e) => assert_eq!(
            e.message(),
            "Transcription failed: faster-whisper not installed. Run: pip install faster-whisper\nno module"
        ),
        Ok(_) => panic!("expected an error"),
    }
    match Transcriber::new(&ProgramRun::NotStarted("missing".to_string())) {
        Err(e) => assert_eq!(e.message(), "Transcription failed: python3 not found: missing"),
        Ok(_) => panic!("expected an error"),
    }
}

#[test]
fn the_script_gives_text_or_an_error() {
    let t = Transcriber;
    assert_eq!(t.transcribe(&ended(true, " 안녕 \n".as_bytes(), b"")).unwrap(), "안녕");
    // Bytes that are not UTF-8 are replaced.
    assert_eq!(t.transcribe(&ended(true, b"a\xffb", b"")).unwrap(), "a\u{fffd}b");
    match t.transcribe(&ended(false, b"", b" boom ")) {
        Err(e) => assert_eq!(e.message(), "Transcription failed: stt.py failed: boom"),
        Ok(_) => panic!("expected an error"),
    }
    match t.transcribe(&ProgramRun::NotStarted("gone".to_string())) {
        Err(e) => assert_eq!(e.message(), "Transcription failed: Failed to run stt.py: gone"),
        Ok(_) => panic!("expected an error"),
    }
}

#[test]
fn the_script_is_looked_for_in_order() {
    assert_eq!(
        stt_candidates(&Some("/opt/cdc/target/release/cdc".to_string())),
        vec![
            "/opt/cdc/target/release/scripts/stt.py".to_string(),
            "/opt/cdc/scripts/stt.py".to_string(),
            "scripts/stt.py".to_string(),
        ]
    );
    assert_eq!(
        stt_candidates(&Some("/cdc".to_string())),
        vec!["/scripts/stt.py".to_string(), "scripts/stt.py".to_string()]
    );
    assert_eq!(stt_candidates(&None), vec!["scripts/stt.py".to_string()]);
    assert_eq!(
        script_candidates(&Some("a".to_string()), &None),
        vec!["a/scripts/stt.py".to_string(), "scripts/stt.py".to_string()]
    );
    assert_eq!(find_stt_script(&vec![false, true, true]), 1);
    assert_eq!(find_stt_script(&vec![false, false, false]), 2);
    assert_eq!(find_stt_script(&vec![true]), 0);
}

#[test]
fn a_wav_file_is_exact() {
    let bytes = write_wav(&vec![0, 1, -1, i16::MIN], 16000);
    let mut expected: Vec<u8> = Vec::new();
    expected.extend_from_slice(b"RIFF");
    expected.extend_from_slice(&44u32.to_le_bytes());
    expected.extend_from_slice(b"WAVEfmt ");
    expected.extend_from_slice(&16u32.to_le_bytes());
    expected.extend_from_slice(&1u16.to_le_bytes());
    expected.extend_from_slice(&1u16.to_le_bytes());
    expected.extend_from_slice(&16000u32.to_le_bytes());
    expected.extend_from_slice(&32000u32.to_le_bytes());
    expected.extend_from_slice(&2u16.to_le_bytes());
    expected.extend_from_slice(&16u16.to_le_bytes());
    expected.extend_from_slice(b"data");
    expected.extend_from_slice(&8u32.to_le_bytes());
    for v in [0i16, 1, -1, i16::MIN] {
        expected.extend_from_slice(&v.to_le_bytes());
    }
    assert_eq!(bytes, expected);
    assert_eq!(bytes.len(), 44 + 2 * 4);
}

#[test]
fn a_voice_state_clones() {
    let state = VoiceState::Error("e".to_string());
    assert!(matches!(state.clone(), VoiceState::Error(msg) if msg == "e"));
}
