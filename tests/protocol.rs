use whisperbar::audio::{choose_default_mic, contains_any, microphone_keywords, score_mic, AudioDeviceOption};
use whisperbar::models::{default_model_id, find_model, model_options, model_path};
use whisperbar::protocol::{decode_install_line, decode_worker_line, parse_permille, InstallEvent, WorkerEvent};
use whisperbar::session::StateInner;

#[test]
fn worker_lines_decode_by_type() {
    match decode_worker_line(r#"{"type":"partial","text":"hi there"}"#) {
        Some(WorkerEvent::Partial { text }) => assert_eq!(text, Some("hi there".to_string())),
        _ => panic!("expected a partial event"),
    }
    match decode_worker_line(r#"{"type":"error"}"#) {
        Some(WorkerEvent::Error { message }) => assert_eq!(message, None),
        _ => panic!("expected an error event"),
    }
    match decode_worker_line(r#"{"type":"status","message":"loading model"}"#) {
        Some(WorkerEvent::Status { message }) => assert_eq!(message, Some("loading model".to_string())),
        _ => panic!("expected a status event"),
    }
}

#[test]
fn malformed_and_unknown_lines_are_skipped() {
    assert!(decode_worker_line("not json").is_none());
    assert!(decode_worker_line(r#"{"type":"par"#).is_none());
    assert!(decode_worker_line(r#"{"type":"heartbeat"}"#).is_none());
    assert!(decode_worker_line(r#"{"text":"no type"}"#).is_none());
    assert!(decode_install_line(r#"{"type":"partial"}"#).is_none());
}

#[test]
fn lines_with_mistyped_fields_are_skipped() {
    assert!(decode_worker_line(r#"{"type":"error","message":5}"#).is_none());
    assert!(decode_worker_line(r#"{"type":"status","text":[1]}"#).is_none());
    assert!(decode_worker_line(r#"{"type":7}"#).is_none());
    assert!(decode_install_line(r#"{"type":"progress","progress":"half"}"#).is_none());
    assert!(decode_install_line(r#"{"type":"ready","model_id":true}"#).is_none());
}

#[test]
fn null_fields_count_as_absent() {
    match decode_worker_line(r#"{"type":"partial","text":null,"extra":1}"#) {
        Some(WorkerEvent::Partial { text }) => assert_eq!(text, None),
        _ => panic!("expected a partial event"),
    }
    match decode_install_line(r#"{"type":"progress","progress":null}"#) {
        Some(InstallEvent::Progress { fraction, .. }) => assert_eq!(fraction, None),
        _ => panic!("expected progress"),
    }
}

#[test]
fn install_lines_decode_with_progress() {
    match decode_install_line(r#"{"type":"progress","message":"downloading","progress":0.35}"#) {
        Some(InstallEvent::Progress { message, fraction }) => {
            assert_eq!(message, Some("downloading".to_string()));
            assert_eq!(fraction, Some(350));
        }
        _ => panic!("expected progress"),
    }
    match decode_install_line(r#"{"type":"ready","model_id":"large-v3","venv_python":"/p"}"#) {
        Some(InstallEvent::Ready { venv_python, model_path, model_id }) => {
            assert_eq!(venv_python, Some("/p".to_string()));
            assert_eq!(model_path, None);
            assert_eq!(model_id, Some("large-v3".to_string()));
        }
        _ => panic!("expected ready"),
    }
}

#[test]
fn fractions_read_as_thousandths() {
    assert_eq!(parse_permille("0.35"), Some(350));
    assert_eq!(parse_permille("1"), Some(1000));
    assert_eq!(parse_permille("1.0"), Some(1000));
    assert_eq!(parse_permille("0.1239"), Some(123));
    assert_eq!(parse_permille("abc"), None);
    assert_eq!(parse_permille(""), None);
    assert_eq!(parse_permille("1e-5"), None);
    assert_eq!(parse_permille("1.2.3"), None);
}

#[test]
fn catalog_lookup() {
    assert_eq!(default_model_id(), "large-v3-turbo");
    assert_eq!(find_model("large-v3").map(|m| m.folder), Some("whisper-large-v3"));
    assert!(find_model("tiny").is_none());
    assert_eq!(model_path("/a", "large-v3-turbo"), Some("/a/models/whisper-large-v3-turbo".to_string()));
    assert_eq!(model_path("/a", "x"), None);
    let options = model_options();
    assert_eq!(options.len(), 2);
    assert_eq!(options[0].id, "large-v3-turbo");
    assert_eq!(options[1].name, "Large v3");
    assert_eq!(options[1].size_label, "3.10 GB");
}

fn device(id: &str, name: &str) -> AudioDeviceOption {
    AudioDeviceOption { id: id.to_string(), name: name.to_string(), is_microphone_like: false }
}

#[test]
fn mic_scores_follow_keywords() {
    assert_eq!(score_mic("MacBook Pro Microphone"), 195);
    assert_eq!(score_mic("iPhone Microphone"), 130);
    assert_eq!(score_mic("ZoomAudioDevice"), -130);
    assert_eq!(score_mic("Speakers"), 0);
    assert!(contains_any("usb mic", &microphone_keywords()));
    assert!(!contains_any("speakers", &microphone_keywords()));
}

#[test]
fn default_mic_is_best_scoring_and_last_among_equals() {
    let devices = vec![
        device("0", "ZoomAudioDevice"),
        device("1", "MacBook Pro Microphone"),
        device("2", "iPhone Microphone"),
    ];
    assert_eq!(choose_default_mic(&devices), Some("1".to_string()));
    let ties = vec![device("0", "Headset"), device("1", "USB Mic")];
    assert_eq!(choose_default_mic(&ties), Some("1".to_string()));
    assert_eq!(choose_default_mic(&Vec::new()), None);
}

#[test]
fn reconcile_keeps_listed_mic_and_replaces_missing_one() {
    let devices = vec![device("0", "Speakers"), device("1", "External Microphone")];
    let mut s: StateInner<u32> = StateInner::new("/d".to_string(), None);
    s.selected_mic_device = Some("0".to_string());
    s.reconcile_mic(&devices);
    assert_eq!(s.selected_mic_device, Some("0".to_string()));
    s.selected_mic_device = Some("9".to_string());
    s.reconcile_mic(&devices);
    assert_eq!(s.selected_mic_device, Some("1".to_string()));
}

#[test]
fn device_listing_reads_the_audio_section() {
    let listing = "[AVFoundation indev @ 0x1] AVFoundation video devices:\n\
[AVFoundation indev @ 0x1] [0] FaceTime HD Camera\n\
[AVFoundation indev @ 0x1] AVFoundation audio devices:\n\
[AVFoundation indev @ 0x1] [0] MacBook Pro Microphone  \n\
[AVFoundation indev @ 0x1] [1] ZoomAudioDevice\n\
some noise\n\
: Input/output error\n";
    let devices = whisperbar::audio::parse_device_listing(listing);
    assert_eq!(devices.len(), 2);
    assert_eq!(devices[0].id, "0");
    assert_eq!(devices[0].name, "MacBook Pro Microphone");
    assert!(devices[0].is_microphone_like);
    assert_eq!(devices[1].id, "1");
    assert_eq!(devices[1].name, "ZoomAudioDevice");
    assert!(!devices[1].is_microphone_like);
}

#[test]
fn stop_command_ignores_case_and_spaces() {
    assert!(whisperbar::protocol::is_stop_command("stop\n"));
    assert!(whisperbar::protocol::is_stop_command("  StOp \r\n"));
    assert!(!whisperbar::protocol::is_stop_command("stopped"));
    assert!(!whisperbar::protocol::is_stop_command(""));
}

#[test]
fn weights_files_are_recognised_by_name() {
    assert!(whisperbar::models::is_weights_file("weights.npz"));
    assert!(whisperbar::models::is_weights_file("model.safetensors"));
    assert!(!whisperbar::models::is_weights_file("config.json"));
    assert!(!whisperbar::models::is_weights_file("weights"));
}

#[test]
fn device_listing_accepts_crlf_line_endings() {
    let listing = "AVFoundation audio devices:\r\n[0] USB Mic\r\n[1] Speakers\r\nAVFoundation video devices:\r\n[2] Camera";
    let devices = whisperbar::audio::parse_device_listing(listing);
    assert_eq!(devices.len(), 2);
    assert_eq!(devices[0].name, "USB Mic");
    assert!(devices[0].is_microphone_like);
    assert_eq!(devices[1].id, "1");
}
