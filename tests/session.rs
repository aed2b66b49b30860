use whisperbar::protocol::{InstallEvent, WorkerEvent};
use whisperbar::session::{
    worker_args, AppStatus, InstallStep, PersistedSettings, StateInner, PROGRESS_FULL,
    PROGRESS_START,
};

fn fresh() -> StateInner<u32> {
    StateInner::new("/data".to_string(), None)
}

fn recording() -> StateInner<u32> {
    let mut s = fresh();
    assert!(s.check_start(true, true).is_ok());
    assert!(s.attach_worker(7).is_ok());
    s
}

fn partial(text: &str) -> WorkerEvent {
    WorkerEvent::Partial { text: Some(text.to_string()) }
}

fn final_text(text: &str) -> WorkerEvent {
    WorkerEvent::Final { text: Some(text.to_string()) }
}

#[test]
fn new_session_is_ready_with_defaults() {
    let s = fresh();
    assert_eq!(s.status, AppStatus::Ready);
    assert_eq!(s.status_message, "Ready");
    assert_eq!(s.language, "en");
    assert_eq!(s.selected_model_id, "large-v3-turbo");
    assert_eq!(s.model_path, "/data/models/whisper-large-v3-turbo");
    assert_eq!(s.scripts_dir, "/data/python");
    assert_eq!(s.bootstrap_script, "/data/python/bootstrap.py");
    assert_eq!(s.worker_script, "/data/python/worker.py");
    assert_eq!(s.venv_python, "/data/python-env/bin/python");
    assert!(s.transcript.is_empty());
    assert!(s.worker.is_none());
}

#[test]
fn new_session_applies_valid_settings_only() {
    let settings = PersistedSettings {
        language: Some("pt-BR".to_string()),
        selected_model_id: Some("large-v3".to_string()),
        selected_mic_device: Some("2".to_string()),
    };
    let s: StateInner<u32> = StateInner::new("/d".to_string(), Some(settings));
    assert_eq!(s.language, "pt-BR");
    assert_eq!(s.selected_model_id, "large-v3");
    assert_eq!(s.model_path, "/d/models/whisper-large-v3");
    assert_eq!(s.selected_mic_device, Some("2".to_string()));

    let bad = PersistedSettings {
        language: Some("fr".to_string()),
        selected_model_id: Some("tiny".to_string()),
        selected_mic_device: None,
    };
    let s: StateInner<u32> = StateInner::new("/d".to_string(), Some(bad));
    assert_eq!(s.language, "en");
    assert_eq!(s.selected_model_id, "large-v3-turbo");
}

#[test]
fn missing_model_is_noted() {
    let mut s = fresh();
    s.note_model_installed(false);
    assert_eq!(
        s.status_message,
        "Model not installed. Select a model and click Install Model."
    );
    assert_eq!(s.status, AppStatus::Ready);
}

#[test]
fn final_replaces_only_with_longer_text() {
    let mut s = recording();
    s.apply_worker_event(partial("hello"));
    assert_eq!(s.transcript, "hello");
    s.apply_worker_event(final_text("hi"));
    assert_eq!(s.transcript, "hello");
    s.apply_worker_event(final_text("hello world"));
    assert_eq!(s.transcript, "hello world");
}

#[test]
fn blank_final_never_replaces() {
    let mut s = recording();
    s.apply_worker_event(final_text("     "));
    assert_eq!(s.transcript, "");
}

#[test]
fn final_length_counts_characters() {
    let mut s = recording();
    s.apply_worker_event(partial("abcd"));
    // three characters, six bytes
    s.apply_worker_event(final_text("ééé"));
    assert_eq!(s.transcript, "abcd");
}

#[test]
fn partials_are_trimmed_and_joined_by_lines() {
    let mut s = recording();
    s.apply_worker_event(partial("  testing "));
    s.apply_worker_event(partial("   "));
    s.apply_worker_event(partial("one two"));
    assert_eq!(s.transcript, "testing\none two");
    assert_eq!(s.status_message, "Recording");
}

#[test]
fn recording_round_trip_saves_final_transcript() {
    let mut s = fresh();
    assert_eq!(s.status, AppStatus::Ready);
    assert!(s.check_start(true, true).is_ok());
    assert!(s.attach_worker(1).is_ok());
    assert_eq!(s.status, AppStatus::Recording);
    s.apply_worker_event(partial("testing"));
    s.apply_worker_event(partial("one two"));
    s.apply_worker_event(final_text("testing one two three"));
    let worker = s.begin_stop();
    assert_eq!(worker, Ok(1));
    assert_eq!(s.status_message, "Stopping recording");
    let transcript = s.finish_stop();
    assert_eq!(transcript, Ok("testing one two three".to_string()));
    s.record_saved("/docs/Transcript.md".to_string());
    assert_eq!(s.status, AppStatus::Ready);
    assert_eq!(s.last_saved_path, Some("/docs/Transcript.md".to_string()));
    assert_eq!(s.install_progress, Some(PROGRESS_FULL));
    assert!(s.worker.is_none());
}

#[test]
fn stop_without_speech_is_an_error() {
    let mut s = recording();
    assert_eq!(s.begin_stop(), Ok(7));
    let r = s.finish_stop();
    let expected =
        "No speech was captured. Check microphone permission and audio input device.".to_string();
    assert_eq!(r, Err(expected.clone()));
    assert_eq!(s.status, AppStatus::Error);
    assert_eq!(s.status_message, "No transcript captured");
    assert_eq!(s.error_message, Some(expected));
    assert_eq!(s.last_saved_path, None);
}

#[test]
fn forced_stop_still_ends_by_transcript() {
    let mut s = recording();
    s.apply_worker_event(partial("kept words"));
    assert_eq!(s.begin_stop(), Ok(7));
    s.note_forced_stop(15);
    assert_eq!(s.status_message, "Worker forced to stop after 15s");
    assert_eq!(s.finish_stop(), Ok("kept words".to_string()));

    let mut s = recording();
    assert_eq!(s.begin_stop(), Ok(7));
    s.note_forced_stop(16);
    assert!(s.finish_stop().is_err());
    assert_eq!(s.status, AppStatus::Error);
}

#[test]
fn second_stop_is_rejected() {
    let mut s = recording();
    assert_eq!(s.begin_stop(), Ok(7));
    assert_eq!(s.begin_stop(), Err("missing worker process".to_string()));
    let mut idle = fresh();
    assert_eq!(idle.begin_stop(), Err("recording is not active".to_string()));
}

#[test]
fn start_checks_come_in_order() {
    let s = recording();
    assert_eq!(s.check_start(true, true), Err("recording is already active".to_string()));
    let mut s = fresh();
    assert_eq!(
        s.check_start(false, true),
        Err("Python environment is missing. Retry dependency installation".to_string())
    );
    assert_eq!(
        s.check_start(true, false),
        Err("Selected model is not installed. Click Install Model first.".to_string())
    );
    s.begin_install("large-v3").unwrap();
    assert_eq!(
        s.check_start(true, true),
        Err("dependencies are not ready yet. wait for installation to finish".to_string())
    );
}

#[test]
fn attach_while_recording_hands_worker_back() {
    let mut s = recording();
    assert_eq!(s.attach_worker(9), Err(9));
    assert_eq!(s.worker, Some(7));
}

#[test]
fn worker_error_ends_recording_and_returns_worker() {
    let mut s = recording();
    let w = s.apply_worker_event(WorkerEvent::Error { message: None });
    assert_eq!(w, Some(7));
    assert_eq!(s.status, AppStatus::Error);
    assert_eq!(s.status_message, "Recording error");
    assert_eq!(s.error_message, Some("Worker reported an unknown error".to_string()));
    assert!(s.worker.is_none());
}

#[test]
fn status_events_apply_only_while_recording() {
    let mut s = fresh();
    s.apply_worker_event(WorkerEvent::Status { message: Some("loading".to_string()) });
    assert_eq!(s.status_message, "Ready");
    let mut s = recording();
    s.apply_worker_event(WorkerEvent::Status { message: Some("loading".to_string()) });
    assert_eq!(s.status_message, "loading");
    s.apply_worker_stderr("warming up");
    assert_eq!(s.status_message, "Recording (warming up)");
    s.apply_worker_stderr("   ");
    assert_eq!(s.status_message, "Recording (warming up)");
}

#[test]
fn install_runs_through_progress_to_ready() {
    let mut s = fresh();
    let model = s.begin_install("large-v3").unwrap();
    assert_eq!(s.status, AppStatus::Installing);
    assert_eq!(s.status_message, "Preparing model: Large v3");
    assert_eq!(s.install_progress, Some(PROGRESS_START));
    let step = s.apply_install_event(
        model,
        InstallEvent::Progress { message: None, fraction: Some(400) },
    );
    assert!(matches!(step, InstallStep::Continue));
    assert_eq!(s.install_progress, Some(400));
    assert_eq!(s.status_message, "Preparing model: Large v3");
    let step = s.apply_install_event(
        model,
        InstallEvent::Ready {
            venv_python: Some("/py".to_string()),
            model_path: None,
            model_id: None,
        },
    );
    assert!(matches!(step, InstallStep::SaveSettings));
    assert_eq!(s.status, AppStatus::Ready);
    assert_eq!(s.venv_python, "/py");
    assert_eq!(s.selected_model_id, "large-v3");
    assert_eq!(s.install_progress, Some(PROGRESS_FULL));
    assert_eq!(s.finish_install(true, ""), Ok(()));
    assert_eq!(s.status, AppStatus::Ready);
}

#[test]
fn install_error_event_fails() {
    let mut s = fresh();
    let model = s.begin_install("large-v3-turbo").unwrap();
    let step = s.apply_install_event(model, InstallEvent::Error { message: Some("disk full".to_string()) });
    match step {
        InstallStep::Failed(m) => assert_eq!(m, "disk full"),
        _ => panic!("expected failure"),
    }
    assert_eq!(s.status, AppStatus::Error);
    assert_eq!(s.error_message, Some("disk full".to_string()));
    assert_eq!(s.install_progress, None);
}

#[test]
fn install_exit_failure_uses_stderr() {
    let mut s = fresh();
    s.begin_install("large-v3").unwrap();
    assert_eq!(
        s.finish_install(false, "  "),
        Err("Dependency/model installation failed with a non-zero exit code".to_string())
    );
    let mut s = fresh();
    s.begin_install("large-v3").unwrap();
    assert_eq!(
        s.finish_install(false, "pip broke"),
        Err("Dependency/model installation failed: pip broke".to_string())
    );
    assert_eq!(s.status, AppStatus::Error);
}

#[test]
fn install_exit_success_forces_ready() {
    let mut s = fresh();
    s.begin_install("large-v3").unwrap();
    assert_eq!(s.finish_install(true, ""), Ok(()));
    assert_eq!(s.status, AppStatus::Ready);
    assert_eq!(s.install_progress, Some(PROGRESS_FULL));
}

#[test]
fn install_refuses_unknown_model_and_active_recording() {
    let mut s = fresh();
    assert_eq!(s.begin_install("tiny").unwrap_err(), "unsupported model id: tiny");
    let mut s = recording();
    assert_eq!(s.begin_install("large-v3").unwrap_err(), "recording is already active");
}

#[test]
fn clear_error_returns_to_ready() {
    let mut s = fresh();
    assert_eq!(s.set_error("boom".to_string()), None);
    assert_eq!(s.status, AppStatus::Error);
    assert_eq!(s.status_message, "Error");
    s.clear_error();
    assert_eq!(s.status, AppStatus::Ready);
    assert_eq!(s.status_message, "Ready");
    assert_eq!(s.error_message, None);
}

#[test]
fn settings_commands_validate_input() {
    let mut s = fresh();
    assert_eq!(s.set_language("de".to_string()), Err("unsupported language".to_string()));
    assert_eq!(s.set_language("pt-BR".to_string()), Ok(()));
    assert_eq!(s.language, "pt-BR");
    assert_eq!(s.set_audio_inputs(Some("  ".to_string())), Ok(()));
    assert_eq!(s.selected_mic_device, None);
    assert_eq!(s.set_audio_inputs(Some("3".to_string())), Ok(()));
    assert_eq!(s.selected_mic_device, Some("3".to_string()));
    assert_eq!(s.set_model("tiny"), Err("unsupported model id: tiny".to_string()));
    assert_eq!(s.set_model("large-v3"), Ok(()));
    assert_eq!(s.model_path, "/data/models/whisper-large-v3");
    assert_eq!(s.status_message, "Model selected. Click Install Model if missing.");
    let settings = s.settings();
    assert_eq!(settings.language, Some("pt-BR".to_string()));
    assert_eq!(settings.selected_model_id, Some("large-v3".to_string()));
    assert_eq!(settings.selected_mic_device, Some("3".to_string()));

    let mut r = recording();
    assert_eq!(
        r.set_audio_inputs(None),
        Err("cannot change audio input while recording".to_string())
    );
    assert_eq!(r.set_model("large-v3"), Err("cannot change model while recording".to_string()));
}

#[test]
fn snapshot_copies_the_session() {
    let s = recording();
    let snap = s.snapshot(true);
    assert_eq!(snap.status, AppStatus::Recording);
    assert_eq!(snap.status_message, "Recording");
    assert!(snap.selected_model_installed);
    assert_eq!(snap.transcript, "");
}

#[test]
fn worker_arguments_carry_the_set_options() {
    let args = worker_args(
        "/w.py",
        "en",
        "/m",
        Some("/helper".to_string()),
        Some(" ".to_string()),
        None,
        Some("4".to_string()),
    );
    assert_eq!(
        args,
        vec!["/w.py", "--language", "en", "--model-path", "/m", "--sck-helper-path", "/helper", "--mic-device", "4"]
    );
    let args = worker_args("/w.py", "pt-BR", "/m", None, Some("1".to_string()), Some("2".to_string()), Some("4".to_string()));
    assert_eq!(
        args,
        vec!["/w.py", "--language", "pt-BR", "--model-path", "/m", "--audio-device", "1", "--mic-device", "2"]
    );
}

#[test]
fn settings_live_in_the_data_directory() {
    assert_eq!(whisperbar::session::settings_path("/data"), "/data/settings.json");
}

#[test]
fn partials_trim_unicode_whitespace() {
    let mut s = recording();
    s.apply_worker_event(partial("\u{3000}\thello\u{a0} "));
    assert_eq!(s.transcript, "hello");
    s.apply_worker_event(partial("\u{2003}\n"));
    assert_eq!(s.transcript, "hello");
}

#[test]
fn forced_stop_message_counts_seconds() {
    let mut s = recording();
    assert_eq!(s.begin_stop(), Ok(7));
    s.note_forced_stop(1024);
    assert_eq!(s.status_message, "Worker forced to stop after 1024s");
    s.note_forced_stop(0);
    assert_eq!(s.status_message, "Worker forced to stop after 0s");
}
