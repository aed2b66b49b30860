//! The recording session: one aggregate that every command and every event
//! of the worker or installer mutates as a whole, one transition at a time.
//!
//! The handle of the running worker process is a type parameter: the session
//! owns it while recording and hands it back when the worker is to be
//! stopped or reaped.
use crate::audio::{choose_default_mic, mic_score, AudioDeviceOption};
use crate::models::{catalog, default_model_id, find_model, in_catalog, model_path, ModelSpec};
use crate::protocol::{InstallEvent, WorkerEvent};
use crate::text::{
    blank, clone_opt, concat, decimal, decimal_text, is_blank, opt_view, same_text, trim_of,
    trimmed,
};
use vstd::prelude::*;

verus! {

/// Seconds a worker is given to exit after the stop command before it is killed.
pub const GRACE_PERIOD_SECS: u64 = 15;

/// Seconds each output reader is given to drain after the worker exited.
pub const DRAIN_WAIT_SECS: u64 = 3;

/// Install progress, in thousandths, once installation is complete.
pub const PROGRESS_FULL: u32 = 1000;

/// Install progress, in thousandths, when installation starts.
pub const PROGRESS_START: u32 = 50;

#[derive(Clone, Copy, Debug, PartialEq, Eq, Structural)]
pub enum AppStatus {
    Idle,
    Installing,
    Ready,
    Recording,
    Error,
}

/// Read-only copy of the session for display.
#[derive(Clone, Debug)]
pub struct AppSnapshot {
    pub status: AppStatus,
    pub status_message: String,
    pub language: String,
    pub selected_model_id: String,
    pub selected_model_installed: bool,
    pub selected_mic_device: Option<String>,
    pub transcript: String,
    pub last_saved_path: Option<String>,
    /// In thousandths.
    pub install_progress: Option<u32>,
    pub error_message: Option<String>,
}

/// The settings kept between runs.
#[derive(Clone, Debug, Default)]
pub struct PersistedSettings {
    pub language: Option<String>,
    pub selected_model_id: Option<String>,
    pub selected_mic_device: Option<String>,
}

/// What the installer's supervisor does after an event was applied.
pub enum InstallStep {
    /// Keep reading events.
    Continue,
    /// Keep reading events, and persist the settings first.
    SaveSettings,
    /// Kill the installer and fail with this message.
    Failed(String),
}

/// The session aggregate; `W` is the handle of a running worker.
pub struct StateInner<W> {
    pub status: AppStatus,
    pub status_message: String,
    pub language: String,
    pub selected_model_id: String,
    pub selected_mic_device: Option<String>,
    pub transcript: String,
    pub last_saved_path: Option<String>,
    /// In thousandths.
    pub install_progress: Option<u32>,
    pub error_message: Option<String>,
    pub app_data_dir: String,
    pub scripts_dir: String,
    pub bootstrap_script: String,
    pub worker_script: String,
    pub venv_python: String,
    pub model_path: String,
    pub worker: Option<W>,
}

/// The languages the worker accepts.
pub open spec fn supported_language(l: Seq<char>) -> bool {
    l == "en"@ || l == "pt-BR"@
}

/// The transcript after a partial result: the trimmed text on a new line,
/// unless the text is blank.
pub open spec fn after_partial(current: Seq<char>, text: Seq<char>) -> Seq<char> {
    if is_blank(text) {
        current
    } else if current.len() == 0 {
        trim_of(text)
    } else {
        current + "\n"@ + trim_of(text)
    }
}

/// The transcript after a final result: replaced only by a text that is not
/// blank and has more characters.
pub open spec fn after_final(current: Seq<char>, text: Seq<char>) -> Seq<char> {
    if !is_blank(text) && text.len() > current.len() {
        text
    } else {
        current
    }
}

/// Message kept when the installer fails without telling why.
pub open spec fn install_failure_text(stderr: Seq<char>) -> Seq<char> {
    if is_blank(stderr) {
        "Dependency/model installation failed with a non-zero exit code"@
    } else {
        "Dependency/model installation failed: "@ + stderr
    }
}

pub open spec fn no_speech_text() -> Seq<char> {
    "No speech was captured. Check microphone permission and audio input device."@
}

/// Where the settings are kept: `<app_data_dir>/settings.json`.
pub fn settings_path(app_data_dir: &str) -> (r: String)
    ensures
        r@ == app_data_dir@ + "/settings.json"@,
{
    concat(app_data_dir, "/settings.json")
}

fn text(s: &str) -> (r: String)
    ensures
        r@ == s@,
{
    s.to_owned()
}

impl<W> StateInner<W> {
    /// A worker handle is held only while recording, and an error message
    /// only in the error state.
    pub open spec fn wf(&self) -> bool {
        &&& (self.worker is Some ==> self.status == AppStatus::Recording)
        &&& (self.error_message is Some ==> self.status == AppStatus::Error)
    }

    /// Every field but the status message and the transcript is as in `other`.
    pub open spec fn same_but_message_and_transcript(&self, other: &Self) -> bool {
        &&& self.status == other.status
        &&& self.language == other.language
        &&& self.selected_model_id == other.selected_model_id
        &&& self.selected_mic_device == other.selected_mic_device
        &&& self.last_saved_path == other.last_saved_path
        &&& self.install_progress == other.install_progress
        &&& self.error_message == other.error_message
        &&& self.app_data_dir == other.app_data_dir
        &&& self.scripts_dir == other.scripts_dir
        &&& self.bootstrap_script == other.bootstrap_script
        &&& self.worker_script == other.worker_script
        &&& self.venv_python == other.venv_python
        &&& self.model_path == other.model_path
        &&& self.worker == other.worker
    }

    /// A fresh session for the given data directory, with persisted settings
    /// applied where they are valid.
    pub fn new(app_data_dir: String, settings: Option<PersistedSettings>) -> (r: Self)
        ensures
            r.wf(),
            r.status == AppStatus::Ready,
            r.status_message@ == "Ready"@,
            r.transcript@.len() == 0,
            r.worker is None,
            r.last_saved_path is None,
            r.install_progress is None,
            r.app_data_dir@ == app_data_dir@,
            r.scripts_dir@ == app_data_dir@ + "/python"@,
            r.bootstrap_script@ == app_data_dir@ + "/python"@ + "/bootstrap.py"@,
            r.worker_script@ == app_data_dir@ + "/python"@ + "/worker.py"@,
            r.venv_python@ == app_data_dir@ + "/python-env/bin/python"@,
            in_catalog(r.selected_model_id@),
            r.language@ == (match settings {
                Some(s) => match s.language {
                    Some(l) => if supported_language(l@) {
                        l@
                    } else {
                        "en"@
                    },
                    None => "en"@,
                },
                None => "en"@,
            }),
            r.selected_model_id@ == (match settings {
                Some(s) => match s.selected_model_id {
                    Some(id) => if in_catalog(id@) {
                        id@
                    } else {
                        catalog()[0].id@
                    },
                    None => catalog()[0].id@,
                },
                None => catalog()[0].id@,
            }),
            r.selected_mic_device == (match settings {
                Some(s) => s.selected_mic_device,
                None => None,
            }),
            exists|k: int|
                0 <= k < catalog().len() && (#[trigger] catalog()[k]).id@ == r.selected_model_id@
                    && r.model_path@ == app_data_dir@ + "/models/"@ + catalog()[k].folder@,
    {
        let scripts_dir = concat(app_data_dir.as_str(), "/python");
        let venv_python = concat(app_data_dir.as_str(), "/python-env/bin/python");
        let bootstrap_script = concat(scripts_dir.as_str(), "/bootstrap.py");
        let worker_script = concat(scripts_dir.as_str(), "/worker.py");
        let mut selected_model_id = text(default_model_id());
        let mut path = match model_path(app_data_dir.as_str(), default_model_id()) {
            Some(p) => p,
            None => {
                proof {
                    assert(catalog()[0].id@ == "large-v3-turbo"@);
                }
                concat(app_data_dir.as_str(), "/models/whisper-large-v3-turbo")
            },
        };
        let mut language = text("en");
        let mut mic: Option<String> = None;
        match settings {
            Some(s) => {
                match s.language {
                    Some(l) => {
                        if same_text(l.as_str(), "en") || same_text(l.as_str(), "pt-BR") {
                            language = l;
                        }
                    },
                    None => {},
                }
                match s.selected_model_id {
                    Some(id) => {
                        match model_path(app_data_dir.as_str(), id.as_str()) {
                            Some(p) => {
                                selected_model_id = id;
                                path = p;
                            },
                            None => {},
                        }
                    },
                    None => {},
                }
                mic = s.selected_mic_device;
            },
            None => {},
        }
        StateInner {
            status: AppStatus::Ready,
            status_message: text("Ready"),
            language,
            selected_model_id,
            selected_mic_device: mic,
            transcript: String::new(),
            last_saved_path: None,
            install_progress: None,
            error_message: None,
            app_data_dir,
            scripts_dir,
            bootstrap_script,
            worker_script,
            venv_python,
            model_path: path,
            worker: None,
        }
    }

    /// Tells the user that the selected model still has to be installed.
    pub fn note_model_installed(&mut self, installed: bool)
        requires
            old(self).wf(),
        ensures
            final(self).wf(),
            *final(self) == (StateInner {
                status_message: final(self).status_message,
                ..*old(self)
            }),
            final(self).status == old(self).status,
            installed ==> final(self).status_message == old(self).status_message,
            !installed ==> final(self).status_message@
                == "Model not installed. Select a model and click Install Model."@,
    {
        if !installed {
            self.status_message = text("Model not installed. Select a model and click Install Model.");
        }
    }

    /// A copy of the session for display.
    pub fn snapshot(&self, model_installed: bool) -> (r: AppSnapshot)
        ensures
            r.status == self.status,
            r.status_message == self.status_message,
            r.language == self.language,
            r.selected_model_id == self.selected_model_id,
            r.selected_model_installed == model_installed,
            r.selected_mic_device == self.selected_mic_device,
            r.transcript == self.transcript,
            r.last_saved_path == self.last_saved_path,
            r.install_progress == self.install_progress,
            r.error_message == self.error_message,
    {
        AppSnapshot {
            status: self.status,
            status_message: self.status_message.clone(),
            language: self.language.clone(),
            selected_model_id: self.selected_model_id.clone(),
            selected_model_installed: model_installed,
            selected_mic_device: clone_opt(&self.selected_mic_device),
            transcript: self.transcript.clone(),
            last_saved_path: clone_opt(&self.last_saved_path),
            install_progress: self.install_progress,
            error_message: clone_opt(&self.error_message),
        }
    }

    /// The settings to persist.
    pub fn settings(&self) -> (r: PersistedSettings)
        ensures
            r.language == Some(self.language),
            r.selected_model_id == Some(self.selected_model_id),
            r.selected_mic_device == self.selected_mic_device,
    {
        PersistedSettings {
            language: Some(self.language.clone()),
            selected_model_id: Some(self.selected_model_id.clone()),
            selected_mic_device: clone_opt(&self.selected_mic_device),
        }
    }

    // -----------------------------------------------------------------
    // Installation
    // -----------------------------------------------------------------
    /// Starts installing a model of the catalog.
    pub fn begin_install(&mut self, model_id: &str) -> (r: Result<ModelSpec, String>)
        requires
            old(self).wf(),
        ensures
            final(self).wf(),
            *final(self) == (StateInner {
                status: final(self).status,
                status_message: final(self).status_message,
                install_progress: final(self).install_progress,
                error_message: final(self).error_message,
                selected_model_id: final(self).selected_model_id,
                ..*old(self)
            }),
            !in_catalog(model_id@) ==> (r matches Err(e) && e@ == "unsupported model id: "@
                + model_id@ && *final(self) == *old(self)),
            in_catalog(model_id@) && old(self).status == AppStatus::Recording ==> (r matches Err(e)
                && e@ == "recording is already active"@ && *final(self) == *old(self)),
            in_catalog(model_id@) && old(self).status != AppStatus::Recording ==> (r matches Ok(m)
                && m.id@ == model_id@ && final(self).status == AppStatus::Installing
                && final(self).status_message@ == "Preparing model: "@ + m.name@
                && final(self).install_progress == Some(PROGRESS_START)
                && final(self).error_message is None && final(self).selected_model_id@ == m.id@
                && final(self).transcript == old(self).transcript),
    {
        let model = match find_model(model_id) {
            Some(m) => m,
            None => return Err(concat("unsupported model id: ", model_id)),
        };
        if self.status == AppStatus::Recording {
            return Err(text("recording is already active"));
        }
        self.status = AppStatus::Installing;
        self.status_message = concat("Preparing model: ", model.name);
        self.install_progress = Some(PROGRESS_START);
        self.error_message = None;
        self.selected_model_id = text(model.id);
        Ok(model)
    }

    /// Applies one event of the installer of `model`.
    pub fn apply_install_event(&mut self, model: ModelSpec, event: InstallEvent) -> (r: InstallStep)
        requires
            old(self).wf(),
            old(self).status != AppStatus::Recording,
        ensures
            final(self).wf(),
            *final(self) == (StateInner {
                status: final(self).status,
                status_message: final(self).status_message,
                install_progress: final(self).install_progress,
                error_message: final(self).error_message,
                venv_python: final(self).venv_python,
                model_path: final(self).model_path,
                selected_model_id: final(self).selected_model_id,
                ..*old(self)
            }),
            final(self).transcript == old(self).transcript,
            match event {
                InstallEvent::Progress { message, fraction } => r is Continue
                    && final(self).status == AppStatus::Installing
                    && final(self).status_message@ == (match message {
                        Some(m) => m@,
                        None => "Preparing model: "@ + model.name@,
                    }) && final(self).install_progress == fraction
                    && final(self).error_message is None && final(self).venv_python
                    == old(self).venv_python && final(self).model_path == old(self).model_path
                    && final(self).selected_model_id == old(self).selected_model_id,
                InstallEvent::Ready { venv_python, model_path, model_id } => r is SaveSettings
                    && final(self).status == AppStatus::Ready
                    && final(self).status_message@ == "Ready"@
                    && final(self).install_progress == Some(PROGRESS_FULL)
                    && final(self).error_message is None
                    && final(self).venv_python@ == (match venv_python {
                        Some(p) => p@,
                        None => old(self).venv_python@,
                    }) && final(self).model_path@ == (match model_path {
                        Some(p) => p@,
                        None => old(self).model_path@,
                    }) && final(self).selected_model_id@ == (match model_id {
                        Some(id) => id@,
                        None => model.id@,
                    }),
                InstallEvent::Error { message } => {
                    let m = match message {
                        Some(m) => m@,
                        None => "Dependency/model installation failed"@,
                    };
                    &&& r matches InstallStep::Failed(e) && e@ == m
                    &&& final(self).status == AppStatus::Error
                    &&& final(self).status_message@ == "Dependency/model installation failed"@
                    &&& final(self).error_message matches Some(e) && e@ == m
                    &&& final(self).install_progress is None
                    &&& final(self).venv_python == old(self).venv_python
                    &&& final(self).model_path == old(self).model_path
                    &&& final(self).selected_model_id == old(self).selected_model_id
                },
            },
    {
        match event {
            InstallEvent::Progress { message, fraction } => {
                let message = match message {
                    Some(m) => m,
                    None => concat("Preparing model: ", model.name),
                };
                self.status = AppStatus::Installing;
                self.status_message = message;
                self.install_progress = fraction;
                self.error_message = None;
                InstallStep::Continue
            },
            InstallEvent::Ready { venv_python, model_path, model_id } => {
                match venv_python {
                    Some(p) => {
                        self.venv_python = p;
                    },
                    None => {},
                }
                match model_path {
                    Some(p) => {
                        self.model_path = p;
                    },
                    None => {},
                }
                match model_id {
                    Some(id) => {
                        self.selected_model_id = id;
                    },
                    None => {
                        self.selected_model_id = text(model.id);
                    },
                }
                self.status = AppStatus::Ready;
                self.status_message = text("Ready");
                self.install_progress = Some(PROGRESS_FULL);
                self.error_message = None;
                InstallStep::SaveSettings
            },
            InstallEvent::Error { message } => {
                let message = match message {
                    Some(m) => m,
                    None => text("Dependency/model installation failed"),
                };
                self.status = AppStatus::Error;
                self.status_message = text("Dependency/model installation failed");
                self.error_message = Some(message.clone());
                self.install_progress = None;
                InstallStep::Failed(message)
            },
        }
    }

    /// Applies the installer's exit once its output is drained.
    pub fn finish_install(&mut self, exit_success: bool, stderr_output: &str) -> (r: Result<(), String>)
        requires
            old(self).wf(),
            old(self).status != AppStatus::Recording,
        ensures
            final(self).wf(),
            *final(self) == (StateInner {
                status: final(self).status,
                status_message: final(self).status_message,
                install_progress: final(self).install_progress,
                error_message: final(self).error_message,
                ..*old(self)
            }),
            final(self).transcript == old(self).transcript,
            !exit_success ==> (r matches Err(e) && e@ == install_failure_text(stderr_output@)
                && final(self).status == AppStatus::Error
                && final(self).status_message@ == "Dependency/model installation failed"@
                && final(self).error_message == Some(e) && final(self).install_progress is None),
            exit_success && old(self).status == AppStatus::Ready ==> r is Ok && *final(self) == *old(self),
            exit_success && old(self).status != AppStatus::Ready ==> r is Ok && final(self).status
                == AppStatus::Ready && final(self).status_message@ == "Ready"@
                && final(self).install_progress == Some(PROGRESS_FULL)
                && final(self).error_message is None,
    {
        if !exit_success {
            let message = if blank(stderr_output) {
                text("Dependency/model installation failed with a non-zero exit code")
            } else {
                concat("Dependency/model installation failed: ", stderr_output)
            };
            self.status = AppStatus::Error;
            self.status_message = text("Dependency/model installation failed");
            self.error_message = Some(message.clone());
            self.install_progress = None;
            return Err(message);
        }
        if self.status != AppStatus::Ready {
            self.status = AppStatus::Ready;
            self.status_message = text("Ready");
            self.install_progress = Some(PROGRESS_FULL);
            self.error_message = None;
        }
        Ok(())
    }

    // -----------------------------------------------------------------
    // Recording
    // -----------------------------------------------------------------
    /// Checks done before a worker is spawned: the session is idle or
    /// ready, the interpreter exists and the model is installed.
    pub fn check_start(&self, venv_exists: bool, model_ready: bool) -> (r: Result<(), String>)
        ensures
            self.status == AppStatus::Recording ==> (r matches Err(e) && e@
                == "recording is already active"@),
            self.status != AppStatus::Recording && self.status != AppStatus::Ready && self.status
                != AppStatus::Idle ==> (r matches Err(e) && e@
                == "dependencies are not ready yet. wait for installation to finish"@),
            (self.status == AppStatus::Ready || self.status == AppStatus::Idle) && !venv_exists
                ==> (r matches Err(e) && e@
                == "Python environment is missing. Retry dependency installation"@),
            (self.status == AppStatus::Ready || self.status == AppStatus::Idle) && venv_exists
                && !model_ready ==> (r matches Err(e) && e@
                == "Selected model is not installed. Click Install Model first."@),
            (self.status == AppStatus::Ready || self.status == AppStatus::Idle) && venv_exists
                && model_ready ==> r is Ok,
    {
        if self.status == AppStatus::Recording {
            return Err(text("recording is already active"));
        }
        if self.status != AppStatus::Ready && self.status != AppStatus::Idle {
            return Err(text("dependencies are not ready yet. wait for installation to finish"));
        }
        if !venv_exists {
            return Err(text("Python environment is missing. Retry dependency installation"));
        }
        if !model_ready {
            return Err(text("Selected model is not installed. Click Install Model first."));
        }
        Ok(())
    }

    /// Takes ownership of a freshly spawned worker and enters recording with
    /// an empty transcript. A session that is not idle or ready refuses it
    /// and hands it back.
    pub fn attach_worker(&mut self, worker: W) -> (r: Result<(), W>)
        requires
            old(self).wf(),
        ensures
            final(self).wf(),
            *final(self) == (StateInner {
                worker: final(self).worker,
                status: final(self).status,
                status_message: final(self).status_message,
                error_message: final(self).error_message,
                last_saved_path: final(self).last_saved_path,
                transcript: final(self).transcript,
                ..*old(self)
            }),
            (old(self).status == AppStatus::Ready || old(self).status == AppStatus::Idle) ==> r is Ok
                && final(self).status == AppStatus::Recording && final(self).worker == Some(worker)
                && final(self).status_message@ == "Recording"@ && final(self).error_message is None
                && final(self).last_saved_path is None && final(self).transcript@.len() == 0,
            !(old(self).status == AppStatus::Ready || old(self).status == AppStatus::Idle) ==> r
                == Err::<(), W>(worker) && *final(self) == *old(self),
    {
        if self.status != AppStatus::Ready && self.status != AppStatus::Idle {
            return Err(worker);
        }
        self.worker = Some(worker);
        self.status = AppStatus::Recording;
        self.status_message = text("Recording");
        self.error_message = None;
        self.last_saved_path = None;
        self.transcript = String::new();
        Ok(())
    }

    /// Applies one event of the worker. An error event ends the recording
    /// and hands back the worker so that it can be reaped.
    pub fn apply_worker_event(&mut self, event: WorkerEvent) -> (r: Option<W>)
        requires
            old(self).wf(),
        ensures
            final(self).wf(),
            *final(self) == (StateInner {
                status: final(self).status,
                status_message: final(self).status_message,
                transcript: final(self).transcript,
                error_message: final(self).error_message,
                worker: final(self).worker,
                ..*old(self)
            }),
            match event {
                WorkerEvent::Status { message } => r is None && final(self).same_but_message_and_transcript(
                    old(self),
                ) && (!(message is Some && old(self).status == AppStatus::Recording) ==> *final(self)
                    == *old(self)) && final(self).status == old(self).status
                    && final(self).transcript == old(self).transcript && final(self).worker
                    == old(self).worker && final(self).status_message@ == (match message {
                    Some(m) => if old(self).status == AppStatus::Recording {
                        m@
                    } else {
                        old(self).status_message@
                    },
                    None => old(self).status_message@,
                }),
                WorkerEvent::Partial { text } => r is None && final(self).same_but_message_and_transcript(
                    old(self),
                ) && (match text {
                    Some(t) => is_blank(t@),
                    None => true,
                } ==> *final(self) == *old(self)) && final(self).status == old(self).status
                    && final(self).worker == old(self).worker && final(self).transcript@ == (match text {
                    Some(t) => after_partial(old(self).transcript@, t@),
                    None => old(self).transcript@,
                }) && final(self).status_message@ == (match text {
                    Some(t) => if !is_blank(t@) && old(self).status == AppStatus::Recording {
                        "Recording"@
                    } else {
                        old(self).status_message@
                    },
                    None => old(self).status_message@,
                }),
                WorkerEvent::Final { text } => r is None && final(self).same_but_message_and_transcript(
                    old(self),
                ) && (match text {
                    Some(t) => after_final(old(self).transcript@, t@) == old(self).transcript@,
                    None => true,
                } ==> *final(self) == *old(self)) && final(self).status == old(self).status
                    && final(self).worker == old(self).worker && final(self).status_message
                    == old(self).status_message && final(self).transcript@ == (match text {
                    Some(t) => after_final(old(self).transcript@, t@),
                    None => old(self).transcript@,
                }),
                WorkerEvent::Error { message } => (r == old(self).worker && final(self).worker is None
                    && final(self).status == AppStatus::Error && final(self).status_message@
                    == "Recording error"@ && final(self).transcript == old(self).transcript
                    && final(self).last_saved_path == old(self).last_saved_path
                    && final(self).install_progress == old(self).install_progress
                    && final(self).selected_model_id == old(self).selected_model_id
                    && final(self).model_path == old(self).model_path
                    && (final(self).error_message matches Some(e) && e@ == (match message {
                    Some(m) => m@,
                    None => "Worker reported an unknown error"@,
                }))),
            },
    {
        match event {
            WorkerEvent::Status { message } => {
                match message {
                    Some(m) => {
                        if self.status == AppStatus::Recording {
                            self.status_message = m;
                        }
                    },
                    None => {},
                }
                None
            },
            WorkerEvent::Partial { text: t } => {
                match t {
                    Some(t) => {
                        if !blank(t.as_str()) {
                            let piece = trimmed(t.as_str());
                            if self.transcript.as_str().is_empty() {
                                self.transcript = piece;
                            } else {
                                let with_break = concat(self.transcript.as_str(), "\n");
                                self.transcript = concat(with_break.as_str(), piece.as_str());
                            }
                            if self.status == AppStatus::Recording {
                                self.status_message = text("Recording");
                            }
                        }
                    },
                    None => {},
                }
                None
            },
            WorkerEvent::Final { text: t } => {
                match t {
                    Some(t) => {
                        if !blank(t.as_str()) && t.as_str().unicode_len()
                            > self.transcript.as_str().unicode_len() {
                            self.transcript = t;
                        }
                    },
                    None => {},
                }
                None
            },
            WorkerEvent::Error { message } => {
                let message = match message {
                    Some(m) => m,
                    None => text("Worker reported an unknown error"),
                };
                self.status = AppStatus::Error;
                self.status_message = text("Recording error");
                self.error_message = Some(message);
                self.worker.take()
            },
        }
    }

    /// Applies one line of the worker's diagnostics: while recording, a line
    /// that is not blank is shown as `Recording (<line>)`.
    pub fn apply_worker_stderr(&mut self, line: &str)
        requires
            old(self).wf(),
        ensures
            final(self).wf(),
            *final(self) == (StateInner {
                status_message: final(self).status_message,
                ..*old(self)
            }),
            final(self).status == old(self).status,
            final(self).transcript == old(self).transcript,
            final(self).worker == old(self).worker,
            !is_blank(line@) && old(self).status == AppStatus::Recording ==> final(self).status_message@
                == "Recording ("@ + line@ + ")"@,
            !(!is_blank(line@) && old(self).status == AppStatus::Recording) ==> final(self).status_message
                == old(self).status_message,
    {
        if !blank(line) && self.status == AppStatus::Recording {
            let head = concat("Recording (", line);
            self.status_message = concat(head.as_str(), ")");
        }
    }

    /// Starts stopping the recording: takes the worker out of the session
    /// so that exactly one caller stops it.
    pub fn begin_stop(&mut self) -> (r: Result<W, String>)
        requires
            old(self).wf(),
        ensures
            final(self).wf(),
            *final(self) == (StateInner {
                status_message: final(self).status_message,
                worker: final(self).worker,
                ..*old(self)
            }),
            final(self).worker is None,
            final(self).transcript == old(self).transcript,
            final(self).status == old(self).status,
            old(self).status != AppStatus::Recording ==> (r matches Err(e) && e@
                == "recording is not active"@ && *final(self) == *old(self)),
            old(self).status == AppStatus::Recording ==> (final(self).status_message@
                == "Stopping recording"@ && match old(self).worker {
                Some(w) => r == Ok::<W, String>(w),
                None => r matches Err(e) && e@ == "missing worker process"@,
            }),
    {
        if self.status != AppStatus::Recording {
            return Err(text("recording is not active"));
        }
        self.status_message = text("Stopping recording");
        match self.worker.take() {
            Some(w) => Ok(w),
            None => Err(text("missing worker process")),
        }
    }

    /// Records that the worker ignored the stop command and was killed after
    /// `elapsed_secs` seconds.
    pub fn note_forced_stop(&mut self, elapsed_secs: u64)
        requires
            old(self).wf(),
        ensures
            final(self).wf(),
            *final(self) == (StateInner {
                status_message: final(self).status_message,
                ..*old(self)
            }),
            final(self).status == old(self).status,
            final(self).transcript == old(self).transcript,
            final(self).worker == old(self).worker,
            final(self).status_message@ == "Worker forced to stop after "@ + decimal_text(
                elapsed_secs as nat,
            ) + "s"@,
    {
        let secs = decimal(elapsed_secs);
        let head = concat("Worker forced to stop after ", secs.as_str());
        self.status_message = concat(head.as_str(), "s");
    }

    /// Ends a stopped recording: a blank transcript is an error; otherwise
    /// the transcript is returned to be saved.
    pub fn finish_stop(&mut self) -> (r: Result<String, String>)
        requires
            old(self).wf(),
        ensures
            final(self).wf(),
            *final(self) == (StateInner {
                status: final(self).status,
                status_message: final(self).status_message,
                error_message: final(self).error_message,
                worker: final(self).worker,
                ..*old(self)
            }),
            final(self).worker is None,
            is_blank(old(self).transcript@) ==> (r matches Err(e) && e@ == no_speech_text()
                && final(self).status == AppStatus::Error && final(self).status_message@
                == "No transcript captured"@ && (final(self).error_message matches Some(m) && m@
                == no_speech_text())),
            !is_blank(old(self).transcript@) ==> (r matches Ok(t) && t == old(self).transcript
                && final(self).status == old(self).status && final(self).error_message
                == old(self).error_message && final(self).transcript == old(self).transcript),
    {
        if blank(self.transcript.as_str()) {
            self.status = AppStatus::Error;
            self.status_message = text("No transcript captured");
            self.error_message = Some(
                text("No speech was captured. Check microphone permission and audio input device."),
            );
            self.worker = None;
            return Err(
                text("No speech was captured. Check microphone permission and audio input device."),
            );
        }
        self.worker = None;
        Ok(self.transcript.clone())
    }

    /// Records where the transcript was saved and returns to ready.
    pub fn record_saved(&mut self, path: String)
        requires
            old(self).wf(),
        ensures
            final(self).wf(),
            *final(self) == (StateInner {
                status: final(self).status,
                status_message: final(self).status_message,
                last_saved_path: final(self).last_saved_path,
                error_message: final(self).error_message,
                install_progress: final(self).install_progress,
                worker: final(self).worker,
                ..*old(self)
            }),
            final(self).status == AppStatus::Ready,
            final(self).status_message@ == "Ready"@,
            final(self).last_saved_path == Some(path),
            final(self).error_message is None,
            final(self).install_progress == Some(PROGRESS_FULL),
            final(self).worker is None,
            final(self).transcript == old(self).transcript,
    {
        self.status = AppStatus::Ready;
        self.status_message = text("Ready");
        self.last_saved_path = Some(path);
        self.error_message = None;
        self.install_progress = Some(PROGRESS_FULL);
        self.worker = None;
    }

    // -----------------------------------------------------------------
    // Commands
    // -----------------------------------------------------------------
    /// Enters the error state with `message`; a worker still held is handed
    /// back to be reaped.
    pub fn set_error(&mut self, message: String) -> (r: Option<W>)
        requires
            old(self).wf(),
        ensures
            final(self).wf(),
            *final(self) == (StateInner {
                status: final(self).status,
                status_message: final(self).status_message,
                error_message: final(self).error_message,
                install_progress: final(self).install_progress,
                worker: final(self).worker,
                ..*old(self)
            }),
            r == old(self).worker,
            final(self).worker is None,
            final(self).status == AppStatus::Error,
            final(self).status_message@ == "Error"@,
            final(self).error_message == Some(message),
            final(self).install_progress is None,
            final(self).transcript == old(self).transcript,
    {
        self.status = AppStatus::Error;
        self.status_message = text("Error");
        self.error_message = Some(message);
        self.install_progress = None;
        self.worker.take()
    }

    /// Clears the error message; from the error state, back to ready.
    pub fn clear_error(&mut self)
        requires
            old(self).wf(),
        ensures
            final(self).wf(),
            *final(self) == (StateInner {
                error_message: final(self).error_message,
                status: final(self).status,
                status_message: final(self).status_message,
                ..*old(self)
            }),
            final(self).error_message is None,
            final(self).install_progress == old(self).install_progress,
            final(self).transcript == old(self).transcript,
            final(self).worker == old(self).worker,
            old(self).status == AppStatus::Error ==> final(self).status == AppStatus::Ready
                && final(self).status_message@ == "Ready"@,
            old(self).status != AppStatus::Error ==> final(self).status == old(self).status
                && final(self).status_message == old(self).status_message,
    {
        self.error_message = None;
        if self.status == AppStatus::Error {
            self.status = AppStatus::Ready;
            self.status_message = text("Ready");
        }
    }

    /// Selects the transcription language: `en` or `pt-BR`.
    pub fn set_language(&mut self, language: String) -> (r: Result<(), String>)
        requires
            old(self).wf(),
        ensures
            final(self).wf(),
            supported_language(language@) ==> r is Ok && *final(self) == (StateInner {
                language,
                ..*old(self)
            }),
            !supported_language(language@) ==> (r matches Err(e) && e@ == "unsupported language"@
                && *final(self) == *old(self)),
    {
        if !same_text(language.as_str(), "en") && !same_text(language.as_str(), "pt-BR") {
            return Err(text("unsupported language"));
        }
        self.language = language;
        Ok(())
    }

    /// Selects the microphone; a blank id selects none. Refused while recording.
    pub fn set_audio_inputs(&mut self, mic_device: Option<String>) -> (r: Result<(), String>)
        requires
            old(self).wf(),
        ensures
            final(self).wf(),
            *final(self) == (StateInner {
                selected_mic_device: final(self).selected_mic_device,
                ..*old(self)
            }),
            old(self).status == AppStatus::Recording ==> (r matches Err(e) && e@
                == "cannot change audio input while recording"@ && *final(self) == *old(self)),
            old(self).status != AppStatus::Recording ==> r is Ok && final(self).status
                == old(self).status && final(self).selected_mic_device == match mic_device {
                Some(m) => if is_blank(m@) {
                    None
                } else {
                    Some(m)
                },
                None => None,
            },
    {
        if self.status == AppStatus::Recording {
            return Err(text("cannot change audio input while recording"));
        }
        self.selected_mic_device = match mic_device {
            Some(m) => if blank(m.as_str()) {
                None
            } else {
                Some(m)
            },
            None => None,
        };
        Ok(())
    }

    /// Selects a model of the catalog. Refused while recording.
    pub fn set_model(&mut self, model_id: &str) -> (r: Result<(), String>)
        requires
            old(self).wf(),
        ensures
            final(self).wf(),
            *final(self) == (StateInner {
                selected_model_id: final(self).selected_model_id,
                model_path: final(self).model_path,
                error_message: final(self).error_message,
                status: final(self).status,
                status_message: final(self).status_message,
                ..*old(self)
            }),
            !in_catalog(model_id@) ==> (r matches Err(e) && e@ == "unsupported model id: "@
                + model_id@ && *final(self) == *old(self)),
            in_catalog(model_id@) && old(self).status == AppStatus::Recording ==> (r matches Err(e)
                && e@ == "cannot change model while recording"@ && *final(self) == *old(self)),
            in_catalog(model_id@) && old(self).status != AppStatus::Recording ==> r is Ok
                && final(self).selected_model_id@ == model_id@ && final(self).status
                == AppStatus::Ready && final(self).error_message is None
                && final(self).status_message@ == "Model selected. Click Install Model if missing."@
                && exists|k: int|
                0 <= k < catalog().len() && (#[trigger] catalog()[k]).id@ == model_id@
                    && final(self).model_path@ == old(self).app_data_dir@ + "/models/"@
                    + catalog()[k].folder@,
    {
        if find_model(model_id).is_none() {
            return Err(concat("unsupported model id: ", model_id));
        }
        if self.status == AppStatus::Recording {
            return Err(text("cannot change model while recording"));
        }
        let path = match model_path(self.app_data_dir.as_str(), model_id) {
            Some(p) => p,
            None => return Err(concat("unsupported model id: ", model_id)),
        };
        self.selected_model_id = text(model_id);
        self.model_path = path;
        self.error_message = None;
        self.status = AppStatus::Ready;
        self.status_message = text("Model selected. Click Install Model if missing.");
        Ok(())
    }

    /// Keeps the selected microphone if it is among `devices`; otherwise
    /// selects the best-scoring device.
    pub fn reconcile_mic(&mut self, devices: &Vec<AudioDeviceOption>)
        requires
            old(self).wf(),
        ensures
            final(self).wf(),
            *final(self) == (StateInner {
                selected_mic_device: final(self).selected_mic_device,
                ..*old(self)
            }),
            final(self).status == old(self).status,
            final(self).transcript == old(self).transcript,
            final(self).worker == old(self).worker,
            mic_listed(old(self).selected_mic_device, devices@) ==> final(self).selected_mic_device
                == old(self).selected_mic_device,
            !mic_listed(old(self).selected_mic_device, devices@) && devices@.len() == 0 ==> final(
                self).selected_mic_device is None,
            !mic_listed(old(self).selected_mic_device, devices@) && devices@.len() > 0 ==> exists|k: int|
                0 <= k < devices@.len() && final(self).selected_mic_device == Some(devices@[k].id)
                    && forall|j: int|
                    0 <= j < devices@.len() ==> mic_score(#[trigger] devices@[j].name@) <= mic_score(
                        devices@[k].name@,
                    ),
    {
        let valid = match &self.selected_mic_device {
            Some(m) => has_device(devices, m.as_str()),
            None => false,
        };
        if !valid {
            self.selected_mic_device = choose_default_mic(devices);
        }
    }
}


/// Whether the microphone is set and one of the devices has its id.
pub open spec fn mic_listed(mic: Option<String>, devices: Seq<AudioDeviceOption>) -> bool {
    match mic {
        Some(m) => exists|k: int| 0 <= k < devices.len() && (#[trigger] devices[k]).id@ == m@,
        None => false,
    }
}

/// Whether one of the devices has this id.
pub fn has_device(devices: &Vec<AudioDeviceOption>, id: &str) -> (r: bool)
    ensures
        r == exists|k: int| 0 <= k < devices@.len() && (#[trigger] devices@[k]).id@ == id@,
{
    let mut i: usize = 0;
    while i < devices.len()
        invariant
            i <= devices@.len(),
            forall|q: int| 0 <= q < i ==> (#[trigger] devices@[q]).id@ != id@,
        decreases devices@.len() - i,
    {
        if same_text(devices[i].id.as_str(), id) {
            return true;
        }
        i = i + 1;
    }
    false
}

/// The views of a list of texts.
pub open spec fn views(v: Seq<String>) -> Seq<Seq<char>> {
    v.map_values(|s: String| s@)
}

/// A flag and its value, when the value is given and not blank.
pub open spec fn flag_if_set(flag: Seq<char>, value: Option<Seq<char>>) -> Seq<Seq<char>> {
    match value {
        Some(v) => if is_blank(v) {
            Seq::empty()
        } else {
            seq![flag, v]
        },
        None => Seq::empty(),
    }
}

/// The arguments the worker is started with, after the interpreter.
pub open spec fn worker_arg_list(
    worker_script: Seq<char>,
    language: Seq<char>,
    model_path: Seq<char>,
    helper_path: Option<Seq<char>>,
    audio_device: Option<Seq<char>>,
    selected_mic: Option<Seq<char>>,
    fallback_mic: Option<Seq<char>>,
) -> Seq<Seq<char>> {
    seq![worker_script, "--language"@, language, "--model-path"@, model_path] + match helper_path {
        Some(h) => seq!["--sck-helper-path"@, h],
        None => Seq::empty(),
    } + flag_if_set("--audio-device"@, audio_device) + match selected_mic {
        Some(m) => flag_if_set("--mic-device"@, Some(m)),
        None => flag_if_set("--mic-device"@, fallback_mic),
    }
}

fn push_flag(args: &mut Vec<String>, flag: &str, value: Option<String>)
    ensures
        views(final(args)@) == views(old(args)@) + flag_if_set(flag@, opt_view(value)),
{
    let ghost before = views(args@);
    match value {
        Some(v) => {
            if !blank(v.as_str()) {
                args.push(text(flag));
                args.push(v);
            }
        },
        None => {},
    }
    proof {
        assert(views(args@) =~= before + flag_if_set(flag@, opt_view(value)));
    }
}

/// The arguments the worker is started with: the script, the language, the
/// model directory, the capture helper when known, the audio device when
/// set, and the selected microphone, or else the fallback one, when set.
pub fn worker_args(
    worker_script: &str,
    language: &str,
    model_path: &str,
    helper_path: Option<String>,
    audio_device: Option<String>,
    selected_mic: Option<String>,
    fallback_mic: Option<String>,
) -> (r: Vec<String>)
    ensures
        views(r@) == worker_arg_list(
            worker_script@,
            language@,
            model_path@,
            opt_view(helper_path),
            opt_view(audio_device),
            opt_view(selected_mic),
            opt_view(fallback_mic),
        ),
{
    let mut args: Vec<String> = Vec::new();
    args.push(text(worker_script));
    args.push(text("--language"));
    args.push(text(language));
    args.push(text("--model-path"));
    args.push(text(model_path));
    proof {
        assert(views(args@) =~= seq![worker_script@, "--language"@, language@, "--model-path"@, model_path@]);
    }
    let ghost base = views(args@);
    match helper_path {
        Some(h) => {
            args.push(text("--sck-helper-path"));
            args.push(h);
        },
        None => {},
    }
    proof {
        assert(views(args@) =~= base + match opt_view(helper_path) {
            Some(h) => seq!["--sck-helper-path"@, h],
            None => Seq::empty(),
        });
    }
    push_flag(&mut args, "--audio-device", audio_device);
    let ghost before_mic = views(args@);
    match selected_mic {
        Some(m) => push_flag(&mut args, "--mic-device", Some(m)),
        None => push_flag(&mut args, "--mic-device", fallback_mic),
    }
    proof {
        assert(views(args@) =~= worker_arg_list(
            worker_script@,
            language@,
            model_path@,
            opt_view(helper_path),
            opt_view(audio_device),
            opt_view(selected_mic),
            opt_view(fallback_mic),
        ));
    }
    args
}

} // verus!
