//! The first start of an installed system.

use devcore::files::FileOutcome;
use devcore::firstboot::{
    parse_profile, state_root, validate_password, ApplyDecision, ApplyEvent, CommitDecision,
    CommitStage, FirstBootCoordinator, FirstBootError, FirstBootStore, SetupBackend, SetupBackendError,
    SetupConfig, SetupOutcome, SetupStep, SystemBackend, DEFAULT_STATE_DIR, PASSWORD_PROGRAM,
};
use devcore::resource::MachineProfile;
use std::sync::{Arc, Mutex};

#[derive(Clone, Debug, Default)]
struct RecordingBackend {
    calls: Arc<Mutex<Vec<String>>>,
    password: Arc<Mutex<Vec<u8>>>,
}

impl SetupBackend for RecordingBackend {
    fn apply(&mut self, config: &SetupConfig, password: &[u8]) -> Result<(), SetupBackendError> {
        self.calls.lock().unwrap().push(config.username.clone());
        self.password.lock().unwrap().extend_from_slice(password);
        Ok(())
    }
}

fn config() -> SetupConfig {
    SetupConfig::new(
        "en_US.UTF-8",
        "us",
        "Asia/Kolkata",
        "developer",
        "devcore-lab",
        "balanced",
    )
    .unwrap()
}

fn missing() -> FileOutcome {
    FileOutcome::NotFound("no such file".to_owned())
}

/// The files of a record, held in memory.
#[derive(Default)]
struct Files {
    files: Vec<(String, Vec<u8>)>,
}

impl Files {
    fn get(&self, path: &str) -> Option<&Vec<u8>> {
        self.files.iter().find(|(name, _)| name == path).map(|(_, bytes)| bytes)
    }

    fn remove(&mut self, path: &str) -> Option<Vec<u8>> {
        let at = self.files.iter().position(|(name, _)| name == path)?;
        Some(self.files.remove(at).1)
    }

    fn put(&mut self, path: &str, bytes: Vec<u8>) {
        self.remove(path);
        self.files.push((path.to_owned(), bytes));
    }

    fn inspect(&self, path: &str) -> FileOutcome {
        match self.get(path) {
            Some(_) => FileOutcome::Done,
            None => missing(),
        }
    }

    /// Carries out an operation that records settings.
    fn commit(
        &mut self,
        store: &FirstBootStore,
        config: &SetupConfig,
        temporary: &str,
        stage: CommitStage,
    ) -> FileOutcome {
        match stage {
            CommitStage::InspectCompletion => return self.inspect(&store.path()),
            CommitStage::CreateTemporary => {
                if self.get(temporary).is_some() {
                    return FileOutcome::AlreadyExists("file exists".to_owned());
                }
                self.put(temporary, Vec::new());
            }
            CommitStage::RestrictTemporary => {}
            CommitStage::WriteRecord => self.put(temporary, config.encode().into_bytes()),
            CommitStage::Publish => {
                let bytes = self.remove(temporary).unwrap();
                self.put(&store.path(), bytes);
            }
        }
        FileOutcome::Done
    }

    /// Applies settings and records them.
    fn apply<B: SetupBackend>(
        &mut self,
        coordinator: &mut FirstBootCoordinator<B>,
        config: &SetupConfig,
        password: &[u8],
    ) -> Result<(), FirstBootError> {
        let temporary = coordinator.store.temporary_path(7);
        let inspected = self.inspect(&coordinator.store.path());
        let mut event = ApplyEvent::Inspected(inspected);
        loop {
            event = match coordinator.apply(config, password, &temporary, &event) {
                ApplyDecision::Commit(stage) => ApplyEvent::Committed {
                    stage,
                    outcome: self.commit(&coordinator.store, config, &temporary, stage),
                },
                ApplyDecision::Done => return Ok(()),
                ApplyDecision::Refused { remove_temporary, error } => {
                    if remove_temporary {
                        self.remove(&temporary);
                    }
                    return Err(error);
                }
            };
        }
    }

    fn status<B: SetupBackend>(
        &self,
        coordinator: &FirstBootCoordinator<B>,
    ) -> (bool, MachineProfile) {
        coordinator.status(&self.inspect(&coordinator.store.path())).unwrap()
    }
}

#[test]
fn validates_setup_values_and_rejects_reserved_or_traversal_inputs() {
    assert_eq!(config().profile, MachineProfile::Balanced);
    assert!(SetupConfig::new("en", "us", "../etc", "developer", "host", "low").is_err());
    assert!(SetupConfig::new("en", "us", "UTC", "root", "host", "low").is_err());
    assert!(SetupConfig::new("en", "us", "UTC", "Developer", "host", "low").is_err());
    assert!(SetupConfig::new("en", "us", "UTC", "developer", "host-name", "unknown").is_err());
}

#[test]
fn status_is_incomplete_until_non_secret_config_is_atomically_committed() {
    let store = FirstBootStore::open("/state").unwrap();
    let mut files = Files::default();
    assert!(!store.is_complete(&files.inspect(&store.path())).unwrap());
    let temporary = store.temporary_path(7);
    assert_eq!(temporary, "/state/.first-boot.conf.7.tmp");
    let mut stage = CommitStage::InspectCompletion;
    let mut steps = 0;
    loop {
        steps += 1;
        let outcome = files.commit(&store, &config(), &temporary, stage);
        match store.commit(&config(), &temporary, stage, &outcome) {
            CommitDecision::Continue(next) => stage = next,
            CommitDecision::Recorded => break,
            CommitDecision::Refused { error, .. } => panic!("refused: {}", error.message()),
        }
        assert!(!store.is_complete(&files.inspect(&store.path())).unwrap());
    }
    assert_eq!(steps, 5);
    assert!(store.is_complete(&files.inspect(&store.path())).unwrap());
    assert_eq!(files.files.len(), 1);
    let text = String::from_utf8(files.get(&store.path()).unwrap().clone()).unwrap();
    assert!(text.contains("username=developer"));
    assert!(!text.contains("password"));
    assert_eq!(
        store.commit(
            &config(),
            &temporary,
            CommitStage::InspectCompletion,
            &FileOutcome::Done
        ),
        CommitDecision::Refused {
            remove_temporary: false,
            error: FirstBootError::AlreadyComplete,
        }
    );
}

#[test]
fn coordinator_forwards_password_transiently_and_commits_only_after_backend() {
    let backend = RecordingBackend::default();
    let seen_password = Arc::clone(&backend.password);
    let mut coordinator = FirstBootCoordinator::new(
        FirstBootStore::open("/state").unwrap(),
        backend,
        MachineProfile::Balanced,
    );
    let mut files = Files::default();
    let (required, profile) = files.status(&coordinator);
    assert!(required);
    assert_eq!(profile, MachineProfile::Balanced);
    files.apply(&mut coordinator, &config(), b"transient-password").unwrap();
    assert_eq!(&*seen_password.lock().unwrap(), b"transient-password");
    assert!(!files.status(&coordinator).0);
    assert_eq!(files.files.len(), 1);
    assert_eq!(files.get("/state/first-boot.conf").unwrap(), config().encode().as_bytes());
    assert_eq!(
        files.apply(&mut coordinator, &config(), b"transient-password"),
        Err(FirstBootError::AlreadyComplete)
    );
    assert_eq!(&*seen_password.lock().unwrap(), b"transient-password");
}

#[derive(Debug)]
struct FailingBackend;

impl SetupBackend for FailingBackend {
    fn apply(&mut self, _: &SetupConfig, _: &[u8]) -> Result<(), SetupBackendError> {
        Err(SetupBackendError::Failed {
            program: "/usr/sbin/useradd".to_owned(),
            status: Some(9),
        })
    }
}

#[test]
fn nothing_is_recorded_where_the_backend_fails() {
    let failure = FirstBootError::Backend(SetupBackendError::Failed {
        program: "/usr/sbin/useradd".to_owned(),
        status: Some(9),
    });
    let mut coordinator = FirstBootCoordinator::new(
        FirstBootStore::open("/state").unwrap(),
        FailingBackend,
        MachineProfile::Low,
    );
    let mut files = Files::default();
    assert_eq!(
        files.apply(&mut coordinator, &config(), b"long-password"),
        Err(failure)
    );
    assert!(files.files.is_empty());
    assert!(files.status(&coordinator).0);
}

#[test]
fn each_report_decides_what_comes_next() {
    let backend = RecordingBackend::default();
    let calls = Arc::clone(&backend.calls);
    let mut coordinator = FirstBootCoordinator::new(
        FirstBootStore::open("/state").unwrap(),
        backend,
        MachineProfile::Low,
    );
    let mut next = |password: &[u8], event| {
        coordinator.apply(&config(), password, "/state/tmp", &event)
    };
    let refused = |error| ApplyDecision::Refused { remove_temporary: false, error };
    assert_eq!(
        next(b"short", ApplyEvent::Inspected(missing())),
        refused(FirstBootError::InvalidPassword)
    );
    assert_eq!(
        next(b"long-password", ApplyEvent::Inspected(FileOutcome::Done)),
        refused(FirstBootError::AlreadyComplete)
    );
    assert!(calls.lock().unwrap().is_empty());
    assert_eq!(
        next(b"long-password", ApplyEvent::Inspected(missing())),
        ApplyDecision::Commit(CommitStage::InspectCompletion)
    );
    assert_eq!(*calls.lock().unwrap(), ["developer"]);
    let committed = |stage, outcome| ApplyEvent::Committed { stage, outcome };
    assert_eq!(
        next(b"long-password", committed(CommitStage::WriteRecord, FileOutcome::Done)),
        ApplyDecision::Commit(CommitStage::Publish)
    );
    assert_eq!(
        next(b"long-password", committed(CommitStage::Publish, FileOutcome::Done)),
        ApplyDecision::Done
    );
    assert!(matches!(
        next(
            b"long-password",
            committed(CommitStage::Publish, FileOutcome::Failed("denied".to_owned()))
        ),
        ApplyDecision::Refused {
            remove_temporary: true,
            error: FirstBootError::StateIo { .. }
        }
    ));
    assert_eq!(calls.lock().unwrap().len(), 1);
}

#[test]
fn rejects_short_or_delimited_passwords_before_backend_call() {
    let backend = RecordingBackend::default();
    let calls = Arc::clone(&backend.calls);
    let mut coordinator = FirstBootCoordinator::new(
        FirstBootStore::open("/state").unwrap(),
        backend,
        MachineProfile::Low,
    );
    let mut files = Files::default();
    for password in [b"short".as_slice(), b"line\npassword".as_slice()] {
        assert!(matches!(
            files.apply(&mut coordinator, &config(), password),
            Err(FirstBootError::InvalidPassword)
        ));
    }
    assert!(files.files.is_empty());
    assert!(calls.lock().unwrap().is_empty());
}

#[test]
fn errors_name_the_setting_and_the_rule() {
    let error = SetupConfig::new("en", "us", "UTC", "root", "host", "low").unwrap_err();
    assert_eq!(
        error.message(),
        "invalid username: must be a non-reserved Linux username"
    );
    let error = SetupConfig::new("en", "us", "UTC", "dev", "host.name", "low").unwrap_err();
    assert_eq!(
        error.message(),
        "invalid hostname: must be a bounded hostname without dots or separators"
    );
    assert_eq!(
        parse_profile("huge").unwrap_err().message(),
        "invalid profile: unknown profile \"huge\""
    );
    assert_eq!(
        validate_password(b"short").unwrap_err().message(),
        "password must be 8-1024 bytes without line delimiters"
    );
}

#[test]
fn the_system_is_set_up_by_fixed_programs() {
    let commands = SystemBackend.commands(&config());
    assert_eq!(commands.len(), 5);
    assert_eq!(
        commands[0],
        ["/usr/bin/localectl", "set-locale", "LANG=en_US.UTF-8"]
    );
    assert_eq!(commands[4][5], "developer");
    assert_eq!(
        SystemBackend.password_input(&config(), b"long-password"),
        b"developer:long-password\n"
    );
}

#[test]
fn failures_of_commands_are_told() {
    let failed = SetupBackendError::Failed {
        program: "/usr/sbin/useradd".to_owned(),
        status: Some(-9),
    };
    assert_eq!(
        FirstBootError::Backend(failed).message(),
        "/usr/sbin/useradd exited unsuccessfully (Some(-9))"
    );
    let unstarted = SetupBackendError::Io {
        program: "/usr/sbin/useradd".to_owned(),
        source: "denied".to_owned(),
    };
    assert_eq!(
        unstarted.message(),
        "/usr/sbin/useradd failed to start: denied"
    );
}

#[test]
fn the_record_needs_a_directory_of_its_own() {
    assert!(FirstBootStore::open("").is_err());
    assert!(FirstBootStore::open("/").is_err());
    assert_eq!(state_root(None), DEFAULT_STATE_DIR);
    assert_eq!(state_root(Some("/tmp/state".to_owned())), "/tmp/state");
    let store = FirstBootStore::open("/state").unwrap();
    assert!(matches!(
        store.is_complete(&FileOutcome::OtherEntry),
        Err(FirstBootError::InvalidStatePath(path)) if path == "/state/first-boot.conf"
    ));
    assert!(matches!(
        store.commit(
            &config(),
            "/state/tmp",
            CommitStage::WriteRecord,
            &FileOutcome::Failed("disk full".to_owned())
        ),
        CommitDecision::Refused {
            remove_temporary: true,
            error: FirstBootError::StateIo { .. }
        }
    ));
}

#[test]
fn the_password_is_set_after_everything_else() {
    let backend = SystemBackend;
    let good = SetupOutcome::Exited { success: true, code: Some(0) };
    let commands = backend.commands(&config());
    let mut outcomes = Vec::new();
    for command in &commands {
        assert_eq!(backend.next_step(&config(), &outcomes), SetupStep::Run(command.clone()));
        outcomes.push(good.clone());
    }
    assert_eq!(backend.next_step(&config(), &outcomes), SetupStep::SetPassword);
    outcomes.push(good.clone());
    assert_eq!(backend.next_step(&config(), &outcomes), SetupStep::Done);
    outcomes[5] = SetupOutcome::NotRun("missing".to_owned());
    assert_eq!(
        backend.next_step(&config(), &outcomes),
        SetupStep::Failed(SetupBackendError::Io {
            program: PASSWORD_PROGRAM.to_owned(),
            source: "missing".to_owned(),
        })
    );
    outcomes[0] = SetupOutcome::Exited { success: false, code: Some(3) };
    assert_eq!(
        backend.next_step(&config(), &outcomes),
        SetupStep::Failed(SetupBackendError::Failed {
            program: commands[0][0].clone(),
            status: Some(3),
        })
    );
    assert!(backend.run("/bin/true", &good).is_ok());
}
