use odilia::paths::file_paths;
use odilia::settings::{
    ApplicationConfig, InputMethod, InputSettings, LogSettings, LoggingKind,
    PunctuationSpellingMode, SpeechSettings,
};

#[test]
fn speech_defaults() {
    let s = SpeechSettings::default();
    assert_eq!((s.rate, s.pitch, s.volume), (50, 0, 100));
    assert_eq!(s.module, "espeak-ng");
    assert_eq!(s.language, "en-US");
    assert_eq!(s.person, "English (America)+Max");
    assert_eq!(s.punctuation, PunctuationSpellingMode::SomeMarks);
}

#[test]
fn log_path_in_home() {
    let s = LogSettings::with_home(Some("/home/user".to_string()));
    assert_eq!(s.level, "info");
    assert!(matches!(s.logger, LoggingKind::File(ref p) if p == "/home/user/odilia.log"));
    let s = LogSettings::with_home(Some("/home/user/".to_string()));
    assert!(matches!(s.logger, LoggingKind::File(ref p) if p == "/home/user/odilia.log"));
    let s = LogSettings::with_home(None);
    assert!(matches!(s.logger, LoggingKind::File(ref p) if p == "./odilia.log"));
    let s = LogSettings::default();
    assert!(matches!(s.logger, LoggingKind::File(ref p) if p.ends_with("/odilia.log")));
}

#[test]
fn application_config_sections() {
    let c = ApplicationConfig::default();
    assert_eq!(c.speech().rate, 50);
    assert_eq!(c.log().level, "info");
    let c = ApplicationConfig::new(SpeechSettings::default(), LogSettings::with_home(None));
    assert!(matches!(c.log().logger, LoggingKind::File(ref p) if p == "./odilia.log"));
    assert!(matches!(InputSettings::default().method, InputMethod::Keyboard));
}

#[test]
fn runtime_file_paths() {
    let (pid, sock) = file_paths(Some("/run/user/1000"), 7);
    assert_eq!(pid, "/run/user/1000/odilias.pid");
    assert_eq!(sock, "/run/user/1000/odilia.sock");
    let (pid, sock) = file_paths(None, 1000);
    assert_eq!(pid, "/run/user/1000/odilias.pid");
    assert_eq!(sock, "/run/user/1000/odilia.sock");
    let (pid, _) = file_paths(None, 0);
    assert_eq!(pid, "/run/user/0/odilias.pid");
}
