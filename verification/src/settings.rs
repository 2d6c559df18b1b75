//! The screen reader's configuration: speech, logging and input settings.

use crate::text::{chars_of, string_of};
use vstd::prelude::*;

verus! {

/// How much punctuation the speech reads out.
#[derive(Clone, Copy, Debug, PartialEq, Eq, Structural)]
pub enum PunctuationSpellingMode {
    /// Some punctuation (named `Some` in configuration files).
    SomeMarks,
    Most,
    /// No punctuation (named `None` in configuration files).
    NoMarks,
    All,
}

/// The speech related configuration options.
#[derive(Debug)]
pub struct SpeechSettings {
    pub rate: i8,
    pub pitch: i8,
    pub volume: i8,
    pub module: String,
    pub language: String,
    pub person: String,
    pub punctuation: PunctuationSpellingMode,
}

impl Default for SpeechSettings {
    /// Rate 50, pitch 0, volume 100, the `espeak-ng` module, American English with the voice
    /// `English (America)+Max`, and some punctuation.
    fn default() -> (s: SpeechSettings)
        ensures
            s.rate == 50,
            s.pitch == 0,
            s.volume == 100,
            s.module@ == "espeak-ng"@,
            s.language@ == "en-US"@,
            s.person@ == "English (America)+Max"@,
            s.punctuation == PunctuationSpellingMode::SomeMarks,
    {
        SpeechSettings {
            rate: 50,
            pitch: 0,
            volume: 100,
            module: "espeak-ng".to_owned(),
            language: "en-US".to_owned(),
            person: "English (America)+Max".to_owned(),
            punctuation: PunctuationSpellingMode::SomeMarks,
        }
    }
}

/// Where the logs go.
#[derive(Debug)]
pub enum LoggingKind {
    /// A file, by its path (absolute, or relative to the working directory).
    File(String),
    /// The terminal.
    Tty,
    /// The system journal, where the platform has one.
    Syslog,
}

/// The logging related configuration options.
#[derive(Debug)]
pub struct LogSettings {
    /// The level (or filter) of the logs, such as `info`, `warn`, `debug` or `trace`.
    pub level: String,
    /// Where the logs go.
    pub logger: LoggingKind,
}

/// The path of `name` within the directory `dir`, as a path join makes it: a separator is
/// put between them unless `dir` is empty or already ends with one.
pub open spec fn join_path(dir: Seq<char>, name: Seq<char>) -> Seq<char> {
    if dir.len() == 0 || dir.last() == '/' {
        dir + name
    } else {
        dir + seq!['/'] + name
    }
}

/// The log file for a home directory: `odilia.log` in it, or in `.` when there is none.
pub open spec fn log_path(home: Option<Seq<char>>) -> Seq<char> {
    join_path(
        match home {
            Some(h) => h,
            None => "."@,
        },
        "odilia.log"@,
    )
}

/// `dirs::home_dir`: the user's home directory, as the environment and the system give it,
/// turned into a string (`to_string_lossy`). Nothing is stated of it: it depends on the
/// machine.
#[verifier::external_body]
fn home_dir() -> (r: Option<String>) {
    dirs::home_dir().map(|p| p.to_string_lossy().into_owned())
}

/// The path `name` within `dir`.
fn join(dir: &str, name: &str) -> (r: String)
    ensures
        r@ == join_path(dir@, name@),
{
    let mut v = chars_of(dir);
    let n = chars_of(name);
    if v.len() > 0 && v[v.len() - 1] != '/' {
        v.push('/');
    }
    let ghost d = v@;
    let mut i: usize = 0;
    while i < n.len()
        invariant
            i <= n@.len(),
            v@ == d + n@.take(i as int),
        decreases n.len() - i,
    {
        v.push(n[i]);
        i = i + 1;
        assert(v@ =~= d + n@.take(i as int));
    }
    assert(n@.take(n@.len() as int) == n@);
    proof {
        if dir@.len() > 0 && dir@.last() != '/' {
            assert(d == dir@ + seq!['/']);
        } else {
            assert(d == dir@);
        }
    }
    string_of(v.as_slice())
}

impl LogSettings {
    /// The default settings for the given home directory: level `info`, logging to
    /// `odilia.log` in the home directory (or in `.` when there is none).
    pub fn with_home(home: Option<String>) -> (s: LogSettings)
        ensures
            s.level@ == "info"@,
            s.logger matches LoggingKind::File(p) && p@ == log_path(
                match home {
                    Some(h) => Some(h@),
                    None => None,
                },
            ),
    {
        let path = match home {
            Some(h) => join(h.as_str(), "odilia.log"),
            None => join(".", "odilia.log"),
        };
        LogSettings { level: "info".to_owned(), logger: LoggingKind::File(path) }
    }
}

impl Default for LogSettings {
    /// Level `info`, logging to `odilia.log` in the user's home directory (or in `.` when
    /// there is none).
    fn default() -> (s: LogSettings)
        ensures
            s.level@ == "info"@,
            exists|home: Option<Seq<char>>|
                s.logger matches LoggingKind::File(p) && p@ == #[trigger] log_path(home),
    {
        let s = LogSettings::with_home(home_dir());
        s
    }
}

/// A read-only view of the screen reader's configuration, as read from its configuration
/// files.
#[derive(Debug)]
pub struct ApplicationConfig {
    speech: SpeechSettings,
    log: LogSettings,
}

impl ApplicationConfig {
    /// The configuration of the given sections.
    pub fn new(speech: SpeechSettings, log: LogSettings) -> (c: ApplicationConfig)
        ensures
            c.spec_speech() == speech,
            c.spec_log() == log,
    {
        ApplicationConfig { speech, log }
    }

    /// The speech section.
    pub closed spec fn spec_speech(&self) -> SpeechSettings {
        self.speech
    }

    /// The logging section.
    pub closed spec fn spec_log(&self) -> LogSettings {
        self.log
    }

    /// The logging section.
    pub fn log(&self) -> (l: &LogSettings)
        ensures
            *l == self.spec_log(),
    {
        &self.log
    }

    /// The speech section.
    pub fn speech(&self) -> (s: &SpeechSettings)
        ensures
            *s == self.spec_speech(),
    {
        &self.speech
    }
}

impl Default for ApplicationConfig {
    /// The default speech and logging settings.
    fn default() -> (c: ApplicationConfig)
        ensures
            c.spec_speech().rate == 50,
            c.spec_speech().pitch == 0,
            c.spec_speech().volume == 100,
            c.spec_speech().module@ == "espeak-ng"@,
            c.spec_speech().language@ == "en-US"@,
            c.spec_speech().person@ == "English (America)+Max"@,
            c.spec_speech().punctuation == PunctuationSpellingMode::SomeMarks,
            c.spec_log().level@ == "info"@,
            exists|home: Option<Seq<char>>|
                c.spec_log().logger matches LoggingKind::File(p) && p@ == #[trigger] log_path(home),
    {
        ApplicationConfig { speech: SpeechSettings::default(), log: LogSettings::default() }
    }
}

/// How key presses reach the screen reader.
#[derive(Debug)]
pub enum InputMethod {
    /// From the keyboard.
    Keyboard,
    /// From another, named, source.
    Custom(String),
}

impl Default for InputMethod {
    /// The keyboard.
    fn default() -> (m: InputMethod)
        ensures
            m is Keyboard,
    {
        InputMethod::Keyboard
    }
}

/// The input related configuration options.
#[derive(Debug)]
pub struct InputSettings {
    pub method: InputMethod,
}

impl Default for InputSettings {
    /// Input from the keyboard.
    fn default() -> (s: InputSettings)
        ensures
            s.method is Keyboard,
    {
        InputSettings { method: InputMethod::default() }
    }
}

} // verus!
