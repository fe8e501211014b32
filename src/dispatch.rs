//! The logger: its configuration, the severity filter and the rendering of
//! a record into the line that every sink receives.
use vstd::prelude::*;
use crate::console_config::{Color, ConsoleConfig};
use crate::file_config::FileConfig;
use crate::level::{Level, LevelFilter};
use crate::stamp::Stamp;

verus! {

#[verifier::external_type_specification]
#[verifier::external_body]
pub struct ExIoError(std::io::Error);

/// A failure of a sink.
pub enum TermiteLogError {
    /// Opening, writing, renaming, listing or removing a file failed.
    FileError(std::io::Error),
}

impl std::convert::From<std::io::Error> for TermiteLogError {
    fn from(e: std::io::Error) -> (r: Self)
        ensures
            r == TermiteLogError::FileError(e),
    {
        TermiteLogError::FileError(e)
    }
}

impl vstd::std_specs::convert::FromSpecImpl<std::io::Error> for TermiteLogError {
    open spec fn obeys_from_spec() -> bool {
        true
    }

    open spec fn from_spec(e: std::io::Error) -> TermiteLogError {
        TermiteLogError::FileError(e)
    }
}

/// The logger's global threshold, its sinks and what each line begins with.
#[derive(Debug)]
pub struct TermiteConfig {
    pub global_log_level: LevelFilter,
    pub console_config: Option<ConsoleConfig>,
    pub file_config: Option<FileConfig>,
    pub log_time: bool,
    pub log_date: bool,
    pub log_path: bool,
}

impl TermiteConfig {
    /// Threshold `Off`, the default console sink, no file sink, no prefixes.
    pub fn default() -> (r: TermiteConfig)
        ensures
            r.global_log_level == LevelFilter::Off,
            r.console_config matches Some(c) && c.log_level == LevelFilter::Off && c.warn_color
                == Color::Red && c.info_color == Color::White && c.debug_color == Color::Green,
            r.file_config is None,
            !r.log_time,
            !r.log_date,
            !r.log_path,
    {
        TermiteConfig {
            global_log_level: LevelFilter::Off,
            console_config: Some(ConsoleConfig::default()),
            file_config: None,
            log_time: false,
            log_date: false,
            log_path: false,
        }
    }

    pub fn console_config(self, config: ConsoleConfig) -> (r: TermiteConfig)
        ensures
            r == (TermiteConfig { console_config: Some(config), ..self }),
    {
        TermiteConfig { console_config: Some(config), ..self }
    }

    pub fn file_config(self, config: FileConfig) -> (r: TermiteConfig)
        ensures
            r == (TermiteConfig { file_config: Some(config), ..self }),
    {
        TermiteConfig { file_config: Some(config), ..self }
    }

    pub fn log_level(self, log_level: LevelFilter) -> (r: TermiteConfig)
        ensures
            r == (TermiteConfig { global_log_level: log_level, ..self }),
    {
        TermiteConfig { global_log_level: log_level, ..self }
    }

    pub fn log_time(self, set: bool) -> (r: TermiteConfig)
        ensures
            r == (TermiteConfig { log_time: set, ..self }),
    {
        TermiteConfig { log_time: set, ..self }
    }

    pub fn log_date(self, set: bool) -> (r: TermiteConfig)
        ensures
            r == (TermiteConfig { log_date: set, ..self }),
    {
        TermiteConfig { log_date: set, ..self }
    }

    pub fn log_path(self, set: bool) -> (r: TermiteConfig)
        ensures
            r == (TermiteConfig { log_path: set, ..self }),
    {
        TermiteConfig { log_path: set, ..self }
    }
}

/// The line for a record: the instant if dates are on and the instant is
/// known, the origin if paths are on and known, then `LEVEL::message`.
pub open spec fn line_text(
    config: TermiteConfig,
    level: Level,
    st: Option<Stamp>,
    origin: Option<Seq<char>>,
    message: Seq<char>,
) -> Seq<char> {
    (match st {
        Some(t) if config.log_date => t.text() + seq![' '],
        _ => Seq::empty(),
    }) + (match origin {
        Some(p) if config.log_path => p + seq![' '],
        _ => Seq::empty(),
    }) + level.name() + seq![':', ':'] + message
}

/// The logger: a configuration that the dispatch of each record reads.
#[derive(Debug)]
pub struct Termite {
    pub config: TermiteConfig,
}

impl Termite {
    pub fn new(config: TermiteConfig) -> (r: Box<Termite>)
        ensures
            r.config == config,
    {
        Box::new(Termite { config })
    }

    /// Whether a record of severity `level` passes the global threshold.
    pub fn enabled(&self, level: Level) -> (r: bool)
        ensures
            r == (level.rank() <= self.config.global_log_level.rank()),
    {
        self.config.global_log_level.allows(level)
    }

    /// Renders the line of a record of severity `level`, emitted at `st`
    /// (`None` when the clock could not be read) from `origin`, with the text
    /// `message`.
    pub fn render_line(&self, level: Level, st: Option<Stamp>, origin: Option<&str>, message: &str) -> (r:
        String)
        requires
            st matches Some(t) ==> t.valid(),
        ensures
            r@ == line_text(
                self.config,
                level,
                st,
                match origin {
                    Some(p) => Some(p@),
                    None => None,
                },
                message@,
            ),
    {
        let mut line = String::new();
        if self.config.log_date {
            if let Some(t) = st {
                let text = t.to_text();
                line.append(text.as_str());
                line.append(" ");
            }
        }
        if self.config.log_path {
            if let Some(p) = origin {
                line.append(p);
                line.append(" ");
            }
        }
        line.append(level.as_str());
        line.append("::");
        line.append(message);
        proof {
            reveal_strlit(" ");
            reveal_strlit("::");
            let ov = match origin {
                Some(p) => Some(p@),
                None => None,
            };
            assert(line@ =~= line_text(self.config, level, st, ov, message@));
        }
        line
    }

    /// The line to hand to the sinks for a record, or `None` when its
    /// severity does not pass the global threshold.
    pub fn dispatch_line(&self, level: Level, st: Option<Stamp>, origin: Option<&str>, message: &str) -> (r:
        Option<String>)
        requires
            st matches Some(t) ==> t.valid(),
        ensures
            r is Some <==> level.rank() <= self.config.global_log_level.rank(),
            r matches Some(l) ==> l@ == line_text(
                self.config,
                level,
                st,
                match origin {
                    Some(p) => Some(p@),
                    None => None,
                },
                message@,
            ),
    {
        if self.enabled(level) {
            Some(self.render_line(level, st, origin, message))
        } else {
            None
        }
    }

    /// The colour of a line of severity `level` on the console, or `None`
    /// when the logger has no console sink.
    pub fn console_color(&self, level: Level) -> (r: Option<Color>)
        ensures
            r == (match self.config.console_config {
                Some(c) => Some(c.color_of(level)),
                None => None,
            }),
    {
        match &self.config.console_config {
            Some(c) => Some(c.color_for(level)),
            None => None,
        }
    }
}

} // verus!
