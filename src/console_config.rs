//! Settings of the console sink.
use vstd::prelude::*;
use crate::level::{Level, LevelFilter};

verus! {

/// A terminal colour.
#[derive(Clone, Copy, Debug, PartialEq, Eq, Structural)]
pub enum Color {
    Black,
    Blue,
    Green,
    Red,
    Cyan,
    Magenta,
    Yellow,
    White,
    Ansi256(u8),
    Rgb(u8, u8, u8),
}

/// The console sink's threshold and the colours of its lines.
#[derive(Debug)]
pub struct ConsoleConfig {
    pub log_level: LevelFilter,
    pub warn_color: Color,
    pub info_color: Color,
    pub debug_color: Color,
}

impl ConsoleConfig {
    /// Threshold `Off`; warnings red, information white, debugging green.
    pub fn default() -> (r: ConsoleConfig)
        ensures
            r.log_level == LevelFilter::Off,
            r.warn_color == Color::Red,
            r.info_color == Color::White,
            r.debug_color == Color::Green,
    {
        ConsoleConfig {
            log_level: LevelFilter::Off,
            warn_color: Color::Red,
            info_color: Color::White,
            debug_color: Color::Green,
        }
    }

    pub fn warn_color(self, color: Color) -> (r: ConsoleConfig)
        ensures
            r == (ConsoleConfig { warn_color: color, ..self }),
    {
        ConsoleConfig { warn_color: color, ..self }
    }

    pub fn info_color(self, color: Color) -> (r: ConsoleConfig)
        ensures
            r == (ConsoleConfig { info_color: color, ..self }),
    {
        ConsoleConfig { info_color: color, ..self }
    }

    pub fn debug_color(self, color: Color) -> (r: ConsoleConfig)
        ensures
            r == (ConsoleConfig { debug_color: color, ..self }),
    {
        ConsoleConfig { debug_color: color, ..self }
    }

    pub fn log_level(self, log_level: LevelFilter) -> (r: ConsoleConfig)
        ensures
            r == (ConsoleConfig { log_level, ..self }),
    {
        ConsoleConfig { log_level, ..self }
    }

    /// The colour of a line of severity `level`: the warning, information or
    /// debugging colour for those levels, white for errors and traces.
    pub open spec fn color_of(self, level: Level) -> Color {
        match level {
            Level::Warn => self.warn_color,
            Level::Info => self.info_color,
            Level::Debug => self.debug_color,
            _ => Color::White,
        }
    }

    /// Picks the colour of a line of severity `level`.
    pub fn color_for(&self, level: Level) -> (r: Color)
        ensures
            r == self.color_of(level),
    {
        match level {
            Level::Warn => self.warn_color,
            Level::Info => self.info_color,
            Level::Debug => self.debug_color,
            _ => Color::White,
        }
    }
}

} // verus!
