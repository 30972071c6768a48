use vstd::prelude::*;

verus! {

/// Severity of a forwarded log message.
#[derive(Debug, Clone, Copy, PartialEq, Eq, Structural)]
pub enum LogLevel {
    Error,
    Warn,
    Info,
    Debug,
    Trace,
}

/// A log message forwarded across the plugin boundary, as plain data.
#[derive(Debug, PartialEq, Eq)]
pub struct Record {
    pub level: LogLevel,
    pub target: String,
    pub msg: String,
    pub module: Option<String>,
    pub file: Option<String>,
    pub line: Option<u32>,
}

/// The capability class a plugin registers under.
#[derive(Debug, Clone, Copy, PartialEq, Eq, Structural)]
pub enum PluginType {
    Script,
    Action,
}

/// The kind of frontend the session renders to.
#[derive(Debug, Clone, Copy, PartialEq, Eq, Structural)]
pub enum FrontendType {
    Text,
    Html,
}

/// A locale identifier, held as its plain language tag.
#[derive(Debug, PartialEq, Eq)]
pub struct Locale(pub String);

impl View for Locale {
    type V = Seq<char>;

    open spec fn view(&self) -> Seq<char> {
        self.0@
    }
}

/// The error classes that abort a step and surface to the caller.
#[derive(Debug, PartialEq, Eq)]
pub enum EngineError {
    /// A custom line names a command with no line-command handler.
    MissingLineCommand(String),
    /// The two locales of one unit resolved to different action variants.
    MismatchedActionType,
    /// A plugin dispatch failed.
    Plugin(String),
    /// A settings or record store failed to persist.
    Storage(String),
}

} // verus!
