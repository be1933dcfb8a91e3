//! How the programs log.

use vstd::prelude::*;
use vstd::string::StringExecFns;

verus! {

/// How much is logged, from the most to the least.
#[derive(Debug, Clone, Copy, PartialEq, Eq, Structural)]
pub enum Level {
    TRACE,
    DEBUG,
    INFO,
    WARN,
    ERROR,
}

#[derive(Debug, Clone)]
pub struct LoggerConfig {
    pub level: Level,
    pub file_log: bool,
    pub filename_suffix: String,
    pub logs_dir: String,
}

impl Default for LoggerConfig {
    fn default() -> (r: Self)
        ensures
            r.level == Level::INFO,
            !r.file_log,
            r.filename_suffix@ == ""@,
            r.logs_dir@ == "./logs"@,
    {
        Self {
            level: Level::INFO,
            file_log: false,
            filename_suffix: String::from_str(""),
            logs_dir: String::from_str("./logs"),
        }
    }
}

impl LoggerConfig {
    pub fn with_level(self, level: Level) -> (r: Self)
        ensures
            r.level == level,
            r.file_log == self.file_log,
            r.filename_suffix == self.filename_suffix,
            r.logs_dir == self.logs_dir,
    {
        Self { level, ..self }
    }

    pub fn with_file_log(self, file_log: bool) -> (r: Self)
        ensures
            r.file_log == file_log,
            r.level == self.level,
            r.filename_suffix == self.filename_suffix,
            r.logs_dir == self.logs_dir,
    {
        Self { file_log, ..self }
    }

    pub fn with_filename_suffix(self, filename_suffix: &str) -> (r: Self)
        ensures
            r.filename_suffix@ == filename_suffix@,
            r.level == self.level,
            r.file_log == self.file_log,
            r.logs_dir == self.logs_dir,
    {
        Self { filename_suffix: String::from_str(filename_suffix), ..self }
    }

    pub fn with_logs_dir(self, logs_dir: &str) -> (r: Self)
        ensures
            r.logs_dir@ == logs_dir@,
            r.level == self.level,
            r.file_log == self.file_log,
            r.filename_suffix == self.filename_suffix,
    {
        Self { logs_dir: String::from_str(logs_dir), ..self }
    }

    /// The end of the names of the log files: the configured suffix and
    /// ".log".
    pub fn file_suffix(&self) -> (r: String)
        ensures
            r@ == self.filename_suffix@ + ".log"@,
    {
        let mut r = self.filename_suffix.clone();
        r.append(".log");
        r
    }
}

} // verus!
