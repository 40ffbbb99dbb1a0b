//! Configuration of the task backend.
use crate::text::{joined, parse_unsigned, parsed_unsigned, string_view, IntError};
use vstd::prelude::*;

verus! {

/// Path to the SQLite database backing the task store.
pub const ENV_DB_PATH: &'static str = "ANIMUS_DEFAULT_TASK_DB_PATH";

/// Overrides the sequential id prefix (default `TASK-`).
pub const ENV_ID_PREFIX: &'static str = "ANIMUS_DEFAULT_TASK_ID_PREFIX";

/// Overrides the sequential id zero-padding width (default `3`).
pub const ENV_ID_PAD: &'static str = "ANIMUS_DEFAULT_TASK_ID_PAD";

/// Default location of the database, relative to the working directory.
pub const DEFAULT_DB_PATH: &'static str = ".animus/subjects/tasks.db";

/// Default sequential id prefix.
pub const DEFAULT_ID_PREFIX: &'static str = "TASK-";

/// Default zero-pad width of sequential ids.
pub const DEFAULT_ID_PAD: usize = 3;

/// The subject kind that this backend claims.
pub const SUBJECT_KIND: &'static str = "task";

/// Runtime configuration of the task backend.
#[derive(Debug)]
pub struct DefaultTaskConfig {
    /// Filesystem path to the SQLite database. Created on first use.
    pub db_path: String,
    /// Sequential id prefix.
    pub id_prefix: String,
    /// Zero-padding width of sequential ids.
    pub id_pad: usize,
}

impl Clone for DefaultTaskConfig {
    fn clone(&self) -> (copy: Self)
        ensures
            copy.db_path@ == self.db_path@,
            copy.id_prefix@ == self.id_prefix@,
            copy.id_pad == self.id_pad,
    {
        DefaultTaskConfig {
            db_path: self.db_path.clone(),
            id_prefix: self.id_prefix.clone(),
            id_pad: self.id_pad,
        }
    }
}

/// A setting that counts as unset where it is empty.
pub open spec fn setting(given: Option<Seq<char>>) -> Option<Seq<char>> {
    match given {
        Some(s) => if s.len() == 0 {
            None
        } else {
            Some(s)
        },
        None => None,
    }
}

/// The text that follows in the message about a pad width that is not a number.
pub open spec fn int_error_text(error: IntError) -> Seq<char> {
    match error {
        IntError::Empty => "cannot parse integer from empty string"@,
        IntError::InvalidDigit => "invalid digit found in string"@,
        IntError::TooLarge => "number too large to fit in target type"@,
    }
}

fn int_error_message(error: IntError) -> (text: &'static str)
    ensures
        text@ == int_error_text(error),
{
    match error {
        IntError::Empty => "cannot parse integer from empty string",
        IntError::InvalidDigit => "invalid digit found in string",
        IntError::TooLarge => "number too large to fit in target type",
    }
}

fn non_empty(given: Option<String>) -> (s: Option<String>)
    ensures
        string_view(s) == setting(string_view(given)),
{
    match given {
        Some(s) => if s.as_str().is_empty() {
            None
        } else {
            Some(s)
        },
        None => None,
    }
}

/// The pad width that a setting gives.
pub open spec fn pad_setting(given: Option<Seq<char>>) -> Result<nat, IntError> {
    match setting(given) {
        Some(raw) => parsed_unsigned(raw, usize::MAX as nat),
        None => Ok(3),
    }
}

impl DefaultTaskConfig {
    /// The configuration of a database path, with the default ids.
    pub fn new(db_path: &str) -> (config: Self)
        ensures
            config.db_path@ == db_path@,
            config.id_prefix@ == "TASK-"@,
            config.id_pad == 3,
    {
        DefaultTaskConfig {
            db_path: db_path.to_string(),
            id_prefix: DEFAULT_ID_PREFIX.to_string(),
            id_pad: DEFAULT_ID_PAD,
        }
    }

    /// The configuration that three settings give. One that is unset or empty has its default;
    /// a pad width that is not an unsigned number is an error, which is the message.
    pub fn from_settings(
        db_path: Option<String>,
        id_prefix: Option<String>,
        id_pad: Option<String>,
    ) -> (config: Result<Self, String>)
        ensures
            match config {
                Ok(config) => {
                    &&& pad_setting(string_view(id_pad)) == Ok::<nat, IntError>(
                        config.id_pad as nat,
                    )
                    &&& config.db_path@ == (match setting(string_view(db_path)) {
                        Some(path) => path,
                        None => ".animus/subjects/tasks.db"@,
                    })
                    &&& config.id_prefix@ == (match setting(string_view(id_prefix)) {
                        Some(prefix) => prefix,
                        None => "TASK-"@,
                    })
                },
                Err(message) => {
                    &&& pad_setting(string_view(id_pad)) matches Err(error)
                    &&& message@ == "ANIMUS_DEFAULT_TASK_ID_PAD must be a non-negative integer: "@
                        + int_error_text(error)
                },
            },
    {
        let db_path = match non_empty(db_path) {
            Some(path) => path,
            None => DEFAULT_DB_PATH.to_string(),
        };
        let id_prefix = match non_empty(id_prefix) {
            Some(prefix) => prefix,
            None => DEFAULT_ID_PREFIX.to_string(),
        };
        let id_pad: usize = match non_empty(id_pad) {
            None => DEFAULT_ID_PAD,
            Some(raw) => match parse_unsigned(raw.as_str(), usize::MAX as u64) {
                Ok(n) => n as usize,
                Err(error) => {
                    return Err(
                        joined(
                            "ANIMUS_DEFAULT_TASK_ID_PAD must be a non-negative integer: ",
                            int_error_message(error),
                        ),
                    );
                },
            },
        };
        Ok(DefaultTaskConfig { db_path, id_prefix, id_pad })
    }
}

} // verus!
