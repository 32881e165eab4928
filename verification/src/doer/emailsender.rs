//! The mail-notification doer's configuration and message shaping.
//!
//! The SMTP delivery itself is an external collaborator and lives
//! outside the library; this module validates the configuration at
//! construction time and decides the message content.

use vstd::prelude::*;
use crate::config::Config;
use crate::config::ConfigError;
use crate::config::lookup;

verus! {

/// The account, recipient and message that notification mails are
/// sent with.
#[derive(Debug)]
pub struct EmailSender {
    pub sender: String,
    pub password: String,
    pub recver: String,
    pub subject: String,
    pub content: String,
}

impl EmailSender {
    /// Builds the sender from the configuration keys `sender`,
    /// `password`, `recver`, `subject` and `content`. A missing key is
    /// a fatal configuration error.
    pub fn new(config: &Config) -> (r: Result<EmailSender, ConfigError>)
        ensures
            match r {
                Ok(c) => {
                    &&& lookup(config@, "sender"@) == Some(c.sender@)
                    &&& lookup(config@, "password"@) == Some(c.password@)
                    &&& lookup(config@, "recver"@) == Some(c.recver@)
                    &&& lookup(config@, "subject"@) == Some(c.subject@)
                    &&& lookup(config@, "content"@) == Some(c.content@)
                },
                Err(e) => {
                    &&& e == ConfigError::MissingKey
                    &&& (lookup(config@, "sender"@) is None || lookup(config@, "password"@) is None
                        || lookup(config@, "recver"@) is None || lookup(config@, "subject"@) is None
                        || lookup(config@, "content"@) is None)
                },
            },
    {
        let sender = match config.get("sender") {
            Some(v) => v.clone(),
            None => {
                return Err(ConfigError::MissingKey);
            },
        };
        let password = match config.get("password") {
            Some(v) => v.clone(),
            None => {
                return Err(ConfigError::MissingKey);
            },
        };
        let recver = match config.get("recver") {
            Some(v) => v.clone(),
            None => {
                return Err(ConfigError::MissingKey);
            },
        };
        let subject = match config.get("subject") {
            Some(v) => v.clone(),
            None => {
                return Err(ConfigError::MissingKey);
            },
        };
        let content = match config.get("content") {
            Some(v) => v.clone(),
            None => {
                return Err(ConfigError::MissingKey);
            },
        };
        Ok(EmailSender { sender, password, recver, subject, content })
    }

    /// The text of the notification mail for one received event: the
    /// configured content, unchanged.
    pub fn replace_content(&self, c: &str) -> (r: String)
        ensures
            r@ == self.content@,
    {
        let _ = c;
        self.content.clone()
    }
}

} // verus!
