//! A multi-protocol deception engine: once a session is judged suspicious,
//! it is handed to an emulated SSH shell, web application or MySQL server
//! that holds the attacker's attention, captures credentials and commands,
//! and never performs any requested action.
//!
//! Every function here is verified against its contract, apart from two
//! small wrappers: one around std's Unicode lowercase mapping and one around
//! `urlencoding::decode`. Delays are computed, not slept, so the caller
//! decides where to suspend.
pub mod command_parser;
pub mod deception_system;
pub mod fake_filesystem;
pub mod honeypots;
pub mod http_interaction;
pub mod mysql_interaction;
pub mod response_generator;
pub mod ssh_interaction;
pub mod text;

pub use command_parser::{Command, CommandParser, CommandStats};
pub use deception_system::{DeceptionReport, DeceptionSystem, HoneypotConfig, InteractionLevel, IpAddress};
pub use fake_filesystem::{FakeFilesystem, FileEntry, FileType};
pub use honeypots::{Honeypot, HoneypotType, HttpHoneypot, MysqlHoneypot, SshHoneypot};
pub use http_interaction::{HttpAttack, HttpInteractionHandler, HttpMethod, HttpRequest, HttpResponse, HttpStats, Route};
pub use mysql_interaction::{MysqlInteractionHandler, MysqlResponse, MysqlStats, SqlThreat};
pub use response_generator::{ResponseGenerator, ResponseStrategy};
pub use ssh_interaction::SshInteractionHandler;
