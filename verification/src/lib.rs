//! A rule-based classifier of user-agent strings: an ordered list of
//! pattern definitions per family — device, operating system, user-agent
//! software — is compiled into matchers, and a string is classified by the
//! first matcher of each family that succeeds, with capture-group template
//! substitution filling the output fields. Matching is total: every input
//! yields a result, and a family with no successful matcher yields its
//! default value with every field absent.

pub mod client;
pub mod device;
pub mod engine;
pub mod eval;
pub mod file;
pub mod os;
pub mod parser;
pub mod template;
pub mod text;
pub mod user_agent;

pub use client::Client;
pub use device::Device;
pub use file::DeviceOverrideRule;
pub use file::DeviceParserEntry;
pub use file::OSParserEntry;
pub use file::OverrideScope;
pub use file::OverrideTarget;
pub use file::RegexFile;
pub use file::UserAgentParserEntry;
pub use os::OS;
pub use parser::Error;
pub use parser::UserAgentParser;
pub use user_agent::UserAgent;
