//! The command line: its commands and their arguments.
use vstd::prelude::*;

use std::path::PathBuf;

verus! {

/// A file system path, carried through unchanged.
#[verifier::external_type_specification]
#[verifier::external_body]
pub struct ExPathBuf(std::path::PathBuf);

/// The parsed command line.
#[derive(Clone, Debug)]
pub struct Cli {
    pub command: Option<Command>,
}

/// The subcommands.
#[derive(Clone, Debug)]
pub enum Command {
    /// Install the shell hook that starts the proxy on demand
    Install(InstallArgs),
    /// Remove shell hook installed by terse install
    Uninstall(InstallArgs),
    /// Run a local proxy that compresses history before forwarding to Anthropic
    Proxy(ProxyArgs),
    /// Compress text or history JSON
    Compress(CompressArgs),
    /// Show compression stats without modified output
    Stats(CommonArgs),
    /// Show before/after diff of compression
    Diff(CommonArgs),
    /// Show effective configuration
    Config,
    /// Show token savings across all sessions
    Gains(GainsArgs),
    /// Upgrade terse to the latest release
    Upgrade,
}

/// Arguments shared by `stats` and `diff`.
#[derive(Clone, Debug)]
pub struct CommonArgs {
    /// File to read (stdin if omitted)
    pub file: Option<PathBuf>,
    /// Compression mode: trim, compress, or rewrite [config: mode]
    pub mode: Option<String>,
    /// Tokenizer to use: tiktoken or approximation [config: tokenizer]
    pub tokenizer: Option<String>,
    /// Role for text mode (user or assistant)
    pub role: String,
    /// Write output to file instead of stdout
    pub output: Option<PathBuf>,
}

/// Arguments of `compress`.
#[derive(Clone, Debug)]
pub struct CompressArgs {
    /// File to read (stdin if omitted)
    pub file: Option<PathBuf>,
    /// Compression mode: trim, compress, or rewrite [config: mode]
    pub mode: Option<String>,
    /// Tokenizer to use: tiktoken or approximation [config: tokenizer]
    pub tokenizer: Option<String>,
    /// Role for text mode (user or assistant)
    pub role: String,
    /// History mode: emit plain text instead of JSON (role: content per line)
    pub text: bool,
    /// Print compression stats to stderr
    pub stats: bool,
    /// Write output to file instead of stdout
    pub output: Option<PathBuf>,
}

/// Arguments of `proxy`.
#[derive(Clone, Debug)]
pub struct ProxyArgs {
    pub action: Option<ProxyCommand>,
    /// Port to listen on [config: proxy.port]
    pub port: Option<u16>,
    /// Compression mode: trim, compress, or rewrite [config: mode]
    pub mode: Option<String>,
    /// Tokenizer to use: tiktoken or approximation [config: tokenizer]
    pub tokenizer: Option<String>,
    /// PID file path [default: ~/.terse/terse.pid]
    pub pid_file: Option<PathBuf>,
}

/// The actions of `proxy` other than serving.
#[derive(Clone, Debug)]
pub enum ProxyCommand {
    /// Stop a running terse proxy
    Stop { pid_file: Option<PathBuf> },
    /// Show status and stats for the running proxy
    Status { pid_file: Option<PathBuf> },
}

/// Arguments of `gains`.
#[derive(Clone, Debug)]
pub struct GainsArgs {
    /// Refresh every N seconds (default: 2)
    pub interval: u64,
    /// Watch mode: live redraw as sessions update
    pub watch: bool,
}

/// Arguments of `install` and `uninstall`.
#[derive(Clone, Debug)]
pub struct InstallArgs {
    /// Shell RC file to write to [default: ~/.zshrc or ~/.bashrc based on $SHELL]
    pub rc_file: Option<PathBuf>,
    /// Proxy port to use in the shell hook [config: proxy.port]
    pub port: Option<u16>,
}

} // verus!
