use vstd::prelude::*;

verus! {

/// How to reach Neovim.
#[derive(Clone, Debug, PartialEq, Eq)]
pub enum ConnectionMode {
    /// Start Neovim as a child process.
    Child,
    /// Connect to a Neovim listening at `HOST:PORT`.
    RemoteTcp(String),
}

/// The command line options.
#[derive(Clone, Debug, PartialEq, Eq)]
pub struct Opts {
    /// Path to the Neovim binary.
    pub nvim_path: Option<String>,
    /// Remote Neovim over TCP, as `HOST:PORT`.
    pub remote_tcp: Option<String>,
    /// Initial window width.
    pub width: i32,
    /// Initial window height.
    pub height: i32,
    /// How verbose the log is.
    pub verbose: u8,
    /// Files to open.
    pub files: Vec<String>,
    /// Arguments passed on to Neovim.
    pub nvim_args: Vec<String>,
    pub title: String,
    pub size: Option<(i64, i64)>,
}

/// The most detailed log level to show.
#[derive(Copy, Clone, Debug, PartialEq, Eq)]
pub enum LevelFilter {
    Off,
    Error,
    Warn,
    Info,
    Debug,
    Trace,
}

pub open spec fn level_of(verbose: u8) -> LevelFilter {
    if verbose == 0 {
        LevelFilter::Off
    } else if verbose == 1 {
        LevelFilter::Error
    } else if verbose == 2 {
        LevelFilter::Warn
    } else if verbose == 3 {
        LevelFilter::Info
    } else if verbose == 4 {
        LevelFilter::Debug
    } else {
        LevelFilter::Trace
    }
}

impl Opts {
    /// A remote address given means a TCP connection, else a child process.
    pub fn connection_mode(&self) -> (res: ConnectionMode)
        ensures
            match self.remote_tcp {
                Some(remote) => res matches ConnectionMode::RemoteTcp(a) && a@ == remote@,
                None => res == ConnectionMode::Child,
            },
    {
        match &self.remote_tcp {
            Some(remote) => ConnectionMode::RemoteTcp(remote.clone()),
            None => ConnectionMode::Child,
        }
    }

    /// The log level each `-v` raises to: none shows nothing, then errors,
    /// warnings, information, debugging, and from five on everything.
    pub fn level_filter(&self) -> (res: LevelFilter)
        ensures
            res == level_of(self.verbose),
    {
        match self.verbose {
            0 => LevelFilter::Off,
            1 => LevelFilter::Error,
            2 => LevelFilter::Warn,
            3 => LevelFilter::Info,
            4 => LevelFilter::Debug,
            _ => LevelFilter::Trace,
        }
    }

    /// Whether the connection goes to a remote Neovim.
    pub fn is_remote(&self) -> (res: bool)
        ensures
            res == self.remote_tcp is Some,
    {
        match self.connection_mode() {
            ConnectionMode::RemoteTcp(_) => true,
            ConnectionMode::Child => false,
        }
    }
}

/// More `-v` never shows less.
pub proof fn lemma_level_monotone(a: u8, b: u8)
    requires
        a <= b,
    ensures
        level_rank(level_of(a)) <= level_rank(level_of(b)),
{
}

pub open spec fn level_rank(l: LevelFilter) -> int {
    match l {
        LevelFilter::Off => 0,
        LevelFilter::Error => 1,
        LevelFilter::Warn => 2,
        LevelFilter::Info => 3,
        LevelFilter::Debug => 4,
        LevelFilter::Trace => 5,
    }
}

} // verus!
