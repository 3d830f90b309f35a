use reovim::opts::{ConnectionMode, LevelFilter, Opts};

fn opts(remote: Option<&str>, verbose: u8) -> Opts {
    Opts {
        nvim_path: None,
        remote_tcp: remote.map(String::from),
        width: 800,
        height: 600,
        verbose,
        files: Vec::new(),
        nvim_args: Vec::new(),
        title: "t".to_string(),
        size: None,
    }
}

#[test]
fn connection_modes() {
    assert_eq!(opts(None, 0).connection_mode(), ConnectionMode::Child);
    assert!(!opts(None, 0).is_remote());
    let remote = opts(Some("127.0.0.1:6666"), 0);
    assert_eq!(remote.connection_mode(), ConnectionMode::RemoteTcp("127.0.0.1:6666".to_string()));
    assert!(remote.is_remote());
}

#[test]
fn verbosity_levels() {
    let levels: Vec<LevelFilter> = (0..7).map(|v| opts(None, v).level_filter()).collect();
    assert_eq!(
        levels,
        vec![
            LevelFilter::Off,
            LevelFilter::Error,
            LevelFilter::Warn,
            LevelFilter::Info,
            LevelFilter::Debug,
            LevelFilter::Trace,
            LevelFilter::Trace
        ]
    );
    assert_eq!(opts(None, 255).level_filter(), LevelFilter::Trace);
}
