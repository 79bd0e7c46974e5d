use beeg::checks::CheckCmd;
use beeg::cli::{Cli, Commands, NodeCmd, Output, ParseError};

fn argv(words: &[&str]) -> Vec<String> {
    words.iter().map(|w| w.to_string()).collect()
}

fn parse(words: &[&str]) -> Cli {
    match Cli::parse_from(&argv(words)) {
        Ok(c) => c,
        Err(_) => panic!("command line refused"),
    }
}

#[test]
fn parse_status_json() {
    let cli = parse(&["beeg", "--output", "json", "status"]);
    match cli.command {
        Commands::Status(_) => {}
        _ => panic!("expected status"),
    }
    assert!(matches!(cli.output, Output::Json));
}

#[test]
fn parse_check_nvidia() {
    let cli = parse(&["beeg", "check", "nvidia-driver", "-s", "all"]);
    match cli.command {
        Commands::Check(_) => {}
        _ => panic!("expected check"),
    }
}

#[test]
fn parse_check_cuda() {
    let cli = parse(&["beeg", "check", "cuda", "-s", "gpu"]);
    match cli.command {
        Commands::Check(_) => {}
        _ => panic!("expected check cuda"),
    }
}

#[test]
fn parse_check_nvidia_fs() {
    let cli = parse(&["beeg", "check", "nvidia-fs", "-s", "all"]);
    match cli.command {
        Commands::Check(_) => {}
        _ => panic!("expected check nvidia-fs"),
    }
}

#[test]
fn parse_check_ofed() {
    let cli = parse(&["beeg", "check", "ofed", "-s", "all"]);
    match cli.command {
        Commands::Check(_) => {}
        _ => panic!("expected check ofed"),
    }
}

#[test]
fn parse_check_client_mount() {
    let cli = parse(&["beeg", "check", "client-mount", "--mount", "/mnt/beegfs", "-s", "all"]);
    match cli.command {
        Commands::Check(_) => {}
        _ => panic!("expected check client mount"),
    }
}

#[test]
fn parse_check_storage_target() {
    let cli = parse(&["beeg", "check", "storage-target", "--selector", "node-a", "--targets", "all"]);
    match cli.command {
        Commands::Check(_) => {}
        _ => panic!("expected check storage-target"),
    }
}

#[test]
fn parse_node_exec() {
    let cli = parse(&["beeg", "node", "exec", "--", "echo", "hi"]);
    match cli.command {
        Commands::Node(NodeCmd::Exec(_)) => {}
        _ => panic!("expected node exec"),
    }
}

#[test]
fn client_mount_defaults_and_values() {
    let cli = parse(&["beeg", "check", "client-mount", "--mount=/mnt/fs", "--timeout", "25"]);
    match cli.command {
        Commands::Check(CheckCmd::ClientMount(a)) => {
            assert_eq!(a.mount, "/mnt/fs");
            assert_eq!(a.selector, "all");
            assert_eq!(a.timeout, 25);
        }
        _ => panic!("expected check client mount"),
    }
    let cli = parse(&["beeg", "check", "client-mount", "--mount", "/m"]);
    match cli.command {
        Commands::Check(CheckCmd::ClientMount(a)) => assert_eq!(a.timeout, 10),
        _ => panic!("expected check client mount"),
    }
}

#[test]
fn storage_target_node_alias() {
    let cli = parse(&["beeg", "-vv", "check", "storage-target", "--node", "n1"]);
    assert_eq!(cli.verbose, 2);
    match cli.command {
        Commands::Check(CheckCmd::StorageTarget(a)) => {
            assert_eq!(a.selector, "n1");
            assert_eq!(a.targets, "all");
        }
        _ => panic!("expected check storage-target"),
    }
}

#[test]
fn node_exec_collects_words() {
    let cli = parse(&["beeg", "node", "exec", "-s", "gpu", "--", "uname", "-a"]);
    match cli.command {
        Commands::Node(NodeCmd::Exec(a)) => {
            assert_eq!(a.selector, "gpu");
            assert_eq!(a.cmd, vec!["uname".to_string(), "-a".to_string()]);
        }
        _ => panic!("expected node exec"),
    }
}

#[test]
fn refused_command_lines() {
    assert!(matches!(Cli::parse_from(&argv(&["beeg"])), Err(ParseError::MissingCommand)));
    assert!(matches!(Cli::parse_from(&argv(&["beeg", "frobnicate"])), Err(ParseError::Unexpected(_))));
    assert!(matches!(Cli::parse_from(&argv(&["beeg", "check", "client-mount"])), Err(ParseError::MissingArgument(_))));
    assert!(matches!(Cli::parse_from(&argv(&["beeg", "--output", "xml", "status"])), Err(ParseError::InvalidValue(_))));
    assert!(matches!(Cli::parse_from(&argv(&["beeg", "status", "-s"])), Err(ParseError::MissingValue(_))));
    assert!(matches!(
        Cli::parse_from(&argv(&["beeg", "check", "client-mount", "--mount", "/m", "--timeout", "99999999999999999999"])),
        Err(ParseError::InvalidValue(_))
    ));
    assert!(matches!(Cli::parse_from(&argv(&["beeg", "node", "exec"])), Err(ParseError::MissingArgument(_))));
}

#[test]
fn plain_command_lines_parse() {
    let cli = parse(&["beeg", "status"]);
    assert!(matches!(cli.command, Commands::Status(ref a) if a.selector.is_none()));
    assert!(matches!(cli.output, Output::Human));
    assert!(matches!(parse(&["beeg", "node", "list"]).command, Commands::Node(NodeCmd::List)));
    match parse(&["beeg", "check", "ofed"]).command {
        Commands::Check(CheckCmd::Ofed(a)) => assert_eq!(a.selector, "all"),
        _ => panic!("expected check ofed"),
    }
}
