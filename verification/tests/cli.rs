use bigbrother::cli::{Cli, Commands};
use clap::{Arg, Command};

fn data_dir_arg() -> Arg {
    Arg::new("data_dir").short('d').long("data-dir").default_value("./data")
}

fn command() -> Command {
    Command::new("bigbrother")
        .subcommand_required(true)
        .subcommand(Command::new("server").arg(data_dir_arg()))
        .subcommand(Command::new("once").arg(data_dir_arg()))
        .subcommand(
            Command::new("push")
                .arg(data_dir_arg())
                .arg(Arg::new("message").short('m').long("message").required(true)),
        )
}

fn parse(args: &[&str]) -> Result<Cli, String> {
    let matches = command().try_get_matches_from(args).map_err(|e| e.to_string())?;
    let (name, sub) = matches.subcommand().ok_or("no command".to_string())?;
    let data_dir = sub.try_get_one::<String>("data_dir").ok().flatten().cloned();
    let message = sub.try_get_one::<String>("message").ok().flatten().cloned();
    Cli::from_parts(name, data_dir, message).map_err(|e| e.message())
}

#[test]
fn verify_cli() {
    command().debug_assert()
}

#[test]
fn cli_commands_take_their_arguments() {
    let cli = parse(&["bigbrother", "server"]).unwrap();
    assert_eq!(cli.command_name(), "server");
    match cli.command {
        Commands::Server(a) => assert_eq!(a.data_dir, "./data"),
        _ => panic!("not the server command"),
    }
    let cli = parse(&["bigbrother", "once", "-d", "/var/lib/bb"]).unwrap();
    assert_eq!(cli.command_name(), "once");
    match cli.command {
        Commands::Once(a) => assert_eq!(a.data_dir, "/var/lib/bb"),
        _ => panic!("not the once command"),
    }
    let cli = parse(&["bigbrother", "push", "--data-dir", "d", "--message", "hello"]).unwrap();
    assert_eq!(cli.command_name(), "push");
    match cli.command {
        Commands::Push(a) => {
            assert_eq!(a.data_dir, "d");
            assert_eq!(a.message, "hello");
        }
        _ => panic!("not the push command"),
    }
}

#[test]
fn cli_refuses_what_is_no_command() {
    assert!(parse(&["bigbrother", "push"]).is_err());
    assert!(parse(&["bigbrother", "dance"]).is_err());
    let e = Cli::from_parts("push", None, None).unwrap_err();
    assert_eq!(e.message(), "internal error, push needs a message");
    let e = Cli::from_parts("dance", Some("x".to_string()), None).unwrap_err();
    assert_eq!(e.message(), "internal error, unknown command");
    let e = Cli::from_parts("Server", None, None).unwrap_err();
    assert_eq!(e.message(), "internal error, unknown command");
}
