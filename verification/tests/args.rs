use runner::args::{parse_args, ArgError, Command};

fn args(v: &[&str]) -> Vec<String> {
    v.iter().map(|s| s.to_string()).collect()
}

#[test]
fn options() {
    match parse_args(&args(&["-p", "calc", "--provider", "files", "-q", "/bluetooth"])) {
        Ok(Command::Run(o)) => {
            assert_eq!(o.providers, Some(vec!["calc".to_string(), "files".to_string()]));
            assert_eq!(o.initial_query, "/bluetooth");
        }
        _ => panic!("expected options"),
    }
    match parse_args(&[]) {
        Ok(Command::Run(o)) => {
            assert_eq!(o.providers, None);
            assert_eq!(o.initial_query, "");
        }
        _ => panic!("expected options"),
    }
    assert!(matches!(parse_args(&args(&["-q", "x", "--help", "-z"])), Ok(Command::Help)));
}

#[test]
fn errors() {
    match parse_args(&args(&["-p"])) {
        Err(e @ ArgError::MissingProvider) => assert_eq!(e.message(), "missing provider name"),
        _ => panic!(),
    }
    match parse_args(&args(&["--query"])) {
        Err(e @ ArgError::MissingQuery) => assert_eq!(e.message(), "missing query text"),
        _ => panic!(),
    }
    match parse_args(&args(&["-x", "-h"])) {
        Err(e @ ArgError::Unknown(_)) => assert_eq!(e.message(), "unknown argument: -x"),
        _ => panic!(),
    }
}
