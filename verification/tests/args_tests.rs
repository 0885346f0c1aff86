use e2e_yaml::args::{parse_args, Args, ParseArgsError};

#[test]
fn test_invalid_args() {
    let args = vec!["bin".to_string(), "a".to_string()];

    let args = parse_args(args);
    assert!(args.is_err());
    assert_eq!(args.err(), Some(ParseArgsError::Unknown("".to_string())))
}

#[test]
fn test_default_args() {
    let args = vec![];

    let args = parse_args(args).unwrap();
    assert_eq!(args.e2e_yaml(), "e2e.yaml");
}

#[test]
fn test_parse_args() {
    let args = vec![
        "e2e".to_string(),
        "-f".to_string(),
        "example-e2e.yaml".to_string(),
    ];
    let args = parse_args(args).unwrap();
    assert_eq!(args.e2e_yaml(), "example-e2e.yaml");
}

#[test]
fn test_parse_args_long_option() {
    let args = vec!["e2e".to_string(), "--file".to_string(), "x.yaml".to_string()];
    assert_eq!(parse_args(args).unwrap().e2e_yaml(), "x.yaml");
}

#[test]
fn test_parse_args_last_file_wins() {
    let args = vec![
        "e2e".to_string(),
        "-f".to_string(),
        "a.yaml".to_string(),
        "--file".to_string(),
        "b.yaml".to_string(),
    ];
    assert_eq!(parse_args(args).unwrap().e2e_yaml(), "b.yaml");
}

#[test]
fn test_parse_args_option_without_path() {
    let args = vec![
        "e2e".to_string(),
        "-f".to_string(),
        "a.yaml".to_string(),
        "-f".to_string(),
    ];
    assert_eq!(parse_args(args).unwrap().e2e_yaml(), "e2e.yaml");
}

#[test]
fn test_parse_args_program_name_only() {
    assert_eq!(parse_args(vec!["-f".to_string()]).unwrap(), Args::default());
    assert_eq!(Args::default().e2e_yaml(), "e2e.yaml");
}

#[test]
fn test_parse_args_unknown_after_file() {
    let args = vec![
        "e2e".to_string(),
        "-f".to_string(),
        "a.yaml".to_string(),
        "run".to_string(),
    ];
    assert_eq!(parse_args(args), Err(ParseArgsError::Unknown(String::new())));
}
