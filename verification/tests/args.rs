use mail_merge::args::{Args, ArgsError};

#[test]
fn new_has_no_argument() {
    let args = Args::new();
    assert!(matches!(
        args.get(0, "anything".to_string()),
        Err(ArgsError::CannotGetArgument(0, _))
    ));
}

#[test]
fn get_returns_the_argument_at_its_position() {
    let args = Args::from_vec(vec!["prog".to_string(), "conf.json".to_string(), "a.xlsx".to_string()]);
    assert_eq!(args.get(0, "x".to_string()).ok(), Some("prog".to_string()));
    assert_eq!(args.get(1, "x".to_string()).ok(), Some("conf.json".to_string()));
    assert_eq!(args.get(2, "x".to_string()).ok(), Some("a.xlsx".to_string()));
}

#[test]
fn get_beyond_the_end_names_position_and_expectation() {
    let args = Args::from_vec(vec!["prog".to_string()]);
    match args.get(3, "a sheet name".to_string()) {
        Err(ArgsError::CannotGetArgument(n, x)) => {
            assert_eq!(n, 3);
            assert_eq!(x, "a sheet name");
        }
        Ok(_) => panic!("there is no fourth argument"),
    }
}

#[test]
fn args_error_sentence() {
    let e = ArgsError::CannotGetArgument(12, "excel file".to_string());
    assert_eq!(
        e.into(),
        "We expect argument 12 to be excel file, but we didn't get this argument from command line. "
    );
}
