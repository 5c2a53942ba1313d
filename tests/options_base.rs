use ropts::error::Error;
use ropts::options::{OptionBaseAttributes, Validate};

#[test]
fn identifier_env() {
    let opt = OptionBaseAttributes::<String> {
        description: "".to_string(),
        env_key: Some("ENV_KEY".to_string()),
        long_arg: None,
        short_arg: None,
        required: false,
        default: None,
        value: None,
        additional_eval: None,
        parse_error: None,
    };
    assert_eq!(opt.identifier(), "{ENV_KEY}");
}

#[test]
fn identifier_short_arg() {
    let opt = OptionBaseAttributes::<String> {
        description: "".to_string(),
        env_key: None,
        long_arg: None,
        short_arg: Some('i'),
        required: false,
        default: None,
        value: None,
        additional_eval: None,
        parse_error: None,
    };
    assert_eq!(opt.identifier(), "{-i}");
}

#[test]
fn identifier_long_arg() {
    let opt = OptionBaseAttributes::<String> {
        description: "".to_string(),
        env_key: None,
        long_arg: Some("long_arg".to_string()),
        short_arg: None,
        required: false,
        default: None,
        value: None,
        additional_eval: None,
        parse_error: None,
    };
    assert_eq!(opt.identifier(), "{--long_arg}");
}

#[test]
fn identifier_all() {
    let opt = OptionBaseAttributes::<String> {
        description: "".to_string(),
        env_key: Some("ENV_KEY".to_string()),
        long_arg: Some("long_arg".to_string()),
        short_arg: Some('i'),
        required: false,
        default: None,
        value: None,
        additional_eval: None,
        parse_error: None,
    };
    assert_eq!(opt.identifier(), "{ENV_KEY, -i, --long_arg}");
}

#[test]
fn help_env() {
    let opt = OptionBaseAttributes::<String> {
        description: "my description".to_string(),
        env_key: Some("ENV_KEY".to_string()),
        long_arg: None,
        short_arg: None,
        required: false,
        default: None,
        value: None,
        additional_eval: None,
        parse_error: None,
    };
    assert_eq!(opt.help(), "ENV:ENV_KEY  - my description");
}

#[test]
fn help_short_arg() {
    let opt = OptionBaseAttributes::<String> {
        description: "my description".to_string(),
        env_key: None,
        long_arg: None,
        short_arg: Some('i'),
        required: false,
        default: None,
        value: None,
        additional_eval: None,
        parse_error: None,
    };
    assert_eq!(opt.help(), "ARGS:-i - my description");
}

#[test]
fn help_long_arg() {
    let opt = OptionBaseAttributes::<String> {
        description: "my description".to_string(),
        env_key: None,
        long_arg: Some("long_arg".to_string()),
        short_arg: None,
        required: false,
        default: None,
        value: None,
        additional_eval: None,
        parse_error: None,
    };
    assert_eq!(opt.help(), "ARGS:--long_arg - my description");
}

#[test]
fn help_all() {
    let opt = OptionBaseAttributes::<String> {
        description: "my description".to_string(),
        env_key: Some("ENV_KEY".to_string()),
        long_arg: Some("long_arg".to_string()),
        short_arg: Some('i'),
        required: false,
        default: None,
        value: None,
        additional_eval: None,
        parse_error: None,
    };
    assert_eq!(
        opt.help(),
        "ENV:ENV_KEY ARGS:-i,--long_arg - my description"
    );
}

#[test]
fn eval_no_identifier() {
    let mut opt = OptionBaseAttributes::<String> {
        description: "my description".to_string(),
        env_key: None,
        long_arg: None,
        short_arg: None,
        required: false,
        default: None,
        value: None,
        additional_eval: None,
        parse_error: None,
    };
    assert!(opt.eval().is_err());
}

#[test]
fn eval_required() {
    let mut opt = OptionBaseAttributes::<String> {
        description: "my description".to_string(),
        env_key: Some("ENV_KEY".to_string()),
        long_arg: None,
        short_arg: None,
        required: true,
        default: None,
        value: None,
        additional_eval: None,
        parse_error: None,
    };
    assert!(opt.eval().is_err());
}

#[test]
fn eval_default() {
    let mut opt = OptionBaseAttributes::<String> {
        description: "my description".to_string(),
        env_key: Some("ENV_KEY".to_string()),
        long_arg: None,
        short_arg: None,
        required: false,
        default: Some("default".to_string()),
        value: None,
        additional_eval: None,
        parse_error: None,
    };
    assert!(opt.eval().is_ok());
    assert_eq!(opt.value, Some("default".to_string()));
}

#[test]
fn eval_additional_eval() {
    let mut opt = OptionBaseAttributes::<String> {
        description: "my description".to_string(),
        env_key: Some("ENV_KEY".to_string()),
        long_arg: None,
        short_arg: None,
        required: false,
        default: None,
        value: Some("value".to_string()),
        additional_eval: Some(Box::new(|_: &String| -> Result<(), Error> { Ok(()) }) as Box<dyn Validate<String>>),
        parse_error: None,
    };
    assert!(opt.eval().is_ok());
}

#[test]
fn eval_additional_eval_fail() {
    let mut opt = OptionBaseAttributes::<String> {
        description: "my description".to_string(),
        env_key: Some("ENV_KEY".to_string()),
        long_arg: None,
        short_arg: None,
        required: false,
        default: None,
        value: Some("value".to_string()),
        additional_eval: Some(Box::new(|_: &String| -> Result<(), Error> { Err(Error::Validation("fail".into())) }) as Box<dyn Validate<String>>),
        parse_error: None,
    };
    assert!(opt.eval().is_err());
}
