use ropts::error::Error;
use ropts::options::utils::convert;
use ropts::options::values_option::ValuesOption;
use ropts::options::OptionBase;

#[test]
fn converts_integers_within_range() {
    assert_eq!(convert::<u8>("255").unwrap(), 255);
    assert_eq!(convert::<u8>("+7").unwrap(), 7);
    assert_eq!(convert::<i8>("-128").unwrap(), -128);
    assert_eq!(convert::<i64>("-9223372036854775808").unwrap(), i64::MIN);
    assert_eq!(convert::<u64>("18446744073709551615").unwrap(), u64::MAX);
    assert_eq!(convert::<u32>("007").unwrap(), 7);
    assert_eq!(convert::<u128>("340282366920938463463374607431768211455").unwrap(), u128::MAX);
    assert_eq!(convert::<i128>("-170141183460469231731687303715884105728").unwrap(), i128::MIN);
    assert!(convert::<u128>("340282366920938463463374607431768211456").is_err());
    assert!(convert::<i128>("170141183460469231731687303715884105728").is_err());
}

#[test]
fn shows_extreme_defaults() {
    let opt = ValuesOption::<i128>::new(None, "d").short_arg('x').default(vec![i128::MIN, 0, 5]);
    assert_eq!(
        opt.help(),
        "ARGS:-x  Default: -170141183460469231731687303715884105728,0,5 - d"
    );
}

#[test]
fn rejects_malformed_integers() {
    assert!(convert::<u8>("256").is_err());
    assert!(convert::<u8>("-1").is_err());
    assert!(convert::<i8>("128").is_err());
    assert!(convert::<i32>("").is_err());
    assert!(convert::<i32>("+").is_err());
    assert!(convert::<i32>("1_000").is_err());
    assert!(convert::<u64>("18446744073709551616").is_err());
}

#[test]
fn conversion_error_names_token_and_type() {
    match convert::<u16>("x1") {
        Err(Error::Parsing(m)) => assert_eq!(m, "Error converting from \"x1\" to u16"),
        other => panic!("unexpected outcome: {:?}", other),
    }
}

#[test]
fn converts_bool_char_and_text() {
    assert_eq!(convert::<bool>("true").unwrap(), true);
    assert_eq!(convert::<bool>("false").unwrap(), false);
    assert!(convert::<bool>("yes").is_err());
    assert_eq!(convert::<char>("é").unwrap(), 'é');
    assert!(convert::<char>("ab").is_err());
    assert_eq!(convert::<String>("a b").unwrap(), "a b");
}

#[test]
fn typed_list_from_environment() {
    let mut opt = ValuesOption::<i32>::new(None, "n").env("NUMS");
    opt.parse_env(&vec![("NUMS".to_string(), "1,-2,30".to_string())]);
    assert_eq!(opt.base.value, Some(vec![1, -2, 30]));
}

#[test]
fn bad_part_is_reported_by_eval() {
    let mut opt = ValuesOption::<u8>::new(Some(vec![4]), "n").long_arg("n");
    opt.parse_args(&vec!["--n".to_string(), "1,x".to_string()]);
    assert_eq!(opt.base.value, Some(vec![4]));
    match opt.eval() {
        Err(Error::Parsing(m)) => assert_eq!(m, "Error converting from \"x\" to u8"),
        other => panic!("unexpected outcome: {:?}", other),
    }
}

#[test]
fn conversion_error_quotes_token_as_debug() {
    let expected = format!("Error converting from {:?} to {}", "\"", "u8");
    match convert::<u8>("\"") {
        Err(Error::Parsing(m)) => {
            assert_eq!(m, expected);
            assert_eq!(m, "Error converting from \"\\\"\" to u8");
        }
        other => panic!("unexpected outcome: {:?}", other),
    }
    match convert::<char>("a\\b") {
        Err(Error::Parsing(m)) => assert_eq!(m, "Error converting from \"a\\\\b\" to char"),
        other => panic!("unexpected outcome: {:?}", other),
    }
}
