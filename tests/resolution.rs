use ropts::compose::Compose;
use ropts::error::Error;
use ropts::options::string_option::StringOption;
use ropts::options::values_option::ValuesOption;
use ropts::options::any_option::AnyOption;
use ropts::options::OptionBase;
use std::cell::Cell;
use std::rc::Rc;

fn strings(items: &[&str]) -> Vec<String> {
    items.iter().map(|s| s.to_string()).collect()
}

#[test]
fn unnamed_option_fails_with_parsing_error() {
    let mut opt = StringOption::new(None, "d").required().default("x");
    match opt.eval() {
        Err(Error::Parsing(m)) => assert_eq!(m, "No identifier set"),
        other => panic!("unexpected outcome: {:?}", other),
    }
}

#[test]
fn missing_required_names_identifiers() {
    let mut opt = StringOption::new(None, "d").env("K").short_arg('k').long_arg("key").required();
    match opt.eval() {
        Err(Error::Validation(m)) => assert_eq!(m, "{K, -k, --key} is required"),
        other => panic!("unexpected outcome: {:?}", other),
    }
}

#[test]
fn environment_overwrites_slot() {
    let mut opt = StringOption::new(Some("old".to_string()), "d").env("K");
    opt.parse_env(&vec![("K".to_string(), "x".to_string())]);
    assert_eq!(opt.base.value, Some("x".to_string()));

    let mut absent = StringOption::new(None, "d").env("K");
    absent.parse_env(&vec![("OTHER".to_string(), "x".to_string())]);
    assert_eq!(absent.base.value, None);
}

#[test]
fn environment_later_pair_wins() {
    let mut opt = StringOption::new(None, "d").env("K");
    opt.parse_env(&vec![
        ("K".to_string(), "first".to_string()),
        ("K".to_string(), "second".to_string()),
    ]);
    assert_eq!(opt.base.value, Some("second".to_string()));
}

#[test]
fn short_flag_pass_wins_over_long() {
    let mut opt = StringOption::new(None, "d").long_arg("name").short_arg('n');
    opt.parse_args(&strings(&["--name", "a", "-n", "b"]));
    assert_eq!(opt.base.value, Some("b".to_string()));
}

#[test]
fn scalar_last_occurrence_wins() {
    let mut opt = StringOption::new(None, "d").long_arg("name");
    opt.parse_args(&strings(&["--name", "a", "--name", "c", "--name"]));
    assert_eq!(opt.base.value, Some("c".to_string()));
}

#[test]
fn list_occurrences_accumulate() {
    let mut opt = ValuesOption::<String>::new(None, "d").long_arg("tags");
    opt.parse_args(&strings(&["--tags", "x,y", "--tags", "z"]));
    assert_eq!(opt.base.value, Some(strings(&["x", "y", "z"])));
}

#[test]
fn list_value_token_not_read_as_flag() {
    let mut opt = ValuesOption::<String>::new(Some(strings(&["a"])), "d").long_arg("t").short_arg('t');
    opt.parse_args(&strings(&["-t", "--t", "--t", "b,", "-t"]));
    assert_eq!(opt.base.value, Some(strings(&["a", "--t", "b", ""])));
}

#[test]
fn default_applies_when_absent() {
    let mut opt = StringOption::new(None, "d").env("K").default("d");
    opt.parse_env(&vec![("OTHER".to_string(), "x".to_string())]);
    opt.parse_args(&strings(&["--other", "y"]));
    assert!(opt.eval().is_ok());
    assert_eq!(opt.base.value, Some("d".to_string()));
}

#[test]
fn default_not_applied_to_rejected_value() {
    let seen = Rc::new(Cell::new(false));
    let probe = seen.clone();
    let mut opt = StringOption::new(None, "d")
        .long_arg("name")
        .default("d")
        .additional_eval(move |s: &String| -> Result<(), Error> {
            probe.set(s == "bad");
            Err(Error::Validation("too short".to_string()))
        });
    opt.parse_args(&strings(&["--name", "bad"]));
    match opt.eval() {
        Err(Error::Validation(m)) => {
            assert_eq!(m, "{--name} failed validation: Validation error: too short")
        }
        other => panic!("unexpected outcome: {:?}", other),
    }
    assert!(seen.get());
    assert_eq!(opt.base.value, Some("bad".to_string()));
}

struct CountingOption {
    calls: Rc<Cell<u32>>,
    outcome: Result<(), Error>,
}

impl OptionBase for CountingOption {
    fn parse_env(&mut self, _envs: &Vec<(String, String)>) {}
    fn parse_args(&mut self, _args: &Vec<String>) {}
    fn eval(&mut self) -> Result<(), Error> {
        self.calls.set(self.calls.get() + 1);
        self.outcome.clone()
    }
    fn help(&self) -> String {
        "counting".to_string()
    }
}

#[test]
fn first_failure_stops_evaluation() {
    let first = Rc::new(Cell::new(0));
    let second = Rc::new(Cell::new(0));
    let result = Compose::new()
        .add(CountingOption {
            calls: first.clone(),
            outcome: Err(Error::Validation("first".to_string())),
        })
        .add(CountingOption {
            calls: second.clone(),
            outcome: Err(Error::Validation("second".to_string())),
        })
        .parse()
        .0;
    match result {
        Err(Error::Validation(m)) => assert_eq!(m, "first"),
        _ => panic!("expected the first option's error"),
    }
    assert_eq!(first.get(), 1);
    assert_eq!(second.get(), 0);
}

#[test]
fn required_options_report_first_in_registration_order() {
    let result = Compose::new()
        .add(StringOption::new(None, "a").env("A").required())
        .add(StringOption::new(None, "b").env("B").required())
        .parse()
        .0;
    match result {
        Err(Error::Validation(m)) => assert_eq!(m, "{A} is required"),
        _ => panic!("expected the first option's error"),
    }
}

#[test]
fn help_line_all_names() {
    let opt = StringOption::new(None, "D").env("E").short_arg('s').long_arg("l");
    assert_eq!(opt.help(), "ENV:E ARGS:-s,--l - D");
}

#[test]
fn help_line_policies() {
    let required = StringOption::new(None, "D").short_arg('s').required().default("x");
    assert_eq!(required.help(), "ARGS:-s  Required - D");
    let defaulted = ValuesOption::<u8>::new(None, "D").long_arg("n").default(vec![1, 20]);
    assert_eq!(defaulted.help(), "ARGS:--n  Default: 1,20 - D");
}

#[test]
fn help_emitted_once_and_parsing_goes_on() {
    let pages = Rc::new(Cell::new(0));
    let sink_pages = pages.clone();
    let text = Rc::new(std::cell::RefCell::new(String::new()));
    let sink_text = text.clone();
    let result = Compose::new()
        .args(strings(&["--help", "-n", "x", "-h"]))
        .help(move |s: String| {
            sink_pages.set(sink_pages.get() + 1);
            *sink_text.borrow_mut() = s;
        })
        .add(StringOption::new(None, "Your name").short_arg('n'))
        .parse();
    let (result, page) = result;
    assert_eq!(page.as_deref(), Some("Usage: <program> [options]\n\nOptions:\n - ARGS:-n - Your name\n"));
    assert_eq!(pages.get(), 1);
    assert_eq!(
        *text.borrow(),
        "Usage: <program> [options]\n\nOptions:\n - ARGS:-n - Your name\n"
    );
    let resolved = result.unwrap();
    assert_eq!(resolved[0].base.value, Some("x".to_string()));
}

#[test]
fn help_without_options_is_banner_only() {
    let compose: Compose<StringOption> = Compose::new();
    assert_eq!(compose.help_text(), "Usage: <program> [options]\n\n");
}

#[test]
fn parse_resolves_in_phases() {
    let result = Compose::new()
        .envs(vec![("NAME".to_string(), "env".to_string())])
        .args(strings(&["--name", "arg"]))
        .add(StringOption::new(None, "n").env("NAME").long_arg("name"))
        .add(StringOption::new(None, "m").env("OTHER").default("fallback"))
        .parse()
        .0
        .unwrap();
    assert_eq!(result[0].base.value, Some("arg".to_string()));
    assert_eq!(result[1].base.value, Some("fallback".to_string()));
}

#[test]
fn help_banner_only_without_options() {
    let received = Rc::new(std::cell::RefCell::new(Vec::new()));
    let sink = received.clone();
    let compose: Compose<StringOption> = Compose::new()
        .args(strings(&["-h"]))
        .help(move |s: String| sink.borrow_mut().push(s));
    let (result, page) = compose.parse();
    assert!(result.is_ok());
    assert_eq!(page.as_deref(), Some("Usage: <program> [options]\n\n"));
    assert_eq!(*received.borrow(), vec!["Usage: <program> [options]\n\n".to_string()]);
}

#[test]
fn no_help_without_token_or_sink() {
    let calls = Rc::new(Cell::new(0));
    let sink = calls.clone();
    let (_, page) = Compose::new()
        .args(strings(&["--name", "x"]))
        .help(move |_s: String| sink.set(sink.get() + 1))
        .add(StringOption::new(None, "n").long_arg("name"))
        .parse();
    assert!(page.is_none());
    assert_eq!(calls.get(), 0);
    let (_, page) = Compose::new()
        .args(strings(&["--help"]))
        .add(StringOption::new(None, "n").long_arg("name"))
        .parse();
    assert!(page.is_none());
}

#[test]
fn list_appends_to_existing_items() {
    let mut opt = ValuesOption::<String>::new(Some(strings(&["e"])), "D").long_arg("tags");
    opt.parse_args(&strings(&["--tags", "a"]));
    assert_eq!(opt.base.value, Some(strings(&["e", "a"])));
}

#[test]
fn mixed_kinds_in_one_composition() {
    let (result, _) = Compose::new()
        .envs(vec![("AGES".to_string(), "30,41".to_string())])
        .args(strings(&["--name", "Ada", "-f", "true,false"]))
        .add(AnyOption::Text(StringOption::new(None, "n").long_arg("name")))
        .add(AnyOption::U64(ValuesOption::new(None, "a").env("AGES")))
        .add(AnyOption::Bools(ValuesOption::new(None, "f").short_arg('f')))
        .add(AnyOption::I64(ValuesOption::new(None, "i").env("I").default(vec![-1])))
        .parse();
    let resolved = result.unwrap();
    match &resolved[0] {
        AnyOption::Text(o) => assert_eq!(o.base.value, Some("Ada".to_string())),
        _ => panic!("kind changed"),
    }
    match &resolved[1] {
        AnyOption::U64(o) => assert_eq!(o.base.value, Some(vec![30, 41])),
        _ => panic!("kind changed"),
    }
    match &resolved[2] {
        AnyOption::Bools(o) => assert_eq!(o.base.value, Some(vec![true, false])),
        _ => panic!("kind changed"),
    }
    match &resolved[3] {
        AnyOption::I64(o) => assert_eq!(o.base.value, Some(vec![-1])),
        _ => panic!("kind changed"),
    }
}

#[test]
fn conversion_failure_reported_after_required_check() {
    let mut opt = ValuesOption::<u8>::new(None, "n").env("N").required();
    opt.parse_env(&vec![("N".to_string(), "7,300".to_string())]);
    assert_eq!(opt.base.value, None);
    match opt.eval() {
        Err(Error::Validation(m)) => assert_eq!(m, "{N} is required"),
        other => panic!("unexpected outcome: {:?}", other),
    }
    let mut opt = ValuesOption::<u8>::new(None, "n").env("N");
    opt.parse_env(&vec![("N".to_string(), "7,300,x".to_string())]);
    match opt.eval() {
        Err(Error::Parsing(m)) => assert_eq!(m, "Error converting from \"300\" to u8"),
        other => panic!("unexpected outcome: {:?}", other),
    }
}
