use ropts::compose::Compose;
use ropts::error::Error;
use ropts::options::OptionBase;

pub struct MockOption {
    expected_env: Vec<(String, String)>,
    expected_args: Vec<String>,
    eval_result: Result<(), Error>,
}

impl OptionBase for MockOption {
    fn parse_env(&mut self, envs: &Vec<(String, String)>) {
        assert_eq!(self.expected_env, *envs);
    }
    fn parse_args(&mut self, args: &Vec<String>) {
        assert_eq!(self.expected_args, *args);
    }
    fn eval(&mut self) -> Result<(), Error> {
        self.eval_result.clone()
    }
    fn help(&self) -> String {
        "MockOption".to_string()
    }
}

#[test]
fn parsing() {
    let args = vec!["--test".to_string(), "test_value".to_string()];
    let env = vec![("TEST_ENV".to_string(), "test_value".to_string())];

    let mut compose = Compose::new();
    assert_eq!(compose.options.len(), 0);
    assert!(compose.envs.is_empty());
    assert!(compose.args.is_empty());

    compose = compose.envs(env.clone());
    compose = compose.args(args.clone());
    assert_eq!(compose.envs, env);
    assert_eq!(compose.args, args);

    compose = compose.add(MockOption {
        expected_env: env.clone(),
        expected_args: args.clone(),
        eval_result: Ok(()),
    });
    assert_eq!(compose.options.len(), 1);

    let (result, help) = compose.parse();
    assert!(result.is_ok());
    assert!(help.is_none());
}

#[test]
fn parse_propagate_error() {
    let args = vec!["--test".to_string(), "test_value".to_string()];

    let mut compose = Compose::new();
    compose = compose.args(args.clone());
    compose = compose.add(MockOption {
        expected_env: Vec::new(),
        expected_args: args.clone(),
        eval_result: Err(Error::Validation("test".to_string())),
    });

    let (result, _help) = compose.parse();
    assert!(result.is_err());
}
