use crate::error::Error;
use crate::options::utils::OptionValue;
use crate::options::{
    args_view, env_value, long_flag, long_flag_text, lookup_env, short_flag,
    short_flag_text, OptionBase, OptionBaseAttributes, Validate,
};
use vstd::prelude::*;
use vstd::string::*;

verus! {

/// The token after the last occurrence of `flag` among the first `n`
/// arguments that has a token after it.
pub open spec fn follower_before(args: Seq<Seq<char>>, flag: Seq<char>, n: int) -> Option<Seq<char>>
    decreases n,
{
    if n <= 0 {
        None
    } else if args[n - 1] == flag && n < args.len() {
        Some(args[n])
    } else {
        follower_before(args, flag, n - 1)
    }
}

/// The token after the last occurrence of `flag` that has one.
pub open spec fn last_follower(args: Seq<Seq<char>>, flag: Seq<char>) -> Option<Seq<char>> {
    follower_before(args, flag, args.len() as int)
}

/// What the arguments give a single-valued option: the long flag is
/// scanned, then the short one, and the last match of the later scan stands.
pub open spec fn scalar_from_args(
    args: Seq<Seq<char>>,
    short_arg: Option<char>,
    long_arg: Option<String>,
) -> Option<Seq<char>> {
    let from_short = if short_arg is Some {
        last_follower(args, short_flag(short_arg->0))
    } else {
        None
    };
    let from_long = if long_arg is Some {
        last_follower(args, long_flag(long_arg->0@))
    } else {
        None
    };
    if from_short is Some {
        from_short
    } else {
        from_long
    }
}

/// Finds the token after the last occurrence of `flag`.
pub fn find_last_follower(args: &Vec<String>, flag: &String) -> (r: Option<String>)
    ensures
        r matches Some(v) ==> last_follower(args_view(args@), flag@) == Some(v@),
        r is None ==> last_follower(args_view(args@), flag@) is None,
{
    let ghost a = args_view(args@);
    let mut found: Option<String> = None;
    let mut i: usize = 0;
    while i < args.len()
        invariant
            i <= args@.len(),
            a == args_view(args@),
            found matches Some(v) ==> follower_before(a, flag@, i as int) == Some(v@),
            found is None ==> follower_before(a, flag@, i as int) is None,
        decreases args@.len() - i,
    {
        if args[i] == *flag && i + 1 < args.len() {
            found = Some(args[i + 1].clone());
        }
        i = i + 1;
    }
    found
}

/// An option whose value is one string.
pub struct StringOption {
    pub base: OptionBaseAttributes<String>,
}

impl StringOption {
    /// Starts an option with the given value slot and description, and
    /// nothing else set.
    pub fn new(value: Option<String>, description: &str) -> (r: StringOption)
        ensures
            r.base.description@ == description@,
            r.base.env_key is None,
            r.base.long_arg is None,
            r.base.short_arg is None,
            !r.base.required,
            r.base.default is None,
            r.base.value == value,
            r.base.additional_eval is None,
            r.base.parse_error is None,
    {
        StringOption {
            base: OptionBaseAttributes {
                description: String::from_str(description),
                env_key: None,
                long_arg: None,
                short_arg: None,
                required: false,
                default: None,
                value,
                additional_eval: None,
                parse_error: None,
            },
        }
    }

    /// Names the environment variable that supplies the value.
    pub fn env(self, key: &str) -> (r: StringOption)
        ensures
            r.base.env_key matches Some(k) && k@ == key@,
            r.base == (OptionBaseAttributes { env_key: r.base.env_key, ..self.base }),
    {
        let mut base = self.base;
        base.env_key = Some(String::from_str(key));
        StringOption { base }
    }

    /// Sets the long flag, given without its leading `--`.
    pub fn long_arg(self, arg: &str) -> (r: StringOption)
        ensures
            r.base.long_arg matches Some(k) && k@ == arg@,
            r.base == (OptionBaseAttributes { long_arg: r.base.long_arg, ..self.base }),
    {
        let mut base = self.base;
        base.long_arg = Some(String::from_str(arg));
        StringOption { base }
    }

    /// Sets the short flag, given without its leading `-`.
    pub fn short_arg(self, arg: char) -> (r: StringOption)
        ensures
            r.base == (OptionBaseAttributes { short_arg: Some(arg), ..self.base }),
    {
        let mut base = self.base;
        base.short_arg = Some(arg);
        StringOption { base }
    }

    /// Makes a value mandatory.
    pub fn required(self) -> (r: StringOption)
        ensures
            r.base == (OptionBaseAttributes { required: true, ..self.base }),
    {
        let mut base = self.base;
        base.required = true;
        StringOption { base }
    }

    /// Sets the value used when no source supplies one.
    pub fn default(self, value: &str) -> (r: StringOption)
        ensures
            r.base.default matches Some(d) && d@ == value@,
            r.base == (OptionBaseAttributes { default: r.base.default, ..self.base }),
    {
        let mut base = self.base;
        base.default = Some(String::from_str(value));
        StringOption { base }
    }

    /// Sets the check that a resolved value must pass.
    pub fn additional_eval<F: Fn(&String) -> Result<(), Error> + 'static>(self, eval_fkt: F) -> (r:
        StringOption)
        ensures
            r.base.additional_eval is Some,
            forall|v: &String, o: Result<(), Error>|
                #[trigger] r.base.additional_eval->0.allows(v, o) == (call_requires(eval_fkt, (v,))
                    ==> call_ensures(eval_fkt, (v,), o)),
            r.base == (OptionBaseAttributes { additional_eval: r.base.additional_eval, ..self.base }),
    {
        let mut base = self.base;
        let check: Box<dyn Validate<String>> = Box::new(eval_fkt);
        base.additional_eval = Some(check);
        StringOption { base }
    }
}

impl OptionBase for StringOption {
    /// Where the option names a variable that the environment holds, the
    /// value becomes that variable's value.
    open spec fn env_step(&self, envs: Seq<(String, String)>, after: StringOption) -> bool {
        let found = env_value(envs, self.base.env_key);
        &&& after.base == (OptionBaseAttributes { value: after.base.value, ..self.base })
        &&& found is Some ==> after.base.value is Some && after.base.value->0@ == found->0
        &&& found is None ==> after.base.value == self.base.value
    }

    /// The value becomes the token after the last occurrence of a flag; a
    /// match of the short flag takes precedence over one of the long flag.
    open spec fn args_step(&self, args: Seq<String>, after: StringOption) -> bool {
        let found = scalar_from_args(args_view(args), self.base.short_arg, self.base.long_arg);
        &&& after.base == (OptionBaseAttributes { value: after.base.value, ..self.base })
        &&& found is Some ==> after.base.value is Some && after.base.value->0@ == found->0
        &&& found is None ==> after.base.value == self.base.value
    }

    open spec fn eval_step(&self, after: StringOption, r: Result<(), Error>) -> bool {
        self.base.eval_gives(&after.base, r)
    }

    open spec fn help_shown(&self, text: Seq<char>) -> bool {
        text == self.base.help_view()
    }

    fn parse_env(&mut self, envs: &Vec<(String, String)>) {
        if let Some(env_key) = &self.base.env_key {
            if let Some(v) = lookup_env(envs, env_key) {
                self.base.value = Some(v);
            }
        }
    }

    fn parse_args(&mut self, args: &Vec<String>) {
        if let Some(long) = &self.base.long_arg {
            let flag = long_flag_text(long);
            if let Some(v) = find_last_follower(args, &flag) {
                self.base.value = Some(v);
            }
        }
        if let Some(c) = self.base.short_arg {
            let flag = short_flag_text(c);
            if let Some(v) = find_last_follower(args, &flag) {
                self.base.value = Some(v);
            }
        }
    }

    fn eval(&mut self) -> (r: Result<(), Error>) {
        self.base.eval()
    }

    fn help(&self) -> (r: String) {
        self.base.help()
    }
}

} // verus!
