use crate::error::Error;
use crate::options::utils::{push_char, OptionValue};
use vstd::prelude::*;
use vstd::string::*;

pub mod any_option;
pub mod string_option;
pub mod utils;
pub mod values_option;




verus! {

/// A check that a resolved value must pass; any `Fn(&T) -> Result<(), Error>`
/// is one.
pub trait Validate<T> {
    /// Whether the check, run on `v`, may return `r`.
    spec fn allows(&self, v: &T, r: Result<(), Error>) -> bool;

    fn validate(&self, v: &T) -> (r: Result<(), Error>)
        ensures
            self.allows(v, r),
    ;
}

impl<T, F: Fn(&T) -> Result<(), Error>> Validate<T> for F {
    /// What the closure may return on `v`, as its own contract says.
    open spec fn allows(&self, v: &T, r: Result<(), Error>) -> bool {
        call_requires(*self, (v,)) ==> call_ensures(*self, (v,), r)
    }

    fn validate(&self, v: &T) -> (r: Result<(), Error>) {
        call_validator(self, v)
    }
}

/// Relies on the caller's closure: it is called once on the value; where the
/// closure's precondition admits the value, what it returns meets the
/// closure's postcondition.
#[verifier::external_body]
fn call_validator<T, F: Fn(&T) -> Result<(), Error>>(f: &F, v: &T) -> (r: Result<(), Error>)
    ensures
        call_requires(*f, (v,)) ==> call_ensures(*f, (v,), r),
{
    f(v)
}

/// What every option offers to a composition. Each step is described by a
/// relation between the state before and the state after it.
pub trait OptionBase: Sized {
    /// Whether `parse_env` may lead from `self` to `after`; an option that
    /// does not say allows every step.
    open spec fn env_step(&self, envs: Seq<(String, String)>, after: Self) -> bool {
        true
    }

    /// Whether `parse_args` may lead from `self` to `after`.
    open spec fn args_step(&self, args: Seq<String>, after: Self) -> bool {
        true
    }

    /// Whether `eval` may lead from `self` to `after` and return `r`.
    open spec fn eval_step(&self, after: Self, r: Result<(), Error>) -> bool {
        true
    }

    /// Whether `text` is the option's help line.
    open spec fn help_shown(&self, text: Seq<char>) -> bool {
        true
    }

    /// Takes the value from the environment, where the option names a variable.
    fn parse_env(&mut self, envs: &Vec<(String, String)>)
        ensures
            old(self).env_step(envs@, *final(self)),
    ;

    /// Takes the value from the arguments, where the option names a flag.
    fn parse_args(&mut self, args: &Vec<String>)
        ensures
            old(self).args_step(args@, *final(self)),
    ;

    /// Enforces the required, default and validation rules.
    fn eval(&mut self) -> (r: Result<(), Error>)
        ensures
            old(self).eval_step(*final(self), r),
    ;

    /// One line of help text.
    fn help(&self) -> (r: String)
        ensures
            self.help_shown(r@),
    ;
}

/// The environment as pairs of views.
pub open spec fn env_view(envs: Seq<(String, String)>) -> Seq<(Seq<char>, Seq<char>)> {
    envs.map_values(|p: (String, String)| (p.0@, p.1@))
}

/// The arguments as views.
pub open spec fn args_view(args: Seq<String>) -> Seq<Seq<char>> {
    args.map_values(|a: String| a@)
}

/// The value of `key` in the environment; where a key occurs twice the later
/// pair wins.
pub open spec fn env_lookup(envs: Seq<(Seq<char>, Seq<char>)>, key: Seq<char>) -> Option<Seq<char>>
    decreases envs.len(),
{
    if envs.len() == 0 {
        None
    } else if envs.last().0 == key {
        Some(envs.last().1)
    } else {
        env_lookup(envs.drop_last(), key)
    }
}

/// What the environment gives an option with the variable `key`, if any.
pub open spec fn env_value(envs: Seq<(String, String)>, key: Option<String>) -> Option<Seq<char>> {
    if key is Some {
        env_lookup(env_view(envs), key->0@)
    } else {
        None
    }
}

/// Looks `key` up in the environment.
pub fn lookup_env(envs: &Vec<(String, String)>, key: &String) -> (r: Option<String>)
    ensures
        r matches Some(v) ==> env_lookup(env_view(envs@), key@) == Some(v@),
        r is None ==> env_lookup(env_view(envs@), key@) is None,
{
    let mut found: Option<String> = None;
    let mut i: usize = 0;
    while i < envs.len()
        invariant
            i <= envs@.len(),
            found matches Some(v) ==> env_lookup(env_view(envs@).take(i as int), key@) == Some(v@),
            found is None ==> env_lookup(env_view(envs@).take(i as int), key@) is None,
        decreases envs@.len() - i,
    {
        assert(env_view(envs@).take(i + 1).drop_last() =~= env_view(envs@).take(i as int));
        if envs[i].0 == *key {
            found = Some(envs[i].1.clone());
        }
        i = i + 1;
    }
    assert(env_view(envs@).take(i as int) =~= env_view(envs@));
    found
}

/// The long form of a flag: `--name`.
pub open spec fn long_flag(name: Seq<char>) -> Seq<char> {
    seq!['-', '-'] + name
}

/// The short form of a flag: `-c`.
pub open spec fn short_flag(c: char) -> Seq<char> {
    seq!['-', c]
}

pub fn long_flag_text(name: &String) -> (r: String)
    ensures
        r@ == long_flag(name@),
{
    let mut s = String::new();
    push_char(&mut s, '-');
    push_char(&mut s, '-');
    s.append(name.as_str());
    assert(s@ =~= long_flag(name@));
    s
}

pub fn short_flag_text(c: char) -> (r: String)
    ensures
        r@ == short_flag(c),
{
    let mut s = String::new();
    push_char(&mut s, '-');
    push_char(&mut s, c);
    assert(s@ =~= short_flag(c));
    s
}

/// The parts joined, with `sep` between each two.
pub open spec fn join_with(parts: Seq<Seq<char>>, sep: Seq<char>) -> Seq<char>
    decreases parts.len(),
{
    if parts.len() == 0 {
        Seq::<char>::empty()
    } else if parts.len() == 1 {
        parts[0]
    } else {
        join_with(parts.drop_last(), sep) + sep + parts.last()
    }
}

pub fn join_strings(parts: &Vec<String>, sep: &str) -> (r: String)
    ensures
        r@ == join_with(args_view(parts@), sep@),
{
    let mut s = String::new();
    let mut i: usize = 0;
    while i < parts.len()
        invariant
            i <= parts@.len(),
            s@ == join_with(args_view(parts@).take(i as int), sep@),
        decreases parts@.len() - i,
    {
        if i > 0 {
            s.append(sep);
        }
        s.append(parts[i].as_str());
        assert(args_view(parts@).take(i + 1).drop_last() =~= args_view(parts@).take(i as int));
        i = i + 1;
    }
    assert(args_view(parts@).take(i as int) =~= args_view(parts@));
    s
}

/// The flags of an option, short form first.
pub open spec fn flag_parts(short_arg: Option<char>, long_arg: Option<String>) -> Seq<Seq<char>> {
    (if short_arg is Some {
        seq![short_flag(short_arg->0)]
    } else {
        Seq::<Seq<char>>::empty()
    }) + (if long_arg is Some {
        seq![long_flag(long_arg->0@)]
    } else {
        Seq::<Seq<char>>::empty()
    })
}

/// The names of an option: its variable, then its flags.
pub open spec fn name_parts(
    env_key: Option<String>,
    short_arg: Option<char>,
    long_arg: Option<String>,
) -> Seq<Seq<char>> {
    (if env_key is Some {
        seq![env_key->0@]
    } else {
        Seq::<Seq<char>>::empty()
    }) + flag_parts(short_arg, long_arg)
}

/// The message of a rejection by the validator.
pub open spec fn failed_validation_message(identifier: Seq<char>, cause: Error) -> Seq<char> {
    identifier + " failed validation: "@ + cause.rendered()
}

/// The validator's outcome `o` becomes `r`: a pass stays a pass, and a
/// rejection becomes a validation error that names the option.
pub open spec fn validation_maps(identifier: Seq<char>, o: Result<(), Error>, r: Result<(), Error>) -> bool {
    &&& o is Ok ==> r is Ok
    &&& o matches Err(e) ==> r matches Err(Error::Validation(m)) && m@ == failed_validation_message(
        identifier,
        e,
    )
}

/// Turns what the validator returned into the option's outcome: a rejection
/// becomes a validation error that names the option.
pub fn validation_result(identifier: &String, outcome: Result<(), Error>) -> (r: Result<(), Error>)
    ensures
        validation_maps(identifier@, outcome, r),
{
    match outcome {
        Ok(()) => Ok(()),
        Err(e) => {
            let mut m = identifier.clone();
            m.append(" failed validation: ");
            let cause = e.to_string();
            m.append(cause.as_str());
            Err(Error::Validation(m))
        },
    }
}

/// The settings and the resolved value that every option has.
#[verifier::reject_recursive_types(T)]
pub struct OptionBaseAttributes<T: OptionValue> {
    pub description: String,
    pub env_key: Option<String>,
    pub long_arg: Option<String>,
    pub short_arg: Option<char>,
    pub required: bool,
    pub default: Option<T>,
    /// The resolved value; absent until a source or the default supplies one.
    pub value: Option<T>,
    pub additional_eval: Option<Box<dyn Validate<T>>>,
    /// The first conversion failure met while parsing, reported by `eval`.
    pub parse_error: Option<Error>,
}

impl<T: OptionValue> OptionBaseAttributes<T> {
    pub open spec fn has_identifier(&self) -> bool {
        self.env_key is Some || self.short_arg is Some || self.long_arg is Some
    }

    /// The names of the option, braced and comma-separated.
    pub open spec fn identifier_view(&self) -> Seq<char> {
        "{"@ + join_with(name_parts(self.env_key, self.short_arg, self.long_arg), ", "@) + "}"@
    }

    /// The help line of the option.
    pub open spec fn help_view(&self) -> Seq<char> {
        (if self.env_key is Some {
            "ENV:"@ + self.env_key->0@ + " "@
        } else {
            Seq::<char>::empty()
        }) + (if self.short_arg is Some || self.long_arg is Some {
            "ARGS:"@ + join_with(flag_parts(self.short_arg, self.long_arg), ","@)
        } else {
            Seq::<char>::empty()
        }) + (if self.required {
            "  Required"@
        } else if self.default is Some {
            "  Default: "@ + self.default->0.text()
        } else {
            Seq::<char>::empty()
        }) + " - "@ + self.description@
    }

    /// Everything but the value and the pending error is kept.
    pub open spec fn same_settings(&self, other: &Self) -> bool {
        &&& self.description == other.description
        &&& self.env_key == other.env_key
        &&& self.long_arg == other.long_arg
        &&& self.short_arg == other.short_arg
        &&& self.required == other.required
        &&& self.default == other.default
        &&& self.additional_eval == other.additional_eval
    }

    /// A conversion failure with the message `cause` was met: the value is
    /// kept, and the first failure is the one kept.
    pub open spec fn failure_noted(&self, after: &Self, cause: Seq<char>) -> bool {
        &&& after.same_settings(self)
        &&& after.value == self.value
        &&& self.parse_error is Some ==> after.parse_error == self.parse_error
        &&& self.parse_error is None ==> (after.parse_error matches Some(Error::Parsing(m)) && m@
            == cause)
    }

    /// What `eval` may do from the state `self`: the state `after` it leaves
    /// and the outcome `r` it returns.
    pub open spec fn eval_gives(&self, after: &Self, r: Result<(), Error>) -> bool {
        &&& after.same_settings(self)
        &&& after.parse_error == self.parse_error
        &&& if !self.has_identifier() {
            &&& r matches Err(Error::Parsing(m)) && m@ == "No identifier set"@
            &&& after.value == self.value
        } else if self.value is None && self.required {
            &&& r matches Err(Error::Validation(m)) && m@ == self.identifier_view() + " is required"@
            &&& after.value == self.value
        } else if self.parse_error is Some {
            &&& r == Err::<(), Error>(self.parse_error->0)
            &&& after.value == self.value
        } else {
            let v = if self.value is None {
                self.default
            } else {
                self.value
            };
            &&& (after.value is Some <==> v is Some)
            &&& (v is Some ==> after.value->0@ == v->0@ && after.value->0.text() == v->0.text())
            &&& if v is Some && self.additional_eval is Some {
                exists|o: Result<(), Error>|
                    #[trigger] self.additional_eval->0.allows(&after.value->0, o)
                        && validation_maps(self.identifier_view(), o, r)
            } else {
                r is Ok
            }
        }
    }

    /// The names of the option, as error messages give them: `{KEY, -k, --key}`.
    pub fn identifier(&self) -> (r: String)
        ensures
            r@ == self.identifier_view(),
    {
        let mut parts: Vec<String> = Vec::new();
        if let Some(env_key) = &self.env_key {
            parts.push(env_key.clone());
        }
        if let Some(c) = self.short_arg {
            parts.push(short_flag_text(c));
        }
        if let Some(long) = &self.long_arg {
            parts.push(long_flag_text(long));
        }
        assert(args_view(parts@) =~= name_parts(self.env_key, self.short_arg, self.long_arg));
        let mut s = String::new();
        s.append("{");
        let joined = join_strings(&parts, ", ");
        s.append(joined.as_str());
        s.append("}");
        s
    }

    /// The help line: `ENV:<key> `, `ARGS:<flags>`, the policy, ` - <description>`.
    pub fn help(&self) -> (r: String)
        ensures
            r@ == self.help_view(),
    {
        let mut s = String::new();
        if let Some(env_key) = &self.env_key {
            s.append("ENV:");
            s.append(env_key.as_str());
            s.append(" ");
        }
        if self.short_arg.is_some() || self.long_arg.is_some() {
            let mut flags: Vec<String> = Vec::new();
            if let Some(c) = self.short_arg {
                flags.push(short_flag_text(c));
            }
            if let Some(long) = &self.long_arg {
                flags.push(long_flag_text(long));
            }
            assert(args_view(flags@) =~= flag_parts(self.short_arg, self.long_arg));
            s.append("ARGS:");
            let joined = join_strings(&flags, ",");
            s.append(joined.as_str());
        }
        if self.required {
            s.append("  Required");
        } else if let Some(d) = &self.default {
            s.append("  Default: ");
            let shown = d.to_text();
            s.append(shown.as_str());
        }
        s.append(" - ");
        s.append(self.description.as_str());
        s
    }

    /// Applies, in order: the option must have a name; a conversion failure
    /// met while parsing is reported; a required option must have a value;
    /// an absent value takes the default; a present value must pass the
    /// validator.
    pub fn eval(&mut self) -> (r: Result<(), Error>)
        ensures
            old(self).eval_gives(final(self), r),
    {
        if self.env_key.is_none() && self.long_arg.is_none() && self.short_arg.is_none() {
            return Err(Error::Parsing(String::from_str("No identifier set")));
        }
        if self.required && self.value.is_none() {
            let mut m = self.identifier();
            m.append(" is required");
            return Err(Error::Validation(m));
        }
        if let Some(e) = &self.parse_error {
            return Err(e.duplicate());
        }
        if self.value.is_none() {
            self.value = match &self.default {
                Some(d) => Some(d.copy_value()),
                None => None,
            };
        }
        match (&self.value, &self.additional_eval) {
            (Some(v), Some(check)) => {
                let outcome = check.validate(v);
                let ghost o = outcome;
                let id = self.identifier();
                assert(id@ == old(self).identifier_view());
                let r = validation_result(&id, outcome);
                assert(validation_maps(old(self).identifier_view(), o, r));
                r
            },
            _ => Ok(()),
        }
    }
}

/// An option that no source can name fails evaluation with a parsing error,
/// whatever its default and required settings.
pub proof fn lemma_unnamed_option_fails<T: OptionValue>(
    opt: OptionBaseAttributes<T>,
    after: OptionBaseAttributes<T>,
    r: Result<(), Error>,
)
    requires
        opt.env_key is None,
        opt.short_arg is None,
        opt.long_arg is None,
        opt.eval_gives(&after, r),
    ensures
        r matches Err(e) && e is Parsing,
{
}

/// A required option with no value fails evaluation with a validation error
/// that names its identifiers.
pub proof fn lemma_missing_required_fails<T: OptionValue>(
    opt: OptionBaseAttributes<T>,
    after: OptionBaseAttributes<T>,
    r: Result<(), Error>,
)
    requires
        opt.has_identifier(),
        opt.required,
        opt.value is None,
        opt.eval_gives(&after, r),
    ensures
        r matches Err(Error::Validation(m)) && m@ == opt.identifier_view() + " is required"@,
{
}

/// A value that a source supplied is kept by evaluation: the default never
/// replaces it, even where the validator rejects it, and the validator sees
/// that value.
pub proof fn lemma_supplied_value_kept<T: OptionValue>(
    opt: OptionBaseAttributes<T>,
    after: OptionBaseAttributes<T>,
    r: Result<(), Error>,
)
    requires
        opt.value is Some,
        opt.eval_gives(&after, r),
    ensures
        after.value is Some && after.value->0@ == opt.value->0@,
        opt.has_identifier() && opt.parse_error is None && opt.additional_eval is Some ==> exists|
            o: Result<(), Error>,
        | #[trigger] opt.additional_eval->0.allows(&after.value->0, o) && validation_maps(
            opt.identifier_view(),
            o,
            r,
        ),
        opt.has_identifier() && opt.parse_error is None && opt.additional_eval is None ==> r is Ok,
{
}

/// An absent value of a named option that is not required becomes the
/// default, where no source supplied a token that failed to convert.
pub proof fn lemma_default_when_absent<T: OptionValue>(
    opt: OptionBaseAttributes<T>,
    after: OptionBaseAttributes<T>,
    r: Result<(), Error>,
)
    requires
        opt.has_identifier(),
        opt.parse_error is None,
        opt.value is None,
        !opt.required,
        opt.default is Some,
        opt.eval_gives(&after, r),
    ensures
        after.value is Some && after.value->0@ == opt.default->0@,
        opt.additional_eval is None ==> r is Ok,
{
}

/// The help line of an option with a variable `E`, a short flag `s`, a long
/// flag `l`, a description `D`, no requirement and no default reads
/// `ENV:E ARGS:-s,--l - D`.
pub proof fn lemma_help_line_all_names<T: OptionValue>(opt: OptionBaseAttributes<T>)
    requires
        opt.env_key is Some,
        opt.short_arg is Some,
        opt.long_arg is Some,
        !opt.required,
        opt.default is None,
    ensures
        opt.help_view() == "ENV:"@ + opt.env_key->0@ + " ARGS:-"@ + seq![opt.short_arg->0]
            + ",--"@ + opt.long_arg->0@ + " - "@ + opt.description@,
{
    reveal_strlit("ENV:");
    reveal_strlit(" ");
    reveal_strlit("ARGS:");
    reveal_strlit(" ARGS:-");
    reveal_strlit(",");
    reveal_strlit(",--");
    reveal_strlit("ARGS:-");
    let parts = flag_parts(opt.short_arg, opt.long_arg);
    assert(parts =~= seq![short_flag(opt.short_arg->0), long_flag(opt.long_arg->0@)]);
    assert(parts.drop_last() =~= seq![short_flag(opt.short_arg->0)]);
    assert(join_with(parts.drop_last(), ","@) == short_flag(opt.short_arg->0));
    assert(join_with(parts, ","@) == short_flag(opt.short_arg->0) + ","@ + long_flag(
        opt.long_arg->0@,
    ));
    assert("ARGS:"@ + join_with(parts, ","@) =~= "ARGS:-"@ + seq![opt.short_arg->0] + ",--"@
        + opt.long_arg->0@);
    assert(" "@ + "ARGS:-"@ =~= " ARGS:-"@);
    assert(opt.help_view() =~= "ENV:"@ + opt.env_key->0@ + " ARGS:-"@ + seq![opt.short_arg->0]
        + ",--"@ + opt.long_arg->0@ + " - "@ + opt.description@);
}

} // verus!
