use crate::error::Error;
use crate::options::utils::{
    all_accepted, conversion_message, convert_list, first_rejected, list_denotes, split_commas, AllowedTypes, OptionValue,
};
use crate::options::{
    args_view, env_value, long_flag, long_flag_text, lookup_env, short_flag, short_flag_text,
    OptionBase, OptionBaseAttributes, Validate,
};
use vstd::prelude::*;
use vstd::string::*;

verus! {

/// Whether the token is one of the option's flags.
pub open spec fn is_flag(x: Seq<char>, short_arg: Option<char>, long_arg: Option<String>) -> bool {
    (long_arg is Some && x == long_flag(long_arg->0@)) || (short_arg is Some && x == short_flag(
        short_arg->0,
    ))
}

/// The tokens that follow the option's flags, scanning from position `i`;
/// a token taken as a value is not read as a flag.
pub open spec fn values_from(
    args: Seq<Seq<char>>,
    short_arg: Option<char>,
    long_arg: Option<String>,
    i: int,
) -> Seq<Seq<char>>
    decreases args.len() + 1 - i,
{
    if i >= args.len() || i < 0 {
        Seq::<Seq<char>>::empty()
    } else if is_flag(args[i], short_arg, long_arg) {
        (if i + 1 < args.len() {
            seq![args[i + 1]]
        } else {
            Seq::<Seq<char>>::empty()
        }) + values_from(args, short_arg, long_arg, i + 2)
    } else {
        values_from(args, short_arg, long_arg, i + 1)
    }
}

/// The comma-separated parts of all the tokens, in order.
pub open spec fn all_parts(tokens: Seq<Seq<char>>) -> Seq<Seq<char>>
    decreases tokens.len(),
{
    if tokens.len() == 0 {
        Seq::<Seq<char>>::empty()
    } else {
        all_parts(tokens.drop_last()) + split_commas(tokens.last())
    }
}

/// Every token converts as a whole.
pub open spec fn all_convert<T: AllowedTypes>(tokens: Seq<Seq<char>>) -> bool {
    forall|j: int| 0 <= j < tokens.len() ==> all_accepted::<T>(#[trigger] split_commas(tokens[j]))
}

/// The message of the first part that spells no value of type `T`.
pub open spec fn rejection_message<T: AllowedTypes>(parts: Seq<Seq<char>>) -> Seq<char> {
    conversion_message(parts[choose|k: int| first_rejected::<T>(parts, k)], T::label())
}

/// The position of the first token that does not convert as a whole.
pub open spec fn first_failing<T: AllowedTypes>(tokens: Seq<Seq<char>>) -> int {
    choose|j: int| is_first_failing::<T>(tokens, j)
}

pub open spec fn is_first_failing<T: AllowedTypes>(tokens: Seq<Seq<char>>, j: int) -> bool {
    &&& 0 <= j < tokens.len()
    &&& !all_accepted::<T>(split_commas(tokens[j]))
    &&& forall|i: int| 0 <= i < j ==> all_accepted::<T>(#[trigger] split_commas(tokens[i]))
}

proof fn lemma_first_rejected_unique<T: AllowedTypes>(parts: Seq<Seq<char>>, k: int, l: int)
    requires
        first_rejected::<T>(parts, k),
        first_rejected::<T>(parts, l),
    ensures
        k == l,
{
    if k < l {
        assert(T::accepts(parts[k]));
    } else if l < k {
        assert(T::accepts(parts[l]));
    }
}

proof fn lemma_first_failing_unique<T: AllowedTypes>(tokens: Seq<Seq<char>>, j: int, l: int)
    requires
        is_first_failing::<T>(tokens, j),
        is_first_failing::<T>(tokens, l),
    ensures
        j == l,
{
    if j < l {
        assert(all_accepted::<T>(split_commas(tokens[j])));
    } else if l < j {
        assert(all_accepted::<T>(split_commas(tokens[l])));
    }
}

/// The message that `convert_list` gives for `parts` is the first rejection.
proof fn lemma_rejection_message<T: AllowedTypes>(parts: Seq<Seq<char>>, k: int)
    requires
        first_rejected::<T>(parts, k),
    ensures
        rejection_message::<T>(parts) == conversion_message(parts[k], T::label()),
{
    let c = choose|i: int| first_rejected::<T>(parts, i);
    lemma_first_rejected_unique::<T>(parts, k, c);
}

/// What the slot holds as a list; an absent slot counts as empty.
pub open spec fn held<T>(value: Option<Vec<T>>) -> Seq<T> {
    if value is Some {
        value->0@
    } else {
        Seq::<T>::empty()
    }
}

proof fn lemma_denotes_concat<T: AllowedTypes>(
    a: Seq<Seq<char>>,
    x: Seq<T>,
    b: Seq<Seq<char>>,
    y: Seq<T>,
)
    requires
        list_denotes(a, x),
        list_denotes(b, y),
    ensures
        list_denotes(a + b, x + y),
{
    assert forall|i: int| 0 <= i < (a + b).len() implies T::denotes(#[trigger] (a + b)[i], (x + y)[i]) by {
        if i >= a.len() {
            assert(b[i - a.len()] == (a + b)[i]);
        }
    }
}

/// Collects the tokens that follow the option's flags.
pub fn flag_values(args: &Vec<String>, short_arg: Option<char>, long_arg: &Option<String>) -> (r:
    Vec<String>)
    ensures
        args_view(r@) == values_from(args_view(args@), short_arg, *long_arg, 0),
{
    let ghost a = args_view(args@);
    let long = match long_arg {
        Some(l) => Some(long_flag_text(l)),
        None => None,
    };
    let short = match short_arg {
        Some(c) => Some(short_flag_text(c)),
        None => None,
    };
    let n = args.len();
    let mut out: Vec<String> = Vec::new();
    let mut i: usize = 0;
    while i < n
        invariant
            i <= n,
            n == args@.len(),
            a == args_view(args@),
            long matches Some(f) ==> long_arg is Some && f@ == long_flag(long_arg->0@),
            long is None ==> long_arg is None,
            short matches Some(f) ==> short_arg is Some && f@ == short_flag(short_arg->0),
            short is None ==> short_arg is None,
            args_view(out@) + values_from(a, short_arg, *long_arg, i as int) == values_from(
                a,
                short_arg,
                *long_arg,
                0,
            ),
        decreases n - i,
    {
        let is_long = match &long {
            Some(f) => args[i] == *f,
            None => false,
        };
        let is_short = match &short {
            Some(f) => args[i] == *f,
            None => false,
        };
        assert(a[i as int] == args@[i as int]@);
        if is_long || is_short {
            if i + 1 < n {
                let ghost before = args_view(out@);
                out.push(args[i + 1].clone());
                assert(args_view(out@) =~= before + seq![a[i + 1]]);
                assert(args_view(out@) + values_from(a, short_arg, *long_arg, i + 2) =~= before
                    + values_from(a, short_arg, *long_arg, i as int));
                i = i + 2;
            } else {
                assert(values_from(a, short_arg, *long_arg, i as int) =~= Seq::<Seq<char>>::empty());
                i = n;
            }
        } else {
            i = i + 1;
        }
    }
    assert(values_from(a, short_arg, *long_arg, i as int) =~= Seq::<Seq<char>>::empty());
    assert(args_view(out@) =~= args_view(out@) + values_from(a, short_arg, *long_arg, i as int));
    out
}

/// An option whose value is a list, read from comma-separated tokens.
#[verifier::reject_recursive_types(T)]
pub struct ValuesOption<T: AllowedTypes> {
    pub base: OptionBaseAttributes<Vec<T>>,
}

impl<T: AllowedTypes> ValuesOption<T> {
    /// Starts an option with the given value slot and description, and
    /// nothing else set.
    pub fn new(value: Option<Vec<T>>, description: &str) -> (r: ValuesOption<T>)
        ensures
            r.base.description@ == description@,
            r.base.env_key is None,
            r.base.long_arg is None,
            r.base.short_arg is None,
            !r.base.required,
            r.base.default is None,
            r.base.value == value,
            r.base.additional_eval is None,
            r.base.parse_error is None,
    {
        ValuesOption {
            base: OptionBaseAttributes {
                description: String::from_str(description),
                env_key: None,
                long_arg: None,
                short_arg: None,
                required: false,
                default: None,
                value,
                additional_eval: None,
                parse_error: None,
            },
        }
    }

    /// Names the environment variable that supplies the value.
    pub fn env(self, key: &str) -> (r: ValuesOption<T>)
        ensures
            r.base.env_key matches Some(k) && k@ == key@,
            r.base == (OptionBaseAttributes { env_key: r.base.env_key, ..self.base }),
    {
        let mut base = self.base;
        base.env_key = Some(String::from_str(key));
        ValuesOption { base }
    }

    /// Sets the long flag, given without its leading `--`.
    pub fn long_arg(self, arg: &str) -> (r: ValuesOption<T>)
        ensures
            r.base.long_arg matches Some(k) && k@ == arg@,
            r.base == (OptionBaseAttributes { long_arg: r.base.long_arg, ..self.base }),
    {
        let mut base = self.base;
        base.long_arg = Some(String::from_str(arg));
        ValuesOption { base }
    }

    /// Sets the short flag, given without its leading `-`.
    pub fn short_arg(self, arg: char) -> (r: ValuesOption<T>)
        ensures
            r.base == (OptionBaseAttributes { short_arg: Some(arg), ..self.base }),
    {
        let mut base = self.base;
        base.short_arg = Some(arg);
        ValuesOption { base }
    }

    /// Makes a value mandatory.
    pub fn required(self) -> (r: ValuesOption<T>)
        ensures
            r.base == (OptionBaseAttributes { required: true, ..self.base }),
    {
        let mut base = self.base;
        base.required = true;
        ValuesOption { base }
    }

    /// Sets the list used when no source supplies one.
    pub fn default(self, value: Vec<T>) -> (r: ValuesOption<T>)
        ensures
            r.base == (OptionBaseAttributes { default: Some(value), ..self.base }),
    {
        let mut base = self.base;
        base.default = Some(value);
        ValuesOption { base }
    }

    /// Sets the check that a resolved list must pass.
    pub fn additional_eval<F: Fn(&Vec<T>) -> Result<(), Error> + 'static>(self, eval_fkt: F) -> (r:
        ValuesOption<T>)
        ensures
            r.base.additional_eval is Some,
            forall|v: &Vec<T>, o: Result<(), Error>|
                #[trigger] r.base.additional_eval->0.allows(v, o) == (call_requires(eval_fkt, (v,))
                    ==> call_ensures(eval_fkt, (v,), o)),
            r.base == (OptionBaseAttributes { additional_eval: r.base.additional_eval, ..self.base }),
    {
        let mut base = self.base;
        let check: Box<dyn Validate<Vec<T>>> = Box::new(eval_fkt);
        base.additional_eval = Some(check);
        ValuesOption { base }
    }

    /// Keeps the first conversion failure.
    fn note_failure(&mut self, e: Error)
        requires
            e is Parsing,
        ensures
            old(self).base.failure_noted(&final(self).base, e.message()),
    {
        if self.base.parse_error.is_none() {
            self.base.parse_error = Some(e);
        }
    }
}

impl<T: AllowedTypes> OptionBase for ValuesOption<T> {
    /// Where the option names a variable that the environment holds, the
    /// list becomes the conversion of its parts; a part that does not convert
    /// leaves the list as it was and is reported by `eval`.
    open spec fn env_step(&self, envs: Seq<(String, String)>, after: ValuesOption<T>) -> bool {
        let found = env_value(envs, self.base.env_key);
        &&& after.base == (OptionBaseAttributes {
            value: after.base.value,
            parse_error: after.base.parse_error,
            ..self.base
        })
        &&& found is None ==> after.base == self.base
        &&& found is Some && all_accepted::<T>(split_commas(found->0)) ==> {
            &&& after.base.value is Some
            &&& list_denotes(split_commas(found->0), after.base.value->0@)
            &&& after.base.parse_error == self.base.parse_error
        }
        &&& found is Some && !all_accepted::<T>(split_commas(found->0)) ==> self.base.failure_noted(
            &after.base,
            rejection_message::<T>(split_commas(found->0)),
        )
    }

    /// The tokens after the option's flags are converted part by part and
    /// appended, in order, to the list; a part that does not convert leaves
    /// the list as it was and is reported by `eval`.
    open spec fn args_step(&self, args: Seq<String>, after: ValuesOption<T>) -> bool {
        let toks = values_from(args_view(args), self.base.short_arg, self.base.long_arg, 0);
        let before = held(self.base.value);
        &&& after.base == (OptionBaseAttributes {
            value: after.base.value,
            parse_error: after.base.parse_error,
            ..self.base
        })
        &&& toks.len() == 0 ==> after.base == self.base
        &&& toks.len() > 0 && all_convert::<T>(toks) ==> {
            &&& after.base.value is Some
            &&& after.base.value->0@.len() == before.len() + all_parts(toks).len()
            &&& after.base.value->0@.take(before.len() as int) == before
            &&& list_denotes(all_parts(toks), after.base.value->0@.skip(before.len() as int))
            &&& after.base.parse_error == self.base.parse_error
        }
        &&& !all_convert::<T>(toks) ==> self.base.failure_noted(
            &after.base,
            rejection_message::<T>(split_commas(toks[first_failing::<T>(toks)])),
        )
    }

    open spec fn eval_step(&self, after: ValuesOption<T>, r: Result<(), Error>) -> bool {
        self.base.eval_gives(&after.base, r)
    }

    open spec fn help_shown(&self, text: Seq<char>) -> bool {
        text == self.base.help_view()
    }

    fn parse_env(&mut self, envs: &Vec<(String, String)>) {
        if let Some(env_key) = &self.base.env_key {
            if let Some(tok) = lookup_env(envs, env_key) {
                match convert_list::<T>(tok.as_str()) {
                    Ok(vs) => {
                        self.base.value = Some(vs);
                    },
                    Err(e) => {
                        proof {
                            let k = choose|k: int|
                                first_rejected::<T>(split_commas(tok@), k) && e.message()
                                    == conversion_message(
                                    #[trigger] split_commas(tok@)[k],
                                    T::label(),
                                );
                            lemma_rejection_message::<T>(split_commas(tok@), k);
                        }
                        self.note_failure(e);
                    },
                }
            }
        }
    }

    fn parse_args(&mut self, args: &Vec<String>) {
        let toks = flag_values(args, self.base.short_arg, &self.base.long_arg);
        let ghost tv = args_view(toks@);
        if toks.len() == 0 {
            return;
        }
        let mut added: Vec<T> = Vec::new();
        let mut j: usize = 0;
        while j < toks.len()
            invariant
                j <= toks@.len(),
                tv == args_view(toks@),
                tv == values_from(args_view(args@), old(self).base.short_arg, old(self).base.long_arg, 0),
                self.base == old(self).base,
                list_denotes(all_parts(tv.take(j as int)), added@),
                forall|k: int| 0 <= k < j ==> all_accepted::<T>(#[trigger] split_commas(tv[k])),
            decreases toks@.len() - j,
        {
            assert(tv[j as int] == toks@[j as int]@);
            match convert_list::<T>(toks[j].as_str()) {
                Ok(vs) => {
                    let mut vs = vs;
                    proof {
                        assert(tv.take(j + 1).drop_last() =~= tv.take(j as int));
                        lemma_denotes_concat(
                            all_parts(tv.take(j as int)),
                            added@,
                            split_commas(tv[j as int]),
                            vs@,
                        );
                    }
                    added.append(&mut vs);
                },
                Err(e) => {
                    proof {
                        let parts = split_commas(tv[j as int]);
                        let k = choose|k: int|
                            first_rejected::<T>(parts, k) && e.message() == conversion_message(
                                #[trigger] split_commas(tv[j as int])[k],
                                T::label(),
                            );
                        lemma_rejection_message::<T>(parts, k);
                        assert(is_first_failing::<T>(tv, j as int));
                        lemma_first_failing_unique::<T>(tv, j as int, first_failing::<T>(tv));
                    }
                    self.note_failure(e);
                    return;
                },
            }
            j = j + 1;
        }
        assert(tv.take(j as int) =~= tv);
        let ghost before = held(self.base.value);
        let mut list: Vec<T> = match &self.base.value {
            Some(v) => v.copy_value(),
            None => Vec::new(),
        };
        let ghost added_view = added@;
        list.append(&mut added);
        assert(list@.take(before.len() as int) =~= before);
        assert(list@.skip(before.len() as int) =~= added_view);
        assert(list@.len() == before.len() + all_parts(tv).len());
        self.base.value = Some(list);
    }

    fn eval(&mut self) -> (r: Result<(), Error>) {
        self.base.eval()
    }

    fn help(&self) -> (r: String) {
        self.base.help()
    }
}

} // verus!
