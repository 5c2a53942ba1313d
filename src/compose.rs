use crate::error::Error;
use crate::options::{args_view, OptionBase};
use vstd::prelude::*;
use vstd::string::*;

verus! {

/// Where help text goes; any `Fn(String)` is one.
pub trait HelpSink {
    /// Whether the sink has taken `text`, as far as its contract tells.
    spec fn received(&self, text: String) -> bool;

    fn emit(&self, text: String)
        ensures
            self.received(text),
    ;
}

impl<F: Fn(String)> HelpSink for F {
    /// Where the closure's precondition admits the text, its postcondition
    /// holds.
    open spec fn received(&self, text: String) -> bool {
        call_requires(*self, (text,)) ==> call_ensures(*self, (text,), ())
    }

    fn emit(&self, text: String) {
        call_sink(self, text)
    }
}

/// Relies on the caller's closure: it is called once with the text; where
/// its precondition admits the text, its postcondition then holds.
#[verifier::external_body]
fn call_sink<F: Fn(String)>(f: &F, text: String) -> (r: ())
    ensures
        call_requires(*f, (text,)) ==> call_ensures(*f, (text,), r),
{
    f(text)
}

/// The states that the environment phase, then the argument phase, may lead
/// the options to. A phase runs only where its input is not empty.
pub open spec fn resolved_by<O: OptionBase>(
    before: Seq<O>,
    envs: Seq<(String, String)>,
    args: Seq<String>,
    after: Seq<O>,
) -> bool {
    &&& after.len() == before.len()
    &&& exists|mid: Seq<O>| #[trigger] env_phase(before, envs, mid) && args_phase(mid, args, after)
}

pub open spec fn env_phase<O: OptionBase>(before: Seq<O>, envs: Seq<(String, String)>, after: Seq<O>) -> bool {
    &&& after.len() == before.len()
    &&& if envs.len() == 0 {
        after == before
    } else {
        forall|i: int| 0 <= i < before.len() ==> #[trigger] before[i].env_step(envs, after[i])
    }
}

pub open spec fn args_phase<O: OptionBase>(before: Seq<O>, args: Seq<String>, after: Seq<O>) -> bool {
    &&& after.len() == before.len()
    &&& if args.len() == 0 {
        after == before
    } else {
        forall|i: int| 0 <= i < before.len() ==> #[trigger] before[i].args_step(args, after[i])
    }
}

/// Option `k` is the first whose evaluation failed, with `e`: those before it
/// passed, and those after it were not evaluated.
pub open spec fn fails_first_at<O: OptionBase>(before: Seq<O>, after: Seq<O>, k: int, e: Error) -> bool {
    &&& 0 <= k < before.len()
    &&& forall|i: int| 0 <= i < k ==> #[trigger] before[i].eval_step(after[i], Ok(()))
    &&& before[k].eval_step(after[k], Err(e))
    &&& forall|i: int| k < i < before.len() ==> after[i] == before[i]
}

/// What the evaluation phase may do: evaluate every option in order and
/// succeed, or stop at the first failure and report it.
pub open spec fn evaluated<O: OptionBase>(before: Seq<O>, after: Seq<O>, r: Result<(), Error>) -> bool {
    &&& after.len() == before.len()
    &&& match r {
        Ok(()) => forall|i: int| 0 <= i < before.len() ==> #[trigger] before[i].eval_step(after[i], Ok(())),
        Err(e) => exists|k: int| #[trigger] fails_first_at(before, after, k, e),
    }
}

/// Whether the arguments ask for help.
pub open spec fn asks_help(args: Seq<Seq<char>>) -> bool {
    exists|i: int| 0 <= i < args.len() && (#[trigger] args[i] == "--help"@ || args[i] == "-h"@)
}

/// The help lines, each as ` - <line>\n`.
pub open spec fn option_lines(lines: Seq<Seq<char>>) -> Seq<char>
    decreases lines.len(),
{
    if lines.len() == 0 {
        Seq::<char>::empty()
    } else {
        option_lines(lines.drop_last()) + " - "@ + lines.last() + "\n"@
    }
}

/// The whole help text: a usage banner, then the options' lines where there
/// are any.
pub open spec fn help_page(lines: Seq<Seq<char>>) -> Seq<char> {
    "Usage: <program> [options]\n\n"@ + if lines.len() > 0 {
        "Options:\n"@ + option_lines(lines)
    } else {
        Seq::<char>::empty()
    }
}

/// The help text of the options: each line is the one its option shows.
pub open spec fn help_of<O: OptionBase>(options: Seq<O>, text: Seq<char>) -> bool {
    exists|lines: Seq<Seq<char>>|
        lines.len() == options.len() && (forall|i: int|
            0 <= i < options.len() ==> #[trigger] options[i].help_shown(lines[i])) && text
            == #[trigger] help_page(lines)
}

/// The options of one run, with the environment and the arguments they are
/// resolved from.
#[verifier::reject_recursive_types(O)]
pub struct Compose<O: OptionBase> {
    pub options: Vec<O>,
    pub envs: Vec<(String, String)>,
    pub args: Vec<String>,
    pub print_fn: Option<Box<dyn HelpSink>>,
}

impl<O: OptionBase> Compose<O> {
    /// A run with no options, no environment, no arguments and no help sink.
    pub fn new() -> (r: Compose<O>)
        ensures
            r.options@.len() == 0,
            r.envs@.len() == 0,
            r.args@.len() == 0,
            r.print_fn is None,
    {
        Compose { options: Vec::new(), envs: Vec::new(), args: Vec::new(), print_fn: None }
    }

    /// Registers an option after those already registered.
    pub fn add(self, option: O) -> (r: Compose<O>)
        ensures
            r.options@ == self.options@.push(option),
            r.envs == self.envs,
            r.args == self.args,
            r.print_fn == self.print_fn,
    {
        let mut c = self;
        c.options.push(option);
        c
    }

    /// Sets the environment, as name and value pairs. A name that occurs in
    /// more than one pair takes the value of its last pair, as collecting the
    /// pairs into a map would (see `env_lookup`).
    pub fn envs(self, envs: Vec<(String, String)>) -> (r: Compose<O>)
        ensures
            r.options == self.options,
            r.envs == envs,
            r.args == self.args,
            r.print_fn == self.print_fn,
    {
        let mut c = self;
        c.envs = envs;
        c
    }

    /// Sets the arguments, in order.
    pub fn args(self, args: Vec<String>) -> (r: Compose<O>)
        ensures
            r.options == self.options,
            r.envs == self.envs,
            r.args == args,
            r.print_fn == self.print_fn,
    {
        let mut c = self;
        c.args = args;
        c
    }

    /// Sets where help text goes when the arguments ask for it.
    pub fn help<F: Fn(String) + 'static>(self, print_fn: F) -> (r: Compose<O>)
        ensures
            r.options == self.options,
            r.envs == self.envs,
            r.args == self.args,
            r.print_fn is Some,
            forall|t: String|
                #[trigger] r.print_fn->0.received(t) == (call_requires(print_fn, (t,))
                    ==> call_ensures(print_fn, (t,), ())),
    {
        let mut c = self;
        let sink: Box<dyn HelpSink> = Box::new(print_fn);
        c.print_fn = Some(sink);
        c
    }
}

/// Whether a bare `--help` or `-h` stands among the arguments.
pub fn wants_help(args: &Vec<String>) -> (r: bool)
    ensures
        r == asks_help(args_view(args@)),
{
    let long = String::from_str("--help");
    let short = String::from_str("-h");
    let mut i: usize = 0;
    while i < args.len()
        invariant
            i <= args@.len(),
            long@ == "--help"@,
            short@ == "-h"@,
            forall|j: int| 0 <= j < i ==> !(#[trigger] args_view(args@)[j] == "--help"@ || args_view(args@)[j] == "-h"@),
        decreases args@.len() - i,
    {
        assert(args_view(args@)[i as int] == args@[i as int]@);
        if args[i] == long || args[i] == short {
            return true;
        }
        i = i + 1;
    }
    false
}

/// Runs the environment step of every option, in order.
fn env_pass<O: OptionBase>(options: Vec<O>, envs: &Vec<(String, String)>) -> (r: Vec<O>)
    ensures
        r@.len() == options@.len(),
        forall|i: int| 0 <= i < options@.len() ==> #[trigger] options@[i].env_step(envs@, r@[i]),
{
    let mut rest = options;
    let mut done: Vec<O> = Vec::new();
    while rest.len() > 0
        invariant
            done@.len() + rest@.len() == options@.len(),
            rest@ == options@.skip(done@.len() as int),
            forall|i: int| 0 <= i < done@.len() ==> #[trigger] options@[i].env_step(envs@, done@[i]),
        decreases rest@.len(),
    {
        let mut o = rest.remove(0);
        assert(o == options@[done@.len() as int]);
        o.parse_env(envs);
        done.push(o);
        assert(rest@ =~= options@.skip(done@.len() as int));
    }
    done
}

/// Runs the argument step of every option, in order.
fn args_pass<O: OptionBase>(options: Vec<O>, args: &Vec<String>) -> (r: Vec<O>)
    ensures
        r@.len() == options@.len(),
        forall|i: int| 0 <= i < options@.len() ==> #[trigger] options@[i].args_step(args@, r@[i]),
{
    let mut rest = options;
    let mut done: Vec<O> = Vec::new();
    while rest.len() > 0
        invariant
            done@.len() + rest@.len() == options@.len(),
            rest@ == options@.skip(done@.len() as int),
            forall|i: int| 0 <= i < done@.len() ==> #[trigger] options@[i].args_step(args@, done@[i]),
        decreases rest@.len(),
    {
        let mut o = rest.remove(0);
        assert(o == options@[done@.len() as int]);
        o.parse_args(args);
        done.push(o);
        assert(rest@ =~= options@.skip(done@.len() as int));
    }
    done
}

/// Evaluates the options in order and stops at the first failure; returns
/// the options, evaluated up to that point, with the outcome.
pub fn evaluate<O: OptionBase>(options: Vec<O>) -> (r: (Vec<O>, Result<(), Error>))
    ensures
        evaluated(options@, r.0@, r.1),
{
    let mut rest = options;
    let mut done: Vec<O> = Vec::new();
    while rest.len() > 0
        invariant
            done@.len() + rest@.len() == options@.len(),
            rest@ == options@.skip(done@.len() as int),
            forall|i: int| 0 <= i < done@.len() ==> #[trigger] options@[i].eval_step(done@[i], Ok(())),
        decreases rest@.len(),
    {
        let mut o = rest.remove(0);
        let ghost k = done@.len() as int;
        assert(o == options@[k]);
        let res = o.eval();
        match res {
            Ok(u) => {
                // `u` is the unit value, so the outcome is `Ok(())` itself.
                assert(u == ());
                done.push(o);
                assert(rest@ =~= options@.skip(done@.len() as int));
            },
            Err(e) => {
                let ghost e0 = e;
                done.push(o);
                let ghost prefix = done@;
                done.append(&mut rest);
                assert forall|i: int| k < i < options@.len() implies done@[i] == options@[i] by {
                    assert(done@[i] == options@.skip(k + 1)[i - k - 1]);
                }
                assert(forall|i: int| 0 <= i < k ==> done@[i] == prefix[i]);
                assert(fails_first_at(options@, done@, k, e0));
                return (done, Err(e));
            },
        }
    }
    (done, Ok(()))
}

/// The help text: the usage banner, then one line per option.
pub fn render_help<O: OptionBase>(options: &Vec<O>) -> (r: String)
    ensures
        help_of(options@, r@),
{
    let mut s = String::new();
    s.append("Usage: <program> [options]\n\n");
    let mut shown = String::new();
    let ghost mut lines: Seq<Seq<char>> = Seq::empty();
    let mut i: usize = 0;
    while i < options.len()
        invariant
            i <= options@.len(),
            lines.len() == i,
            forall|j: int| 0 <= j < i ==> #[trigger] options@[j].help_shown(lines[j]),
            shown@ == option_lines(lines),
        decreases options@.len() - i,
    {
        shown.append(" - ");
        let line = options[i].help();
        shown.append(line.as_str());
        shown.append("\n");
        proof {
            let prev = lines;
            lines = lines.push(line@);
            assert(lines.drop_last() =~= prev);
        }
        i = i + 1;
    }
    if options.len() > 0 {
        s.append("Options:\n");
        s.append(shown.as_str());
    }
    assert(help_page(lines) == s@);
    s
}

impl<O: OptionBase> Compose<O> {
    /// The help text: the usage banner, then one line per option.
    pub fn help_text(&self) -> (r: String)
        ensures
            help_of(self.options@, r@),
    {
        render_help(&self.options)
    }

    /// The help page that this run hands to its sink: present exactly when
    /// a sink is set and the arguments hold a bare `--help` or `-h`.
    pub fn help_request(&self) -> (r: Option<String>)
        ensures
            r is Some <==> (self.print_fn is Some && self.args@.len() > 0 && asks_help(
                args_view(self.args@),
            )),
            r matches Some(page) ==> help_of(self.options@, page@),
    {
        if self.print_fn.is_some() && self.args.len() > 0 && wants_help(&self.args) {
            Some(render_help(&self.options))
        } else {
            None
        }
    }

    /// Resolves every option: the environment phase where there is an
    /// environment, the argument phase where there are arguments, then the
    /// evaluation phase, which stops at the first failure. Where
    /// `help_request` gives a page, that page goes to the sink, once, before
    /// the argument phase, and is returned beside the outcome. The outcome
    /// holds the resolved options in the order they were registered.
    pub fn parse(self) -> (r: (Result<Vec<O>, Error>, Option<String>))
        ensures
            exists|resolved: Seq<O>| #[trigger]
                resolved_by(self.options@, self.envs@, self.args@, resolved) && ({
                    &&& r.0 matches Ok(v) ==> evaluated(resolved, v@, Ok(()))
                    &&& r.0 matches Err(e) ==> exists|after: Seq<O>| #[trigger]
                        evaluated(resolved, after, Err(e))
                }),
            r.1 is Some <==> (self.print_fn is Some && self.args@.len() > 0 && asks_help(
                args_view(self.args@),
            )),
            r.1 matches Some(page) ==> help_of(self.options@, page@),
            r.1 matches Some(page) ==> self.print_fn->0.received(page),
    {
        let page = self.help_request();
        let Compose { options, envs, args, print_fn } = self;
        let ghost start = options@;
        let mid = if envs.len() > 0 {
            env_pass(options, &envs)
        } else {
            options
        };
        let ghost mid_view = mid@;
        assert(env_phase(start, envs@, mid_view));
        if let (Some(sink), Some(text)) = (&print_fn, &page) {
            sink.emit(text.clone());
        }
        let resolved = if args.len() > 0 {
            args_pass(mid, &args)
        } else {
            mid
        };
        let ghost resolved_view = resolved@;
        assert(args_phase(mid_view, args@, resolved_view));
        assert(resolved_by(start, envs@, args@, resolved_view));
        let (after, outcome) = evaluate(resolved);
        match outcome {
            Ok(()) => (Ok(after), page),
            Err(e) => {
                assert(evaluated(resolved_view, after@, Err(e)));
                (Err(e), page)
            },
        }
    }
}

/// Fail-fast: when the first option can only fail, with `e`, the run reports
/// `e`, and no later option is evaluated.
pub proof fn lemma_first_failure_wins<O: OptionBase>(
    before: Seq<O>,
    after: Seq<O>,
    r: Result<(), Error>,
    e: Error,
)
    requires
        before.len() >= 1,
        evaluated(before, after, r),
        forall|a: O, r0: Result<(), Error>| #[trigger] before[0].eval_step(a, r0) ==> r0 == Err::<(), Error>(e),
    ensures
        r == Err::<(), Error>(e),
        forall|i: int| 1 <= i < before.len() ==> after[i] == before[i],
{
    match r {
        Ok(u) => {
            assert(before[0].eval_step(after[0], Ok(())));
        },
        Err(e1) => {
            let k = choose|k: int| #[trigger] fails_first_at(before, after, k, e1);
            if k > 0 {
                assert(before[0].eval_step(after[0], Ok(())));
            }
        },
    }
}

} // verus!
