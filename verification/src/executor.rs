//! What a matched rule asks to be done.
//!
//! The decisions are made here: which action a rule names, which URL to
//! open, which program to start with which arguments and in which
//! directory.  Carrying them out (opening the URL, spawning the process) is
//! left to the caller.
use vstd::prelude::*;

use crate::matcher::MatchContext;
use crate::models::AutomationRule;
use crate::modules::{
    config_view, module_outcome, module_request, spec_resolve_module, ModuleRequest,
};
use crate::text::{
    chars_of, is_space, is_whitespace, non_blank, opt_view, spec_non_blank, str_is, string_of,
};
use crate::tokens::spec_replace_tokens;

verus! {

/// `replace_tokens`: the same substitution as `tokens::replace_tokens`.
pub fn replace_tokens(value: &str, context: &MatchContext) -> (r: String)
    ensures
        r@ == crate::tokens::spec_replace_tokens(
            value@,
            context.value@,
            context.message@,
            context.matched_line@,
        ),
{
    crate::tokens::replace_tokens(value, context)
}

// ---------------------------------------------------------------------
// Argument parsing
// ---------------------------------------------------------------------
/// The parser's state: finished arguments, the argument being read, the
/// open quote character, and whether an argument has begun.
pub type ArgState = (Seq<Seq<char>>, Seq<char>, Option<char>, bool);

pub open spec fn is_quote(c: char) -> bool {
    c == '"' || c == '\''
}

/// One step of the argument parser at position `i`: the next state and the
/// next position.
pub open spec fn arg_step(st: ArgState, s: Seq<char>, i: int) -> (ArgState, int) {
    let (args, cur, quote, in_arg) = st;
    let c = s[i];
    if is_quote(c) {
        if quote == Some(c) {
            ((args, cur, None, true), i + 1)
        } else if quote is None {
            ((args, cur, Some(c), true), i + 1)
        } else {
            ((args, cur.push(c), quote, true), i + 1)
        }
    } else if c == '\\' {
        match quote {
            Some(q) => if i + 1 < s.len() && s[i + 1] == q {
                ((args, cur.push(q), quote, true), i + 2)
            } else {
                ((args, cur.push('\\'), quote, true), i + 1)
            },
            None => ((args, cur.push('\\'), quote, true), i + 1),
        }
    } else if is_space(c) && quote is None {
        if in_arg {
            ((args.push(cur), Seq::empty(), quote, false), i + 1)
        } else {
            (st, i + 1)
        }
    } else {
        ((args, cur.push(c), quote, true), i + 1)
    }
}

/// The parser's state after reading `s` from position `i` on.
pub open spec fn arg_run(st: ArgState, s: Seq<char>, i: int) -> ArgState
    decreases s.len() - i,
{
    if i < 0 || i >= s.len() {
        st
    } else {
        let (next, j) = arg_step(st, s, i);
        if j <= i {
            next
        } else {
            arg_run(next, s, j)
        }
    }
}

pub open spec fn arg_start() -> ArgState {
    (Seq::empty(), Seq::empty(), None, false)
}

/// The arguments that a command line holds, or the quote character that is
/// left open.
pub open spec fn spec_parse_arguments(s: Seq<char>) -> Result<Seq<Seq<char>>, char> {
    let (args, cur, quote, in_arg) = arg_run(arg_start(), s, 0);
    match quote {
        Some(q) => Err(q),
        None => Ok(
            if in_arg {
                args.push(cur)
            } else {
                args
            },
        ),
    }
}

/// The words of a text as splitting it at white space gives them: the
/// maximal runs of characters that are not white space, in order.
pub open spec fn white_space_words(s: Seq<char>) -> Seq<Seq<char>>
    decreases s.len(),
{
    if s.len() == 0 {
        Seq::empty()
    } else {
        let w = white_space_words(s.drop_last());
        let c = s.last();
        if is_space(c) {
            w
        } else if s.len() >= 2 && !is_space(s[s.len() - 2]) {
            w.update(w.len() - 1, w.last().push(c))
        } else {
            w.push(seq![c])
        }
    }
}

/// An argument in double quotes.
pub open spec fn double_quoted(a: Seq<char>) -> Seq<char> {
    seq!['"'] + a + seq!['"']
}

/// An argument in quotes `q`.
pub open spec fn quoted_in(q: char, a: Seq<char>) -> Seq<char> {
    seq![q] + a + seq![q]
}

/// Arguments each in quotes `q`, joined by single spaces.
pub open spec fn line_quoted_in(q: char, args: Seq<Seq<char>>) -> Seq<char>
    decreases args.len(),
{
    if args.len() == 0 {
        Seq::empty()
    } else if args.len() == 1 {
        quoted_in(q, args[0])
    } else {
        quoted_in(q, args[0]) + seq![' '] + line_quoted_in(q, args.drop_first())
    }
}

/// Arguments each in double quotes, joined by single spaces.
pub open spec fn quoted_line(args: Seq<Seq<char>>) -> Seq<char>
    decreases args.len(),
{
    if args.len() == 0 {
        Seq::empty()
    } else if args.len() == 1 {
        double_quoted(args[0])
    } else {
        double_quoted(args[0]) + seq![' '] + quoted_line(args.drop_first())
    }
}

/// The message for a quote left open.
pub open spec fn unclosed_quote_message(q: char) -> Seq<char> {
    "Unclosed quote: "@.push(q)
}

/// `parse_arguments`: splits a command line into arguments at white space
/// outside quotes. Single and double quotes group text; inside quotes a
/// backslash before the open quote character stands for that character.
pub fn parse_arguments(input: &str) -> (r: Result<Vec<String>, String>)
    ensures
        match r {
            Ok(args) => spec_parse_arguments(input@) == Ok::<Seq<Seq<char>>, char>(
                args.deep_view(),
            ),
            Err(e) => exists|q: char|
                spec_parse_arguments(input@) == Err::<Seq<Seq<char>>, char>(q) && e@
                    == unclosed_quote_message(q),
        },
{
    let s = chars_of(input);
    let mut args: Vec<Vec<char>> = Vec::new();
    let mut current: Vec<char> = Vec::new();
    let mut quote: Option<char> = None;
    let mut in_arg = false;
    let mut i: usize = 0;
    proof {
        assert(args.deep_view() =~= Seq::<Seq<char>>::empty());
        assert(current@ =~= Seq::<char>::empty());
    }
    while i < s.len()
        invariant
            i <= s@.len(),
            s@ == input@,
            arg_run(arg_start(), s@, 0) == arg_run(
                (args.deep_view(), current@, quote, in_arg),
                s@,
                i as int,
            ),
        decreases s@.len() - i,
    {
        let c = s[i];
        let ghost st = (args.deep_view(), current@, quote, in_arg);
        let ghost (next, j) = arg_step(st, s@, i as int);
        if c == '"' || c == '\'' {
            in_arg = true;
            if quote == Some(c) {
                quote = None;
            } else if quote.is_none() {
                quote = Some(c);
            } else {
                current.push(c);
            }
            i = i + 1;
        } else if c == '\\' {
            in_arg = true;
            match quote {
                Some(q) => {
                    if i + 1 < s.len() && s[i + 1] == q {
                        current.push(q);
                        i = i + 2;
                    } else {
                        current.push(c);
                        i = i + 1;
                    }
                },
                None => {
                    current.push(c);
                    i = i + 1;
                },
            }
        } else if is_whitespace(c) && quote.is_none() {
            if in_arg {
                let ghost prev = args.deep_view();
                let done = current;
                current = Vec::new();
                args.push(done);
                in_arg = false;
                proof {
                    assert(done.deep_view() =~= done@);
                    assert(args.deep_view() =~~= prev.push(done@));
                    assert(current@ =~= Seq::<char>::empty());
                }
            }
            i = i + 1;
        } else {
            in_arg = true;
            current.push(c);
            i = i + 1;
        }
        assert((args.deep_view(), current@, quote, in_arg) == next && i == j);
    }
    assert(arg_run(arg_start(), s@, 0) == (args.deep_view(), current@, quote, in_arg));
    if let Some(q) = quote {
        let mut msg = String::from_str("Unclosed quote: ");
        msg.push(q);
        assert(spec_parse_arguments(input@) == Err::<Seq<Seq<char>>, char>(q));
        assert(msg@ == unclosed_quote_message(q));
        return Err(msg);
    }
    if in_arg {
        let ghost prev = args.deep_view();
        let done = current;
        args.push(done);
        proof {
            assert(done.deep_view() =~= done@);
            assert(args.deep_view() =~~= prev.push(done@));
        }
    }
    let mut out: Vec<String> = Vec::new();
    let mut k: usize = 0;
    while k < args.len()
        invariant
            k <= args@.len(),
            out@.len() == k,
            forall|m: int| 0 <= m < k ==> #[trigger] out@[m]@ == args.deep_view()[m],
        decreases args@.len() - k,
    {
        out.push(string_of(args[k].as_slice()));
        k = k + 1;
    }
    assert(out.deep_view() =~= args.deep_view());
    Ok(out)
}

// ---------------------------------------------------------------------
// Actions
// ---------------------------------------------------------------------
/// A program to start: its name or path, its arguments, and the directory
/// to start it in (`None` for the current one).
#[derive(Debug, Clone)]
pub struct ProgramCommand {
    pub program: String,
    pub args: Vec<String>,
    pub directory: Option<String>,
}

/// What a matched rule asks to be done.
#[derive(Debug, Clone)]
pub enum RuleAction {
    OpenUrl(String),
    RunProgram(ProgramCommand),
    Module(ModuleRequest),
}

/// The URL that an `openUrl` rule opens: its action value, trimmed.
pub fn open_url_target(rule: &AutomationRule) -> (r: Result<String, String>)
    ensures
        match spec_non_blank(opt_view(rule.action_value)) {
            Some(u) => r matches Ok(s) && s@ == u,
            None => r matches Err(e) && e@ == "URL is required"@,
        },
{
    match non_blank(&rule.action_value) {
        Some(u) => Ok(u),
        None => Err(String::from_str("URL is required")),
    }
}

/// Each argument with the match context substituted.
pub open spec fn substituted(args: Seq<Seq<char>>, ctx: (Seq<char>, Seq<char>, Seq<char>)) -> Seq<
    Seq<char>,
> {
    args.map_values(|a: Seq<char>| spec_replace_tokens(a, ctx.0, ctx.2, ctx.1))
}

/// The program command that a rule yields, or the error.
pub open spec fn spec_program_command(
    action_value: Option<Seq<char>>,
    arguments: Option<Seq<char>>,
    working_directory: Option<Seq<char>>,
    ctx: (Seq<char>, Seq<char>, Seq<char>),
) -> Result<(Seq<char>, Seq<Seq<char>>, Option<Seq<char>>), Seq<char>> {
    match spec_non_blank(action_value) {
        None => Err("Program is required"@),
        Some(program) => {
            let parsed = match spec_non_blank(arguments) {
                None => Ok(Seq::<Seq<char>>::empty()),
                Some(a) => match spec_parse_arguments(a) {
                    Ok(args) => Ok(substituted(args, ctx)),
                    Err(q) => Err(unclosed_quote_message(q)),
                },
            };
            match parsed {
                Err(e) => Err(e),
                Ok(args) => Ok((program, args, spec_non_blank(working_directory))),
            }
        },
    }
}

pub open spec fn command_view(c: ProgramCommand) -> (Seq<char>, Seq<Seq<char>>, Option<Seq<char>>) {
    (c.program@, c.args.deep_view(), opt_view(c.directory))
}

/// The program that a `runProgram` rule starts: the program, its arguments with the
/// match context substituted, and its working directory.
pub fn program_command(rule: &AutomationRule, context: &MatchContext) -> (r: Result<
    ProgramCommand,
    String,
>)
    ensures
        match r {
            Ok(c) => spec_program_command(
                opt_view(rule.action_value),
                opt_view(rule.arguments),
                opt_view(rule.working_directory),
                context@,
            ) == Ok::<(Seq<char>, Seq<Seq<char>>, Option<Seq<char>>), Seq<char>>(command_view(c)),
            Err(e) => spec_program_command(
                opt_view(rule.action_value),
                opt_view(rule.arguments),
                opt_view(rule.working_directory),
                context@,
            ) == Err::<(Seq<char>, Seq<Seq<char>>, Option<Seq<char>>), Seq<char>>(e@),
        },
{
    let program = match non_blank(&rule.action_value) {
        Some(p) => p,
        None => return Err(String::from_str("Program is required")),
    };
    let mut args: Vec<String> = Vec::new();
    match non_blank(&rule.arguments) {
        Some(a) => {
            let parsed = match parse_arguments(a.as_str()) {
                Ok(v) => v,
                Err(e) => return Err(e),
            };
            let ghost pv = parsed.deep_view();
            let mut i: usize = 0;
            while i < parsed.len()
                invariant
                    i <= parsed@.len(),
                    pv == parsed.deep_view(),
                    args@.len() == i,
                    forall|j: int| 0 <= j < i ==> #[trigger] args@[j]@ == spec_replace_tokens(
                        pv[j],
                        context.value@,
                        context.message@,
                        context.matched_line@,
                    ),
                decreases parsed@.len() - i,
            {
                args.push(replace_tokens(parsed[i].as_str(), context));
                i = i + 1;
            }
            assert(args.deep_view() =~= substituted(pv, context@));
        },
        None => {
            assert(args.deep_view() =~= Seq::<Seq<char>>::empty());
        },
    }
    let directory = non_blank(&rule.working_directory);
    Ok(ProgramCommand { program, args, directory })
}

/// `execute_rule`, up to the carrying out: the action that a matched rule
/// asks for.
pub fn execute_rule(rule: &AutomationRule, context: &MatchContext) -> (r: Result<
    RuleAction,
    String,
>)
    ensures
        rule.action_type@ == "openUrl"@ ==> match spec_non_blank(opt_view(rule.action_value)) {
            Some(u) => r matches Ok(RuleAction::OpenUrl(s)) && s@ == u,
            None => r matches Err(e) && e@ == "URL is required"@,
        },
        rule.action_type@ == "runProgram"@ ==> match spec_program_command(
            opt_view(rule.action_value),
            opt_view(rule.arguments),
            opt_view(rule.working_directory),
            context@,
        ) {
            Ok(c) => r matches Ok(RuleAction::RunProgram(p)) && command_view(p) == c,
            Err(e) => r matches Err(m) && m@ == e,
        },
        rule.action_type@ == "module"@ ==> match spec_resolve_module(opt_view(rule.module_id)) {
            Err(e) => r matches Err(m) && m@ == e,
            Ok((g, id)) => match r {
                Ok(RuleAction::Module(q)) => module_outcome(
                    g,
                    id,
                    config_view(rule.action_config),
                    context@,
                    Ok(q),
                ),
                Err(m) => module_outcome(
                    g,
                    id,
                    config_view(rule.action_config),
                    context@,
                    Err(m),
                ),
                _ => false,
            },
        },
        rule.action_type@ != "openUrl"@ && rule.action_type@ != "runProgram"@
            && rule.action_type@ != "module"@ ==> (r matches Err(e) && e@
            == "Invalid action type"@),
{
    proof {
        reveal_strlit("openUrl");
        reveal_strlit("runProgram");
        reveal_strlit("module");
        assert("openUrl"@.len() == 7);
        assert("runProgram"@.len() == 10);
        assert("module"@.len() == 6);
    }
    let kind = rule.action_type.as_str();
    if str_is(kind, "openUrl") {
        match open_url_target(rule) {
            Ok(u) => Ok(RuleAction::OpenUrl(u)),
            Err(e) => Err(e),
        }
    } else if str_is(kind, "runProgram") {
        match program_command(rule, context) {
            Ok(c) => Ok(RuleAction::RunProgram(c)),
            Err(e) => Err(e),
        }
    } else if str_is(kind, "module") {
        match module_request(rule, context) {
            Ok(q) => Ok(RuleAction::Module(q)),
            Err(e) => Err(e),
        }
    } else {
        Err(String::from_str("Invalid action type"))
    }
}

} // verus!
