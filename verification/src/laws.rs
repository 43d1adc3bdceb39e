//! What holds of the library across its functions.
use vstd::prelude::*;

use crate::background::{
    after_schedule, auth_from, backoff, collapse_blank_lines, names_topic, spec_clean_message,
    spec_event_payload, spec_next_last_id, spec_topic_from, under_base, unload_due, websocket_scheme, without_ws,
    ListenerView, WebSocketEvent,
};
use crate::validation::{file_checks, spec_script_plan, CheckView};
use crate::commands::spec_build_test;
use crate::executor::{
    arg_run, arg_start, arg_step, is_quote, line_quoted_in, quoted_in, quoted_line,
    spec_parse_arguments, white_space_words, ArgState,
};
use crate::listener::{spec_after_mark, SEEN_NOTIFICATION_LIMIT};
use crate::matcher::{
    contains_word, equals_word, find_ic_from, incoming_messages, kind_of, lemma_suffix_from,
    match_line, match_template, offered, prefix_end, same_text, spec_match_rule,
    search_lines, search_messages, starts_with_word, suffix_start, template_parts, value_token,
    MatchKind,
};
use crate::models::{
    day_at, day_name, days_distinct, keys_distinct, AutomationRule, ConfigValue, DayKey, Schedule,
    ScheduleConfig,
};
use crate::modules::{group_of, lookup, spec_fields};
use crate::rules::{toggle_input, updated_rule};
use crate::schedule::{
    check_days, day_entry, digits_value, is_digit, parse_u16, spec_should_show,
    spec_time_to_minutes, split_char, stored_day,
};
use crate::text::{
    contains, decimal, digit_char, ends_with, eq_ic, spec_non_blank, is_space, lead_space, lemma_eq_ic_refl,
    lemma_eq_ic_symm, lemma_eq_ic_trans, lemma_find_from, lemma_kept_items, lemma_lead_space,
    lemma_replace_absent, lemma_replace_shorter, lemma_trim, lemma_trim_idempotent, occurs_at,
    replace_all, starts_with, strip_both, strip_end, strip_start, text_lines, trim, trim_end,
    trim_start,
};
use crate::tokens::{matched_line_token, message_token, spec_replace_tokens};
use crate::urls::UrlView;

verus! {

// ---------------------------------------------------------------------
// Matching
// ---------------------------------------------------------------------
/// The messages offered to the patterns start with the whole message.
proof fn lemma_offered_first(acc: Seq<Seq<char>>, lines: Seq<Seq<char>>)
    requires
        acc.len() > 0,
    ensures
        offered(acc, lines).len() > 0,
        offered(acc, lines)[0] == acc[0],
    decreases lines.len(),
{
    if lines.len() > 0 {
        lemma_offered_first(acc, lines.drop_last());
    }
}

/// An `equals` rule on the event's topic matches a message that is, up to
/// white space margins and ASCII case, its first pattern line (one without
/// `$value`): it captures the trimmed message, from that line.
pub proof fn law_exact_pattern_matches(
    rule_topic: Seq<char>,
    match_value: Seq<char>,
    event_topic: Seq<char>,
    message: Seq<char>,
)
    requires
        same_text(rule_topic, event_topic),
        text_lines(match_value).len() > 0,
        !contains(text_lines(match_value)[0], value_token()),
        same_text(message, text_lines(match_value)[0]),
    ensures
        spec_match_rule(rule_topic, equals_word(), match_value, event_topic, message) == Some(
            (trim(message), text_lines(match_value)[0], trim(message)),
        ),
{
    let lines = text_lines(match_value);
    let line = lines[0];
    let incoming = trim(message);
    lemma_kept_items(crate::text::pieces(match_value));
    assert(line.len() > 0 && trim(line) == line);
    assert(incoming.len() == line.len());
    lemma_trim_idempotent(message);
    assert(same_text(incoming, line));
    assert(kind_of(equals_word()) == MatchKind::Equals);
    assert(match_line(MatchKind::Equals, incoming, line) == Some(incoming));
    lemma_offered_first(seq![incoming], text_lines(incoming));
    assert(incoming_messages(incoming)[0] == incoming);
}

/// A `startsWith` rule on the event's topic matches a message that begins,
/// ignoring ASCII case, with its first pattern line (one without `$value`):
/// it captures the rest of the message, trimmed.
pub proof fn law_prefix_pattern_matches(
    rule_topic: Seq<char>,
    match_value: Seq<char>,
    event_topic: Seq<char>,
    message: Seq<char>,
)
    requires
        same_text(rule_topic, event_topic),
        text_lines(match_value).len() > 0,
        !contains(text_lines(match_value)[0], value_token()),
        prefix_end(trim(message), text_lines(match_value)[0]) is Some,
    ensures
        spec_match_rule(rule_topic, starts_with_word(), match_value, event_topic, message) == Some(
            (
                trim(trim(message).skip(text_lines(match_value)[0].len() as int)),
                text_lines(match_value)[0],
                trim(message),
            ),
        ),
{
    let line = text_lines(match_value)[0];
    let incoming = trim(message);
    lemma_kept_items(crate::text::pieces(match_value));
    assert(line.len() > 0);
    assert(kind_of(starts_with_word()) == MatchKind::StartsWith);
    lemma_offered_first(seq![incoming], text_lines(incoming));
    assert(incoming_messages(incoming)[0] == incoming);
}

/// A `contains` rule on the event's topic matches a message in which its
/// first pattern line (one without `$value`) occurs, ignoring ASCII case;
/// the match names that line and the whole trimmed message.
pub proof fn law_contained_pattern_matches(
    rule_topic: Seq<char>,
    match_value: Seq<char>,
    event_topic: Seq<char>,
    message: Seq<char>,
)
    requires
        same_text(rule_topic, event_topic),
        text_lines(match_value).len() > 0,
        !contains(text_lines(match_value)[0], value_token()),
        find_ic_from(trim(message), text_lines(match_value)[0], 0) is Some,
    ensures
        spec_match_rule(rule_topic, contains_word(), match_value, event_topic, message) matches Some(
            c,
        ) && c.1 == text_lines(match_value)[0] && c.2 == trim(message),
{
    let incoming = trim(message);
    assert(incoming.len() > 0);
    assert(kind_of(contains_word()) == MatchKind::Contains);
    lemma_offered_first(seq![incoming], text_lines(incoming));
    assert(incoming_messages(incoming)[0] == incoming);
}

/// Trimming a text that starts with white space trims that white space too.
proof fn lemma_trim_after_lead(s: Seq<char>)
    ensures
        trim(s.skip(lead_space(s) as int)) == trim(s),
{
    lemma_lead_space(s);
    let rest = s.skip(lead_space(s) as int);
    assert(trim_start(rest) == rest);
}

/// An `equals` rule whose first pattern line is a template with nothing
/// after `$value` matches a message that begins, ignoring ASCII case, with
/// the template's prefix and goes on with more than white space: it
/// captures the rest of the message, trimmed.
pub proof fn law_template_captures_rest(
    rule_topic: Seq<char>,
    match_value: Seq<char>,
    event_topic: Seq<char>,
    message: Seq<char>,
    prefix: Seq<char>,
)
    requires
        same_text(rule_topic, event_topic),
        text_lines(match_value).len() > 0,
        template_parts(text_lines(match_value)[0]) == Some((prefix, Seq::<char>::empty())),
        prefix.len() == 0 || prefix_end(trim(message), prefix) is Some,
        trim(trim(message).skip(prefix.len() as int)).len() > 0,
    ensures
        spec_match_rule(rule_topic, equals_word(), match_value, event_topic, message) == Some(
            (
                trim(trim(message).skip(prefix.len() as int)),
                text_lines(match_value)[0],
                trim(message),
            ),
        ),
{
    let line = text_lines(match_value)[0];
    let incoming = trim(message);
    let rest = incoming.skip(prefix.len() as int);
    lemma_find_from(line, value_token(), 0);
    assert(contains(line, value_token()));
    lemma_trim_after_lead(rest);
    lemma_lead_space(rest);
    let start = (prefix.len() + lead_space(rest)) as int;
    assert(incoming.subrange(start, incoming.len() as int) == rest.skip(lead_space(rest) as int));
    assert(match_template(incoming, line) == Some(trim(rest)));
    assert(kind_of(equals_word()) == MatchKind::Equals);
    assert(incoming.len() > 0);
    lemma_offered_first(seq![incoming], text_lines(incoming));
    assert(incoming_messages(incoming)[0] == incoming);
}

/// Comparing two texts (a rule's topic with an event's) does not depend on
/// which side each stands.
pub proof fn law_same_text_symmetric(left: Seq<char>, right: Seq<char>)
    requires
        same_text(left, right),
    ensures
        same_text(right, left),
{
    lemma_eq_ic_symm(trim(left), trim(right));
}

/// Texts that are the same as a third are the same as each other.
pub proof fn law_same_text_transitive(a: Seq<char>, b: Seq<char>, c: Seq<char>)
    requires
        same_text(a, b),
        same_text(b, c),
    ensures
        same_text(a, c),
{
    lemma_eq_ic_trans(trim(a), trim(b), trim(c));
}

/// A rule never matches an event of another topic.
pub proof fn law_other_topic_never_matches(
    rule_topic: Seq<char>,
    match_type: Seq<char>,
    match_value: Seq<char>,
    event_topic: Seq<char>,
    message: Seq<char>,
)
    requires
        !same_text(rule_topic, event_topic),
    ensures
        spec_match_rule(rule_topic, match_type, match_value, event_topic, message) is None,
{
}

/// A blank message matches no rule.
pub proof fn law_blank_message_never_matches(
    rule_topic: Seq<char>,
    match_type: Seq<char>,
    match_value: Seq<char>,
    event_topic: Seq<char>,
    message: Seq<char>,
)
    requires
        trim(message).len() == 0,
    ensures
        spec_match_rule(rule_topic, match_type, match_value, event_topic, message) is None,
{
}

/// Trying an `equals` rule with its own pattern text matches it, when its
/// first pattern line has no `$value`: the test message is that line.
pub proof fn law_test_with_own_pattern_matches(
    topic: Seq<char>,
    match_value: Seq<char>,
    input: Seq<char>,
)
    requires
        trim(input) == trim(match_value),
        text_lines(match_value).len() > 0,
        !contains(text_lines(match_value)[0], value_token()),
    ensures
        spec_build_test(match_value, input) == text_lines(match_value)[0],
        spec_match_rule(
            topic,
            equals_word(),
            match_value,
            topic,
            spec_build_test(match_value, input),
        ) is Some,
{
    let line = text_lines(match_value)[0];
    assert("$value"@ == value_token()) by {
        reveal_strlit("$value");
    }
    lemma_find_from(line, value_token(), 0);
    lemma_replace_absent(line, value_token(), "50"@);
    assert(spec_build_test(match_value, input) == line);
    lemma_kept_items(crate::text::pieces(match_value));
    lemma_eq_ic_refl(trim(topic));
    lemma_eq_ic_refl(line);
    assert(same_text(line, line));
    law_exact_pattern_matches(topic, match_value, topic, line);
}

// ---------------------------------------------------------------------
// Tokens
// ---------------------------------------------------------------------
/// A text without `$value`, `$message` and `$matchedLine` comes back from
/// the token substitution unchanged.
pub proof fn law_text_without_tokens_is_kept(
    value: Seq<char>,
    captured: Seq<char>,
    message: Seq<char>,
    matched_line: Seq<char>,
)
    requires
        !contains(value, value_token()),
        !contains(value, message_token()),
        !contains(value, matched_line_token()),
    ensures
        spec_replace_tokens(value, captured, message, matched_line) == value,
{
    lemma_find_from(value, value_token(), 0);
    lemma_find_from(value, message_token(), 0);
    lemma_find_from(value, matched_line_token(), 0);
    lemma_replace_absent(value, value_token(), captured);
    lemma_replace_absent(value, message_token(), message);
    lemma_replace_absent(value, matched_line_token(), matched_line);
}

// ---------------------------------------------------------------------
// Arguments
// ---------------------------------------------------------------------
/// With no quote character in the text, the parser never has a quote open.
proof fn lemma_no_quote_stays_closed(st: ArgState, s: Seq<char>, i: int)
    requires
        st.2 is None,
        forall|k: int| 0 <= k < s.len() ==> !is_quote(#[trigger] s[k]),
    ensures
        arg_run(st, s, i).2 is None,
    decreases s.len() - i,
{
    if 0 <= i < s.len() {
        let (next, j) = arg_step(st, s, i);
        assert(!is_quote(s[i]));
        assert(next.2 is None);
        if j > i {
            lemma_no_quote_stays_closed(next, s, j);
        }
    }
}

/// What the parser has read so far, as arguments: the finished ones and
/// the one begun.
spec fn read_so_far(st: ArgState) -> Seq<Seq<char>> {
    if st.3 {
        st.0.push(st.1)
    } else {
        st.0
    }
}

/// With no quote character in the text, the parser reads at each position
/// the white space words of the text before it.
proof fn lemma_unquoted_run(st: ArgState, s: Seq<char>, i: int)
    requires
        0 <= i <= s.len(),
        forall|k: int| 0 <= k < s.len() ==> !is_quote(#[trigger] s[k]),
        st.2 is None,
        read_so_far(st) == white_space_words(s.take(i)),
        st.3 == (i > 0 && !is_space(s[i - 1])),
        !st.3 ==> st.1.len() == 0,
    ensures
        arg_run(st, s, i).2 is None,
        read_so_far(arg_run(st, s, i)) == white_space_words(s),
    decreases s.len() - i,
{
    if i < s.len() {
        let (next, j) = arg_step(st, s, i);
        let c = s[i];
        assert(!is_quote(c));
        assert(j == i + 1);
        let t = s.take(i + 1);
        assert(t.drop_last() =~= s.take(i));
        assert(t.last() == c);
        if is_space(c) {
            assert(white_space_words(t) == white_space_words(s.take(i)));
        } else {
            assert(next == (st.0, st.1.push(c), st.2, true));
            if st.3 {
                assert(t[t.len() - 2] == s[i - 1]);
                assert(read_so_far(next) =~= white_space_words(t));
            } else {
                assert(st.1.push(c) =~= seq![c]);
                assert(read_so_far(next) =~= white_space_words(t));
            }
        }
        lemma_unquoted_run(next, s, j);
    } else {
        assert(s.take(i) =~= s);
    }
}

/// A command line without quote characters parses into its white space
/// words, as splitting it at white space gives them; backslashes outside
/// quotes are kept as they are.
pub proof fn law_unquoted_arguments_parse(s: Seq<char>)
    requires
        forall|k: int| 0 <= k < s.len() ==> !is_quote(#[trigger] s[k]),
    ensures
        spec_parse_arguments(s) == Ok::<Seq<Seq<char>>, char>(white_space_words(s)),
{
    assert(s.take(0) =~= Seq::<char>::empty());
    lemma_unquoted_run(arg_start(), s, 0);
}

/// Inside quotes `q`, characters other than `q` and `\` are read into the
/// argument as they are, white space and the other quote included.
proof fn lemma_in_quotes(
    q: char,
    s: Seq<char>,
    done: Seq<Seq<char>>,
    a: Seq<char>,
    p: int,
    k: int,
)
    requires
        is_quote(q),
        0 <= p,
        p + a.len() <= s.len(),
        0 <= k <= a.len(),
        s.subrange(p, p + a.len()) == a,
        forall|m: int| 0 <= m < a.len() ==> #[trigger] a[m] != q && a[m] != '\\',
    ensures
        arg_run((done, a.take(k), Some(q), true), s, p + k) == arg_run(
            (done, a, Some(q), true),
            s,
            p + a.len(),
        ),
    decreases a.len() - k,
{
    if k < a.len() {
        let st = (done, a.take(k), Some(q), true);
        assert(s[p + k] == s.subrange(p, p + a.len())[k]);
        let c = s[p + k];
        assert(c == a[k]);
        let (next, j) = arg_step(st, s, p + k);
        assert(j == p + k + 1);
        assert(next == (done, a.take(k).push(c), Some(q), true));
        assert(a.take(k).push(c) =~= a.take(k + 1));
        lemma_in_quotes(q, s, done, a, p, k + 1);
    } else {
        assert(a.take(k) =~= a);
    }
}

/// Reading a line of arguments quoted with `q` from position `p`, with no
/// argument begun, adds them all, the last one still begun.
proof fn lemma_quoted_line_run(
    q: char,
    s: Seq<char>, done: Seq<Seq<char>>, args: Seq<Seq<char>>, p: int)
    requires
        is_quote(q),
        args.len() >= 1,
        0 <= p <= s.len(),
        s.subrange(p, s.len() as int) == line_quoted_in(q, args),
        forall|i: int, m: int|
            0 <= i < args.len() && 0 <= m < args[i].len() ==> #[trigger] args[i][m] != q
                && args[i][m] != '\\',
    ensures
        arg_run((done, Seq::empty(), None, false), s, p) == (
            done + args.drop_last(),
            args.last(),
            None::<char>,
            true,
        ),
    decreases args.len(),
{
    let a = args[0];
    let line = line_quoted_in(q, args);
    let n: int = a.len() as int;
    if args.len() == 1 {
        assert(line == quoted_in(q, a));
    } else {
        assert(line == quoted_in(q, a) + seq![' '] + line_quoted_in(q, args.drop_first()));
    }
    assert(line.len() >= n + 2);
    assert(line.subrange(0, n + 2) =~= quoted_in(q, a));
    assert forall|x: int| 0 <= x < line.len() implies s[p + x] == #[trigger] line[x] by {
        assert(s.subrange(p, s.len() as int)[x] == s[p + x]);
    }
    assert(s[p] == line[0]);
    assert(s[p] == q);
    let st0 = (done, Seq::<char>::empty(), None::<char>, false);
    let (st1, j1) = arg_step(st0, s, p);
    assert(j1 == p + 1);
    assert(st1 == (done, Seq::<char>::empty(), Some(q), true));
    assert(arg_run(st0, s, p) == arg_run(st1, s, p + 1));
    assert forall|m: int| 0 <= m < a.len() implies #[trigger] a[m] != q && a[m] != '\\' by {
        assert(args[0][m] != q && args[0][m] != '\\');
    }
    assert(s.subrange(p + 1, p + 1 + n) =~= a) by {
        assert forall|m: int| 0 <= m < n implies s.subrange(p + 1, p + 1 + n)[m] == a[m] by {
            assert(s[p + 1 + m] == line[1 + m]);
            assert(line[1 + m] == quoted_in(q, a)[1 + m]);
        }
    }
    assert(a.take(0) =~= Seq::<char>::empty());
    lemma_in_quotes(q, s, done, a, p + 1, 0);
    assert(s[p + 1 + n] == line[n + 1]);
    assert(line[n + 1] == quoted_in(q, a)[n + 1]);
    let st2 = (done, a, Some(q), true);
    let (st3, j3) = arg_step(st2, s, p + 1 + n);
    assert(j3 == p + 2 + n);
    assert(st3 == (done, a, None::<char>, true));
    assert(arg_run(st1, s, p + 1) == arg_run(st2, s, p + 1 + n));
    assert(arg_run(st2, s, p + 1 + n) == arg_run(st3, s, p + 2 + n));
    if args.len() == 1 {
        assert(line == quoted_in(q, a));
        assert(p + 2 + n == s.len());
        assert(done + args.drop_last() =~= done);
    } else {
        let rest = args.drop_first();
        assert(line =~= quoted_in(q, a) + seq![' '] + line_quoted_in(q, rest));
        assert(s[p + 2 + n] == line[n + 2]);
        assert(s[p + 2 + n] == ' ');
        assert(is_space(' '));
        let (st4, j4) = arg_step(st3, s, p + 2 + n);
        assert(j4 == p + 3 + n);
        assert(st4 == (done.push(a), Seq::<char>::empty(), None::<char>, false));
        assert(arg_run(st3, s, p + 2 + n) == arg_run(st4, s, p + 3 + n));
        assert(s.subrange(p + 3 + n, s.len() as int) =~= line_quoted_in(q, rest)) by {
            assert(s.subrange(p + 3 + n, s.len() as int) =~= line.subrange(n + 3, line.len() as int));
        }
        assert forall|i: int, m: int|
            0 <= i < rest.len() && 0 <= m < rest[i].len() implies #[trigger] rest[i][m] != q
                && rest[i][m] != '\\' by {
            assert(rest[i] == args[i + 1]);
            assert(args[i + 1][m] != q && args[i + 1][m] != '\\');
        }
        lemma_quoted_line_run(q, s, done.push(a), rest, p + 3 + n);
        assert(done.push(a) + rest.drop_last() =~= done + args.drop_last());
        assert(rest.last() == args.last());
    }
}

/// Arguments with no `"` and no `\` in them, each put in double quotes
/// and joined by spaces, parse back to the same arguments, empty ones
/// included.
pub proof fn law_quoted_arguments_parse_back(args: Seq<Seq<char>>)
    requires
        forall|i: int, m: int|
            0 <= i < args.len() && 0 <= m < args[i].len() ==> #[trigger] args[i][m] != '"'
                && args[i][m] != '\\',
    ensures
        spec_parse_arguments(quoted_line(args)) == Ok::<Seq<Seq<char>>, char>(args),
{
    lemma_double_quoted_line(args);
    lemma_quoted_arguments_parse_back('"', args);
}

/// Arguments with no `'` and no `\` in them, each put in single quotes and
/// joined by spaces, parse back to the same arguments: white space and `"`
/// inside single quotes stay in the argument.
pub proof fn law_single_quoted_arguments_parse_back(args: Seq<Seq<char>>)
    requires
        forall|i: int, m: int|
            0 <= i < args.len() && 0 <= m < args[i].len() ==> #[trigger] args[i][m] != '\''
                && args[i][m] != '\\',
    ensures
        spec_parse_arguments(line_quoted_in('\'', args)) == Ok::<Seq<Seq<char>>, char>(args),
{
    lemma_quoted_arguments_parse_back('\'', args);
}

/// Double-quoted lines are lines quoted with `"`.
proof fn lemma_double_quoted_line(args: Seq<Seq<char>>)
    ensures
        quoted_line(args) == line_quoted_in('"', args),
    decreases args.len(),
{
    if args.len() > 1 {
        lemma_double_quoted_line(args.drop_first());
    }
}

/// Arguments with no `q` and no `\`, each in quotes `q` and joined by
/// spaces, parse back to the same arguments.
proof fn lemma_quoted_arguments_parse_back(q: char, args: Seq<Seq<char>>)
    requires
        is_quote(q),
        forall|i: int, m: int|
            0 <= i < args.len() && 0 <= m < args[i].len() ==> #[trigger] args[i][m] != q
                && args[i][m] != '\\',
    ensures
        spec_parse_arguments(line_quoted_in(q, args)) == Ok::<Seq<Seq<char>>, char>(args),
{
    let s = line_quoted_in(q, args);
    assert(arg_start() == (Seq::<Seq<char>>::empty(), Seq::<char>::empty(), None::<char>, false));
    if args.len() == 0 {
        assert(s =~= Seq::<char>::empty());
        assert(args =~= Seq::<Seq<char>>::empty());
    } else {
        assert(s.subrange(0, s.len() as int) =~= s);
        lemma_quoted_line_run(q, s, Seq::empty(), args, 0);
        assert(Seq::<Seq<char>>::empty() + args.drop_last() =~= args.drop_last());
        assert(args.drop_last().push(args.last()) =~= args);
    }
}

// ---------------------------------------------------------------------
// Messages
// ---------------------------------------------------------------------
/// Collapsing blank lines leaves none.
proof fn lemma_collapse_leaves_no_blank_line(s: Seq<char>)
    ensures
        !contains(collapse_blank_lines(s), seq!['\n', '\n']),
    decreases s.len(),
{
    if contains(s, seq!['\n', '\n']) {
        lemma_find_from(s, seq!['\n', '\n'], 0);
        lemma_replace_shorter(s, seq!['\n', '\n'], seq!['\n']);
        lemma_collapse_leaves_no_blank_line(replace_all(s, seq!['\n', '\n'], seq!['\n']));
    }
}

/// A pattern absent from a text is absent from each part of it.
proof fn lemma_absent_from_part(s: Seq<char>, pat: Seq<char>, a: int, b: int)
    requires
        0 <= a <= b <= s.len(),
        !contains(s, pat),
    ensures
        !contains(s.subrange(a, b), pat),
{
    let part = s.subrange(a, b);
    lemma_find_from(s, pat, 0);
    lemma_find_from(part, pat, 0);
    if contains(part, pat) {
        let k = find_from_witness(part, pat);
        assert(part.subrange(k, k + pat.len()) == s.subrange(a + k, a + k + pat.len()));
        assert(occurs_at(s, pat, a + k));
    }
}

/// Where a pattern first occurs, given that it does.
spec fn find_from_witness(s: Seq<char>, pat: Seq<char>) -> int {
    crate::text::find_from(s, pat, 0).unwrap()
}

/// A cleaned message is trimmed and holds no blank line.
pub proof fn law_clean_message_is_tidy(m: Seq<char>)
    ensures
        trim(spec_clean_message(m)) == spec_clean_message(m),
        !contains(spec_clean_message(m), seq!['\n', '\n']),
{
    let a = replace_all(m, seq!['\u{202f}'], seq![' ']);
    let b = replace_all(a, seq!['\u{00e2}', '\u{0080}', '\u{00af}'], seq![' ']);
    let c = replace_all(b, seq!['\u{00e2}', '\u{20ac}', '\u{00af}'], seq![' ']);
    let d = collapse_blank_lines(c);
    lemma_trim_idempotent(d);
    lemma_collapse_leaves_no_blank_line(c);
    lemma_trim(d);
    lemma_absent_from_part(
        d,
        seq!['\n', '\n'],
        crate::text::lead_space(d) as int,
        d.len() - crate::text::trail_space(d.skip(crate::text::lead_space(d) as int)),
    );
}

/// Where a replacement by the single character `r` leaves no `r` among
/// the first `n` characters, those are the text's own first `n`.
proof fn lemma_replace_keeps_prefix(t: Seq<char>, pat: Seq<char>, r: char, n: int)
    requires
        pat.len() > 0,
        0 <= n <= replace_all(t, pat, seq![r]).len(),
        forall|j: int| 0 <= j < n ==> #[trigger] replace_all(t, pat, seq![r])[j] != r,
    ensures
        n <= t.len(),
        replace_all(t, pat, seq![r]).take(n) == t.take(n),
    decreases t.len(),
{
    let out = replace_all(t, pat, seq![r]);
    if n == 0 {
        assert(out.take(0) =~= t.take(0));
    } else if t.len() > 0 {
        if occurs_at(t, pat, 0) {
            assert(out == seq![r] + replace_all(t.skip(pat.len() as int), pat, seq![r]));
            assert(out[0] == r);
        } else {
            let rest = replace_all(t.skip(1), pat, seq![r]);
            assert(out == seq![t[0]] + rest);
            assert forall|j: int| 0 <= j < n - 1 implies #[trigger] rest[j] != r by {
                assert(out[j + 1] == rest[j]);
            }
            lemma_replace_keeps_prefix(t.skip(1), pat, r, n - 1);
            assert(out.take(n) =~= seq![t[0]] + rest.take(n - 1));
            assert(t.take(n) =~= seq![t[0]] + t.skip(1).take(n - 1));
        }
    }
}

/// Replacing a pattern by a single character `r` leaves no occurrence of
/// the pattern, and makes no occurrence of a text absent before, where
/// that text holds no `r`.
proof fn lemma_replace_leaves_out(s: Seq<char>, pat: Seq<char>, r: char, q: Seq<char>)
    requires
        pat.len() > 0,
        q.len() > 0,
        forall|j: int| 0 <= j < q.len() ==> #[trigger] q[j] != r,
        q == pat || forall|k: int| !occurs_at(s, q, k),
    ensures
        forall|k: int| !occurs_at(replace_all(s, pat, seq![r]), q, k),
    decreases s.len(),
{
    let out = replace_all(s, pat, seq![r]);
    if s.len() > 0 {
        let found = occurs_at(s, pat, 0);
        let m: int = if found {
            pat.len() as int
        } else {
            1
        };
        let t = s.skip(m);
        if q != pat {
            assert forall|k: int| !occurs_at(t, q, k) by {
                if occurs_at(t, q, k) {
                    assert(t.subrange(k, k + q.len()) == s.subrange(k + m, k + m + q.len()));
                    assert(occurs_at(s, q, k + m));
                }
            }
        }
        lemma_replace_leaves_out(t, pat, r, q);
        let rest = replace_all(t, pat, seq![r]);
        let first = if found {
            r
        } else {
            s[0]
        };
        assert(out == seq![first] + rest);
        assert forall|k: int| !occurs_at(out, q, k) by {
            if occurs_at(out, q, k) {
                if k == 0 {
                    assert(out.subrange(0, q.len() as int)[0] == q[0]);
                    let n = q.len() - 1;
                    assert forall|j: int| 0 <= j < n implies #[trigger] rest[j] != r by {
                        assert(rest[j] == out[j + 1]);
                        assert(out[j + 1] == out.subrange(0, q.len() as int)[j + 1]);
                    }
                    lemma_replace_keeps_prefix(t, pat, r, n);
                    assert(s.subrange(0, q.len() as int) =~= seq![s[0]] + t.take(n));
                    assert(out.subrange(0, q.len() as int) =~= seq![s[0]] + rest.take(n));
                    assert(occurs_at(s, q, 0));
                } else {
                    assert(out.subrange(k, k + q.len()) =~= rest.subrange(k - 1, k - 1 + q.len()));
                    assert(occurs_at(rest, q, k - 1));
                }
            }
        }
    }
}

/// Collapsing blank lines makes no occurrence of a text without line
/// breaks that was absent before.
proof fn lemma_collapse_leaves_out(s: Seq<char>, q: Seq<char>)
    requires
        q.len() > 0,
        forall|j: int| 0 <= j < q.len() ==> #[trigger] q[j] != '\n',
        forall|k: int| !occurs_at(s, q, k),
    ensures
        forall|k: int| !occurs_at(collapse_blank_lines(s), q, k),
    decreases s.len(),
{
    if contains(s, seq!['\n', '\n']) {
        lemma_find_from(s, seq!['\n', '\n'], 0);
        lemma_replace_shorter(s, seq!['\n', '\n'], seq!['\n']);
        lemma_replace_leaves_out(s, seq!['\n', '\n'], '\n', q);
        let t = replace_all(s, seq!['\n', '\n'], seq!['\n']);
        lemma_collapse_leaves_out(t, q);
        assert(collapse_blank_lines(s) == collapse_blank_lines(t));
    } else {
        assert(collapse_blank_lines(s) == s);
    }
}

/// A text absent from the steps of the cleaning before trimming is absent
/// from the cleaned message.
proof fn lemma_trim_leaves_out(d: Seq<char>, q: Seq<char>)
    requires
        forall|k: int| !occurs_at(d, q, k),
    ensures
        forall|k: int| !occurs_at(trim(d), q, k),
{
    lemma_trim(d);
    lemma_find_from(d, q, 0);
    let a = lead_space(d) as int;
    let b = d.len() - crate::text::trail_space(d.skip(a));
    lemma_absent_from_part(d, q, a, b);
    lemma_find_from(d.subrange(a, b), q, 0);
}

/// The cleaned message holds no narrow no-break space, nor either of its
/// mis-decoded forms.
proof fn lemma_clean_leaves_out(m: Seq<char>)
    ensures
        forall|k: int| !occurs_at(spec_clean_message(m), seq!['\u{202f}'], k),
        forall|k: int|
            !occurs_at(spec_clean_message(m), seq!['\u{00e2}', '\u{0080}', '\u{00af}'], k),
        forall|k: int|
            !occurs_at(spec_clean_message(m), seq!['\u{00e2}', '\u{20ac}', '\u{00af}'], k),
{
    let n0 = seq!['\u{202f}'];
    let g1 = seq!['\u{00e2}', '\u{0080}', '\u{00af}'];
    let g2 = seq!['\u{00e2}', '\u{20ac}', '\u{00af}'];
    let a = replace_all(m, n0, seq![' ']);
    let b = replace_all(a, g1, seq![' ']);
    let c = replace_all(b, g2, seq![' ']);
    let d = collapse_blank_lines(c);
    lemma_replace_leaves_out(m, n0, ' ', n0);
    lemma_replace_leaves_out(a, g1, ' ', n0);
    lemma_replace_leaves_out(a, g1, ' ', g1);
    lemma_replace_leaves_out(b, g2, ' ', n0);
    lemma_replace_leaves_out(b, g2, ' ', g1);
    lemma_replace_leaves_out(b, g2, ' ', g2);
    lemma_collapse_leaves_out(c, n0);
    lemma_collapse_leaves_out(c, g1);
    lemma_collapse_leaves_out(c, g2);
    lemma_trim_leaves_out(d, n0);
    lemma_trim_leaves_out(d, g1);
    lemma_trim_leaves_out(d, g2);
}

/// A cleaned message holds no narrow no-break space, and cleaning it again
/// changes nothing.
pub proof fn law_clean_message_is_settled(m: Seq<char>)
    ensures
        !spec_clean_message(m).contains('\u{202f}'),
        spec_clean_message(spec_clean_message(m)) == spec_clean_message(m),
{
    let r = spec_clean_message(m);
    let n0 = seq!['\u{202f}'];
    let g1 = seq!['\u{00e2}', '\u{0080}', '\u{00af}'];
    let g2 = seq!['\u{00e2}', '\u{20ac}', '\u{00af}'];
    lemma_clean_leaves_out(m);
    assert forall|k: int| 0 <= k < r.len() implies r[k] != '\u{202f}' by {
        if r[k] == '\u{202f}' {
            assert(r.subrange(k, k + 1) =~= n0);
            assert(occurs_at(r, n0, k));
        }
    }
    law_clean_message_is_tidy(m);
    lemma_replace_absent(r, n0, seq![' ']);
    lemma_replace_absent(r, g1, seq![' ']);
    lemma_replace_absent(r, g2, seq![' ']);
    assert(collapse_blank_lines(r) == r);
}

// ---------------------------------------------------------------------
// Reconnection
// ---------------------------------------------------------------------
/// The delay between reconnection attempts never shrinks as failures
/// accumulate, and stays at two minutes from the sixth attempt on.
pub proof fn law_backoff_grows_to_two_minutes(i: int, j: int)
    requires
        0 <= i <= j,
    ensures
        backoff(i) <= backoff(j),
        j >= 5 ==> backoff(j) == 120,
{
}

// ---------------------------------------------------------------------
// Background listener
// ---------------------------------------------------------------------
/// Subscribing to a topic that is already subscribed changes nothing.
pub proof fn law_resubscribe_keeps_topics(topics: Set<Seq<char>>, topic: Seq<char>)
    requires
        topics.contains(topic),
    ensures
        topics.insert(topic) == topics,
{
    assert(topics.insert(topic) =~= topics);
}

/// Unsubscribing from a topic just subscribed to, that was not subscribed
/// before, gives back the topics as they were.
pub proof fn law_unsubscribe_undoes_subscribe(topics: Set<Seq<char>>, topic: Seq<char>)
    requires
        !topics.contains(topic),
    ensures
        topics.insert(topic).remove(topic) == topics,
{
    assert(topics.insert(topic).remove(topic) =~= topics);
}

/// An unload is scheduled at most once: right after it is scheduled it is
/// no longer due.
pub proof fn law_unload_scheduled_once(v: ListenerView)
    ensures
        !unload_due(after_schedule(v)),
{
}

// ---------------------------------------------------------------------
// Seen notifications
// ---------------------------------------------------------------------
/// A key just marked is remembered, so the same notification is dropped
/// the next time.
pub proof fn law_marked_is_seen(seen: Seq<Seq<char>>, key: Seq<char>)
    requires
        seen.len() <= SEEN_NOTIFICATION_LIMIT,
    ensures
        spec_after_mark(seen, key).contains(key),
{
    if !seen.contains(key) {
        let pushed = seen.push(key);
        assert(pushed[pushed.len() - 1] == key);
        if pushed.len() > SEEN_NOTIFICATION_LIMIT {
            assert(pushed.drop_first()[pushed.len() - 2] == key);
        }
    }
}

/// No more keys are remembered than the limit.
pub proof fn law_seen_stays_bounded(seen: Seq<Seq<char>>, key: Seq<char>)
    requires
        seen.len() <= SEEN_NOTIFICATION_LIMIT,
    ensures
        spec_after_mark(seen, key).len() <= SEEN_NOTIFICATION_LIMIT,
{
}

// ---------------------------------------------------------------------
// Schedule
// ---------------------------------------------------------------------
/// A time of day is a minute of the day.
pub proof fn law_minutes_within_day(value: Seq<char>)
    ensures
        spec_time_to_minutes(value) matches Some(m) ==> m < 1440,
{
}

/// With the schedule off, every notification is shown.
pub proof fn law_schedule_off_shows_all(schedule: Schedule, day: DayKey, current: nat)
    requires
        !schedule.schedule_enabled,
    ensures
        spec_should_show(schedule, day, current) == Ok::<bool, Seq<char>>(true),
{
}

/// A number below 100 written with two digits.
pub open spec fn two_digits(n: nat) -> Seq<char> {
    seq![digit_char(n / 10), digit_char(n % 10)]
}

/// The `HH:MM` text of a time of day.
pub open spec fn clock_text(hour: nat, minute: nat) -> Seq<char> {
    two_digits(hour) + seq![':'] + two_digits(minute)
}

proof fn lemma_digit_char(d: nat)
    requires
        d < 10,
    ensures
        is_digit(digit_char(d)),
        digit_char(d) as nat - '0' as nat == d,
        digit_char(d) != ':',
        digit_char(d) != '+',
{
}

proof fn lemma_two_digits_parse(n: nat)
    requires
        n < 100,
    ensures
        parse_u16(two_digits(n)) == Some(n),
{
    let t = two_digits(n);
    lemma_digit_char(n / 10);
    lemma_digit_char(n % 10);
    assert(t.drop_last() =~= seq![digit_char(n / 10)]);
    assert(seq![digit_char(n / 10)].drop_last() =~= Seq::<char>::empty());
    assert(digits_value(Seq::<char>::empty()) == 0);
    assert(digits_value(seq![digit_char(n / 10)]) == n / 10);
    assert(digits_value(t) == (n / 10) * 10 + n % 10);
    assert(forall|i: int| 0 <= i < t.len() ==> is_digit(#[trigger] t[i]));
}

proof fn lemma_split_clock(hour: nat, minute: nat)
    requires
        hour < 100,
        minute < 100,
    ensures
        split_char(clock_text(hour, minute), ':') == seq![two_digits(hour), two_digits(minute)],
{
    let h0 = digit_char(hour / 10);
    let h1 = digit_char(hour % 10);
    let m0 = digit_char(minute / 10);
    let m1 = digit_char(minute % 10);
    lemma_digit_char(hour / 10);
    lemma_digit_char(hour % 10);
    lemma_digit_char(minute / 10);
    lemma_digit_char(minute % 10);
    let s = clock_text(hour, minute);
    assert(s =~= seq![h0, h1, ':', m0, m1]);
    let s1 = seq![h0];
    let s2 = seq![h0, h1];
    let s3 = seq![h0, h1, ':'];
    let s4 = seq![h0, h1, ':', m0];
    assert(s1.drop_last() =~= Seq::<char>::empty());
    assert(s2.drop_last() =~= s1);
    assert(s3.drop_last() =~= s2);
    assert(s4.drop_last() =~= s3);
    assert(s.drop_last() =~= s4);
    assert(split_char(Seq::<char>::empty(), ':') == seq![Seq::<char>::empty()]);
    assert(seq![Seq::<char>::empty()].last().push(h0) =~= seq![h0]);
    assert(split_char(s1, ':') =~= seq![seq![h0]]);
    assert(seq![h0].push(h1) =~= seq![h0, h1]);
    assert(split_char(s2, ':') =~= seq![seq![h0, h1]]);
    assert(split_char(s3, ':') =~= seq![seq![h0, h1], Seq::<char>::empty()]);
    assert(Seq::<char>::empty().push(m0) =~= seq![m0]);
    assert(split_char(s4, ':') =~= seq![seq![h0, h1], seq![m0]]);
    assert(seq![m0].push(m1) =~= seq![m0, m1]);
    assert(split_char(s, ':') =~= seq![seq![h0, h1], seq![m0, m1]]);
}

/// An `HH:MM` time of day reads back as its minute of the day.
pub proof fn law_clock_text_round_trip(hour: nat, minute: nat)
    requires
        hour < 24,
        minute < 60,
    ensures
        spec_time_to_minutes(clock_text(hour, minute)) == Some(hour * 60 + minute),
{
    lemma_split_clock(hour, minute);
    lemma_two_digits_parse(hour);
    lemma_two_digits_parse(minute);
}

/// A day set to run from `09:00` to `17:00`.
pub open spec fn nine_to_five(entry: Option<ScheduleConfig>) -> bool {
    entry matches Some(c) && c.start_time@ == "09:00"@ && c.end_time@ == "17:00"@
}

proof fn lemma_nine_to_five_from(days: Seq<(DayKey, ScheduleConfig)>, i: int)
    requires
        0 <= i <= 7,
        spec_time_to_minutes("09:00"@) == Some(540nat),
        spec_time_to_minutes("17:00"@) == Some(1020nat),
        forall|k: int|
            0 <= k < 7 ==> nine_to_five(#[trigger] day_entry(days, day_at(k), 0)),
    ensures
        check_days(days, i) is Ok,
    decreases 7 - i,
{
    if i < 7 {
        lemma_nine_to_five_from(days, i + 1);
        assert(day_entry(days, day_at(i), 0) is Some);
    }
}

/// A schedule whose days all run from `09:00` to `17:00`, the default
/// schedule among them, passes the schedule check.
pub proof fn law_nine_to_five_is_valid(days: Seq<(DayKey, ScheduleConfig)>)
    requires
        forall|k: int|
            0 <= k < 7 ==> nine_to_five(#[trigger] day_entry(days, day_at(k), 0)),
    ensures
        check_days(days, 0) is Ok,
{
    assert("09:00"@ == clock_text(9, 0)) by {
        reveal_strlit("09:00");
        assert(clock_text(9, 0) =~= seq!['0', '9', ':', '0', '0']);
    }
    assert("17:00"@ == clock_text(17, 0)) by {
        reveal_strlit("17:00");
        assert(clock_text(17, 0) =~= seq!['1', '7', ':', '0', '0']);
    }
    law_clock_text_round_trip(9, 0);
    law_clock_text_round_trip(17, 0);
    lemma_nine_to_five_from(days, 0);
}

proof fn lemma_stored_day_found(rows: Seq<(DayKey, ScheduleConfig)>, k: int, m: int)
    requires
        days_distinct(rows),
        0 <= k < m <= rows.len(),
    ensures
        stored_day(rows, rows[k].0, m) == Some(rows[k].1),
    decreases m - k,
{
    if m - 1 > k {
        assert(rows[k].0 != rows[m - 1].0);
        lemma_stored_day_found(rows, k, m - 1);
    }
}

proof fn lemma_stored_day_absent(rows: Seq<(DayKey, ScheduleConfig)>, day: DayKey, m: int)
    requires
        0 <= m <= rows.len(),
        forall|j: int| 0 <= j < rows.len() ==> (#[trigger] rows[j]).0 != day,
    ensures
        stored_day(rows, day, m) is None,
    decreases m,
{
    if m > 0 {
        assert(rows[m - 1].0 != day);
        lemma_stored_day_absent(rows, day, m - 1);
    }
}

proof fn lemma_day_entry_absent(days: Seq<(DayKey, ScheduleConfig)>, day: DayKey, j: int)
    requires
        0 <= j,
        forall|k: int| 0 <= k < days.len() ==> (#[trigger] days[k]).0 != day,
    ensures
        day_entry(days, day, j) is None,
    decreases days.len() - j,
{
    if j < days.len() {
        assert(days[j].0 != day);
        lemma_day_entry_absent(days, day, j + 1);
    }
}

proof fn lemma_checked_days_present(days: Seq<(DayKey, ScheduleConfig)>, i: int, k: int)
    requires
        0 <= i <= k < 7,
        check_days(days, i) is Ok,
    ensures
        day_entry(days, day_at(k), 0) is Some,
    decreases k - i,
{
    if i < k {
        assert(day_entry(days, day_at(i), 0) is Some);
        lemma_checked_days_present(days, i + 1, k);
    }
}

/// Rows that hold the saved entries, in any order, give each day its
/// saved entry.
proof fn lemma_rows_give_days(
    days: Seq<(DayKey, ScheduleConfig)>,
    rows: Seq<(DayKey, ScheduleConfig)>,
    day: DayKey,
)
    requires
        days_distinct(days),
        days_distinct(rows),
        forall|k: int| 0 <= k < rows.len() ==> days.contains(#[trigger] rows[k]),
        forall|k: int| 0 <= k < days.len() ==> rows.contains(#[trigger] days[k]),
    ensures
        stored_day(rows, day, rows.len() as int) == day_entry(days, day, 0),
{
    if exists|k: int| 0 <= k < rows.len() && (#[trigger] rows[k]).0 == day {
        let k = choose|k: int| 0 <= k < rows.len() && (#[trigger] rows[k]).0 == day;
        lemma_stored_day_found(rows, k, rows.len() as int);
        assert(days.contains(rows[k]));
        let m = choose|m: int| 0 <= m < days.len() && days[m] == rows[k];
        law_distinct_days_are_found(days, m);
    } else {
        lemma_stored_day_absent(rows, day, rows.len() as int);
        assert forall|m: int| 0 <= m < days.len() implies (#[trigger] days[m]).0 != day by {
            assert(rows.contains(days[m]));
        }
        lemma_day_entry_absent(days, day, 0);
    }
}

/// A schedule is saved as one row per day and read back from the rows:
/// where the rows read are those written (in any order, no day twice),
/// each day reads back as the configuration saved for it; and a schedule
/// that passes the check has every day, so none falls back to its default.
pub proof fn law_saved_schedule_reads_back(
    days: Seq<(DayKey, ScheduleConfig)>,
    rows: Seq<(DayKey, ScheduleConfig)>,
    day: DayKey,
)
    requires
        days_distinct(days),
        days_distinct(rows),
        forall|k: int| 0 <= k < rows.len() ==> days.contains(#[trigger] rows[k]),
        forall|k: int| 0 <= k < days.len() ==> rows.contains(#[trigger] days[k]),
    ensures
        stored_day(rows, day, rows.len() as int) == day_entry(days, day, 0),
        check_days(days, 0) is Ok ==> forall|i: int|
            0 <= i < 7 ==> #[trigger] stored_day(rows, day_at(i), rows.len() as int) is Some,
{
    lemma_rows_give_days(days, rows, day);
    if check_days(days, 0) is Ok {
        assert forall|i: int| 0 <= i < 7 implies #[trigger] stored_day(
            rows,
            day_at(i),
            rows.len() as int,
        ) is Some by {
            lemma_checked_days_present(days, 0, i);
            lemma_rows_give_days(days, rows, day_at(i));
        }
    }
}

// ---------------------------------------------------------------------
// Modules
// ---------------------------------------------------------------------
/// A module can be configured exactly when some group runs it.
pub proof fn law_configurable_modules_run(module_id: Seq<char>)
    ensures
        spec_fields(module_id) is Some <==> group_of(module_id) is Some,
{
}

// ---------------------------------------------------------------------
// Logs
// ---------------------------------------------------------------------
/// The page count of a non-empty log holds every row, and its last page
/// is not empty.
pub proof fn law_pages_hold_every_row(total: nat, page_size: nat)
    requires
        page_size > 0,
        total > 0,
    ensures
        ((total + page_size - 1) / (page_size as int) - 1) * page_size < total,
        total <= ((total + page_size - 1) / (page_size as int)) * page_size,
{
    let q = total / page_size;
    let m = total % page_size;
    assert(q * page_size + m == total && 0 <= m < page_size) by (nonlinear_arith)
        requires
            page_size > 0,
            q == total / page_size,
            m == total % page_size,
    ;
    let r = (total + page_size - 1) / (page_size as int);
    assert(r == q + (if m == 0 {
        0int
    } else {
        1int
    })) by (nonlinear_arith)
        requires
            page_size > 0,
            q * page_size + m == total,
            0 <= m < page_size,
            r == (total + page_size - 1) / (page_size as int),
    ;
    assert((r - 1) * page_size < total <= r * page_size) by (nonlinear_arith)
        requires
            page_size > 0,
            total > 0,
            q * page_size + m == total,
            0 <= m < page_size,
            r == q + (if m == 0 {
                0int
            } else {
                1int
            }),
    ;
}

// ---------------------------------------------------------------------
// Screenshots
// ---------------------------------------------------------------------
/// A number's decimal digits read back as the number.
proof fn lemma_decimal_value(n: nat)
    ensures
        digits_value(decimal(n)) == n,
        decimal(n).len() > 0,
    decreases n,
{
    lemma_digit_char(n % 10);
    if n < 10 {
        assert(seq![digit_char(n)].drop_last() =~= Seq::<char>::empty());
        assert(digits_value(Seq::<char>::empty()) == 0);
    } else {
        lemma_decimal_value(n / 10);
        assert(decimal(n).drop_last() == decimal(n / 10));
        assert(n == (n / 10) * 10 + n % 10);
    }
}

/// Numbered screenshot names differ for different numbers, so the search
/// for a free name never meets the same name twice.
pub proof fn law_numbered_names_differ(stem: Seq<char>, i: nat, j: nat)
    requires
        i != j,
    ensures
        stem + "-"@ + decimal(i) + ".png"@ != stem + "-"@ + decimal(j) + ".png"@,
{
    lemma_decimal_value(i);
    lemma_decimal_value(j);
    let a = stem + "-"@ + decimal(i) + ".png"@;
    let b = stem + "-"@ + decimal(j) + ".png"@;
    reveal_strlit("-");
    reveal_strlit(".png");
    if a == b {
        assert(a.len() == b.len());
        let start = stem.len() + "-"@.len();
        assert(decimal(i).len() == decimal(j).len());
        assert(a.subrange(start as int, (start + decimal(i).len()) as int) =~= decimal(i));
        assert(b.subrange(start as int, (start + decimal(j).len()) as int) =~= decimal(j));
    }
}

/// Each day has its own stored name, so a day read back from its name is
/// the day that was written.
pub proof fn law_day_names_identify_days(a: DayKey, b: DayKey)
    requires
        day_name(a) == day_name(b),
    ensures
        a == b,
{
    reveal_strlit("monday");
    reveal_strlit("tuesday");
    reveal_strlit("wednesday");
    reveal_strlit("thursday");
    reveal_strlit("friday");
    reveal_strlit("saturday");
    reveal_strlit("sunday");
    assert("monday"@.len() == 6 && "monday"@[0] == 'm');
    assert("tuesday"@.len() == 7 && "tuesday"@[0] == 't');
    assert("wednesday"@.len() == 9 && "wednesday"@[0] == 'w');
    assert("thursday"@.len() == 8 && "thursday"@[0] == 't');
    assert("friday"@.len() == 6 && "friday"@[0] == 'f');
    assert("saturday"@.len() == 8 && "saturday"@[0] == 's');
    assert("sunday"@.len() == 6 && "sunday"@[0] == 's');
    assert(day_name(a).len() == day_name(b).len() && day_name(a)[0] == day_name(b)[0]);
}

// ---------------------------------------------------------------------
// Keyed entries
// ---------------------------------------------------------------------
proof fn lemma_day_entry_from(days: Seq<(DayKey, ScheduleConfig)>, k: int, j: int)
    requires
        days_distinct(days),
        0 <= j <= k < days.len(),
    ensures
        day_entry(days, days[k].0, j) == Some(days[k].1),
    decreases k - j,
{
    if j < k {
        assert(days[j].0 != days[k].0);
        lemma_day_entry_from(days, k, j + 1);
    }
}

/// Where no day occurs twice, looking up a day gives the entry stored for
/// it, wherever in the list that entry stands.
pub proof fn law_distinct_days_are_found(days: Seq<(DayKey, ScheduleConfig)>, k: int)
    requires
        days_distinct(days),
        0 <= k < days.len(),
    ensures
        day_entry(days, days[k].0, 0) == Some(days[k].1),
{
    lemma_day_entry_from(days, k, 0);
}

proof fn lemma_lookup_from(config: Seq<(String, ConfigValue)>, k: int, j: int)
    requires
        keys_distinct(config),
        0 <= j <= k < config.len(),
    ensures
        lookup(config, config[k].0@, j) == Some(config[k].1),
    decreases k - j,
{
    if j < k {
        assert(config[j].0@ != config[k].0@);
        lemma_lookup_from(config, k, j + 1);
    }
}

/// Where no key occurs twice, looking up a key of a module's configuration
/// gives the value stored under it, wherever in the list that entry
/// stands.
pub proof fn law_distinct_keys_are_found(config: Seq<(String, ConfigValue)>, k: int)
    requires
        keys_distinct(config),
        0 <= k < config.len(),
    ensures
        lookup(config, config[k].0@, 0) == Some(config[k].1),
{
    lemma_lookup_from(config, k, 0);
}

// ---------------------------------------------------------------------
// Stored rules
// ---------------------------------------------------------------------
/// Toggling a stored rule stores it with `active` flipped and the time of
/// the update; toggling it again gives back the rule first stored, but for
/// the time of the last update.
pub proof fn law_toggle_twice_restores(rule: AutomationRule, first: String, second: String)
    ensures
        updated_rule(toggle_input(rule), rule, first) == (AutomationRule {
            active: !rule.active,
            updated_at: first,
            ..rule
        }),
        updated_rule(
            toggle_input(updated_rule(toggle_input(rule), rule, first)),
            updated_rule(toggle_input(rule), rule, first),
            second,
        ) == (AutomationRule { updated_at: second, ..rule }),
{
}

// ---------------------------------------------------------------------
// Topic URLs
// ---------------------------------------------------------------------
/// Stripping a character from the front of a text that ends in another
/// character keeps that last character.
proof fn lemma_strip_start_keeps_last(s: Seq<char>, c: char)
    requires
        s.len() > 0,
        s.last() != c,
    ensures
        strip_start(s, c).len() > 0,
        strip_start(s, c).last() == s.last(),
    decreases s.len(),
{
    if s[0] == c {
        assert(s.len() > 1);
        assert(s.drop_first().last() == s.last());
        lemma_strip_start_keeps_last(s.drop_first(), c);
    }
}

/// A topic reads back from the WebSocket URL built for it: where the
/// parsed URL has the WebSocket scheme, host and port of the instance, and
/// the path written for the topic (the instance's base path, `/`, the topic
/// and `/ws`), the topic comes back with the URL's `auth` value.  Whether
/// the URL parser reads a built URL back so is the parser's own matter.
pub proof fn law_built_topic_reads_back(i: UrlView, w: UrlView, topic: Seq<char>)
    requires
        websocket_scheme(i.0) is Some,
        w.0 == websocket_scheme(i.0).unwrap(),
        w.1 == i.1,
        w.3 == i.3,
        w.4 == strip_end(i.4, '/') + "/"@ + topic + "/ws"@,
        topic.len() > 0,
        topic[0] != '/',
        topic.last() != '/',
    ensures
        spec_topic_from(i, w) == Ok::<(Seq<char>, Option<Seq<char>>), Seq<char>>(
            (topic, auth_from(w.5, 0)),
        ),
{
    reveal_strlit("/");
    reveal_strlit("/ws");
    let base = strip_end(i.4, '/');
    let p = w.4;
    let stem = base + "/"@ + topic;
    assert(p.len() == stem.len() + 3);
    assert(without_ws(p) =~= stem);
    assert(p.skip(p.len() - 3) =~= "/ws"@);
    assert(ends_with(p, "/ws"@));
    if base.len() > 0 {
        assert(p.take(base.len() + 1 as int) =~= base + "/"@);
    }
    assert(under_base(p, base));
    assert(stem.last() == topic.last());
    lemma_strip_start_keeps_last(stem, '/');
    let lead = strip_start(stem, '/');
    assert(strip_end(lead, '/') == lead);
    assert(names_topic(p));
    assert(stem.take(base.len() as int) =~= base);
    assert(starts_with(stem, base));
    let rest = stem.skip(base.len() as int);
    assert(rest =~= "/"@ + topic);
    assert(rest.drop_first() =~= topic);
    assert(strip_start(rest, '/') == strip_start(topic, '/'));
    assert(strip_start(topic, '/') == topic);
    assert(strip_end(topic, '/') == topic);
    assert(strip_both(rest, '/') == topic);
}

// ---------------------------------------------------------------------
// Notifications from the WebSocket
// ---------------------------------------------------------------------
/// A notification keeps the title it was sent with; its topic stands in
/// only for a missing title, and only when the topic is not empty.  Only
/// `message` events with a message carry one, and they keep their topic
/// and the cleaned message.
pub proof fn law_event_title_is_kept(e: WebSocketEvent)
    ensures
        spec_event_payload(e) is Some ==> e.event@ == "message"@ && e.message is Some,
        spec_event_payload(e) matches Some(p) ==> {
            &&& e.title matches Some(t) ==> p.3 == Some(t@)
            &&& e.title is None ==> match e.topic {
                Some(t) => p.3 == (if t@.len() > 0 {
                    Some(t@)
                } else {
                    None::<Seq<char>>
                }),
                None => p.3 is None,
            }
            &&& p.2 == match e.topic {
                Some(t) => t@,
                None => Seq::<char>::empty(),
            }
            &&& p.4 == spec_clean_message(e.message->Some_0@)
        },
{
}

/// The stream position moves to the id of a `message`, `message_delete`
/// or `message_clear` event that has one, and stays put for any other
/// event; a notification comes only from a `message` event whose message
/// does not start with `{`.
pub proof fn law_event_stream_position(e: WebSocketEvent, last_id: Option<Seq<char>>)
    ensures
        (e.event@ == "message"@ || e.event@ == "message_delete"@ || e.event@ == "message_clear"@)
            && e.id is Some ==> spec_next_last_id(e, last_id) == Some(e.id->Some_0@),
        !(e.event@ == "message"@ || e.event@ == "message_delete"@ || e.event@ == "message_clear"@)
            || e.id is None ==> spec_next_last_id(e, last_id) == last_id,
        spec_event_payload(e) is Some <==> e.event@ == "message"@ && e.message is Some && !(
        e.message->Some_0@.len() > 0 && e.message->Some_0@[0] == '{'),
{
}

// ---------------------------------------------------------------------
// Script extensions
// ---------------------------------------------------------------------
/// A script with the extension bat, cmd, ps1 or sh, in any ASCII case,
/// gets no extension failure: its plan is just the two checks that the
/// resolved file exists and is a file.  Any other extension fails with
/// "has an unsupported extension", and no extension with "must have a
/// valid extension".
pub proof fn law_script_extensions_accepted(
    field: Seq<char>,
    value: Seq<char>,
    working_directory: Option<Seq<char>>,
    absolute: bool,
    joined: Seq<char>,
    extension: Seq<char>,
)
    requires
        trim(value).len() > 0,
        absolute || spec_non_blank(working_directory) is Some,
    ensures
        eq_ic(extension, "bat"@) || eq_ic(extension, "cmd"@) || eq_ic(extension, "ps1"@)
            || eq_ic(extension, "sh"@) ==> spec_script_plan(
            field,
            value,
            working_directory,
            absolute,
            joined,
            Some(extension),
        ) == Ok::<Seq<CheckView>, Seq<char>>(
            file_checks(
                field,
                if absolute {
                    trim(value)
                } else {
                    joined
                },
            ),
        ),
        !(eq_ic(extension, "bat"@) || eq_ic(extension, "cmd"@) || eq_ic(extension, "ps1"@)
            || eq_ic(extension, "sh"@)) ==> spec_script_plan(
            field,
            value,
            working_directory,
            absolute,
            joined,
            Some(extension),
        ) == Ok::<Seq<CheckView>, Seq<char>>(
            file_checks(
                field,
                if absolute {
                    trim(value)
                } else {
                    joined
                },
            ).push(CheckView::Fail(field + " has an unsupported extension"@)),
        ),
        spec_script_plan(field, value, working_directory, absolute, joined, None) == Ok::<
            Seq<CheckView>,
            Seq<char>,
        >(
            file_checks(
                field,
                if absolute {
                    trim(value)
                } else {
                    joined
                },
            ).push(CheckView::Fail(field + " must have a valid extension"@)),
        ),
{
    let resolved = if absolute {
        trim(value)
    } else {
        joined
    };
    assert(file_checks(field, resolved) + Seq::<CheckView>::empty() =~= file_checks(
        field,
        resolved,
    ));
    assert(file_checks(field, resolved) + seq![CheckView::Fail(field + " has an unsupported extension"@)]
        =~= file_checks(field, resolved).push(
        CheckView::Fail(field + " has an unsupported extension"@),
    ));
    assert(file_checks(field, resolved) + seq![CheckView::Fail(field + " must have a valid extension"@)]
        =~= file_checks(field, resolved).push(
        CheckView::Fail(field + " must have a valid extension"@),
    ));
}

// ---------------------------------------------------------------------
// Start-of-message templates
// ---------------------------------------------------------------------
/// A `startsWith` pattern line with a `$value` template only matches a
/// message that begins, ignoring ASCII case, with the template's text
/// before `$value`; the value it captures is then a trimmed, non-empty
/// part of the message that comes after that text.
pub proof fn law_starts_with_template_is_anchored(message: Seq<char>, line: Seq<char>)
    ensures
        match_line(MatchKind::StartsWith, message, line) matches Some(v) ==> match template_parts(
            line,
        ) {
            Some((prefix, _suffix)) => {
                &&& prefix.len() <= message.len()
                &&& eq_ic(message.take(prefix.len() as int), prefix)
                &&& v.len() > 0
                &&& exists|a: int, b: int|
                    prefix.len() <= a <= b <= message.len() && v == trim(
                        #[trigger] message.subrange(a, b),
                    )
            },
            None => !contains(line, value_token()),
        },
{
    if let Some(v) = match_line(MatchKind::StartsWith, message, line) {
        if let Some((prefix, suffix)) = template_parts(line) {
            lemma_find_from(line, value_token(), 0);
            assert(contains(line, value_token()));
            let after_prefix = if prefix.len() == 0 {
                Some(0int)
            } else {
                prefix_end(message, prefix)
            };
            let a = after_prefix->Some_0;
            assert(prefix.len() == 0 ==> message.take(0) =~= prefix);
            assert(a == prefix.len());
            let start = a + lead_space(message.skip(a));
            lemma_lead_space(message.skip(a));
            if suffix.len() == 0 {
                assert(v == trim(message.subrange(start, message.len() as int)));
            } else {
                let x = suffix_start(message.skip(start), suffix)->Some_0;
                lemma_suffix_from(message.skip(start), suffix, 0);
                assert(v == trim(message.subrange(start, start + x)));
            }
        } else {
            if contains(line, value_token()) {
                assert(match_template(message, line) is None);
            }
        }
    }
}

/// What the pattern search returns is a capture of its pattern from its
/// message.
proof fn lemma_search_lines_found(kind: MatchKind, msg: Seq<char>, lines: Seq<Seq<char>>, j: int)
    ensures
        search_lines(kind, msg, lines, j) matches Some(r) ==> r.2 == msg && match_line(
            kind,
            r.2,
            r.1,
        ) == Some(r.0),
    decreases lines.len() - j,
{
    if 0 <= j < lines.len() && match_line(kind, msg, lines[j]) is None {
        lemma_search_lines_found(kind, msg, lines, j + 1);
    }
}

proof fn lemma_search_messages_found(
    kind: MatchKind,
    msgs: Seq<Seq<char>>,
    lines: Seq<Seq<char>>,
    i: int,
)
    ensures
        search_messages(kind, msgs, lines, i) matches Some(r) ==> match_line(kind, r.2, r.1)
            == Some(r.0),
    decreases msgs.len() - i,
{
    if 0 <= i < msgs.len() {
        lemma_search_lines_found(kind, msgs[i], lines, 0);
        if search_lines(kind, msgs[i], lines, 0) is None {
            lemma_search_messages_found(kind, msgs, lines, i + 1);
        }
    }
}

/// A `startsWith` rule matches a notification only through a message (the
/// whole one, or one of its lines) that begins, ignoring ASCII case, with
/// the text of the matching pattern before its `$value`.
pub proof fn law_starts_with_rule_is_anchored(
    rule_topic: Seq<char>,
    match_value: Seq<char>,
    event_topic: Seq<char>,
    event_message: Seq<char>,
)
    ensures
        spec_match_rule(rule_topic, starts_with_word(), match_value, event_topic, event_message)
            matches Some(ctx) ==> match_line(MatchKind::StartsWith, ctx.2, ctx.1) == Some(ctx.0)
            && (template_parts(ctx.1) matches Some(parts) ==> parts.0.len() <= ctx.2.len()
            && eq_ic(ctx.2.take(parts.0.len() as int), parts.0)),
{
    let incoming = trim(event_message);
    lemma_search_messages_found(
        MatchKind::StartsWith,
        incoming_messages(incoming),
        text_lines(match_value),
        0,
    );
    if let Some(ctx) = spec_match_rule(
        rule_topic,
        starts_with_word(),
        match_value,
        event_topic,
        event_message,
    ) {
        law_starts_with_template_is_anchored(ctx.2, ctx.1);
    }
}

} // verus!
