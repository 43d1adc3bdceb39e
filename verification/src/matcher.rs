//! Matching incoming notifications against automation rules.
//!
//! A rule lists one pattern per line.  A notification message is tried as a
//! whole and then line by line; the first pattern that matches decides the
//! captured value.  Patterns may hold the placeholder `$value`, which
//! captures the text between the pattern's prefix and suffix.
use vstd::prelude::*;

use crate::models::AutomationRule;
use crate::text::{
    chars_of, contains, contains_exec, eq_ic, eq_ignore_ascii_case, find_exec, find_from, fold,
    is_space, is_whitespace, is_word, lead_space, lemma_find_from, lemma_lead_space, lines_of,
    same_ascii_char, slice, string_of, text_lines, trim, trim_chars,
};

verus! {

#[derive(Debug, Clone)]
pub struct AutomationEvent {
    pub topic: String,
    pub title: Option<String>,
    pub message: String,
}

#[derive(Debug, Clone)]
pub struct MatchContext {
    pub value: String,
    pub matched_line: String,
    pub message: String,
}

impl View for MatchContext {
    /// (captured value, matched pattern line, matched message)
    type V = (Seq<char>, Seq<char>, Seq<char>);

    open spec fn view(&self) -> (Seq<char>, Seq<char>, Seq<char>) {
        (self.value@, self.matched_line@, self.message@)
    }
}

// ---------------------------------------------------------------------
// Specification
// ---------------------------------------------------------------------
/// The placeholder `$value`.
pub open spec fn value_token() -> Seq<char> {
    seq!['$', 'v', 'a', 'l', 'u', 'e']
}

/// Two texts are the same when their trimmed forms agree up to ASCII case.
pub open spec fn same_text(left: Seq<char>, right: Seq<char>) -> bool {
    eq_ic(trim(left), trim(right))
}

/// Where `incoming` continues after starting with `needle` (ignoring ASCII
/// case): the position just after the needle.
pub open spec fn prefix_end(incoming: Seq<char>, needle: Seq<char>) -> Option<int> {
    if needle.len() <= incoming.len() && eq_ic(incoming.take(needle.len() as int), needle) {
        Some(needle.len() as int)
    } else {
        None
    }
}

/// The first position at or after `k` (before the end) where `needle`
/// starts, ignoring ASCII case.
pub open spec fn find_ic_from(incoming: Seq<char>, needle: Seq<char>, k: int) -> Option<int>
    decreases incoming.len() - k,
{
    if k < 0 || k >= incoming.len() {
        None
    } else if prefix_end(incoming.skip(k), needle) is Some {
        Some(k)
    } else {
        find_ic_from(incoming, needle, k + 1)
    }
}

/// The first position at or after `k` (before the end) whose remainder is
/// the same text as `suffix`.
pub open spec fn suffix_from(incoming: Seq<char>, suffix: Seq<char>, k: int) -> Option<int>
    decreases incoming.len() - k,
{
    if k < 0 || k >= incoming.len() {
        None
    } else if same_text(incoming.skip(k), suffix) {
        Some(k)
    } else {
        suffix_from(incoming, suffix, k + 1)
    }
}

/// Where the suffix of a template begins in `incoming`.
pub open spec fn suffix_start(incoming: Seq<char>, suffix: Seq<char>) -> Option<int> {
    if suffix.len() == 0 {
        Some(incoming.len() as int)
    } else {
        suffix_from(incoming, suffix, 0)
    }
}

/// The trimmed text before and after the single `$value` of a template;
/// `None` when the template holds no `$value` or more than one.
pub open spec fn template_parts(template: Seq<char>) -> Option<(Seq<char>, Seq<char>)> {
    match find_from(template, value_token(), 0) {
        None => None,
        Some(p) => if find_from(template, value_token(), p + 6) is Some {
            None
        } else {
            Some((trim(template.take(p)), trim(template.skip(p + 6))))
        },
    }
}

/// The value that a `$value` template captures from `incoming`.
pub open spec fn match_template(incoming: Seq<char>, template: Seq<char>) -> Option<Seq<char>> {
    match template_parts(template) {
        None => None,
        Some((prefix, suffix)) => {
            let after_prefix = if prefix.len() == 0 {
                Some(0int)
            } else {
                prefix_end(incoming, prefix)
            };
            match after_prefix {
                None => None,
                Some(a) => {
                    let start = a + lead_space(incoming.skip(a));
                    let end = if suffix.len() == 0 {
                        Some(incoming.len() as int)
                    } else {
                        match suffix_start(incoming.skip(start), suffix) {
                            Some(x) => Some(start + x),
                            None => None,
                        }
                    };
                    match end {
                        None => None,
                        Some(e) => {
                            let value = trim(incoming.subrange(start, e));
                            if value.len() == 0 {
                                None
                            } else {
                                Some(value)
                            }
                        },
                    }
                },
            }
        },
    }
}

/// The first capture of a template anywhere in `incoming`, trying start
/// positions from `k` on.
pub open spec fn template_contains_from(incoming: Seq<char>, template: Seq<char>, k: int) -> Option<
    Seq<char>,
>
    decreases incoming.len() - k,
{
    if k < 0 || k >= incoming.len() {
        None
    } else if match_template(incoming.skip(k), template) is Some {
        match_template(incoming.skip(k), template)
    } else {
        template_contains_from(incoming, template, k + 1)
    }
}

/// The kinds of pattern a rule can use.
pub enum MatchKind {
    Equals,
    Contains,
    StartsWith,
    Other,
}

pub open spec fn equals_word() -> Seq<char> {
    seq!['e', 'q', 'u', 'a', 'l', 's']
}

pub open spec fn contains_word() -> Seq<char> {
    seq!['c', 'o', 'n', 't', 'a', 'i', 'n', 's']
}

pub open spec fn starts_with_word() -> Seq<char> {
    seq!['s', 't', 'a', 'r', 't', 's', 'W', 'i', 't', 'h']
}

/// The kind that a rule's `match_type` names.
pub open spec fn kind_of(match_type: Seq<char>) -> MatchKind {
    if match_type == equals_word() {
        MatchKind::Equals
    } else if match_type == contains_word() {
        MatchKind::Contains
    } else if match_type == starts_with_word() {
        MatchKind::StartsWith
    } else {
        MatchKind::Other
    }
}

/// What one pattern line captures from one message.
pub open spec fn match_line(kind: MatchKind, incoming: Seq<char>, line: Seq<char>) -> Option<
    Seq<char>,
> {
    let templated = contains(line, value_token());
    match kind {
        MatchKind::Equals => if templated {
            match_template(incoming, line)
        } else if same_text(incoming, line) {
            Some(incoming)
        } else {
            None
        },
        MatchKind::StartsWith => if templated {
            match_template(incoming, line)
        } else {
            match prefix_end(incoming, line) {
                Some(e) => Some(trim(incoming.skip(e))),
                None => None,
            }
        },
        MatchKind::Contains => if templated {
            template_contains_from(incoming, line, 0)
        } else {
            match find_ic_from(incoming, line, 0) {
                Some(s) => {
                    let before = trim(incoming.take(s));
                    let after = trim(incoming.skip(s + line.len()));
                    Some(
                        if after.len() == 0 {
                            before
                        } else {
                            after
                        },
                    )
                },
                None => None,
            }
        },
        MatchKind::Other => None,
    }
}

/// The message list that a notification offers to the patterns: the whole
/// message, then each of its lines not already offered (as the same text).
pub open spec fn offered(acc: Seq<Seq<char>>, lines: Seq<Seq<char>>) -> Seq<Seq<char>>
    decreases lines.len(),
{
    if lines.len() == 0 {
        acc
    } else {
        let prev = offered(acc, lines.drop_last());
        if exists|i: int| 0 <= i < prev.len() && same_text(#[trigger] prev[i], lines.last()) {
            prev
        } else {
            prev.push(lines.last())
        }
    }
}

pub open spec fn incoming_messages(incoming: Seq<char>) -> Seq<Seq<char>> {
    offered(seq![incoming], text_lines(incoming))
}

/// The first pattern, from index `j` on, that captures a value from `msg`.
pub open spec fn search_lines(kind: MatchKind, msg: Seq<char>, lines: Seq<Seq<char>>, j: int) -> Option<
    (Seq<char>, Seq<char>, Seq<char>),
>
    decreases lines.len() - j,
{
    if j < 0 || j >= lines.len() {
        None
    } else {
        match match_line(kind, msg, lines[j]) {
            Some(v) => Some((v, lines[j], msg)),
            None => search_lines(kind, msg, lines, j + 1),
        }
    }
}

/// The first (message, pattern) pair, messages outermost, from message `i`
/// on, that captures a value.
pub open spec fn search_messages(
    kind: MatchKind,
    msgs: Seq<Seq<char>>,
    lines: Seq<Seq<char>>,
    i: int,
) -> Option<(Seq<char>, Seq<char>, Seq<char>)>
    decreases msgs.len() - i,
{
    if i < 0 || i >= msgs.len() {
        None
    } else {
        match search_lines(kind, msgs[i], lines, 0) {
            Some(r) => Some(r),
            None => search_messages(kind, msgs, lines, i + 1),
        }
    }
}

/// The match context (value, line, message) that a rule yields for an event.
pub open spec fn spec_match_rule(
    rule_topic: Seq<char>,
    match_type: Seq<char>,
    match_value: Seq<char>,
    event_topic: Seq<char>,
    event_message: Seq<char>,
) -> Option<(Seq<char>, Seq<char>, Seq<char>)> {
    if !same_text(rule_topic, event_topic) {
        None
    } else {
        let incoming = trim(event_message);
        let lines = text_lines(match_value);
        if incoming.len() == 0 || lines.len() == 0 {
            None
        } else {
            search_messages(kind_of(match_type), incoming_messages(incoming), lines, 0)
        }
    }
}

// ---------------------------------------------------------------------
// Implementation
// ---------------------------------------------------------------------
/// Whether two texts are the same once trimmed, ignoring ASCII case.
pub fn same_text_exec(left: &[char], right: &[char]) -> (r: bool)
    ensures
        r == same_text(left@, right@),
{
    let l = trim_chars(left);
    let r = trim_chars(right);
    eq_ignore_ascii_case(l.as_slice(), r.as_slice())
}

/// Whether `needle` starts `incoming` at position `from`, ignoring ASCII
/// case.
fn prefix_at(incoming: &[char], from: usize, needle: &[char]) -> (r: bool)
    requires
        from <= incoming@.len(),
    ensures
        r == (prefix_end(incoming@.skip(from as int), needle@) is Some),
{
    let ghost rest = incoming@.skip(from as int);
    if needle.len() > incoming.len() - from {
        return false;
    }
    let mut j: usize = 0;
    while j < needle.len()
        invariant
            from + needle@.len() <= incoming.len(),
            rest == incoming@.skip(from as int),
            j <= needle@.len(),
            forall|i: int| 0 <= i < j ==> #[trigger] fold(rest[i]) == fold(needle@[i]),
        decreases needle@.len() - j,
    {
        if !same_ascii_char(incoming[from + j], needle[j]) {
            assert(rest.take(needle@.len() as int)[j as int] == rest[j as int]);
            return false;
        }
        j = j + 1;
    }
    assert forall|i: int| 0 <= i < needle@.len() implies #[trigger] fold(
        rest.take(needle@.len() as int)[i],
    ) == fold(needle@[i]) by {
        assert(rest.take(needle@.len() as int)[i] == rest[i]);
    }
    true
}

/// `ascii_prefix_end`: where `incoming` continues after `needle`.
fn ascii_prefix_end(incoming: &[char], needle: &[char]) -> (r: Option<usize>)
    ensures
        r matches Some(e) ==> prefix_end(incoming@, needle@) == Some(e as int),
        r is None ==> prefix_end(incoming@, needle@) is None,
{
    assert(incoming@.skip(0) == incoming@);
    if prefix_at(incoming, 0, needle) {
        Some(needle.len())
    } else {
        None
    }
}

/// `ascii_find`: the first place where `needle` occurs, ignoring ASCII case.
fn ascii_find(incoming: &[char], needle: &[char]) -> (r: Option<usize>)
    ensures
        r matches Some(s) ==> find_ic_from(incoming@, needle@, 0) == Some(s as int),
        r is None ==> find_ic_from(incoming@, needle@, 0) is None,
{
    let mut k: usize = 0;
    while k < incoming.len()
        invariant
            k <= incoming@.len(),
            find_ic_from(incoming@, needle@, 0) == find_ic_from(incoming@, needle@, k as int),
        decreases incoming@.len() - k,
    {
        if prefix_at(incoming, k, needle) {
            return Some(k);
        }
        k = k + 1;
    }
    None
}

/// `ascii_suffix_start`: where a template's suffix begins.
fn ascii_suffix_start(incoming: &[char], suffix: &[char]) -> (r: Option<usize>)
    ensures
        r matches Some(x) ==> suffix_start(incoming@, suffix@) == Some(x as int),
        r is None ==> suffix_start(incoming@, suffix@) is None,
{
    if suffix.len() == 0 {
        return Some(incoming.len());
    }
    let mut k: usize = 0;
    while k < incoming.len()
        invariant
            k <= incoming@.len(),
            suffix@.len() > 0,
            suffix_from(incoming@, suffix@, 0) == suffix_from(incoming@, suffix@, k as int),
        decreases incoming@.len() - k,
    {
        let rest = slice(incoming, k, incoming.len());
        assert(rest@ == incoming@.skip(k as int));
        if same_text_exec(rest.as_slice(), suffix) {
            return Some(k);
        }
        k = k + 1;
    }
    None
}

/// The trimmed prefix and suffix around the single `$value` of a template.
fn template_parts_exec(template: &[char]) -> (r: Option<(Vec<char>, Vec<char>)>)
    ensures
        match r {
            Some((p, s)) => template_parts(template@) == Some((p@, s@)),
            None => template_parts(template@) is None,
        },
{
    let token = chars_of("$value");
    proof {
        reveal_strlit("$value");
        assert(token@ =~= value_token());
    }
    match find_exec(template, token.as_slice(), 0) {
        None => None,
        Some(p) => {
            let tl = template.len();
            proof {
                lemma_find_from(template@, value_token(), 0);
                assert(p + 6 <= tl);
            }
            if find_exec(template, token.as_slice(), p + 6).is_some() {
                None
            } else {
                let before = slice(template, 0, p);
                let after = slice(template, p + 6, template.len());
                Some((trim_chars(before.as_slice()), trim_chars(after.as_slice())))
            }
        },
    }
}

/// `match_template`: the value that a `$value` template captures.
pub fn match_template_exec(incoming: &[char], template: &[char]) -> (r: Option<Vec<char>>)
    ensures
        match r {
            Some(v) => match_template(incoming@, template@) == Some(v@),
            None => match_template(incoming@, template@) is None,
        },
{
    let (prefix, suffix) = match template_parts_exec(template) {
        Some(parts) => parts,
        None => return None,
    };
    let a: usize = if prefix.len() == 0 {
        0
    } else {
        match ascii_prefix_end(incoming, prefix.as_slice()) {
            Some(e) => e,
            None => return None,
        }
    };
    let mut start = a;
    proof {
        lemma_lead_space(incoming@.skip(a as int));
    }
    let ghost rest = incoming@.skip(a as int);
    while start < incoming.len() && is_whitespace(incoming[start])
        invariant
            a <= start <= incoming@.len(),
            rest == incoming@.skip(a as int),
            start - a <= lead_space(rest),
            lead_space(rest) <= rest.len(),
            forall|j: int| 0 <= j < lead_space(rest) ==> is_space(#[trigger] rest[j]),
            lead_space(rest) < rest.len() ==> !is_space(rest[lead_space(rest) as int]),
        decreases incoming@.len() - start,
    {
        assert(rest[start - a] == incoming@[start as int]);
        start = start + 1;
    }
    assert(start == a + lead_space(rest)) by {
        if start < incoming@.len() {
            assert(rest[start - a] == incoming@[start as int]);
        }
    }
    let end: usize = if suffix.len() == 0 {
        incoming.len()
    } else {
        let tail = slice(incoming, start, incoming.len());
        assert(tail@ == incoming@.skip(start as int));
        match ascii_suffix_start(tail.as_slice(), suffix.as_slice()) {
            Some(x) => {
                proof {
                    lemma_suffix_from(tail@, suffix@, 0);
                }
                start + x
            },
            None => return None,
        }
    };
    let value = trim_chars(slice(incoming, start, end).as_slice());
    if value.len() == 0 {
        None
    } else {
        Some(value)
    }
}

/// `template_contains`: the first capture of a template anywhere in the
/// message.
fn template_contains(incoming: &[char], template: &[char]) -> (r: Option<Vec<char>>)
    ensures
        match r {
            Some(v) => template_contains_from(incoming@, template@, 0) == Some(v@),
            None => template_contains_from(incoming@, template@, 0) is None,
        },
{
    let mut k: usize = 0;
    while k < incoming.len()
        invariant
            k <= incoming@.len(),
            template_contains_from(incoming@, template@, 0) == template_contains_from(
                incoming@,
                template@,
                k as int,
            ),
        decreases incoming@.len() - k,
    {
        let rest = slice(incoming, k, incoming.len());
        assert(rest@ == incoming@.skip(k as int));
        match match_template_exec(rest.as_slice(), template) {
            Some(v) => {
                return Some(v);
            },
            None => {},
        }
        k = k + 1;
    }
    None
}

/// The kind of pattern that `match_type` names.
fn kind_exec(match_type: &[char]) -> (k: MatchKind)
    ensures
        k == kind_of(match_type@),
{
    proof {
        reveal_strlit("equals");
        reveal_strlit("contains");
        reveal_strlit("startsWith");
        assert("equals"@ =~= equals_word());
        assert("contains"@ =~= contains_word());
        assert("startsWith"@ =~= starts_with_word());
    }
    if is_word(match_type, "equals") {
        MatchKind::Equals
    } else if is_word(match_type, "contains") {
        MatchKind::Contains
    } else if is_word(match_type, "startsWith") {
        MatchKind::StartsWith
    } else {
        MatchKind::Other
    }
}

/// What one pattern line captures from one message.
fn match_line_exec(kind: &MatchKind, incoming: &[char], line: &[char]) -> (r: Option<Vec<char>>)
    ensures
        match r {
            Some(v) => match_line(*kind, incoming@, line@) == Some(v@),
            None => match_line(*kind, incoming@, line@) is None,
        },
{
    let token = chars_of("$value");
    proof {
        reveal_strlit("$value");
        assert(token@ =~= value_token());
    }
    let templated = contains_exec(line, token.as_slice());
    match kind {
        MatchKind::Equals => {
            if templated {
                match_template_exec(incoming, line)
            } else if same_text_exec(incoming, line) {
                Some(slice(incoming, 0, incoming.len()))
            } else {
                None
            }
        },
        MatchKind::StartsWith => {
            if templated {
                match_template_exec(incoming, line)
            } else {
                match ascii_prefix_end(incoming, line) {
                    Some(e) => {
                        let rest = slice(incoming, e, incoming.len());
                        Some(trim_chars(rest.as_slice()))
                    },
                    None => None,
                }
            }
        },
        MatchKind::Contains => {
            if templated {
                template_contains(incoming, line)
            } else {
                match ascii_find(incoming, line) {
                    Some(s) => {
                        let il = incoming.len();
                        proof {
                            lemma_find_ic(incoming@, line@, 0);
                            assert(s + line@.len() <= il);
                        }
                        let before = trim_chars(slice(incoming, 0, s).as_slice());
                        let after = trim_chars(
                            slice(incoming, s + line.len(), incoming.len()).as_slice(),
                        );
                        if after.len() == 0 {
                            Some(before)
                        } else {
                            Some(after)
                        }
                    },
                    None => None,
                }
            }
        },
        MatchKind::Other => None,
    }
}

pub proof fn lemma_suffix_from(incoming: Seq<char>, suffix: Seq<char>, k: int)
    requires
        0 <= k,
    ensures
        suffix_from(incoming, suffix, k) matches Some(s) ==> k <= s < incoming.len(),
    decreases incoming.len() - k,
{
    if k < incoming.len() && !same_text(incoming.skip(k), suffix) {
        lemma_suffix_from(incoming, suffix, k + 1);
    }
}

proof fn lemma_find_ic(incoming: Seq<char>, needle: Seq<char>, k: int)
    requires
        0 <= k,
    ensures
        find_ic_from(incoming, needle, k) matches Some(s) ==> k <= s < incoming.len() && s
            + needle.len() <= incoming.len(),
    decreases incoming.len() - k,
{
    if k < incoming.len() && prefix_end(incoming.skip(k), needle) is None {
        lemma_find_ic(incoming, needle, k + 1);
    }
}

/// `incoming_message`: the whole message, then each of its non-blank lines
/// that is not already listed as the same text.
pub fn incoming_message(incoming: &[char]) -> (r: Vec<Vec<char>>)
    ensures
        r.deep_view() == incoming_messages(incoming@),
{
    let lines = lines_of(incoming);
    let mut out: Vec<Vec<char>> = Vec::new();
    out.push(slice(incoming, 0, incoming.len()));
    let ghost ls = lines.deep_view();
    proof {
        assert(incoming@.subrange(0, incoming@.len() as int) == incoming@);
        assert(out.deep_view() =~~= seq![incoming@]);
        assert(ls.take(0) =~= Seq::<Seq<char>>::empty());
    }
    let mut i: usize = 0;
    while i < lines.len()
        invariant
            i <= lines@.len(),
            ls == lines.deep_view(),
            ls == text_lines(incoming@),
            out.deep_view() == offered(seq![incoming@], ls.take(i as int)),
        decreases lines@.len() - i,
    {
        let line = &lines[i];
        let ghost prev = out.deep_view();
        assert(ls[i as int] == line@);
        let mut seen = false;
        let mut j: usize = 0;
        while j < out.len()
            invariant
                j <= out@.len(),
                prev == out.deep_view(),
                line@ == ls[i as int],
                seen == exists|m: int| 0 <= m < j && same_text(#[trigger] prev[m], line@),
            decreases out@.len() - j,
        {
            assert(prev[j as int] == out@[j as int]@);
            if same_text_exec(out[j].as_slice(), line.as_slice()) {
                seen = true;
            }
            j = j + 1;
        }
        proof {
            assert(ls.take(i + 1).drop_last() == ls.take(i as int));
            assert(ls.take(i + 1).last() == ls[i as int]);
        }
        if !seen {
            let copy = slice(line.as_slice(), 0, line.len());
            assert(line@.subrange(0, line@.len() as int) == line@);
            out.push(copy);
            assert(out.deep_view() =~~= prev.push(line@));
        }
        i = i + 1;
    }
    assert(ls.take(ls.len() as int) == ls);
    out
}

/// `match_rule`: the context of the first pattern of the rule that matches
/// the event, trying the whole message before its single lines.
pub fn match_rule(rule: &AutomationRule, event: &AutomationEvent) -> (r: Option<MatchContext>)
    ensures
        match r {
            Some(c) => spec_match_rule(
                rule.topic@,
                rule.match_type@,
                rule.match_value@,
                event.topic@,
                event.message@,
            ) == Some(c@),
            None => spec_match_rule(
                rule.topic@,
                rule.match_type@,
                rule.match_value@,
                event.topic@,
                event.message@,
            ) is None,
        },
{
    let rule_topic = chars_of(rule.topic.as_str());
    let event_topic = chars_of(event.topic.as_str());
    if !same_text_exec(rule_topic.as_slice(), event_topic.as_slice()) {
        return None;
    }
    let message = chars_of(event.message.as_str());
    let incoming = trim_chars(message.as_slice());
    if incoming.len() == 0 {
        return None;
    }
    let value_chars = chars_of(rule.match_value.as_str());
    let rules = lines_of(value_chars.as_slice());
    if rules.len() == 0 {
        return None;
    }
    let kind = kind_exec(chars_of(rule.match_type.as_str()).as_slice());
    let msgs = incoming_message(incoming.as_slice());
    let ghost ms = msgs.deep_view();
    let ghost ls = rules.deep_view();
    let ghost target = spec_match_rule(
        rule.topic@,
        rule.match_type@,
        rule.match_value@,
        event.topic@,
        event.message@,
    );
    assert(target == search_messages(kind, ms, ls, 0));
    let mut i: usize = 0;
    while i < msgs.len()
        invariant
            target == search_messages(kind, ms, ls, 0),
            target == spec_match_rule(
                rule.topic@,
                rule.match_type@,
                rule.match_value@,
                event.topic@,
                event.message@,
            ),
            i <= msgs@.len(),
            ms == msgs.deep_view(),
            ls == rules.deep_view(),
            search_messages(kind, ms, ls, 0) == search_messages(kind, ms, ls, i as int),
        decreases msgs@.len() - i,
    {
        let msg = &msgs[i];
        assert(ms[i as int] == msg@);
        let mut j: usize = 0;
        while j < rules.len()
            invariant
                target == search_messages(kind, ms, ls, 0),
                target == spec_match_rule(
                    rule.topic@,
                    rule.match_type@,
                    rule.match_value@,
                    event.topic@,
                    event.message@,
                ),
                search_messages(kind, ms, ls, 0) == search_messages(kind, ms, ls, i as int),
                i < msgs@.len(),
                ms == msgs.deep_view(),
                j <= rules@.len(),
                ls == rules.deep_view(),
                msg@ == ms[i as int],
                search_lines(kind, ms[i as int], ls, 0) == search_lines(
                    kind,
                    ms[i as int],
                    ls,
                    j as int,
                ),
            decreases rules@.len() - j,
        {
            let line = &rules[j];
            assert(ls[j as int] == line@);
            match match_line_exec(&kind, msg.as_slice(), line.as_slice()) {
                Some(v) => {
                    let ctx = MatchContext {
                        value: string_of(v.as_slice()),
                        matched_line: string_of(line.as_slice()),
                        message: string_of(msg.as_slice()),
                    };
                    assert(search_lines(kind, ms[i as int], ls, j as int) == Some(
                        (v@, line@, msg@),
                    ));
                    assert(search_messages(kind, ms, ls, i as int) == Some((v@, line@, msg@)));
                    return Some(ctx);
                },
                None => {
                    assert(search_lines(kind, ms[i as int], ls, j as int) == search_lines(
                        kind,
                        ms[i as int],
                        ls,
                        j + 1,
                    ));
                },
            }
            j = j + 1;
        }
        assert(search_lines(kind, ms[i as int], ls, j as int) is None);
        assert(search_messages(kind, ms, ls, i as int) == search_messages(kind, ms, ls, i + 1));
        i = i + 1;
    }
    None
}

} // verus!
