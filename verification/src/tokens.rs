//! Substitution of the captured values into rule texts.
use vstd::prelude::*;

use crate::matcher::MatchContext;
use crate::text::{chars_of, replace_all, replace_exec, string_of};

verus! {

pub open spec fn message_token() -> Seq<char> {
    seq!['$', 'm', 'e', 's', 's', 'a', 'g', 'e']
}

pub open spec fn matched_line_token() -> Seq<char> {
    seq!['$', 'm', 'a', 't', 'c', 'h', 'e', 'd', 'L', 'i', 'n', 'e']
}

/// `value` with `$value`, then `$message`, then `$matchedLine` replaced by
/// the captured value, the matched message and the matched pattern line.
pub open spec fn spec_replace_tokens(
    value: Seq<char>,
    captured: Seq<char>,
    message: Seq<char>,
    matched_line: Seq<char>,
) -> Seq<char> {
    replace_all(
        replace_all(replace_all(value, crate::matcher::value_token(), captured), message_token(), message),
        matched_line_token(),
        matched_line,
    )
}

/// `replace_tokens` on characters.
pub fn replace_tokens_chars(value: &[char], context: &MatchContext) -> (r: Vec<char>)
    ensures
        r@ == spec_replace_tokens(
            value@,
            context.value@,
            context.message@,
            context.matched_line@,
        ),
{
    let t1 = chars_of("$value");
    let t2 = chars_of("$message");
    let t3 = chars_of("$matchedLine");
    proof {
        reveal_strlit("$value");
        reveal_strlit("$message");
        reveal_strlit("$matchedLine");
        assert(t1@ =~= crate::matcher::value_token());
        assert(t2@ =~= message_token());
        assert(t3@ =~= matched_line_token());
    }
    let v = chars_of(context.value.as_str());
    let m = chars_of(context.message.as_str());
    let l = chars_of(context.matched_line.as_str());
    let a = replace_exec(value, t1.as_slice(), v.as_slice());
    let b = replace_exec(a.as_slice(), t2.as_slice(), m.as_slice());
    replace_exec(b.as_slice(), t3.as_slice(), l.as_slice())
}

/// `replace_tokens`: the text with the match context substituted for its
/// `$value`, `$message` and `$matchedLine` tokens, in that order.
pub fn replace_tokens(value: &str, context: &MatchContext) -> (r: String)
    ensures
        r@ == spec_replace_tokens(value@, context.value@, context.message@, context.matched_line@),
{
    let v = chars_of(value);
    string_of(replace_tokens_chars(v.as_slice(), context).as_slice())
}

} // verus!
