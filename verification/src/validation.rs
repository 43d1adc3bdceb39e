//! Validation of a rule before it is saved.
//!
//! Everything that can be decided from the rule itself is decided here.
//! What depends on the file system (whether a program, a script or the
//! working directory exists) is returned as an ordered list of checks; the
//! rule is valid when each check passes, and the first failing check gives
//! the error.
use vstd::prelude::*;

use crate::models::AutomationInput;
use crate::modules::{spec_validate_config, unit_result, validate_config, Validation};
use crate::text::{
    chars_of, contains, eq_ic, eq_ignore_ascii_case, non_blank, opt_view,
    spec_non_blank, str_cat, str_is, string_of, text_lines, trim, trim_chars, lemma_trim_idempotent,
};
use crate::urls::{parse_url, url_parse, UrlParts, UrlView};

verus! {

/// A check on the file system; each carries the error it reports.
#[derive(Debug, Clone)]
pub enum PathCheck {
    /// The path must exist.
    Exists { path: String, error: String },
    /// The path must be a file.
    IsFile { path: String, error: String },
    /// The path must be a directory.
    IsDir { path: String, error: String },
    /// Fails whenever it is reached.
    Fail { error: String },
}

/// A check as plain values.
pub enum CheckView {
    Exists(Seq<char>, Seq<char>),
    IsFile(Seq<char>, Seq<char>),
    IsDir(Seq<char>, Seq<char>),
    Fail(Seq<char>),
}

pub open spec fn check_view(c: PathCheck) -> CheckView {
    match c {
        PathCheck::Exists { path, error } => CheckView::Exists(path@, error@),
        PathCheck::IsFile { path, error } => CheckView::IsFile(path@, error@),
        PathCheck::IsDir { path, error } => CheckView::IsDir(path@, error@),
        PathCheck::Fail { error } => CheckView::Fail(error@),
    }
}

pub open spec fn checks_view(v: Vec<PathCheck>) -> Seq<CheckView> {
    v@.map_values(|c: PathCheck| check_view(c))
}

pub open spec fn plan_view(r: Result<Vec<PathCheck>, String>) -> Result<Seq<CheckView>, Seq<char>> {
    match r {
        Ok(v) => Ok(checks_view(v)),
        Err(e) => Err(e@),
    }
}

// ---------------------------------------------------------------------
// Path facts that depend on the platform
// ---------------------------------------------------------------------
/// Calls `std::path::Path::is_absolute`.  Which paths are absolute depends
/// on the platform's path syntax; claimed only what its documentation says
/// on every platform: an absolute path starts with a root, so a path with
/// neither `/` nor `\` in it is not absolute.
#[verifier::external_body]
fn path_is_absolute(path: &str) -> (r: bool)
    ensures
        !path@.contains('/') && !path@.contains('\\') ==> !r,
{
    std::path::Path::new(path).is_absolute()
}

/// Calls `std::path::Path::join` and returns the joined path as text.
/// Claimed only where every platform agrees (`join_fits`): a path with no
/// `/`, `\` or `:` is neither absolute nor prefixed, so it is put after
/// the directory, with at most one separator between them, unless the
/// directory begins with two separators (a verbatim prefix on Windows,
/// whose joins are normalized).  Which separator, and the other cases,
/// depend on the platform and are left unsaid.
#[verifier::external_body]
fn path_join(directory: &str, path: &str) -> (r: String)
    ensures
        join_fits(directory@, path@, r@),
{
    std::path::Path::new(directory).join(path).to_string_lossy().into_owned()
}

/// A path separator on some platform.
pub open spec fn is_separator(c: char) -> bool {
    c == '/' || c == '\\'
}

/// What joining `path` to `directory` gives on every platform, where
/// `path` has no `/`, `\` or `:` and `directory` does not begin with two
/// separators: the directory, then at most one separator, then the path.
pub open spec fn join_fits(directory: Seq<char>, path: Seq<char>, joined: Seq<char>) -> bool {
    !has_separator(path) && !path.contains(':') && !(directory.len() >= 2 && is_separator(
        directory[0],
    ) && is_separator(directory[1])) ==> joined == directory + path || joined == directory
        + seq!['/'] + path || joined == directory + seq!['\\'] + path
}

/// The text after the last `/` or `\` of a path.
pub open spec fn final_part(path: Seq<char>) -> Seq<char>
    decreases path.len(),
{
    if path.len() == 0 {
        path
    } else if is_separator(path.last()) {
        Seq::empty()
    } else {
        final_part(path.drop_last()).push(path.last())
    }
}

/// The position of the last `.` of a text, or -1.
pub open spec fn last_dot(text: Seq<char>) -> int
    decreases text.len(),
{
    if text.len() == 0 {
        -1
    } else if text.last() == '.' {
        text.len() - 1
    } else {
        last_dot(text.drop_last())
    }
}

/// The extension that a path has on every platform: the text after the
/// last `.` of its final part, when that `.` is not the part's first
/// character, the part is not `..` and holds no `:` (a drive on Windows),
/// and the path does not begin with two separators (a network or verbatim
/// prefix on Windows).
pub open spec fn known_extension(path: Seq<char>) -> Option<Seq<char>> {
    let f = final_part(path);
    if !(path.len() >= 2 && is_separator(path[0]) && is_separator(path[1])) && f != ".."@
        && !f.contains(':') && last_dot(f) > 0 {
        Some(f.skip(last_dot(f) + 1))
    } else {
        None
    }
}

/// What `Path::extension` gives of a path, as far as every platform
/// agrees: an extension holds no `.` and stands in the path right after a
/// `.`; and a path with a known extension has that one.
pub open spec fn extension_facts(path: Seq<char>, extension: Option<Seq<char>>) -> bool {
    &&& extension matches Some(e) ==> !e.contains('.') && exists|k: int|
        0 < k && k + e.len() <= path.len() && path[k - 1] == '.' && #[trigger] path.subrange(
            k,
            k + e.len(),
        ) == e
    &&& known_extension(path) is Some ==> extension == known_extension(path)
}

/// The final part of a path is what ends it.
proof fn lemma_final_part_ends(path: Seq<char>)
    ensures
        final_part(path).len() <= path.len(),
        path.subrange(path.len() - final_part(path).len(), path.len() as int) == final_part(
            path,
        ),
    decreases path.len(),
{
    if path.len() > 0 && !is_separator(path.last()) {
        let q = path.drop_last();
        lemma_final_part_ends(q);
        assert(path.subrange(path.len() - final_part(path).len(), path.len() as int)
            =~= q.subrange(q.len() - final_part(q).len(), q.len() as int).push(path.last()));
    } else if path.len() > 0 {
        assert(path.subrange(path.len() as int, path.len() as int) =~= Seq::<char>::empty());
    }
}

/// The last `.` of a text is a `.`, and none comes after it.
proof fn lemma_last_dot(text: Seq<char>)
    ensures
        -1 <= last_dot(text) < text.len(),
        last_dot(text) >= 0 ==> text[last_dot(text)] == '.',
        forall|j: int| last_dot(text) < j < text.len() ==> text[j] != '.',
    decreases text.len(),
{
    if text.len() > 0 && text.last() != '.' {
        lemma_last_dot(text.drop_last());
        assert forall|j: int| last_dot(text) < j < text.len() implies text[j] != '.' by {
            if j < text.len() - 1 {
                assert(text[j] == text.drop_last()[j]);
            }
        }
    }
}

/// The known extension of a path is one that `Path::extension` may give.
proof fn lemma_known_extension_facts(path: Seq<char>)
    ensures
        extension_facts(path, known_extension(path)),
{
    if let Some(e) = known_extension(path) {
        let f = final_part(path);
        let d = last_dot(f);
        lemma_final_part_ends(path);
        lemma_last_dot(f);
        assert(e == f.skip(d + 1));
        assert forall|j: int| 0 <= j < e.len() implies e[j] != '.' by {
            assert(e[j] == f[d + 1 + j]);
        }
        let k = path.len() - f.len() + d + 1;
        assert(path[k - 1] == f[d]) by {
            assert(path.subrange(path.len() - f.len(), path.len() as int)[d] == path[k - 1]);
        }
        assert(path.subrange(k, k + e.len()) =~= e) by {
            assert forall|j: int| 0 <= j < e.len() implies path.subrange(k, k + e.len())[j]
                == e[j] by {
                assert(path.subrange(path.len() - f.len(), path.len() as int)[d + 1 + j]
                    == path[k + j]);
            }
        }
    }
}

/// Calls `std::path::Path::extension` and returns the extension as text.
/// Claimed, as its documentation gives it: the extension is the part of
/// the file name after its final `.`, unless the file name has no `.`
/// after its first character.  So an extension holds no `.` and stands in
/// the path right after a `.`; and where the file name is surely the text
/// after the last separator (`known_extension`), the extension is the text
/// after its last `.`.  Other paths depend on the platform's separators
/// and prefixes, and are left unsaid.
#[verifier::external_body]
fn path_extension(path: &str) -> (r: Option<String>)
    ensures
        extension_facts(path@, opt_view(r)),
{
    std::path::Path::new(path).extension().and_then(|e| e.to_str()).map(String::from)
}

// ---------------------------------------------------------------------
// Specification
// ---------------------------------------------------------------------
/// `field is required` when the text is blank.
pub open spec fn spec_required(field: Seq<char>, value: Seq<char>) -> Result<(), Seq<char>> {
    if trim(value).len() == 0 {
        Err(field + " is required"@)
    } else {
        Ok(())
    }
}

/// The trimmed text of an optional value, or `field is required`.
pub open spec fn spec_required_option(field: Seq<char>, value: Option<Seq<char>>) -> Result<
    Seq<char>,
    Seq<char>,
> {
    match spec_non_blank(value) {
        Some(v) => Ok(v),
        None => Err(field + " is required"@),
    }
}

/// Whether a text names a path with a `/` or `\` in it.
pub open spec fn has_separator(value: Seq<char>) -> bool {
    value.contains('/') || value.contains('\\')
}

/// The two checks that make a path an existing file.
pub open spec fn file_checks(field: Seq<char>, path: Seq<char>) -> Seq<CheckView> {
    seq![
        CheckView::Exists(path, field + " path does not exist: "@ + path),
        CheckView::IsFile(path, field + " path is not a file: "@ + path),
    ]
}

/// The checks for a program, given whether the trimmed value is an absolute
/// path and what the working directory joined with it gives.
pub open spec fn spec_program_plan(
    field: Seq<char>,
    value: Seq<char>,
    working_directory: Option<Seq<char>>,
    absolute: bool,
    joined: Seq<char>,
) -> Result<Seq<CheckView>, Seq<char>> {
    let v = trim(value);
    if v.len() == 0 {
        Err(field + " is required"@)
    } else if absolute {
        Ok(file_checks(field, v))
    } else if spec_non_blank(working_directory) is Some {
        Ok(file_checks(field, joined))
    } else if has_separator(v) {
        Err(field + " uses a relative path, so a working directory is required"@)
    } else {
        Ok(Seq::empty())
    }
}

/// Whether an extension names a script: bat, cmd, ps1 or sh in any ASCII
/// case.
pub open spec fn script_extension(e: Seq<char>) -> bool {
    eq_ic(e, "bat"@) || eq_ic(e, "cmd"@) || eq_ic(e, "ps1"@) || eq_ic(e, "sh"@)
}

/// The checks for a script, given whether the trimmed value is absolute,
/// what the working directory joined with it gives, and the extension of
/// the resolved path.
pub open spec fn spec_script_plan(
    field: Seq<char>,
    value: Seq<char>,
    working_directory: Option<Seq<char>>,
    absolute: bool,
    joined: Seq<char>,
    extension: Option<Seq<char>>,
) -> Result<Seq<CheckView>, Seq<char>> {
    let v = trim(value);
    if v.len() == 0 {
        Err(field + " is required"@)
    } else if !absolute && spec_non_blank(working_directory) is None {
        Err(field + " must use an absolute path or have a working directory"@)
    } else {
        let resolved = if absolute {
            v
        } else {
            joined
        };
        let tail = match extension {
            None => seq![CheckView::Fail(field + " must have a valid extension"@)],
            Some(e) => if script_extension(e) {
                Seq::empty()
            } else {
                seq![CheckView::Fail(field + " has an unsupported extension"@)]
            },
        };
        Ok(file_checks(field, resolved) + tail)
    }
}

/// Only http and https URLs are allowed.
pub open spec fn spec_validate_url(value: Seq<char>) -> Result<(), Seq<char>> {
    match url_parse(value) {
        Err(_) => Err("Invalid URL"@),
        Ok(u) => spec_url_allowed(u),
    }
}

/// A parsed URL is allowed when its scheme is http or https.
pub open spec fn spec_url_allowed(u: UrlView) -> Result<(), Seq<char>> {
    if u.0 == "http"@ || u.0 == "https"@ {
        Ok(())
    } else {
        Err("Only http and https URLs are allowed"@)
    }
}

/// The verdict on a rule's module and its configuration.
pub open spec fn spec_validate_module(rule: AutomationInput) -> Result<(), Seq<char>> {
    match spec_required_option("module"@, opt_view(rule.module_id)) {
        Err(e) => Err(e),
        Ok(id) => match rule.action_config {
            None => Err("Module config is required"@),
            Some(c) => spec_validate_config(id, c@, Validation::Save),
        },
    }
}

pub open spec fn is_match_type(t: Seq<char>) -> bool {
    t == "equals"@ || t == "contains"@ || t == "startsWith"@
}

pub open spec fn is_action_type(t: Seq<char>) -> bool {
    t == "runProgram"@ || t == "runScript"@ || t == "openUrl"@ || t == "module"@
}

pub open spec fn is_status(t: Seq<char>) -> bool {
    t == "success"@ || t == "failed"@ || t == "never"@
}

/// The outcomes of the platform path calls: whether the action's trimmed
/// value is absolute, the working directory joined with it, and the
/// extension of the resolved script path.
pub type PathFacts = (bool, Seq<char>, Option<Seq<char>>);

/// What every platform agrees on for a program: a value with neither `/`
/// nor `\` in it is not an absolute path (a bare command name); and where
/// a value that is not absolute is joined to a working directory, the
/// join is as `join_fits` says.
pub open spec fn program_facts_fit(
    value: Seq<char>,
    working_directory: Option<Seq<char>>,
    absolute: bool,
    joined: Seq<char>,
) -> bool {
    &&& !has_separator(trim(value)) ==> !absolute
    &&& trim(value).len() > 0 && !absolute ==> match spec_non_blank(working_directory) {
        Some(d) => join_fits(d, trim(value), joined),
        None => true,
    }
}

/// What every platform agrees on for a script: as for a program, and the
/// extension is the one of the path the script resolves to (the trimmed
/// value itself when it is absolute).
pub open spec fn script_facts_fit(
    value: Seq<char>,
    working_directory: Option<Seq<char>>,
    absolute: bool,
    joined: Seq<char>,
    extension: Option<Seq<char>>,
) -> bool {
    &&& program_facts_fit(value, working_directory, absolute, joined)
    &&& extension_facts(
        if absolute {
            trim(value)
        } else {
            joined
        },
        extension,
    )
}

/// The path facts of a rule's action value, as every platform agrees.
pub open spec fn facts_fit(rule: AutomationInput, facts: PathFacts) -> bool {
    let v = match opt_view(rule.action_value) {
        Some(a) => a,
        None => Seq::empty(),
    };
    let wd = opt_view(rule.working_directory);
    if rule.action_type@ == "runScript"@ {
        script_facts_fit(v, wd, facts.0, facts.1, facts.2)
    } else {
        program_facts_fit(v, wd, facts.0, facts.1)
    }
}

/// Path facts that fit any rule: not absolute, the working directory and
/// the trimmed value put together, and the known extension of that.
pub open spec fn spare_facts(rule: AutomationInput) -> PathFacts {
    let v = match opt_view(rule.action_value) {
        Some(a) => trim(a),
        None => Seq::empty(),
    };
    let joined = match spec_non_blank(opt_view(rule.working_directory)) {
        Some(d) => d + v,
        None => Seq::empty(),
    };
    (false, joined, known_extension(joined))
}

/// The checks of the action that a rule names.
pub open spec fn spec_action_plan(rule: AutomationInput, facts: PathFacts) -> Result<
    Seq<CheckView>,
    Seq<char>,
> {
    let t = rule.action_type@;
    let (absolute, joined, extension) = facts;
    let wd = opt_view(rule.working_directory);
    if t == "runProgram"@ {
        match spec_required_option("program"@, opt_view(rule.action_value)) {
            Err(e) => Err(e),
            Ok(p) => spec_program_plan("Program"@, p, wd, absolute, joined),
        }
    } else if t == "runScript"@ {
        match spec_required_option("script"@, opt_view(rule.action_value)) {
            Err(e) => Err(e),
            Ok(p) => spec_script_plan("Script"@, p, wd, absolute, joined, extension),
        }
    } else if t == "openUrl"@ {
        match spec_required_option("url"@, opt_view(rule.action_value)) {
            Err(e) => Err(e),
            Ok(u) => match spec_validate_url(u) {
                Err(e) => Err(e),
                Ok(()) => Ok(Seq::empty()),
            },
        }
    } else {
        match spec_validate_module(rule) {
            Err(e) => Err(e),
            Ok(()) => Ok(Seq::empty()),
        }
    }
}

/// The verdict on a rule: an error, or the file system checks that remain.
pub open spec fn spec_validate_rule(rule: AutomationInput, facts: PathFacts) -> Result<
    Seq<CheckView>,
    Seq<char>,
> {
    if spec_required("id"@, rule.id@) is Err {
        Err("id is required"@)
    } else if spec_required("name"@, rule.name@) is Err {
        Err("name is required"@)
    } else if spec_required("topic"@, rule.topic@) is Err {
        Err("topic is required"@)
    } else if spec_required("matchValue"@, rule.match_value@) is Err {
        Err("matchValue is required"@)
    } else if text_lines(rule.match_value@).len() == 0 {
        Err("Match value cannot be empty"@)
    } else if !is_match_type(rule.match_type@) {
        Err("Invalid match type"@)
    } else if !is_action_type(rule.action_type@) {
        Err("Invalid action type"@)
    } else if rule.status matches Some(s) && !is_status(s@) {
        Err("Invalid status"@)
    } else {
        match spec_action_plan(rule, facts) {
            Err(e) => Err(e),
            Ok(plan) => Ok(
                match spec_non_blank(opt_view(rule.working_directory)) {
                    Some(d) => plan.push(CheckView::IsDir(d, "Working directory does not exist"@)),
                    None => plan,
                },
            ),
        }
    }
}

// ---------------------------------------------------------------------
// Implementation
// ---------------------------------------------------------------------
/// A text that must not be blank.
pub fn required(field: &str, value: &str) -> (r: Result<(), String>)
    ensures
        unit_result(r) == spec_required(field@, value@),
{
    let t = trim_chars(chars_of(value).as_slice());
    if t.len() == 0 {
        return Err(str_cat(field, " is required"));
    }
    Ok(())
}

/// An optional text that must be present and not blank; it is trimmed.
pub fn required_option(field: &str, value: &Option<String>) -> (r: Result<String, String>)
    ensures
        match r {
            Ok(v) => spec_required_option(field@, opt_view(*value)) == Ok::<Seq<char>, Seq<char>>(
                v@,
            ),
            Err(e) => spec_required_option(field@, opt_view(*value)) == Err::<Seq<char>, Seq<char>>(
                e@,
            ),
        },
{
    match non_blank(value) {
        Some(v) => Ok(v),
        None => Err(str_cat(field, " is required")),
    }
}

/// `validate_match`: the match value needs a non-blank line.
pub fn validate_match(value: &str) -> (r: Result<(), String>)
    ensures
        r is Ok <==> text_lines(value@).len() > 0,
        r matches Err(e) ==> e@ == "Match value cannot be empty"@,
{
    let lines = crate::text::lines_of(chars_of(value).as_slice());
    if lines.len() == 0 {
        return Err(String::from_str("Match value cannot be empty"));
    }
    Ok(())
}

/// `validate_url`, once the URL is parsed.
pub fn url_allowed(u: &UrlParts) -> (r: Result<(), String>)
    ensures
        unit_result(r) == spec_url_allowed(u@),
{
    if str_is(u.scheme.as_str(), "http") || str_is(u.scheme.as_str(), "https") {
        Ok(())
    } else {
        Err(String::from_str("Only http and https URLs are allowed"))
    }
}

/// Only http and https URLs may be opened.
pub fn validate_url(value: &str) -> (r: Result<(), String>)
    ensures
        unit_result(r) == spec_validate_url(value@),
{
    match parse_url(value) {
        Err(_) => Err(String::from_str("Invalid URL")),
        Ok(u) => url_allowed(&u),
    }
}

fn file_checks_exec(field: &str, path: String) -> (r: Vec<PathCheck>)
    ensures
        checks_view(r) == file_checks(field@, path@),
{
    let mut missing = str_cat(field, " path does not exist: ");
    missing.append(path.as_str());
    let mut not_file = str_cat(field, " path is not a file: ");
    not_file.append(path.as_str());
    let r = vec![
        PathCheck::Exists { path: path.clone(), error: missing },
        PathCheck::IsFile { path: path, error: not_file },
    ];
    assert(checks_view(r) =~= file_checks(field@, path@));
    r
}

fn has_separator_exec(v: &[char]) -> (r: bool)
    ensures
        r == has_separator(v@),
{
    let mut i: usize = 0;
    while i < v.len()
        invariant
            i <= v@.len(),
            forall|j: int| 0 <= j < i ==> v@[j] != '/' && v@[j] != '\\',
        decreases v@.len() - i,
    {
        if v[i] == '/' || v[i] == '\\' {
            assert(v@.contains(v@[i as int]));
            return true;
        }
        i = i + 1;
    }
    false
}

/// The checks for a program, given whether its trimmed value is an
/// absolute path and what the working directory joined with it gives.
pub fn program_plan(
    field: &str,
    value: &str,
    working_directory: &Option<String>,
    absolute: bool,
    joined: &str,
) -> (r: Result<Vec<PathCheck>, String>)
    ensures
        plan_view(r) == spec_program_plan(
            field@,
            value@,
            opt_view(*working_directory),
            absolute,
            joined@,
        ),
{
    let v = trim_chars(chars_of(value).as_slice());
    if v.len() == 0 {
        return Err(str_cat(field, " is required"));
    }
    if absolute {
        return Ok(file_checks_exec(field, string_of(v.as_slice())));
    }
    if non_blank(working_directory).is_some() {
        return Ok(file_checks_exec(field, String::from_str(joined)));
    }
    if has_separator_exec(v.as_slice()) {
        Err(str_cat(field, " uses a relative path, so a working directory is required"))
    } else {
        let e: Vec<PathCheck> = Vec::new();
        assert(checks_view(e) =~= Seq::<CheckView>::empty());
        Ok(e)
    }
}

/// `validate_program`: the checks for a program, or the error.
pub fn validate_program(field: &str, value: &str, working_directory: &Option<String>) -> (r: Result<
    Vec<PathCheck>,
    String,
>)
    ensures
        exists|absolute: bool, joined: Seq<char>|
            program_facts_fit(value@, opt_view(*working_directory), absolute, joined) && plan_view(r)
                == spec_program_plan(
                field@,
                value@,
                opt_view(*working_directory),
                absolute,
                joined,
            ),
{
    let v = string_of(trim_chars(chars_of(value).as_slice()).as_slice());
    if v.as_str().unicode_len() == 0 {
        let r = program_plan(field, value, working_directory, false, "");
        assert(program_facts_fit(value@, opt_view(*working_directory), false, ""@));
        return r;
    }
    let absolute = path_is_absolute(v.as_str());
    let joined = if absolute {
        String::new()
    } else {
        match non_blank(working_directory) {
            Some(d) => path_join(d.as_str(), v.as_str()),
            None => String::new(),
        }
    };
    let r = program_plan(field, value, working_directory, absolute, joined.as_str());
    assert(program_facts_fit(value@, opt_view(*working_directory), absolute, joined@));
    r
}

fn extension_checks(field: &str, extension: &Option<String>) -> (r: Vec<PathCheck>)
    ensures
        checks_view(r) == match opt_view(*extension) {
            None => seq![CheckView::Fail(field@ + " must have a valid extension"@)],
            Some(e) => if script_extension(e) {
                Seq::<CheckView>::empty()
            } else {
                seq![CheckView::Fail(field@ + " has an unsupported extension"@)]
            },
        },
{
    match extension {
        None => {
            let r = vec![PathCheck::Fail { error: str_cat(field, " must have a valid extension") }];
            assert(checks_view(r) =~= seq![
                CheckView::Fail(field@ + " must have a valid extension"@),
            ]);
            r
        },
        Some(e) => {
            let ec = chars_of(e.as_str());
            let known = eq_ignore_ascii_case(ec.as_slice(), chars_of("bat").as_slice())
                || eq_ignore_ascii_case(ec.as_slice(), chars_of("cmd").as_slice())
                || eq_ignore_ascii_case(ec.as_slice(), chars_of("ps1").as_slice())
                || eq_ignore_ascii_case(ec.as_slice(), chars_of("sh").as_slice());
            if known {
                let r: Vec<PathCheck> = Vec::new();
                assert(checks_view(r) =~= Seq::<CheckView>::empty());
                r
            } else {
                let r = vec![
                    PathCheck::Fail { error: str_cat(field, " has an unsupported extension") },
                ];
                assert(checks_view(r) =~= seq![
                    CheckView::Fail(field@ + " has an unsupported extension"@),
                ]);
                r
            }
        },
    }
}

/// The checks for a script, given whether its trimmed value is an absolute
/// path, what the working directory joined with it gives, and the
/// extension of the path it resolves to.
pub fn script_plan(
    field: &str,
    value: &str,
    working_directory: &Option<String>,
    absolute: bool,
    joined: &str,
    extension: &Option<String>,
) -> (r: Result<Vec<PathCheck>, String>)
    ensures
        plan_view(r) == spec_script_plan(
            field@,
            value@,
            opt_view(*working_directory),
            absolute,
            joined@,
            opt_view(*extension),
        ),
{
    let v = trim_chars(chars_of(value).as_slice());
    if v.len() == 0 {
        return Err(str_cat(field, " is required"));
    }
    if !absolute && non_blank(working_directory).is_none() {
        return Err(str_cat(field, " must use an absolute path or have a working directory"));
    }
    let resolved = if absolute {
        string_of(v.as_slice())
    } else {
        String::from_str(joined)
    };
    let mut checks = file_checks_exec(field, resolved);
    let tail = extension_checks(field, extension);
    let ghost head = checks_view(checks);
    let mut i: usize = 0;
    while i < tail.len()
        invariant
            i <= tail@.len(),
            checks_view(checks) == head + checks_view(tail).take(i as int),
        decreases tail@.len() - i,
    {
        let ghost prev = checks_view(checks);
        checks.push(tail[i].clone_check());
        assert(checks_view(checks) =~= prev.push(check_view(tail@[i as int])));
        i = i + 1;
        assert(checks_view(tail).take(i as int) == checks_view(tail).take((i - 1) as int).push(
            check_view(tail@[i - 1]),
        ));
        assert(checks_view(checks) =~= head + checks_view(tail).take(i as int));
    }
    assert(checks_view(tail).take(tail@.len() as int) == checks_view(tail));
    Ok(checks)
}

/// `validate_script`: the checks for a script, or the error.
pub fn validate_script(field: &str, value: &str, working_directory: &Option<String>) -> (r: Result<
    Vec<PathCheck>,
    String,
>)
    ensures
        exists|absolute: bool, joined: Seq<char>, extension: Option<Seq<char>>|
            script_facts_fit(value@, opt_view(*working_directory), absolute, joined, extension)
                && plan_view(r)
                == spec_script_plan(
                field@,
                value@,
                opt_view(*working_directory),
                absolute,
                joined,
                extension,
            ),
{
    let v = string_of(trim_chars(chars_of(value).as_slice()).as_slice());
    proof {
        assert(known_extension(""@) is None) by {
            reveal_strlit("");
            assert(final_part(""@) =~= Seq::<char>::empty());
        }
    }
    if v.as_str().unicode_len() == 0 {
        let r = script_plan(field, value, working_directory, false, "", &None);
        assert(script_facts_fit(value@, opt_view(*working_directory), false, ""@, None));
        return r;
    }
    let absolute = path_is_absolute(v.as_str());
    let wd = non_blank(working_directory);
    if !absolute && wd.is_none() {
        let r = script_plan(field, value, working_directory, false, "", &None);
        assert(script_facts_fit(value@, opt_view(*working_directory), false, ""@, None));
        return r;
    }
    let resolved = if absolute {
        v
    } else {
        match wd {
            Some(d) => path_join(d.as_str(), v.as_str()),
            None => v,
        }
    };
    let extension = path_extension(resolved.as_str());
    let r = script_plan(field, value, working_directory, absolute, resolved.as_str(), &extension);
    assert(script_facts_fit(value@, opt_view(*working_directory), absolute, resolved@, opt_view(extension)));
    r
}


impl PathCheck {
    /// A copy of the check.
    pub fn clone_check(&self) -> (r: PathCheck)
        ensures
            check_view(r) == check_view(*self),
    {
        match self {
            PathCheck::Exists { path, error } => PathCheck::Exists {
                path: path.clone(),
                error: error.clone(),
            },
            PathCheck::IsFile { path, error } => PathCheck::IsFile {
                path: path.clone(),
                error: error.clone(),
            },
            PathCheck::IsDir { path, error } => PathCheck::IsDir {
                path: path.clone(),
                error: error.clone(),
            },
            PathCheck::Fail { error } => PathCheck::Fail { error: error.clone() },
        }
    }
}

/// `validate_module`: a module is named and its configuration passes the
/// module's checks for saving.
pub fn validate_module(rule: &AutomationInput) -> (r: Result<(), String>)
    ensures
        unit_result(r) == spec_validate_module(*rule),
{
    let module_id = match required_option("module", &rule.module_id) {
        Ok(m) => m,
        Err(e) => return Err(e),
    };
    let config = match &rule.action_config {
        Some(c) => c,
        None => return Err(String::from_str("Module config is required")),
    };
    validate_config(module_id.as_str(), config, Validation::Save)
}

fn unit_plan(r: Result<(), String>) -> (p: Result<Vec<PathCheck>, String>)
    ensures
        plan_view(p) == match unit_result(r) {
            Ok(()) => Ok::<Seq<CheckView>, Seq<char>>(Seq::empty()),
            Err(e) => Err::<Seq<CheckView>, Seq<char>>(e),
        },
{
    match r {
        Ok(()) => {
            let v: Vec<PathCheck> = Vec::new();
            assert(checks_view(v) =~= Seq::<CheckView>::empty());
            Ok(v)
        },
        Err(e) => Err(e),
    }
}

/// The checks of the action that a rule names.
fn action_plan(rule: &AutomationInput) -> (r: Result<Vec<PathCheck>, String>)
    requires
        is_action_type(rule.action_type@),
    ensures
        exists|facts: PathFacts| facts_fit(*rule, facts) && plan_view(r) == spec_action_plan(*rule, facts),
{
    proof {
        reveal_strlit("runProgram");
        reveal_strlit("runScript");
        reveal_strlit("openUrl");
        reveal_strlit("module");
        assert("runProgram"@.len() == 10);
        assert("runScript"@.len() == 9);
        assert("openUrl"@.len() == 7);
        assert("module"@.len() == 6);
        assert(final_part(Seq::<char>::empty()) =~= Seq::<char>::empty());
        assert(known_extension(Seq::<char>::empty()) is None);
        let raw = match opt_view(rule.action_value) {
            Some(a) => a,
            None => Seq::empty(),
        };
        lemma_trim_idempotent(raw);
        lemma_known_extension_facts(spare_facts(*rule).1);
    }
    let t = rule.action_type.as_str();
    if str_is(t, "runProgram") {
        match required_option("program", &rule.action_value) {
            Err(e) => {
                let r = Err(e);
                assert(plan_view(r) == spec_action_plan(*rule, spare_facts(*rule)));
                assert(facts_fit(*rule, spare_facts(*rule)));
                r
            },
            Ok(p) => {
                let r = validate_program("Program", p.as_str(), &rule.working_directory);
                proof {
                    let (a, j) = choose|a: bool, j: Seq<char>|
                        program_facts_fit(p@, opt_view(rule.working_directory), a, j)
                            && plan_view(r) == spec_program_plan(
                            "Program"@,
                            p@,
                            opt_view(rule.working_directory),
                            a,
                            j,
                        );
                    assert(plan_view(r) == spec_action_plan(*rule, (a, j, None)));
                    assert(facts_fit(*rule, (a, j, None)));
                }
                r
            },
        }
    } else if str_is(t, "runScript") {
        match required_option("script", &rule.action_value) {
            Err(e) => {
                let r = Err(e);
                assert(plan_view(r) == spec_action_plan(*rule, spare_facts(*rule)));
                assert(facts_fit(*rule, spare_facts(*rule)));
                r
            },
            Ok(p) => {
                let r = validate_script("Script", p.as_str(), &rule.working_directory);
                proof {
                    let (a, j, x) = choose|a: bool, j: Seq<char>, x: Option<Seq<char>>|
                        script_facts_fit(p@, opt_view(rule.working_directory), a, j, x)
                            && plan_view(r) == spec_script_plan(
                            "Script"@,
                            p@,
                            opt_view(rule.working_directory),
                            a,
                            j,
                            x,
                        );
                    assert(plan_view(r) == spec_action_plan(*rule, (a, j, x)));
                    assert(facts_fit(*rule, (a, j, x)));
                }
                r
            },
        }
    } else if str_is(t, "openUrl") {
        let r = match required_option("url", &rule.action_value) {
            Err(e) => Err(e),
            Ok(u) => unit_plan(validate_url(u.as_str())),
        };
        assert(plan_view(r) == spec_action_plan(*rule, spare_facts(*rule)));
                assert(facts_fit(*rule, spare_facts(*rule)));
        r
    } else {
        let r = unit_plan(validate_module(rule));
        assert(plan_view(r) == spec_action_plan(*rule, spare_facts(*rule)));
                assert(facts_fit(*rule, spare_facts(*rule)));
        r
    }
}

fn one_of(value: &str, a: &str, b: &str, c: &str) -> (r: bool)
    ensures
        r == (value@ == a@ || value@ == b@ || value@ == c@),
{
    str_is(value, a) || str_is(value, b) || str_is(value, c)
}

/// `validate_rule`: the verdict on a rule before it is saved.  `Ok` holds
/// the file system checks that remain, in order: the rule is valid when
/// all of them pass, and otherwise the first that fails gives the error.
pub fn validate_rule(rule: &AutomationInput) -> (r: Result<Vec<PathCheck>, String>)
    ensures
        exists|facts: PathFacts| facts_fit(*rule, facts) && plan_view(r) == spec_validate_rule(*rule, facts),
{
    let ghost fail: PathFacts = spare_facts(*rule);
    proof {
        assert(final_part(Seq::<char>::empty()) =~= Seq::<char>::empty());
        lemma_known_extension_facts(fail.1);
        assert(facts_fit(*rule, fail));
    }
    let r0 = required("id", rule.id.as_str());
    if r0.is_err() {
        let r = Err(String::from_str("id is required"));
        assert(plan_view(r) == spec_validate_rule(*rule, fail));
        return r;
    }
    if required("name", rule.name.as_str()).is_err() {
        let r = Err(String::from_str("name is required"));
        assert(plan_view(r) == spec_validate_rule(*rule, fail));
        return r;
    }
    if required("topic", rule.topic.as_str()).is_err() {
        let r = Err(String::from_str("topic is required"));
        assert(plan_view(r) == spec_validate_rule(*rule, fail));
        return r;
    }
    if required("matchValue", rule.match_value.as_str()).is_err() {
        let r = Err(String::from_str("matchValue is required"));
        assert(plan_view(r) == spec_validate_rule(*rule, fail));
        return r;
    }
    if validate_match(rule.match_value.as_str()).is_err() {
        let r = Err(String::from_str("Match value cannot be empty"));
        assert(plan_view(r) == spec_validate_rule(*rule, fail));
        return r;
    }
    if !one_of(rule.match_type.as_str(), "equals", "contains", "startsWith") {
        let r = Err(String::from_str("Invalid match type"));
        assert(plan_view(r) == spec_validate_rule(*rule, fail));
        return r;
    }
    let t = rule.action_type.as_str();
    if !(str_is(t, "runProgram") || str_is(t, "runScript") || str_is(t, "openUrl") || str_is(
        t,
        "module",
    )) {
        let r = Err(String::from_str("Invalid action type"));
        assert(plan_view(r) == spec_validate_rule(*rule, fail));
        return r;
    }
    if let Some(s) = &rule.status {
        if !one_of(s.as_str(), "success", "failed", "never") {
            let r = Err(String::from_str("Invalid status"));
            assert(plan_view(r) == spec_validate_rule(*rule, fail));
            return r;
        }
    }
    let plan = action_plan(rule);
    let ghost facts = choose|facts: PathFacts|
        facts_fit(*rule, facts) && plan_view(plan) == spec_action_plan(*rule, facts);
    let mut checks = match plan {
        Ok(c) => c,
        Err(e) => {
            let r = Err(e);
            assert(plan_view(r) == spec_validate_rule(*rule, facts));
            return r;
        },
    };
    let ghost before = checks_view(checks);
    match non_blank(&rule.working_directory) {
        Some(d) => {
            checks.push(
                PathCheck::IsDir { path: d, error: String::from_str("Working directory does not exist") },
            );
            assert(checks_view(checks) =~= before.push(
                CheckView::IsDir(d@, "Working directory does not exist"@),
            ));
        },
        None => {},
    }
    let r = Ok(checks);
    assert(plan_view(r) == spec_validate_rule(*rule, facts));
    r
}

} // verus!
