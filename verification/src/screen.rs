//! Where a screenshot is saved: a safe file name with the `png` extension,
//! numbered when taken, and the monitor it is taken of.
use vstd::prelude::*;

use crate::text::{chars_of, decimal, decimal_chars, eq_ic, slice, string_of, trim, trim_chars};

verus! {

/// A character that no file name keeps: path separators and the other
/// characters that some file systems refuse.
pub open spec fn illegal_char(c: char) -> bool {
    c == '/' || c == '?' || c == '<' || c == '>' || c == '\\' || c == ':' || c == '*' || c == '|'
        || c == '"'
}

/// A control character (`U+0000..=U+001F` or `U+0080..=U+009F`).
pub open spec fn control_char(c: char) -> bool {
    (c as u32) <= 0x1f || (0x80 <= (c as u32) && (c as u32) <= 0x9f)
}

/// Text with neither illegal nor control characters.
pub open spec fn clean_name(s: Seq<char>) -> bool {
    forall|i: int| 0 <= i < s.len() ==> !illegal_char(#[trigger] s[i]) && !control_char(s[i])
}

/// How many bytes a character takes in UTF-8.
pub open spec fn utf8_width(c: char) -> nat {
    let n = c as u32;
    if n < 0x80 {
        1
    } else if n < 0x800 {
        2
    } else if n < 0x10000 {
        3
    } else {
        4
    }
}

/// How many bytes a text takes in UTF-8.
pub open spec fn utf8_len(s: Seq<char>) -> nat
    decreases s.len(),
{
    if s.len() == 0 {
        0
    } else {
        utf8_len(s.drop_last()) + utf8_width(s.last())
    }
}

/// A name made of dots only.
pub open spec fn dots_only(s: Seq<char>) -> bool {
    s.len() > 0 && forall|i: int| 0 <= i < s.len() ==> #[trigger] s[i] == '.'
}

/// The text before the first `.`, or the whole text.
pub open spec fn before_first_dot(s: Seq<char>) -> Seq<char>
    decreases s.len(),
{
    if s.len() == 0 || s[0] == '.' {
        Seq::empty()
    } else {
        seq![s[0]] + before_first_dot(s.drop_first())
    }
}

/// A device name that Windows reserves, in any ASCII case, alone or
/// followed by an extension: `con`, `prn`, `aux`, `nul`, `com0` to `com9`
/// and `lpt0` to `lpt9`.
pub open spec fn windows_reserved(s: Seq<char>) -> bool {
    let w = before_first_dot(s);
    ||| eq_ic(w, "con"@)
    ||| eq_ic(w, "prn"@)
    ||| eq_ic(w, "aux"@)
    ||| eq_ic(w, "nul"@)
    ||| w.len() == 4 && (eq_ic(w.take(3), "com"@) || eq_ic(w.take(3), "lpt"@)) && '0' <= w[3]
        <= '9'
}

/// A name that `sanitize` keeps as it is on every platform: no illegal or
/// control character, not dots only, at most 255 bytes, not ending in a
/// dot or a space, and no reserved Windows device name.
pub open spec fn kept_by_sanitize(s: Seq<char>) -> bool {
    &&& clean_name(s)
    &&& !dots_only(s)
    &&& utf8_len(s) <= 255
    &&& !(s.len() > 0 && (s.last() == '.' || s.last() == ' '))
    &&& !windows_reserved(s)
}

/// `sanitize_filename::sanitize` makes a file name safe: it removes the
/// illegal and control characters, blanks a name made of dots only and
/// keeps at most 255 bytes; on Windows it also blanks reserved device names
/// and drops trailing dots and spaces. Claimed here, on every platform: the
/// result has no illegal or control character and is no longer than the
/// name; and a name that none of these steps touches on any platform
/// (`kept_by_sanitize`) is returned as it is.  Which characters go from
/// other names is left unsaid, as the rules differ between platforms.
#[verifier::external_body]
fn sanitized(name: &str) -> (r: String)
    ensures
        clean_name(r@),
        r@.len() <= name@.len(),
        kept_by_sanitize(name@) ==> r@ == name@,
{
    sanitize_filename::sanitize(name)
}

/// The file stem of a one-part file name, as `Path::file_stem` reads it:
/// the part before the last `.`, unless that `.` starts the name.
pub open spec fn file_stem(name: Seq<char>) -> Seq<char> {
    if exists|k: int| 0 < k < name.len() && name[k] == '.' {
        let k = choose|k: int|
            0 < k < name.len() && name[k] == '.' && forall|j: int|
                k < j < name.len() ==> name[j] != '.';
        name.take(k)
    } else {
        name
    }
}

/// A name that is one part on every platform: no `/`, no `\\` and no `:`
/// (which may start a drive on Windows) in it.
pub open spec fn single_part(name: Seq<char>) -> bool {
    forall|i: int|
        0 <= i < name.len() ==> #[trigger] name[i] != '/' && name[i] != '\\' && name[i] != ':'
}

/// Whether a name is one part on every platform.
fn single_part_exec(name: &[char]) -> (r: bool)
    ensures
        r == single_part(name@),
{
    let mut i: usize = 0;
    while i < name.len()
        invariant
            i <= name@.len(),
            forall|j: int| 0 <= j < i ==> #[trigger] name@[j] != '/' && name@[j] != '\\'
                && name@[j] != ':',
        decreases name@.len() - i,
    {
        if name[i] == '/' || name[i] == '\\' || name[i] == ':' {
            return false;
        }
        i = i + 1;
    }
    true
}

/// Calls `PathBuf::set_extension` on the path and returns the new path as
/// text.  Nothing is claimed of the result: for a path with a separator or
/// a `:` it depends on the platform's path syntax.
#[verifier::external_body]
fn path_set_extension(path: &str, extension: &str) -> String {
    let mut p = std::path::PathBuf::from(path);
    p.set_extension(extension);
    p.to_string_lossy().into_owned()
}

/// Calls `Path::file_name` on the path and returns the file name, where it
/// has one.  Nothing is claimed of the result: for a path with a separator
/// or a `:` it depends on the platform's path syntax.
#[verifier::external_body]
fn path_file_name(path: &str) -> Option<String> {
    std::path::Path::new(path).file_name().and_then(|v| v.to_str()).map(String::from)
}

/// Calls `Path::file_stem` on the name and returns the stem, where it has
/// one.  Nothing is claimed of the result: for a name with a separator or
/// a `:` it depends on the platform's path syntax.
#[verifier::external_body]
fn path_file_stem(name: &str) -> Option<String> {
    std::path::Path::new(name).file_stem().and_then(|v| v.to_str()).map(String::from)
}

/// Whether the name is a file name at all (not empty, `.` or `..`).
pub open spec fn names_file(name: Seq<char>) -> bool {
    name.len() > 0 && name != "."@ && name != ".."@
}

/// `png_extension`: the name with its extension set to `png`, or `None`
/// where it names no file.
pub open spec fn spec_png_name(name: Seq<char>) -> Option<Seq<char>> {
    if names_file(name) {
        Some(file_stem(name) + ".png"@)
    } else {
        None
    }
}

/// The position of the last `.` after the first character, if any.
fn last_dot(name: &[char]) -> (r: Option<usize>)
    ensures
        match r {
            Some(k) => 0 < k < name@.len() && name@[k as int] == '.' && forall|j: int|
                k < j < name@.len() ==> name@[j] != '.',
            None => forall|k: int| 0 < k < name@.len() ==> name@[k] != '.',
        },
{
    let mut i = name.len();
    while i > 1
        invariant
            1 <= i <= name@.len() || (i == 0 && name@.len() == 0),
            forall|j: int| i <= j < name@.len() ==> name@[j] != '.',
        decreases i,
    {
        if name[i - 1] == '.' {
            return Some(i - 1);
        }
        i = i - 1;
    }
    None
}

/// The file stem of a one-part file name.
fn stem_of(name: &[char]) -> (r: Vec<char>)
    ensures
        r@ == file_stem(name@),
{
    match last_dot(name) {
        Some(k) => {
            let ghost c = choose|c: int|
                0 < c < name@.len() && name@[c] == '.' && forall|j: int|
                    c < j < name@.len() ==> name@[j] != '.';
            assert(c == k as int) by {
                if c < k {
                } else if c > k {
                }
            }
            slice(name, 0, k)
        },
        None => slice(name, 0, name.len()),
    }
}

/// Whether a one-part name names a file.
fn names_file_exec(name: &[char]) -> (r: bool)
    ensures
        r == names_file(name@),
{
    proof {
        reveal_strlit(".");
        reveal_strlit("..");
    }
    proof {
        assert("."@.len() == 1 && "."@[0] == '.');
        assert(".."@.len() == 2 && ".."@[0] == '.' && ".."@[1] == '.');
    }
    if name.len() == 0 {
        false
    } else if name.len() == 1 {
        proof {
            if name@[0] == '.' {
                assert(name@ =~= "."@);
            }
        }
        name[0] != '.'
    } else if name.len() == 2 {
        proof {
            if name@[0] == '.' && name@[1] == '.' {
                assert(name@ =~= ".."@);
            }
        }
        !(name[0] == '.' && name[1] == '.')
    } else {
        true
    }
}

/// The name with the `png` extension, or `None` where it names no file.
pub fn png_extension(name: &str) -> (r: Option<String>)
    ensures
        single_part(name@) ==> match r {
            Some(n) => spec_png_name(name@) == Some(n@),
            None => spec_png_name(name@) is None,
        },
{
    let chars = chars_of(name);
    if !single_part_exec(chars.as_slice()) {
        let with_png = path_set_extension(name, "png");
        return path_file_name(with_png.as_str());
    }
    if !names_file_exec(chars.as_slice()) {
        return None;
    }
    let mut stem = stem_of(chars.as_slice());
    stem.push('.');
    stem.push('p');
    stem.push('n');
    stem.push('g');
    proof {
        reveal_strlit(".png");
    }
    Some(string_of(stem.as_slice()))
}

/// The file name a screenshot gets from an already sanitized name: the
/// name with the `png` extension, the fallback standing in for an empty
/// name and for one that names no file.
pub open spec fn spec_file_name_from(sanitized: Seq<char>, fallback: Seq<char>) -> Seq<char> {
    let name = if sanitized.len() == 0 {
        fallback
    } else {
        sanitized
    };
    match spec_png_name(name) {
        Some(n) => n,
        None => fallback,
    }
}

/// `unique_path`, the first file name, from the sanitized name.
pub fn file_name_from(sanitized: &str, fallback: &str) -> (r: String)
    ensures
        single_part(sanitized@) && single_part(fallback@) ==> r@ == spec_file_name_from(
            sanitized@,
            fallback@,
        ),
{
    let name = if chars_of(sanitized).len() == 0 {
        fallback
    } else {
        sanitized
    };
    match png_extension(name) {
        Some(n) => n,
        None => String::from_str(fallback),
    }
}

/// `unique_path`, the first file name: the configured name trimmed and
/// sanitized, then given the `png` extension; the fallback (the time-stamped
/// default name) where nothing usable is left.
pub fn screenshot_file_name(filename: &str, fallback: &str) -> (r: String)
    ensures
        single_part(fallback@) ==> exists|s: Seq<char>|
            clean_name(s) && s.len() <= trim(filename@).len() && r@ == spec_file_name_from(
                s,
                fallback@,
            ),
        single_part(fallback@) && kept_by_sanitize(trim(filename@)) ==> r@ == spec_file_name_from(
            trim(filename@),
            fallback@,
        ),
{
    let trimmed = string_of(trim_chars(chars_of(filename).as_slice()).as_slice());
    let clean = sanitized(trimmed.as_str());
    proof {
        assert forall|i: int| 0 <= i < clean@.len() implies #[trigger] clean@[i] != '/'
            && clean@[i] != '\\' && clean@[i] != ':' by {
            assert(!illegal_char(clean@[i]));
        }
    }
    file_name_from(clean.as_str(), fallback)
}

/// `unique_path`, the stem that numbered names are built on: the file stem
/// of the first name, or `screenshot` where it has none.
pub fn screenshot_stem(name: &str) -> (r: String)
    ensures
        single_part(name@) ==> r@ == if names_file(name@) {
            file_stem(name@)
        } else {
            "screenshot"@
        },
{
    let chars = chars_of(name);
    if !single_part_exec(chars.as_slice()) {
        return match path_file_stem(name) {
            Some(stem) => stem,
            None => String::from_str("screenshot"),
        };
    }
    if names_file_exec(chars.as_slice()) {
        string_of(stem_of(chars.as_slice()).as_slice())
    } else {
        String::from_str("screenshot")
    }
}

/// `unique_path`, a later candidate: the stem, a dash, the number and `.png`.
pub fn numbered_file_name(stem: &str, index: u64) -> (r: String)
    ensures
        r@ == stem@ + "-"@ + decimal(index as nat) + ".png"@,
{
    let mut out = chars_of(stem);
    out.push('-');
    let digits = decimal_chars(index);
    let mut i: usize = 0;
    let ghost start = out@;
    while i < digits.len()
        invariant
            i <= digits@.len(),
            out@ == start + digits@.take(i as int),
        decreases digits@.len() - i,
    {
        out.push(digits[i]);
        i = i + 1;
        assert(digits@.take(i as int) == digits@.take(i - 1).push(digits@[i - 1]));
    }
    assert(digits@.take(digits@.len() as int) == digits@);
    out.push('.');
    out.push('p');
    out.push('n');
    out.push('g');
    proof {
        reveal_strlit("-");
        reveal_strlit(".png");
        assert(out@ =~= stem@ + "-"@ + decimal(index as nat) + ".png"@);
    }
    string_of(out.as_slice())
}

/// The message for a machine with no monitor.
pub open spec fn no_monitor() -> Seq<char> {
    "No monitors found"@
}

/// `primary_monitor`, the choice: the first monitor that reports itself
/// primary, else the first one; an error when there is none.
pub fn choose_monitor(primary: &Vec<bool>) -> (r: Result<usize, String>)
    ensures
        primary@.len() == 0 <==> r is Err,
        r matches Err(e) ==> e@ == no_monitor(),
        r matches Ok(i) ==> i < primary@.len() && (if exists|k: int|
            0 <= k < primary@.len() && primary@[k] {
            primary@[i as int] && forall|k: int| 0 <= k < i ==> !primary@[k]
        } else {
            i == 0
        }),
{
    if primary.len() == 0 {
        return Err(String::from_str("No monitors found"));
    }
    let mut i: usize = 0;
    while i < primary.len()
        invariant
            i <= primary@.len(),
            primary@.len() > 0,
            forall|k: int| 0 <= k < i ==> !primary@[k],
        decreases primary@.len() - i,
    {
        if primary[i] {
            return Ok(i);
        }
        i = i + 1;
    }
    Ok(0)
}

} // verus!
