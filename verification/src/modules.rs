//! The action modules a rule can call: their configuration fields, the
//! validation of a configuration, and the request that a module call makes.
use vstd::prelude::*;

use crate::matcher::{value_token, MatchContext};
use crate::models::{ActionConfig, AutomationRule, ConfigValue};
use crate::text::{
    chars_of, contains, contains_exec, non_blank, opt_view, spec_non_blank, str_cat, str_is,
    string_of, trim, trim_chars,
};
use crate::tokens::{replace_tokens, spec_replace_tokens};

verus! {

#[derive(Clone, Copy, PartialEq, Eq, Structural, Debug)]
pub enum Validation {
    Save,
    Execute,
}

#[derive(Clone, Copy, PartialEq, Eq, Structural, Debug)]
pub enum FieldKind {
    Number,
    Boolean,
    Text,
    Select,
}

/// A numeric bound: the bits of its `f64` value and how it prints.
#[derive(Debug, Clone)]
pub struct Bound {
    pub bits: u64,
    pub text: String,
}

/// One configuration field of a module.
#[derive(Debug, Clone)]
pub struct ModuleField {
    pub key: String,
    pub kind: FieldKind,
    pub min: Option<Bound>,
    pub max: Option<Bound>,
    pub allow_variables: bool,
    pub options: Vec<String>,
}

/// A field as a plain value: key, kind, bounds, whether `$value` may
/// stand in it, and its options.
pub type FieldSpec = (
    Seq<char>,
    FieldKind,
    Option<(u64, Seq<char>)>,
    Option<(u64, Seq<char>)>,
    bool,
    Seq<Seq<char>>,
);

pub open spec fn bound_view(b: Option<Bound>) -> Option<(u64, Seq<char>)> {
    match b {
        Some(b) => Some((b.bits, b.text@)),
        None => None,
    }
}

impl View for ModuleField {
    type V = FieldSpec;

    open spec fn view(&self) -> FieldSpec {
        (
            self.key@,
            self.kind,
            bound_view(self.min),
            bound_view(self.max),
            self.allow_variables,
            self.options.deep_view(),
        )
    }
}

/// The groups of modules, in the order they are looked up.
#[derive(Clone, Copy, PartialEq, Eq, Structural, Debug)]
pub enum ModuleGroup {
    Sound,
    System,
    Screen,
}

/// The bits of the `f64` values 0, 1 and 100.
pub open spec fn zero_bits() -> u64 {
    0
}

pub open spec fn one_bits() -> u64 {
    0x3FF0_0000_0000_0000
}

pub open spec fn hundred_bits() -> u64 {
    0x4059_0000_0000_0000
}

pub open spec fn number_field(key: Seq<char>, min: (u64, Seq<char>)) -> FieldSpec {
    (key, FieldKind::Number, Some(min), Some((hundred_bits(), "100"@)), true, Seq::empty())
}

pub open spec fn text_field(key: Seq<char>) -> FieldSpec {
    (key, FieldKind::Text, None, None, true, Seq::empty())
}

/// The group that owns a module.
pub open spec fn group_of(module_id: Seq<char>) -> Option<ModuleGroup> {
    if module_id == "setVolume"@ || module_id == "increaseVolume"@ || module_id
        == "decreaseVolume"@ || module_id == "toggleMute"@ {
        Some(ModuleGroup::Sound)
    } else if module_id == "hibernate"@ || module_id == "logout"@ || module_id == "reboot"@
        || module_id == "shutdown"@ || module_id == "sleep"@ {
        Some(ModuleGroup::System)
    } else if module_id == "takeScreenshot"@ {
        Some(ModuleGroup::Screen)
    } else {
        None
    }
}

/// The configuration fields of a module (`None` for an unknown module).
pub open spec fn spec_fields(module_id: Seq<char>) -> Option<Seq<FieldSpec>> {
    if module_id == "setVolume"@ {
        Some(seq![number_field("volume"@, (zero_bits(), "0"@))])
    } else if module_id == "increaseVolume"@ || module_id == "decreaseVolume"@ {
        Some(seq![number_field("amount"@, (one_bits(), "1"@))])
    } else if group_of(module_id) is Some && module_id != "takeScreenshot"@ {
        Some(Seq::empty())
    } else if module_id == "takeScreenshot"@ {
        Some(seq![text_field("directory"@), text_field("filename"@)])
    } else {
        None
    }
}

fn number_field_exec(key: &str, min_bits: u64, min_text: &str) -> (f: ModuleField)
    ensures
        f@ == number_field(key@, (min_bits, min_text@)),
{
    let f = ModuleField {
        key: String::from_str(key),
        kind: FieldKind::Number,
        min: Some(Bound { bits: min_bits, text: String::from_str(min_text) }),
        max: Some(Bound { bits: 0x4059_0000_0000_0000, text: String::from_str("100") }),
        allow_variables: true,
        options: Vec::new(),
    };
    assert(f.options.deep_view() =~= Seq::<Seq<char>>::empty());
    f
}

fn text_field_exec(key: &str) -> (f: ModuleField)
    ensures
        f@ == text_field(key@),
{
    let f = ModuleField {
        key: String::from_str(key),
        kind: FieldKind::Text,
        min: None,
        max: None,
        allow_variables: true,
        options: Vec::new(),
    };
    assert(f.options.deep_view() =~= Seq::<Seq<char>>::empty());
    f
}

pub open spec fn fields_view(v: Vec<ModuleField>) -> Seq<FieldSpec> {
    v@.map_values(|f: ModuleField| f@)
}

/// The group that owns a module, if any module has that name.
pub fn module_group(module_id: &str) -> (r: Option<ModuleGroup>)
    ensures
        r == group_of(module_id@),
{
    if str_is(module_id, "setVolume") || str_is(module_id, "increaseVolume") || str_is(
        module_id,
        "decreaseVolume",
    ) || str_is(module_id, "toggleMute") {
        Some(ModuleGroup::Sound)
    } else if str_is(module_id, "hibernate") || str_is(module_id, "logout") || str_is(
        module_id,
        "reboot",
    ) || str_is(module_id, "shutdown") || str_is(module_id, "sleep") {
        Some(ModuleGroup::System)
    } else if str_is(module_id, "takeScreenshot") {
        Some(ModuleGroup::Screen)
    } else {
        None
    }
}

/// `fields`: the configuration fields of a module, `None` for an unknown
/// module.
pub fn fields(module_id: &str) -> (r: Option<Vec<ModuleField>>)
    ensures
        match r {
            Some(v) => spec_fields(module_id@) == Some(fields_view(v)),
            None => spec_fields(module_id@) is None,
        },
{
    if str_is(module_id, "setVolume") {
        let v = vec![number_field_exec("volume", 0, "0")];
        assert(fields_view(v) =~= seq![number_field("volume"@, (zero_bits(), "0"@))]);
        Some(v)
    } else if str_is(module_id, "increaseVolume") || str_is(module_id, "decreaseVolume") {
        let v = vec![number_field_exec("amount", 0x3FF0_0000_0000_0000, "1")];
        assert(fields_view(v) =~= seq![number_field("amount"@, (one_bits(), "1"@))]);
        Some(v)
    } else if str_is(module_id, "takeScreenshot") {
        let v = vec![text_field_exec("directory"), text_field_exec("filename")];
        assert(fields_view(v) =~= seq![text_field("directory"@), text_field("filename"@)]);
        Some(v)
    } else if module_group(module_id).is_some() {
        let v: Vec<ModuleField> = Vec::new();
        assert(fields_view(v) =~= Seq::<FieldSpec>::empty());
        Some(v)
    } else {
        None
    }
}

// ---------------------------------------------------------------------
// Numbers, read from the bits of an f64
// ---------------------------------------------------------------------
/// The `f64` with these bits is neither infinite nor NaN.
pub open spec fn bits_finite(b: u64) -> bool {
    (b / 0x10_0000_0000_0000) % 0x800 != 0x7FF
}

/// A key that orders finite `f64` values by their bits: sign and
/// magnitude, with both zeros equal.
pub open spec fn bits_key(b: u64) -> int {
    if b >= 0x8000_0000_0000_0000 {
        -(b - 0x8000_0000_0000_0000)
    } else {
        b as int
    }
}

/// `a < b` for finite `f64` values given by their bits.
pub open spec fn bits_lt(a: u64, b: u64) -> bool {
    bits_key(a) < bits_key(b)
}

fn finite_exec(b: u64) -> (r: bool)
    ensures
        r == bits_finite(b),
{
    (b / 0x10_0000_0000_0000) % 0x800 != 0x7FF
}

fn lt_exec(a: u64, b: u64) -> (r: bool)
    ensures
        r == bits_lt(a, b),
{
    let top: u64 = 0x8000_0000_0000_0000;
    let sa = a >= top;
    let sb = b >= top;
    if !sa && !sb {
        a < b
    } else if sa && sb {
        b - top < a - top
    } else if sa {
        !(a - top == 0 && b == 0)
    } else {
        false
    }
}

// ---------------------------------------------------------------------
// Validation
// ---------------------------------------------------------------------
/// The name under which a field is reported: `module.key`.
pub open spec fn field_name(module_id: Seq<char>, f: FieldSpec) -> Seq<char> {
    module_id + "."@ + f.0
}

pub open spec fn check_bits(name: Seq<char>, f: FieldSpec, b: u64) -> Result<(), Seq<char>> {
    let (_, _, min, max, _, _) = f;
    if !bits_finite(b) {
        Err(name + " must be finite"@)
    } else {
        match min {
            Some((low, low_text)) if bits_lt(b, low) => Err(name + " must be at least "@ + low_text),
            _ => match max {
                Some((high, high_text)) if bits_lt(high, b) => Err(
                    name + " must be at most "@ + high_text,
                ),
                _ => Ok(()),
            },
        }
    }
}

pub open spec fn check_number(
    module_id: Seq<char>,
    f: FieldSpec,
    value: ConfigValue,
    mode: Validation,
) -> Result<(), Seq<char>> {
    let name = field_name(module_id, f);
    match value {
        ConfigValue::Number(Some(b)) => check_bits(name, f, b),
        ConfigValue::Number(None) => Err(name + " must be a valid number"@),
        ConfigValue::Text { text, number } => if contains(trim(text@), value_token()) {
            if f.4 && mode == Validation::Save {
                Ok(())
            } else {
                Err(name + " cannot contain unresolved variables during execution"@)
            }
        } else {
            match number {
                Some(b) => check_bits(name, f, b),
                None => Err(name + " must be a number"@),
            }
        },
        _ => Err(name + " must be a number"@),
    }
}

pub open spec fn check_boolean(module_id: Seq<char>, f: FieldSpec, value: ConfigValue) -> Result<
    (),
    Seq<char>,
> {
    match value {
        ConfigValue::Bool(_) => Ok(()),
        ConfigValue::Text { text, .. } => if text@ == "true"@ || text@ == "false"@ {
            Ok(())
        } else {
            Err(field_name(module_id, f) + " must be true or false"@)
        },
        _ => Err(field_name(module_id, f) + " must be true or false"@),
    }
}

pub open spec fn check_text(
    module_id: Seq<char>,
    f: FieldSpec,
    value: ConfigValue,
    mode: Validation,
) -> Result<(), Seq<char>> {
    match value {
        ConfigValue::Text { text, .. } => if contains(text@, value_token()) && (!f.4 || mode
            == Validation::Execute) {
            Err(field_name(module_id, f) + " contains an invalid variable"@)
        } else {
            Ok(())
        },
        _ => Err(field_name(module_id, f) + " must be text"@),
    }
}

pub open spec fn check_select(
    module_id: Seq<char>,
    f: FieldSpec,
    value: ConfigValue,
    mode: Validation,
) -> Result<(), Seq<char>> {
    match value {
        ConfigValue::Text { text, .. } => if contains(text@, value_token()) {
            if f.4 && mode == Validation::Save {
                Ok(())
            } else {
                Err(field_name(module_id, f) + " contains an invalid variable"@)
            }
        } else if !f.5.contains(text@) {
            Err(field_name(module_id, f) + " is not a valid option"@)
        } else {
            Ok(())
        },
        _ => Err(field_name(module_id, f) + " must be a valid option"@),
    }
}

/// The verdict on one field's value.
pub open spec fn check_field(
    module_id: Seq<char>,
    f: FieldSpec,
    value: ConfigValue,
    mode: Validation,
) -> Result<(), Seq<char>> {
    match f.1 {
        FieldKind::Number => check_number(module_id, f, value, mode),
        FieldKind::Boolean => check_boolean(module_id, f, value),
        FieldKind::Text => check_text(module_id, f, value, mode),
        FieldKind::Select => check_select(module_id, f, value, mode),
    }
}

/// The value stored under `key`: the first entry with that key.
pub open spec fn lookup(config: Seq<(String, ConfigValue)>, key: Seq<char>, k: int) -> Option<
    ConfigValue,
>
    decreases config.len() - k,
{
    if k < 0 || k >= config.len() {
        None
    } else if config[k].0@ == key {
        Some(config[k].1)
    } else {
        lookup(config, key, k + 1)
    }
}

/// Whether some field has this key.
pub open spec fn has_field(fs: Seq<FieldSpec>, key: Seq<char>) -> bool {
    exists|i: int| 0 <= i < fs.len() && (#[trigger] fs[i]).0 == key
}

/// The first entry, from `k` on, whose key is no field's: its key.
pub open spec fn first_unknown(fs: Seq<FieldSpec>, config: Seq<(String, ConfigValue)>, k: int) -> Option<
    Seq<char>,
>
    decreases config.len() - k,
{
    if k < 0 || k >= config.len() {
        None
    } else if !has_field(fs, config[k].0@) {
        Some(config[k].0@)
    } else {
        first_unknown(fs, config, k + 1)
    }
}

/// The verdict on the fields from `j` on, in order.
pub open spec fn check_fields(
    module_id: Seq<char>,
    fs: Seq<FieldSpec>,
    config: Seq<(String, ConfigValue)>,
    mode: Validation,
    j: int,
) -> Result<(), Seq<char>>
    decreases fs.len() - j,
{
    if j < 0 || j >= fs.len() {
        Ok(())
    } else {
        match lookup(config, fs[j].0, 0) {
            None => Err(module_id + " is missing config field: "@ + fs[j].0),
            Some(v) => match check_field(module_id, fs[j], v, mode) {
                Err(e) => Err(e),
                Ok(()) => check_fields(module_id, fs, config, mode, j + 1),
            },
        }
    }
}

/// The verdict on a module's configuration.
pub open spec fn spec_validate_config(
    module_id: Seq<char>,
    config: Seq<(String, ConfigValue)>,
    mode: Validation,
) -> Result<(), Seq<char>> {
    match spec_fields(module_id) {
        None => Err("Unknown module: "@ + module_id),
        Some(fs) => match first_unknown(fs, config, 0) {
            Some(key) => Err(module_id + " has unknown config field: "@ + key),
            None => check_fields(module_id, fs, config, mode, 0),
        },
    }
}

pub open spec fn unit_result(r: Result<(), String>) -> Result<(), Seq<char>> {
    match r {
        Ok(()) => Ok(()),
        Err(e) => Err(e@),
    }
}

/// `module.key`
fn field_name_exec(module_id: &str, field: &ModuleField) -> (r: String)
    ensures
        r@ == field_name(module_id@, field@),
{
    let mut s = str_cat(module_id, ".");
    s.append(field.key.as_str());
    s
}

fn err_with(name: String, suffix: &str) -> (r: Result<(), String>)
    ensures
        r == Err::<(), String>(r->Err_0),
        r->Err_0@ == name@ + suffix@,
{
    let mut s = name;
    s.append(suffix);
    Err(s)
}

fn check_bits_exec(name: String, field: &ModuleField, b: u64) -> (r: Result<(), String>)
    ensures
        unit_result(r) == check_bits(name@, field@, b),
{
    if !finite_exec(b) {
        return err_with(name, " must be finite");
    }
    if let Some(m) = &field.min {
        if lt_exec(b, m.bits) {
            let mut s = name;
            s.append(" must be at least ");
            s.append(m.text.as_str());
            return Err(s);
        }
    }
    if let Some(m) = &field.max {
        if lt_exec(m.bits, b) {
            let mut s = name;
            s.append(" must be at most ");
            s.append(m.text.as_str());
            return Err(s);
        }
    }
    Ok(())
}

/// The check of a number field.
fn validate_number(module_id: &str, field: &ModuleField, value: &ConfigValue, mode: Validation) -> (r:
    Result<(), String>)
    ensures
        unit_result(r) == check_number(module_id@, field@, *value, mode),
{
    let name = field_name_exec(module_id, field);
    match value {
        ConfigValue::Number(Some(b)) => check_bits_exec(name, field, *b),
        ConfigValue::Number(None) => err_with(name, " must be a valid number"),
        ConfigValue::Text { text, number } => {
            let t = trim_chars(chars_of(text.as_str()).as_slice());
            let token = chars_of("$value");
            proof {
                reveal_strlit("$value");
                assert(token@ =~= value_token());
            }
            if contains_exec(t.as_slice(), token.as_slice()) {
                if field.allow_variables && mode == Validation::Save {
                    return Ok(());
                }
                return err_with(name, " cannot contain unresolved variables during execution");
            }
            match number {
                Some(b) => check_bits_exec(name, field, *b),
                None => err_with(name, " must be a number"),
            }
        },
        _ => err_with(name, " must be a number"),
    }
}

/// The check of a boolean field.
fn validate_boolean(module_id: &str, field: &ModuleField, value: &ConfigValue) -> (r: Result<
    (),
    String,
>)
    ensures
        unit_result(r) == check_boolean(module_id@, field@, *value),
{
    match value {
        ConfigValue::Bool(_) => Ok(()),
        ConfigValue::Text { text, .. } => {
            if str_is(text.as_str(), "true") || str_is(text.as_str(), "false") {
                Ok(())
            } else {
                err_with(field_name_exec(module_id, field), " must be true or false")
            }
        },
        _ => err_with(field_name_exec(module_id, field), " must be true or false"),
    }
}

fn has_value_token(text: &str) -> (r: bool)
    ensures
        r == contains(text@, value_token()),
{
    let token = chars_of("$value");
    proof {
        reveal_strlit("$value");
        assert(token@ =~= value_token());
    }
    contains_exec(chars_of(text).as_slice(), token.as_slice())
}

/// The check of a text field.
fn validate_text(module_id: &str, field: &ModuleField, value: &ConfigValue, mode: Validation) -> (r:
    Result<(), String>)
    ensures
        unit_result(r) == check_text(module_id@, field@, *value, mode),
{
    match value {
        ConfigValue::Text { text, .. } => {
            if has_value_token(text.as_str()) && (!field.allow_variables || mode
                == Validation::Execute) {
                err_with(field_name_exec(module_id, field), " contains an invalid variable")
            } else {
                Ok(())
            }
        },
        _ => err_with(field_name_exec(module_id, field), " must be text"),
    }
}

/// Whether `text` is one of the options.
fn option_listed(options: &Vec<String>, text: &str) -> (r: bool)
    ensures
        r == options.deep_view().contains(text@),
{
    let mut i: usize = 0;
    let ghost opts = options.deep_view();
    while i < options.len()
        invariant
            i <= options@.len(),
            opts == options.deep_view(),
            forall|j: int| 0 <= j < i ==> opts[j] != text@,
        decreases options@.len() - i,
    {
        if str_is(options[i].as_str(), text) {
            assert(opts[i as int] == text@);
            return true;
        }
        i = i + 1;
    }
    false
}

/// The check of a select field.
fn validate_select(module_id: &str, field: &ModuleField, value: &ConfigValue, mode: Validation) -> (r:
    Result<(), String>)
    ensures
        unit_result(r) == check_select(module_id@, field@, *value, mode),
{
    match value {
        ConfigValue::Text { text, .. } => {
            if has_value_token(text.as_str()) {
                if field.allow_variables && mode == Validation::Save {
                    return Ok(());
                }
                return err_with(field_name_exec(module_id, field), " contains an invalid variable");
            }
            if option_listed(&field.options, text.as_str()) {
                return Ok(());
            }
            err_with(field_name_exec(module_id, field), " is not a valid option")
        },
        _ => err_with(field_name_exec(module_id, field), " must be a valid option"),
    }
}

/// The check of one field, by its kind.
fn validate_field(module_id: &str, field: &ModuleField, value: &ConfigValue, mode: Validation) -> (r:
    Result<(), String>)
    ensures
        unit_result(r) == check_field(module_id@, field@, *value, mode),
{
    match field.kind {
        FieldKind::Number => validate_number(module_id, field, value, mode),
        FieldKind::Boolean => validate_boolean(module_id, field, value),
        FieldKind::Text => validate_text(module_id, field, value, mode),
        FieldKind::Select => validate_select(module_id, field, value, mode),
    }
}

/// The value stored under `key`.
pub fn config_get<'a>(config: &'a ActionConfig, key: &str) -> (r: Option<&'a ConfigValue>)
    ensures
        match r {
            Some(v) => lookup(config@, key@, 0) == Some(*v),
            None => lookup(config@, key@, 0) is None,
        },
{
    let mut k: usize = 0;
    while k < config.len()
        invariant
            k <= config@.len(),
            lookup(config@, key@, 0) == lookup(config@, key@, k as int),
        decreases config@.len() - k,
    {
        if str_is(config[k].0.as_str(), key) {
            return Some(&config[k].1);
        }
        k = k + 1;
    }
    None
}

/// `validate_config`: every configured key must be a field of the module,
/// and every field must be present with a valid value; the first failure,
/// keys before fields, is reported.
pub fn validate_config(module_id: &str, config: &ActionConfig, mode: Validation) -> (r: Result<
    (),
    String,
>)
    ensures
        unit_result(r) == spec_validate_config(module_id@, config@, mode),
{
    let fs = match fields(module_id) {
        Some(fs) => fs,
        None => {
            return Err(str_cat("Unknown module: ", module_id));
        },
    };
    let ghost fv = fields_view(fs);
    let mut k: usize = 0;
    while k < config.len()
        invariant
            k <= config@.len(),
            fv == fields_view(fs),
            spec_fields(module_id@) == Some(fv),
            first_unknown(fv, config@, 0) == first_unknown(fv, config@, k as int),
        decreases config@.len() - k,
    {
        let key = &config[k].0;
        let mut found = false;
        let mut j: usize = 0;
        while j < fs.len()
            invariant
                j <= fs@.len(),
                fv == fields_view(fs),
                found == exists|m: int| 0 <= m < j && (#[trigger] fv[m]).0 == key@,
            decreases fs@.len() - j,
        {
            assert(fv[j as int] == fs@[j as int]@);
            if str_is(fs[j].key.as_str(), key.as_str()) {
                found = true;
            }
            j = j + 1;
        }
        if !found {
            assert(fv.len() == fs@.len());
            assert(!has_field(fv, key@));
            let mut s = str_cat(module_id, " has unknown config field: ");
            s.append(key.as_str());
            return Err(s);
        }
        k = k + 1;
    }
    let mut j: usize = 0;
    while j < fs.len()
        invariant
            j <= fs@.len(),
            fv == fields_view(fs),
            first_unknown(fv, config@, 0) is None,
            spec_fields(module_id@) == Some(fv),
            check_fields(module_id@, fv, config@, mode, 0) == check_fields(
                module_id@,
                fv,
                config@,
                mode,
                j as int,
            ),
        decreases fs@.len() - j,
    {
        let field = &fs[j];
        assert(fv[j as int] == field@);
        let value = match config_get(config, field.key.as_str()) {
            Some(v) => v,
            None => {
                let mut s = str_cat(module_id, " is missing config field: ");
                s.append(field.key.as_str());
                return Err(s);
            },
        };
        let checked = validate_field(module_id, field, value, mode);
        if checked.is_err() {
            return checked;
        }
        j = j + 1;
    }
    Ok(())
}

// ---------------------------------------------------------------------
// Module calls
// ---------------------------------------------------------------------
/// A resolved module call: the module's group and its name.
#[derive(Debug, Clone)]
pub struct ModuleCall {
    pub group: ModuleGroup,
    pub module_id: String,
}

/// The module that a rule names: `Module is required` when it names none,
/// `Unknown module: ...` when no group owns it.
pub open spec fn spec_resolve_module(module_id: Option<Seq<char>>) -> Result<
    (ModuleGroup, Seq<char>),
    Seq<char>,
> {
    match spec_non_blank(module_id) {
        None => Err("Module is required"@),
        Some(id) => match group_of(id) {
            None => Err("Unknown module: "@ + id),
            Some(g) => Ok((g, id)),
        },
    }
}

/// Which module a rule calls, and the group that runs it.
pub fn resolve_module(rule: &AutomationRule) -> (r: Result<ModuleCall, String>)
    ensures
        match r {
            Ok(c) => spec_resolve_module(opt_view(rule.module_id)) == Ok::<
                (ModuleGroup, Seq<char>),
                Seq<char>,
            >((c.group, c.module_id@)),
            Err(e) => spec_resolve_module(opt_view(rule.module_id)) == Err::<
                (ModuleGroup, Seq<char>),
                Seq<char>,
            >(e@),
        },
{
    let id = match non_blank(&rule.module_id) {
        Some(id) => id,
        None => return Err(String::from_str("Module is required")),
    };
    match module_group(id.as_str()) {
        Some(g) => Ok(ModuleCall { group: g, module_id: id }),
        None => Err(str_cat("Unknown module: ", id.as_str())),
    }
}

/// Where a sound module reads its number from: a JSON number's bits, or
/// the configured text with its tokens substituted and trimmed, which the
/// caller parses as an `f64`.
#[derive(Debug, Clone)]
pub enum NumberSource {
    Bits(u64),
    Text(String),
}

pub open spec fn source_view(s: NumberSource) -> Result<u64, Seq<char>> {
    match s {
        NumberSource::Bits(b) => Ok(b),
        NumberSource::Text(t) => Err(t@),
    }
}

/// The source of a sound module's number.
pub open spec fn spec_number_source(
    config: Option<Seq<(String, ConfigValue)>>,
    key: Seq<char>,
    ctx: (Seq<char>, Seq<char>, Seq<char>),
) -> Result<Result<u64, Seq<char>>, Seq<char>> {
    match config {
        None => Err("Module config is required"@),
        Some(c) => match lookup(c, key, 0) {
            None => Err("Module config is missing "@ + key),
            Some(ConfigValue::Number(Some(b))) => Ok(Ok(b)),
            Some(ConfigValue::Number(None)) => Err(key + " must be a valid number"@),
            Some(ConfigValue::Text { text, .. }) => Ok(
                Err(trim(spec_replace_tokens(text@, ctx.0, ctx.2, ctx.1))),
            ),
            Some(_) => Err(key + " must be a number"@),
        },
    }
}

pub open spec fn config_view(c: Option<ActionConfig>) -> Option<Seq<(String, ConfigValue)>> {
    match c {
        Some(c) => Some(c@),
        None => None,
    }
}

/// Where a sound module's number comes from, before any text is parsed as
/// an `f64`.
pub fn number_source(rule: &AutomationRule, key: &str, context: &MatchContext) -> (r: Result<
    NumberSource,
    String,
>)
    ensures
        match r {
            Ok(s) => spec_number_source(config_view(rule.action_config), key@, context@) == Ok::<
                Result<u64, Seq<char>>,
                Seq<char>,
            >(source_view(s)),
            Err(e) => spec_number_source(config_view(rule.action_config), key@, context@)
                == Err::<Result<u64, Seq<char>>, Seq<char>>(e@),
        },
{
    let config = match &rule.action_config {
        Some(c) => c,
        None => return Err(String::from_str("Module config is required")),
    };
    match config_get(config, key) {
        None => Err(str_cat("Module config is missing ", key)),
        Some(ConfigValue::Number(Some(b))) => Ok(NumberSource::Bits(*b)),
        Some(ConfigValue::Number(None)) => Err(str_cat(key, " must be a valid number")),
        Some(ConfigValue::Text { text, .. }) => {
            let replaced = replace_tokens(text.as_str(), context);
            let t = trim_chars(chars_of(replaced.as_str()).as_slice());
            Ok(NumberSource::Text(string_of(t.as_slice())))
        },
        Some(_) => Err(str_cat(key, " must be a number")),
    }
}

/// A power action of the system module.
#[derive(Debug, Clone, Copy, PartialEq, Eq, Structural)]
pub enum PowerAction {
    Hibernate,
    Logout,
    Reboot,
    Shutdown,
    Sleep,
}

/// What a module call asks the machine to do.
#[derive(Debug, Clone)]
pub enum ModuleRequest {
    SetVolume(NumberSource),
    IncreaseVolume(NumberSource),
    DecreaseVolume(NumberSource),
    ToggleMute,
    Power(PowerAction),
    /// A screenshot into the given directory and file name; `None` stands
    /// for the default.
    Screenshot { directory: Option<String>, filename: Option<String> },
}

/// `text_config`: a configured text, trimmed, if not blank.
pub fn text_config(config: Option<&ActionConfig>, key: &str) -> (r: Option<String>)
    ensures
        r matches Some(s) ==> config matches Some(c) && lookup(c@, key@, 0) matches Some(
            ConfigValue::Text { text, .. },
        ) && trim(text@).len() > 0 && s@ == trim(text@),
        r is None ==> !(config matches Some(c) && lookup(c@, key@, 0) matches Some(
            ConfigValue::Text { text, .. },
        ) && trim(text@).len() > 0),
{
    let c = match config {
        Some(c) => c,
        None => return None,
    };
    match config_get(c, key) {
        Some(ConfigValue::Text { text, .. }) => {
            let t = trim_chars(chars_of(text.as_str()).as_slice());
            if t.len() > 0 {
                Some(string_of(t.as_slice()))
            } else {
                None
            }
        },
        _ => None,
    }
}

/// A screenshot path part: the configured text with tokens substituted,
/// kept when it is not blank (the substituted text itself is not trimmed).
pub open spec fn spec_screenshot_part(
    config: Option<Seq<(String, ConfigValue)>>,
    key: Seq<char>,
    ctx: (Seq<char>, Seq<char>, Seq<char>),
) -> Option<Seq<char>> {
    match config {
        Some(c) => match lookup(c, key, 0) {
            Some(ConfigValue::Text { text, .. }) => if trim(text@).len() > 0 {
                let replaced = spec_replace_tokens(trim(text@), ctx.0, ctx.2, ctx.1);
                if trim(replaced).len() > 0 {
                    Some(replaced)
                } else {
                    None
                }
            } else {
                None
            },
            _ => None,
        },
        None => None,
    }
}

fn screenshot_part(config: Option<&ActionConfig>, key: &str, context: &MatchContext) -> (r: Option<
    String,
>)
    ensures
        opt_view(r) == spec_screenshot_part(
            match config {
                Some(c) => Some(c@),
                None => None,
            },
            key@,
            context@,
        ),
{
    match text_config(config, key) {
        Some(v) => {
            let replaced = replace_tokens(v.as_str(), context);
            let t = trim_chars(chars_of(replaced.as_str()).as_slice());
            if t.len() > 0 {
                Some(replaced)
            } else {
                None
            }
        },
        None => None,
    }
}

pub open spec fn request_error(r: Result<ModuleRequest, String>) -> Option<Seq<char>> {
    match r {
        Ok(_) => None,
        Err(e) => Some(e@),
    }
}

/// The request of a sound module call.
pub fn sound_request(module_id: &str, rule: &AutomationRule, context: &MatchContext) -> (r: Result<
    ModuleRequest,
    String,
>)
    ensures
        module_id@ == "setVolume"@ ==> match r {
            Ok(ModuleRequest::SetVolume(s)) => spec_number_source(
                config_view(rule.action_config),
                "volume"@,
                context@,
            ) == Ok::<Result<u64, Seq<char>>, Seq<char>>(source_view(s)),
            Err(e) => spec_number_source(config_view(rule.action_config), "volume"@, context@)
                == Err::<Result<u64, Seq<char>>, Seq<char>>(e@),
            _ => false,
        },
        module_id@ == "increaseVolume"@ ==> match r {
            Ok(ModuleRequest::IncreaseVolume(s)) => spec_number_source(
                config_view(rule.action_config),
                "amount"@,
                context@,
            ) == Ok::<Result<u64, Seq<char>>, Seq<char>>(source_view(s)),
            Err(e) => spec_number_source(config_view(rule.action_config), "amount"@, context@)
                == Err::<Result<u64, Seq<char>>, Seq<char>>(e@),
            _ => false,
        },
        module_id@ == "decreaseVolume"@ ==> match r {
            Ok(ModuleRequest::DecreaseVolume(s)) => spec_number_source(
                config_view(rule.action_config),
                "amount"@,
                context@,
            ) == Ok::<Result<u64, Seq<char>>, Seq<char>>(source_view(s)),
            Err(e) => spec_number_source(config_view(rule.action_config), "amount"@, context@)
                == Err::<Result<u64, Seq<char>>, Seq<char>>(e@),
            _ => false,
        },
        module_id@ == "toggleMute"@ ==> r matches Ok(ModuleRequest::ToggleMute),
        group_of(module_id@) != Some(ModuleGroup::Sound) ==> request_error(r) == Some(
            "Unknown sound module: "@ + module_id@,
        ),
{
    proof {
        reveal_strlit("setVolume");
        reveal_strlit("increaseVolume");
        reveal_strlit("decreaseVolume");
        reveal_strlit("toggleMute");
        assert("setVolume"@.len() == 9);
        assert("increaseVolume"@.len() == 14);
        assert("decreaseVolume"@.len() == 14);
        assert("increaseVolume"@[0] != "decreaseVolume"@[0]);
        assert("toggleMute"@.len() == 10);
    }
    if str_is(module_id, "setVolume") {
        match number_source(rule, "volume", context) {
            Ok(s) => Ok(ModuleRequest::SetVolume(s)),
            Err(e) => Err(e),
        }
    } else if str_is(module_id, "increaseVolume") {
        match number_source(rule, "amount", context) {
            Ok(s) => Ok(ModuleRequest::IncreaseVolume(s)),
            Err(e) => Err(e),
        }
    } else if str_is(module_id, "decreaseVolume") {
        match number_source(rule, "amount", context) {
            Ok(s) => Ok(ModuleRequest::DecreaseVolume(s)),
            Err(e) => Err(e),
        }
    } else if str_is(module_id, "toggleMute") {
        Ok(ModuleRequest::ToggleMute)
    } else {
        Err(str_cat("Unknown sound module: ", module_id))
    }
}

/// The power action that a system module names.
pub open spec fn power_of(module_id: Seq<char>) -> Option<PowerAction> {
    if module_id == "hibernate"@ {
        Some(PowerAction::Hibernate)
    } else if module_id == "logout"@ {
        Some(PowerAction::Logout)
    } else if module_id == "reboot"@ {
        Some(PowerAction::Reboot)
    } else if module_id == "shutdown"@ {
        Some(PowerAction::Shutdown)
    } else if module_id == "sleep"@ {
        Some(PowerAction::Sleep)
    } else {
        None
    }
}

/// The request of a system module call.
pub fn system_request(module_id: &str) -> (r: Result<ModuleRequest, String>)
    ensures
        match power_of(module_id@) {
            Some(a) => r matches Ok(ModuleRequest::Power(b)) && a == b,
            None => request_error(r) == Some("Unknown system module: "@ + module_id@),
        },
{
    if str_is(module_id, "hibernate") {
        Ok(ModuleRequest::Power(PowerAction::Hibernate))
    } else if str_is(module_id, "logout") {
        Ok(ModuleRequest::Power(PowerAction::Logout))
    } else if str_is(module_id, "reboot") {
        Ok(ModuleRequest::Power(PowerAction::Reboot))
    } else if str_is(module_id, "shutdown") {
        Ok(ModuleRequest::Power(PowerAction::Shutdown))
    } else if str_is(module_id, "sleep") {
        Ok(ModuleRequest::Power(PowerAction::Sleep))
    } else {
        Err(str_cat("Unknown system module: ", module_id))
    }
}

/// What a failed power action reports before the system's error.
pub open spec fn power_failure_prefix(action: PowerAction) -> Seq<char> {
    match action {
        PowerAction::Hibernate => "Failed to hibernate machine: "@,
        PowerAction::Logout => "Failed to log out user: "@,
        PowerAction::Reboot => "Failed to reboot machine: "@,
        PowerAction::Shutdown => "Failed to shut down machine: "@,
        PowerAction::Sleep => "Failed to put machine to sleep: "@,
    }
}

/// The error of a power action that the system refused.
pub fn power_failure(action: PowerAction, error: &str) -> (r: String)
    ensures
        r@ == power_failure_prefix(action) + error@,
{
    let prefix = match action {
        PowerAction::Hibernate => "Failed to hibernate machine: ",
        PowerAction::Logout => "Failed to log out user: ",
        PowerAction::Reboot => "Failed to reboot machine: ",
        PowerAction::Shutdown => "Failed to shut down machine: ",
        PowerAction::Sleep => "Failed to put machine to sleep: ",
    };
    str_cat(prefix, error)
}

/// The request of a screen module call.
pub fn screen_request(module_id: &str, rule: &AutomationRule, context: &MatchContext) -> (r: Result<
    ModuleRequest,
    String,
>)
    ensures
        module_id@ == "takeScreenshot"@ ==> match r {
            Ok(ModuleRequest::Screenshot { directory, filename }) => opt_view(directory)
                == spec_screenshot_part(config_view(rule.action_config), "directory"@, context@)
                && opt_view(filename) == spec_screenshot_part(
                config_view(rule.action_config),
                "filename"@,
                context@,
            ),
            _ => false,
        },
        module_id@ != "takeScreenshot"@ ==> request_error(r) == Some(
            "Unknown screen module: "@ + module_id@,
        ),
{
    if str_is(module_id, "takeScreenshot") {
        let config = match &rule.action_config {
            Some(c) => Some(c),
            None => None,
        };
        let directory = screenshot_part(config, "directory", context);
        let filename = screenshot_part(config, "filename", context);
        Ok(ModuleRequest::Screenshot { directory, filename })
    } else {
        Err(str_cat("Unknown screen module: ", module_id))
    }
}

/// What a sound module call yields: the request carrying the number's
/// source, or the error in reading it.
pub open spec fn sound_outcome(
    id: Seq<char>,
    config: Option<Seq<(String, ConfigValue)>>,
    ctx: (Seq<char>, Seq<char>, Seq<char>),
    r: Result<ModuleRequest, String>,
) -> bool {
    if id == "toggleMute"@ {
        r matches Ok(ModuleRequest::ToggleMute)
    } else {
        let key = if id == "setVolume"@ {
            "volume"@
        } else {
            "amount"@
        };
        match spec_number_source(config, key, ctx) {
            Err(e) => request_error(r) == Some(e),
            Ok(s) => match r {
                Ok(ModuleRequest::SetVolume(x)) => id == "setVolume"@ && source_view(x) == s,
                Ok(ModuleRequest::IncreaseVolume(x)) => id == "increaseVolume"@ && source_view(x)
                    == s,
                Ok(ModuleRequest::DecreaseVolume(x)) => id == "decreaseVolume"@ && source_view(x)
                    == s,
                _ => false,
            },
        }
    }
}

/// What a resolved module call yields.
pub open spec fn module_outcome(
    g: ModuleGroup,
    id: Seq<char>,
    config: Option<Seq<(String, ConfigValue)>>,
    ctx: (Seq<char>, Seq<char>, Seq<char>),
    r: Result<ModuleRequest, String>,
) -> bool {
    match g {
        ModuleGroup::Sound => sound_outcome(id, config, ctx, r),
        ModuleGroup::System => match r {
            Ok(ModuleRequest::Power(a)) => power_of(id) == Some(a),
            _ => false,
        },
        ModuleGroup::Screen => match r {
            Ok(ModuleRequest::Screenshot { directory, filename }) => opt_view(directory)
                == spec_screenshot_part(config, "directory"@, ctx) && opt_view(filename)
                == spec_screenshot_part(config, "filename"@, ctx),
            _ => false,
        },
    }
}

/// The request that a rule's module call makes.
pub fn module_request(rule: &AutomationRule, context: &MatchContext) -> (r: Result<
    ModuleRequest,
    String,
>)
    ensures
        match spec_resolve_module(opt_view(rule.module_id)) {
            Err(e) => request_error(r) == Some(e),
            Ok((g, id)) => module_outcome(g, id, config_view(rule.action_config), context@, r),
        },
{
    let call = match resolve_module(rule) {
        Ok(c) => c,
        Err(e) => return Err(e),
    };
    match call.group {
        ModuleGroup::Sound => sound_request(call.module_id.as_str(), rule, context),
        ModuleGroup::System => system_request(call.module_id.as_str()),
        ModuleGroup::Screen => screen_request(call.module_id.as_str(), rule, context),
    }
}

} // verus!
