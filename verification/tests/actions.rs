use ntfy_app::executor::{
    execute_rule, open_url_target, parse_arguments, program_command, RuleAction,
};
use ntfy_app::matcher::MatchContext;
use ntfy_app::models::{ActionConfig, AutomationInput, AutomationRule, ConfigValue};
use ntfy_app::modules::{
    fields, module_request, power_failure, resolve_module, text_config, validate_config,
    FieldKind, ModuleRequest, NumberSource, PowerAction, Validation,
};
use ntfy_app::validation::{
    program_plan, required, required_option, script_plan, validate_match, validate_rule,
    validate_url, PathCheck,
};

fn number(x: f64) -> ConfigValue {
    ConfigValue::Number(Some(x.to_bits()))
}

fn text(s: &str) -> ConfigValue {
    let number = s.trim().parse::<f64>().ok().map(f64::to_bits);
    ConfigValue::Text { text: s.to_string(), number }
}

fn cfg(entries: Vec<(&str, ConfigValue)>) -> ActionConfig {
    entries.into_iter().map(|(k, v)| (k.to_string(), v)).collect()
}

fn ctx() -> MatchContext {
    MatchContext {
        value: "42".to_string(),
        matched_line: "vol $value".to_string(),
        message: "vol 42".to_string(),
    }
}

fn action_rule(action_type: &str, value: Option<&str>) -> AutomationRule {
    AutomationRule {
        id: "r".to_string(),
        active: true,
        name: "n".to_string(),
        topic: "t".to_string(),
        match_type: "equals".to_string(),
        match_value: "m".to_string(),
        action_type: action_type.to_string(),
        action_value: value.map(String::from),
        module_id: None,
        action_config: None,
        arguments: None,
        working_directory: None,
        created_at: "0".to_string(),
        updated_at: "0".to_string(),
        last_run: None,
        status: None,
    }
}

fn input(action_type: &str, value: Option<&str>) -> AutomationInput {
    AutomationInput {
        id: "r".to_string(),
        active: true,
        name: "n".to_string(),
        topic: "t".to_string(),
        match_type: "equals".to_string(),
        match_value: "m".to_string(),
        action_type: action_type.to_string(),
        action_value: value.map(String::from),
        module_id: None,
        action_config: None,
        arguments: None,
        working_directory: None,
        last_run: None,
        status: None,
    }
}

fn check_text(c: &PathCheck) -> String {
    match c {
        PathCheck::Exists { path, error } => format!("exists {path}: {error}"),
        PathCheck::IsFile { path, error } => format!("file {path}: {error}"),
        PathCheck::IsDir { path, error } => format!("dir {path}: {error}"),
        PathCheck::Fail { error } => format!("fail: {error}"),
    }
}

#[test]
fn arguments_split_at_white_space() {
    assert_eq!(parse_arguments("  -a  b\tc "), Ok(vec!["-a".to_string(), "b".to_string(), "c".to_string()]));
    assert_eq!(parse_arguments(""), Ok(vec![]));
}

#[test]
fn quotes_group_and_escape() {
    assert_eq!(
        parse_arguments(r#"say "hello world" 'it''s' "a \"q\"" ''"#),
        Ok(vec![
            "say".to_string(),
            "hello world".to_string(),
            "its".to_string(),
            "a \"q\"".to_string(),
            "".to_string(),
        ])
    );
    assert_eq!(parse_arguments(r#""it's""#), Ok(vec!["it's".to_string()]));
    assert_eq!(parse_arguments(r#"a\b"#), Ok(vec![r#"a\b"#.to_string()]));
}

#[test]
fn unclosed_quotes_are_refused() {
    assert_eq!(parse_arguments("say \"hi"), Err("Unclosed quote: \"".to_string()));
    assert_eq!(parse_arguments("'x"), Err("Unclosed quote: '".to_string()));
}

#[test]
fn open_url_needs_a_url() {
    assert_eq!(open_url_target(&action_rule("openUrl", Some("  https://x.y  "))), Ok("https://x.y".to_string()));
    assert_eq!(open_url_target(&action_rule("openUrl", Some("  "))), Err("URL is required".to_string()));
}

#[test]
fn program_command_substitutes_arguments() {
    let mut r = action_rule("runProgram", Some(" notify-send "));
    r.arguments = Some("\"Volume $value\" --from=$message".to_string());
    r.working_directory = Some("  /tmp ".to_string());
    let c = program_command(&r, &ctx()).unwrap();
    assert_eq!(c.program, "notify-send");
    assert_eq!(c.args, vec!["Volume 42".to_string(), "--from=vol 42".to_string()]);
    assert_eq!(c.directory, Some("/tmp".to_string()));
    r.arguments = Some("'oops".to_string());
    assert_eq!(program_command(&r, &ctx()).unwrap_err(), "Unclosed quote: '");
    assert_eq!(
        program_command(&action_rule("runProgram", None), &ctx()).unwrap_err(),
        "Program is required"
    );
}

#[test]
fn execute_rule_picks_the_action() {
    match execute_rule(&action_rule("openUrl", Some("https://a.b")), &ctx()) {
        Ok(RuleAction::OpenUrl(u)) => assert_eq!(u, "https://a.b"),
        other => panic!("unexpected {other:?}"),
    }
    assert_eq!(
        execute_rule(&action_rule("runScript", Some("x")), &ctx()).unwrap_err(),
        "Invalid action type"
    );
    let mut m = action_rule("module", None);
    assert_eq!(execute_rule(&m, &ctx()).unwrap_err(), "Module is required");
    m.module_id = Some(" nope ".to_string());
    assert_eq!(execute_rule(&m, &ctx()).unwrap_err(), "Unknown module: nope");
    m.module_id = Some("reboot".to_string());
    match execute_rule(&m, &ctx()) {
        Ok(RuleAction::Module(ModuleRequest::Power(p))) => assert_eq!(p, PowerAction::Reboot),
        other => panic!("unexpected {other:?}"),
    }
}

#[test]
fn module_fields_are_listed() {
    let set = fields("setVolume").unwrap();
    assert_eq!(set.len(), 1);
    assert_eq!(set[0].key, "volume");
    assert_eq!(set[0].kind, FieldKind::Number);
    assert_eq!(set[0].min.as_ref().unwrap().text, "0");
    assert_eq!(set[0].max.as_ref().unwrap().text, "100");
    assert_eq!(fields("increaseVolume").unwrap()[0].min.as_ref().unwrap().text, "1");
    assert_eq!(fields("toggleMute").unwrap().len(), 0);
    assert_eq!(fields("shutdown").unwrap().len(), 0);
    let shot = fields("takeScreenshot").unwrap();
    assert_eq!((shot[0].key.as_str(), shot[1].key.as_str()), ("directory", "filename"));
    assert!(fields("nope").is_none());
}

#[test]
fn volume_config_is_checked() {
    let ok = cfg(vec![("volume", number(40.0))]);
    assert_eq!(validate_config("setVolume", &ok, Validation::Save), Ok(()));
    assert_eq!(
        validate_config("setVolume", &cfg(vec![("volume", number(140.0))]), Validation::Save),
        Err("setVolume.volume must be at most 100".to_string())
    );
    assert_eq!(
        validate_config("increaseVolume", &cfg(vec![("amount", number(0.5))]), Validation::Save),
        Err("increaseVolume.amount must be at least 1".to_string())
    );
    assert_eq!(
        validate_config("setVolume", &cfg(vec![("volume", text(" 30 "))]), Validation::Save),
        Ok(())
    );
    assert_eq!(
        validate_config("setVolume", &cfg(vec![("volume", text("loud"))]), Validation::Save),
        Err("setVolume.volume must be a number".to_string())
    );
    assert_eq!(
        validate_config("setVolume", &cfg(vec![("volume", text("inf"))]), Validation::Save),
        Err("setVolume.volume must be finite".to_string())
    );
    assert_eq!(
        validate_config("setVolume", &cfg(vec![("volume", ConfigValue::Bool(true))]), Validation::Save),
        Err("setVolume.volume must be a number".to_string())
    );
}

#[test]
fn variables_are_allowed_only_when_saving() {
    let c = cfg(vec![("volume", text("$value"))]);
    assert_eq!(validate_config("setVolume", &c, Validation::Save), Ok(()));
    assert_eq!(
        validate_config("setVolume", &c, Validation::Execute),
        Err("setVolume.volume cannot contain unresolved variables during execution".to_string())
    );
    let shot = cfg(vec![("directory", text("/tmp/$value")), ("filename", text("a"))]);
    assert_eq!(validate_config("takeScreenshot", &shot, Validation::Save), Ok(()));
    assert_eq!(
        validate_config("takeScreenshot", &shot, Validation::Execute),
        Err("takeScreenshot.directory contains an invalid variable".to_string())
    );
}

#[test]
fn config_keys_and_fields_must_agree() {
    assert_eq!(
        validate_config("setVolume", &cfg(vec![("volume", number(1.0)), ("x", number(1.0))]), Validation::Save),
        Err("setVolume has unknown config field: x".to_string())
    );
    assert_eq!(
        validate_config("setVolume", &cfg(vec![]), Validation::Save),
        Err("setVolume is missing config field: volume".to_string())
    );
    assert_eq!(
        validate_config("nope", &cfg(vec![]), Validation::Save),
        Err("Unknown module: nope".to_string())
    );
    assert_eq!(
        validate_config("takeScreenshot", &cfg(vec![("directory", number(1.0)), ("filename", text("a"))]), Validation::Save),
        Err("takeScreenshot.directory must be text".to_string())
    );
}

#[test]
fn module_requests_carry_their_numbers() {
    let mut r = action_rule("module", None);
    r.module_id = Some("setVolume".to_string());
    r.action_config = Some(cfg(vec![("volume", text(" $value "))]));
    match module_request(&r, &ctx()) {
        Ok(ModuleRequest::SetVolume(NumberSource::Text(t))) => assert_eq!(t, "42"),
        other => panic!("unexpected {other:?}"),
    }
    r.module_id = Some("decreaseVolume".to_string());
    r.action_config = Some(cfg(vec![("amount", number(5.0))]));
    match module_request(&r, &ctx()) {
        Ok(ModuleRequest::DecreaseVolume(NumberSource::Bits(b))) => assert_eq!(f64::from_bits(b), 5.0),
        other => panic!("unexpected {other:?}"),
    }
    r.action_config = None;
    assert_eq!(module_request(&r, &ctx()).unwrap_err(), "Module config is required");
    r.action_config = Some(cfg(vec![]));
    assert_eq!(module_request(&r, &ctx()).unwrap_err(), "Module config is missing amount");
    r.action_config = Some(cfg(vec![("amount", ConfigValue::Null)]));
    assert_eq!(module_request(&r, &ctx()).unwrap_err(), "amount must be a number");
}

#[test]
fn screenshot_requests_substitute_tokens() {
    let mut r = action_rule("module", None);
    r.module_id = Some("takeScreenshot".to_string());
    r.action_config = Some(cfg(vec![("directory", text("  /shots/$value ")), ("filename", text("   "))]));
    match module_request(&r, &ctx()) {
        Ok(ModuleRequest::Screenshot { directory, filename }) => {
            assert_eq!(directory, Some("/shots/42".to_string()));
            assert_eq!(filename, None);
        }
        other => panic!("unexpected {other:?}"),
    }
    assert_eq!(text_config(r.action_config.as_ref(), "directory"), Some("/shots/$value".to_string()));
    assert_eq!(text_config(None, "directory"), None);
}

#[test]
fn modules_resolve_by_trimmed_id() {
    let mut r = action_rule("module", None);
    r.module_id = Some("  toggleMute ".to_string());
    assert!(resolve_module(&r).is_ok());
    r.module_id = Some("   ".to_string());
    assert_eq!(resolve_module(&r).map(|_| ()).unwrap_err(), "Module is required");
}

#[test]
fn required_fields_are_reported() {
    assert_eq!(required("name", "  "), Err("name is required".to_string()));
    assert_eq!(required("name", " x "), Ok(()));
    assert_eq!(required_option("url", &Some(" u ".to_string())), Ok("u".to_string()));
    assert_eq!(required_option("url", &None), Err("url is required".to_string()));
    assert_eq!(validate_match(" \n "), Err("Match value cannot be empty".to_string()));
    assert_eq!(validate_match("a"), Ok(()));
}

#[test]
fn urls_must_be_web_urls() {
    assert_eq!(validate_url("https://ntfy.sh"), Ok(()));
    assert_eq!(validate_url("http://x"), Ok(()));
    assert_eq!(validate_url("ftp://x"), Err("Only http and https URLs are allowed".to_string()));
    assert_eq!(validate_url("nope"), Err("Invalid URL".to_string()));
}

#[test]
fn rules_are_checked_in_order() {
    let mut r = input("openUrl", Some("https://x"));
    assert_eq!(validate_rule(&r).map(|c| c.len()), Ok(0));
    r.name = " ".to_string();
    assert_eq!(validate_rule(&r).map(|c| c.len()), Err("name is required".to_string()));
    r.name = "n".to_string();
    r.match_type = "regex".to_string();
    assert_eq!(validate_rule(&r).map(|c| c.len()), Err("Invalid match type".to_string()));
    r.match_type = "contains".to_string();
    r.action_type = "email".to_string();
    assert_eq!(validate_rule(&r).map(|c| c.len()), Err("Invalid action type".to_string()));
    r.action_type = "openUrl".to_string();
    r.status = Some("weird".to_string());
    assert_eq!(validate_rule(&r).map(|c| c.len()), Err("Invalid status".to_string()));
    r.status = Some("never".to_string());
    r.action_value = Some("ftp://x".to_string());
    assert_eq!(validate_rule(&r).map(|c| c.len()), Err("Only http and https URLs are allowed".to_string()));
    r.action_value = None;
    assert_eq!(validate_rule(&r).map(|c| c.len()), Err("url is required".to_string()));
}

#[test]
fn module_rules_need_a_valid_config() {
    let mut r = input("module", None);
    assert_eq!(validate_rule(&r).map(|c| c.len()), Err("module is required".to_string()));
    r.module_id = Some("setVolume".to_string());
    assert_eq!(validate_rule(&r).map(|c| c.len()), Err("Module config is required".to_string()));
    r.action_config = Some(cfg(vec![("volume", number(50.0))]));
    r.working_directory = Some(" /w ".to_string());
    let checks = validate_rule(&r).unwrap();
    assert_eq!(checks.iter().map(check_text).collect::<Vec<_>>(), vec!["dir /w: Working directory does not exist".to_string()]);
}

#[test]
fn program_plans_name_the_file_checks() {
    let plan = program_plan("Program", " /usr/bin/app ", &None, true, "").unwrap();
    assert_eq!(
        plan.iter().map(check_text).collect::<Vec<_>>(),
        vec![
            "exists /usr/bin/app: Program path does not exist: /usr/bin/app".to_string(),
            "file /usr/bin/app: Program path is not a file: /usr/bin/app".to_string(),
        ]
    );
    let joined = program_plan("Program", "app", &Some("/opt".to_string()), false, "/opt/app").unwrap();
    assert_eq!(check_text(&joined[0]), "exists /opt/app: Program path does not exist: /opt/app");
    assert_eq!(program_plan("Program", "app", &None, false, "").unwrap().len(), 0);
    assert_eq!(
        program_plan("Program", "bin/app", &None, false, "").unwrap_err(),
        "Program uses a relative path, so a working directory is required"
    );
    assert_eq!(program_plan("Program", " ", &None, false, "").unwrap_err(), "Program is required");
}

#[test]
fn script_plans_check_the_extension() {
    let ok = script_plan("Script", "/s/run.SH", &None, true, "", &Some("SH".to_string())).unwrap();
    assert_eq!(ok.len(), 2);
    let bad = script_plan("Script", "/s/run.py", &None, true, "", &Some("py".to_string())).unwrap();
    assert_eq!(check_text(&bad[2]), "fail: Script has an unsupported extension");
    let none = script_plan("Script", "/s/run", &None, true, "", &None).unwrap();
    assert_eq!(check_text(&none[2]), "fail: Script must have a valid extension");
    assert_eq!(
        script_plan("Script", "run.sh", &None, false, "", &None).unwrap_err(),
        "Script must use an absolute path or have a working directory"
    );
}

#[test]
fn validate_rule_resolves_programs_on_this_platform() {
    let mut r = input("runProgram", Some("/bin/sh"));
    let checks = validate_rule(&r).unwrap();
    assert_eq!(checks.len(), 2);
    r.action_value = Some("sh".to_string());
    assert_eq!(validate_rule(&r).unwrap().len(), 0);
    r.action_type = "runScript".to_string();
    r.action_value = Some("job.sh".to_string());
    r.working_directory = Some("/work".to_string());
    let checks = validate_rule(&r).unwrap();
    assert_eq!(
        checks.iter().map(check_text).collect::<Vec<_>>(),
        vec![
            "exists /work/job.sh: Script path does not exist: /work/job.sh".to_string(),
            "file /work/job.sh: Script path is not a file: /work/job.sh".to_string(),
            "dir /work: Working directory does not exist".to_string(),
        ]
    );
}

#[test]
fn power_failures_name_the_action() {
    assert_eq!(power_failure(PowerAction::Sleep, "denied"), "Failed to put machine to sleep: denied");
    assert_eq!(power_failure(PowerAction::Logout, "x"), "Failed to log out user: x");
    assert_eq!(power_failure(PowerAction::Shutdown, ""), "Failed to shut down machine: ");
}

#[test]
fn bare_program_needs_no_file_checks() {
    let mut r = input("runProgram", Some("notepad"));
    r.id = "r1".to_string();
    r.match_value = "hi".to_string();
    assert_eq!(validate_rule(&r).map(|c| c.len()), Ok(0));
    r.action_type = "runScript".to_string();
    r.action_value = Some("/s/job.bat".to_string());
    assert_eq!(validate_rule(&r).map(|c| c.len()), Ok(2));
}

#[test]
fn unquoted_arguments_split_like_white_space() {
    for line in ["  a b\\c\t\td  ", "one", "", " \n ", "x\u{3000}y"] {
        let expected: Vec<String> = line.split_whitespace().map(String::from).collect();
        assert_eq!(parse_arguments(line), Ok(expected));
    }
}

#[test]
fn quoted_arguments_parse_back() {
    let args = vec!["".to_string(), "a b".to_string(), "it's".to_string(), "x".to_string()];
    let line = args.iter().map(|a| format!("\"{a}\"")).collect::<Vec<_>>().join(" ");
    assert_eq!(parse_arguments(&line), Ok(args));
}

#[test]
fn config_lookup_ignores_entry_order() {
    let a = cfg(vec![("volume", number(30.0)), ("mode", text("set"))]);
    let b = cfg(vec![("mode", text("set")), ("volume", number(30.0))]);
    let va = ntfy_app::modules::config_get(&a, "volume").map(|v| format!("{v:?}"));
    let vb = ntfy_app::modules::config_get(&b, "volume").map(|v| format!("{v:?}"));
    assert!(va.is_some());
    assert_eq!(va, vb);
}

#[test]
fn bare_programs_are_joined_to_the_working_directory() {
    let mut r = input("runProgram", Some(" tool "));
    r.working_directory = Some(" /opt/w ".to_string());
    let checks = validate_rule(&r).unwrap();
    assert_eq!(
        checks.iter().map(check_text).collect::<Vec<_>>(),
        vec![
            "exists /opt/w/tool: Program path does not exist: /opt/w/tool".to_string(),
            "file /opt/w/tool: Program path is not a file: /opt/w/tool".to_string(),
            "dir /opt/w: Working directory does not exist".to_string(),
        ]
    );
}

#[test]
fn numbers_without_an_f64_are_refused() {
    assert_eq!(
        validate_config("setVolume", &cfg(vec![("volume", ConfigValue::Number(None))]), Validation::Save),
        Err("setVolume.volume must be a valid number".to_string())
    );
    let mut r = action_rule("module", None);
    r.module_id = Some("decreaseVolume".to_string());
    r.action_config = Some(cfg(vec![("amount", ConfigValue::Number(None))]));
    assert_eq!(module_request(&r, &ctx()).unwrap_err(), "amount must be a valid number");
}
