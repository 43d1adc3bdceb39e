//! Volume steps on Linux, and the command-line tools tried when the audio
//! device cannot be driven directly.
use vstd::prelude::*;

use crate::text::{
    chars_of, decimal, decimal_chars, join, join_exec, str_cat, string_of, trim,
    trim_chars,
};

verus! {

/// The volume after raising it by `amount`, at most 100.
pub fn raised_volume(current: u8, amount: u8) -> (r: u8)
    ensures
        r == if current + amount > 100 {
            100
        } else {
            current + amount
        },
{
    let sum = current.saturating_add(amount);
    if sum > 100 {
        100
    } else {
        sum
    }
}

/// The volume after lowering it by `amount`, at least 0.
pub fn lowered_volume(current: u8, amount: u8) -> (r: u8)
    ensures
        r == if current >= amount {
            current - amount
        } else {
            0
        },
{
    current.saturating_sub(amount)
}

/// A volume change that a command-line tool can make.
#[derive(Debug, Clone, Copy, PartialEq, Eq, Structural)]
pub enum VolumeChange {
    SetLevel,
    Increase,
    Decrease,
    ToggleMute,
}

/// The default sink, as both tools name it.
pub open spec fn default_sink() -> Seq<char> {
    "@DEFAULT_SINK@"@
}

/// The tools tried, in order, with their arguments, for a change by
/// `percent`.
pub open spec fn spec_fallback_commands(change: VolumeChange, percent: nat) -> Seq<
    (Seq<char>, Seq<Seq<char>>),
> {
    let p = decimal(percent);
    match change {
        VolumeChange::SetLevel => seq![
            ("wpctl"@, seq!["set-volume"@, default_sink(), p + "%"@, "--limit"@, "1.0"@]),
            ("pactl"@, seq!["set-sink-volume"@, default_sink(), p + "%"@]),
        ],
        VolumeChange::Increase => seq![
            ("wpctl"@, seq!["set-volume"@, default_sink(), p + "%+"@, "--limit"@, "1.0"@]),
            ("pactl"@, seq!["set-sink-volume"@, default_sink(), "+"@ + p + "%"@]),
        ],
        VolumeChange::Decrease => seq![
            ("wpctl"@, seq!["set-volume"@, default_sink(), p + "%-"@]),
            ("pactl"@, seq!["set-sink-volume"@, default_sink(), "-"@ + p + "%"@]),
        ],
        VolumeChange::ToggleMute => seq![
            ("wpctl"@, seq!["set-mute"@, default_sink(), "toggle"@]),
            ("pactl"@, seq!["set-sink-mute"@, default_sink(), "toggle"@]),
        ],
    }
}

/// The view of a list of commands.
pub open spec fn commands_view(v: Seq<(String, Vec<String>)>) -> Seq<(Seq<char>, Seq<Seq<char>>)> {
    v.map_values(|c: (String, Vec<String>)| (c.0@, c.1.deep_view()))
}

/// `before`, the number, then `after`.
fn around_number(before: &str, percent: u8, after: &str) -> (r: String)
    ensures
        r@ == before@ + decimal(percent as nat) + after@,
{
    let digits = string_of(decimal_chars(percent as u64).as_slice());
    let mut r = str_cat(before, digits.as_str());
    r.append(after);
    r
}

/// Arguments from literals and one computed text.
fn args3(a: &str, b: &str, c: String) -> (r: Vec<String>)
    ensures
        r.deep_view() == seq![a@, b@, c@],
{
    let mut r: Vec<String> = Vec::new();
    r.push(String::from_str(a));
    r.push(String::from_str(b));
    r.push(c);
    assert(r.deep_view() =~= seq![a@, b@, c@]);
    r
}

/// `wpctl set-volume` arguments with the `--limit 1.0` cap.
fn capped_args(amount: String) -> (r: Vec<String>)
    ensures
        r.deep_view() == seq!["set-volume"@, default_sink(), amount@, "--limit"@, "1.0"@],
{
    let mut r = args3("set-volume", "@DEFAULT_SINK@", amount);
    let ghost prev = r.deep_view();
    r.push(String::from_str("--limit"));
    r.push(String::from_str("1.0"));
    assert(r.deep_view() =~= prev.push("--limit"@).push("1.0"@));
    r
}

/// The Linux fallbacks for a volume change: `wpctl`, then `pactl`.
pub fn fallback_commands(change: VolumeChange, percent: u8) -> (r: Vec<(String, Vec<String>)>)
    ensures
        commands_view(r@) == spec_fallback_commands(change, percent as nat),
{
    let (wpctl, pactl) = match change {
        VolumeChange::SetLevel => (
            capped_args(around_number("", percent, "%")),
            args3("set-sink-volume", "@DEFAULT_SINK@", around_number("", percent, "%")),
        ),
        VolumeChange::Increase => (
            capped_args(around_number("", percent, "%+")),
            args3("set-sink-volume", "@DEFAULT_SINK@", around_number("+", percent, "%")),
        ),
        VolumeChange::Decrease => (
            args3("set-volume", "@DEFAULT_SINK@", around_number("", percent, "%-")),
            args3("set-sink-volume", "@DEFAULT_SINK@", around_number("-", percent, "%")),
        ),
        VolumeChange::ToggleMute => (
            args3("set-mute", "@DEFAULT_SINK@", String::from_str("toggle")),
            args3("set-sink-mute", "@DEFAULT_SINK@", String::from_str("toggle")),
        ),
    };
    proof {
        reveal_strlit("");
        assert(""@ =~= Seq::<char>::empty());
        assert(""@ + decimal(percent as nat) == decimal(percent as nat));
    }
    let mut r: Vec<(String, Vec<String>)> = Vec::new();
    r.push((String::from_str("wpctl"), wpctl));
    r.push((String::from_str("pactl"), pactl));
    proof {
        assert(commands_view(r@) =~= seq![
            ("wpctl"@, r@[0].1.deep_view()),
            ("pactl"@, r@[1].1.deep_view()),
        ]);
    }
    r
}

/// A tool's failure: its name with its trimmed error output, or with its
/// exit status where it wrote nothing.
pub open spec fn spec_command_failure(program: Seq<char>, status: Seq<char>, stderr: Seq<char>) -> Seq<
    char,
> {
    if trim(stderr).len() == 0 {
        program + " failed with status "@ + status
    } else {
        program + " failed: "@ + trim(stderr)
    }
}

/// `run_command`, the error of a tool that failed.
pub fn command_failure(program: &str, status: &str, stderr: &str) -> (r: String)
    ensures
        r@ == spec_command_failure(program@, status@, stderr@),
{
    let err = trim_chars(chars_of(stderr).as_slice());
    if err.len() == 0 {
        let mut r = str_cat(program, " failed with status ");
        r.append(status);
        r
    } else {
        let mut r = str_cat(program, " failed: ");
        r.append(string_of(err.as_slice()).as_str());
        r
    }
}

/// Every way tried failed: the device's error first, then each tool's,
/// joined by ` | `.
pub open spec fn spec_backend_failure(initial: Seq<char>, errors: Seq<Seq<char>>) -> Seq<char> {
    "No Linux volume backend worked: "@ + join(
        seq!["volumecontrol failed: "@ + initial] + errors,
        " | "@,
    )
}

/// The error of a volume change that no way could make.
pub fn backend_failure(initial: &str, errors: &Vec<String>) -> (r: String)
    ensures
        r@ == spec_backend_failure(initial@, errors.deep_view()),
{
    let mut all: Vec<String> = Vec::new();
    all.push(str_cat("volumecontrol failed: ", initial));
    let mut i: usize = 0;
    while i < errors.len()
        invariant
            i <= errors@.len(),
            all.deep_view() == seq!["volumecontrol failed: "@ + initial@] + errors.deep_view().take(
                i as int,
            ),
        decreases errors@.len() - i,
    {
        let ghost prev = all.deep_view();
        all.push(errors[i].clone());
        proof {
            assert(errors.deep_view().take(i + 1) =~= errors.deep_view().take(i as int).push(
                errors@[i as int]@,
            ));
            assert(all.deep_view() =~= prev.push(errors@[i as int]@));
        }
        i = i + 1;
    }
    assert(errors.deep_view().take(errors@.len() as int) =~= errors.deep_view());
    str_cat("No Linux volume backend worked: ", join_exec(&all, " | ").as_str())
}

// ---------------------------------------------------------------------
// Changing the volume on Linux
// ---------------------------------------------------------------------
/// What to do next to change the volume.
#[derive(Debug)]
pub enum VolumeStep {
    /// Drive the default audio device directly.
    UseDevice,
    /// Run a command-line tool with these arguments.
    RunTool(String, Vec<String>),
    /// Nothing more to try: the outcome of the change.
    Finished(Result<(), String>),
}

/// A step as plain values.
pub enum StepView {
    UseDevice,
    RunTool(Seq<char>, Seq<Seq<char>>),
    Finished(Result<(), Seq<char>>),
}

pub open spec fn step_view(s: VolumeStep) -> StepView {
    match s {
        VolumeStep::UseDevice => StepView::UseDevice,
        VolumeStep::RunTool(p, a) => StepView::RunTool(p@, a.deep_view()),
        VolumeStep::Finished(Ok(())) => StepView::Finished(Ok(())),
        VolumeStep::Finished(Err(e)) => StepView::Finished(Err(e@)),
    }
}

/// A volume change under way: the device is tried first, then each tool
/// in turn until one works.
#[derive(Debug)]
pub struct VolumeAttempt {
    commands: Vec<(String, Vec<String>)>,
    device_error: Option<String>,
    errors: Vec<String>,
    started: usize,
    finished: bool,
}

/// (the tools, the device's error, the tools' errors, how many tools were
/// started, whether the attempt is over)
pub type AttemptView = (
    Seq<(Seq<char>, Seq<Seq<char>>)>,
    Option<Seq<char>>,
    Seq<Seq<char>>,
    nat,
    bool,
);

impl View for VolumeAttempt {
    type V = AttemptView;

    closed spec fn view(&self) -> AttemptView {
        (
            commands_view(self.commands@),
            match self.device_error {
                Some(e) => Some(e@),
                None => None,
            },
            self.errors.deep_view(),
            self.started as nat,
            self.finished,
        )
    }
}

/// The attempt after the outcome of its last step, and the next step.
pub open spec fn spec_advance(v: AttemptView, outcome: Result<(), Seq<char>>) -> (
    StepView,
    AttemptView,
) {
    match outcome {
        Ok(()) => (StepView::Finished(Ok(())), (v.0, v.1, v.2, v.3, true)),
        Err(e) => {
            let device_error = match v.1 {
                None => e,
                Some(d) => d,
            };
            let errors = match v.1 {
                None => v.2,
                Some(_) => v.2.push(e),
            };
            if v.3 < v.0.len() {
                (
                    StepView::RunTool(v.0[v.3 as int].0, v.0[v.3 as int].1),
                    (v.0, Some(device_error), errors, v.3 + 1, false),
                )
            } else {
                (
                    StepView::Finished(Err(spec_backend_failure(device_error, errors))),
                    (v.0, Some(device_error), errors, v.3, true),
                )
            }
        },
    }
}

impl VolumeAttempt {
    /// The attempt's invariant: no tool runs before the device failed, and
    /// while a tool runs every earlier tool has failed.
    pub open spec fn wf(&self) -> bool {
        let v = self@;
        &&& v.3 <= v.0.len()
        &&& v.1 is None ==> v.3 == 0 && v.2.len() == 0
        &&& (v.1 is Some && !v.4) ==> v.3 >= 1 && v.2.len() + 1 == v.3
    }

    fn start(change: VolumeChange, percent: u8) -> (r: VolumeAttempt)
        ensures
            r.wf(),
            r@ == (
                spec_fallback_commands(change, percent as nat),
                None::<Seq<char>>,
                Seq::<Seq<char>>::empty(),
                0nat,
                false,
            ),
    {
        let r = VolumeAttempt {
            commands: fallback_commands(change, percent),
            device_error: None,
            errors: Vec::new(),
            started: 0,
            finished: false,
        };
        assert(r.errors.deep_view() =~= Seq::<Seq<char>>::empty());
        r
    }

    /// The first step of every attempt: the device.
    pub fn first_step(&self) -> (r: VolumeStep)
        ensures
            step_view(r) == StepView::UseDevice,
    {
        VolumeStep::UseDevice
    }

    /// Takes the outcome of the last step and gives the next one; the
    /// attempt is over at the first success, or once every tool has failed,
    /// with all the errors.
    pub fn advance(&mut self, outcome: Result<(), String>) -> (r: VolumeStep)
        requires
            old(self).wf(),
            !old(self)@.4,
        ensures
            final(self).wf(),
            (step_view(r), final(self)@) == spec_advance(
                old(self)@,
                match outcome {
                    Ok(()) => Ok(()),
                    Err(e) => Err(e@),
                },
            ),
    {
        let ghost before = self@;
        let e = match outcome {
            Ok(()) => {
                self.finished = true;
                return VolumeStep::Finished(Ok(()));
            },
            Err(e) => e,
        };
        match &self.device_error {
            None => {
                self.device_error = Some(e);
            },
            Some(_) => {
                let ghost prev = self.errors.deep_view();
                let ghost ev = e@;
                self.errors.push(e);
                assert(self.errors.deep_view() =~= prev.push(ev));
            },
        }
        if self.started < self.commands.len() {
            let k = self.started;
            let program = self.commands[k].0.clone();
            let args = clone_args(&self.commands[k].1);
            proof {
                assert(before.0[k as int] == (
                    self.commands@[k as int].0@,
                    self.commands@[k as int].1.deep_view(),
                ));
            }
            self.started = k + 1;
            VolumeStep::RunTool(program, args)
        } else {
            self.finished = true;
            let initial = match &self.device_error {
                Some(d) => d.clone(),
                None => String::new(),
            };
            VolumeStep::Finished(Err(backend_failure(initial.as_str(), &self.errors)))
        }
    }
}

/// A copy of a list of arguments.
fn clone_args(args: &Vec<String>) -> (r: Vec<String>)
    ensures
        r.deep_view() == args.deep_view(),
{
    let mut out: Vec<String> = Vec::new();
    let mut i: usize = 0;
    while i < args.len()
        invariant
            i <= args@.len(),
            out.deep_view() == args.deep_view().take(i as int),
        decreases args@.len() - i,
    {
        let ghost prev = out.deep_view();
        out.push(args[i].clone());
        assert(out.deep_view() =~= prev.push(args@[i as int]@));
        i = i + 1;
        assert(out.deep_view() =~= args.deep_view().take(i as int));
    }
    assert(args.deep_view().take(args@.len() as int) =~= args.deep_view());
    out
}

/// `set_volume` on Linux: set the device to `percent`, else `wpctl`, else
/// `pactl`.
pub fn set_volume(percent: u8) -> (r: VolumeAttempt)
    ensures
        r.wf(),
        r@ == (
            spec_fallback_commands(VolumeChange::SetLevel, percent as nat),
            None::<Seq<char>>,
            Seq::<Seq<char>>::empty(),
            0nat,
            false,
        ),
{
    VolumeAttempt::start(VolumeChange::SetLevel, percent)
}

/// `increase_volume` on Linux: raise the device by `amount`, else `wpctl`,
/// else `pactl`.
pub fn increase_volume(amount: u8) -> (r: VolumeAttempt)
    ensures
        r.wf(),
        r@ == (
            spec_fallback_commands(VolumeChange::Increase, amount as nat),
            None::<Seq<char>>,
            Seq::<Seq<char>>::empty(),
            0nat,
            false,
        ),
{
    VolumeAttempt::start(VolumeChange::Increase, amount)
}

/// `decrease_volume` on Linux: lower the device by `amount`, else `wpctl`,
/// else `pactl`.
pub fn decrease_volume(amount: u8) -> (r: VolumeAttempt)
    ensures
        r.wf(),
        r@ == (
            spec_fallback_commands(VolumeChange::Decrease, amount as nat),
            None::<Seq<char>>,
            Seq::<Seq<char>>::empty(),
            0nat,
            false,
        ),
{
    VolumeAttempt::start(VolumeChange::Decrease, amount)
}

/// `toggle_mute` on Linux: flip the device's mute state, else `wpctl`,
/// else `pactl`.
pub fn toggle_mute() -> (r: VolumeAttempt)
    ensures
        r.wf(),
        r@ == (
            spec_fallback_commands(VolumeChange::ToggleMute, 0),
            None::<Seq<char>>,
            Seq::<Seq<char>>::empty(),
            0nat,
            false,
        ),
{
    VolumeAttempt::start(VolumeChange::ToggleMute, 0)
}

} // verus!
