//! Checks on encoding plans and the decisions of one encoding run.
use vstd::prelude::*;
use crate::text::{
    from_utf8_lossy, utf8_lossy, all_white_space, contains_char, has_prefix, is_white_space, owned, push_signed_decimal,
    signed_decimal, str_eq, strip_prefix,
};

verus! {

/// Why a set of encoding plans is refused.
#[derive(Debug)]
pub enum ValidateError {
    PassCount,
    NoOutput,
    InvalidArguments,
    MissingInput,
    OutputIsInput,
    OutputMismatch,
}

impl ValidateError {
    /// The message shown for this refusal.
    pub open spec fn text(self) -> Seq<char> {
        match self {
            ValidateError::PassCount => "Une ou deux passes sont nécessaires."@,
            ValidateError::NoOutput => "Choisissez une sortie."@,
            ValidateError::InvalidArguments => "Arguments invalides"@,
            ValidateError::MissingInput => "Entrée manquante"@,
            ValidateError::OutputIsInput => "La sortie doit être différente de l’entrée."@,
            ValidateError::OutputMismatch => "La sortie ne correspond pas à la commande."@,
        }
    }

    /// The message shown for this refusal.
    pub fn message(&self) -> (r: String)
        ensures
            r@ == self.text(),
    {
        match self {
            ValidateError::PassCount => owned("Une ou deux passes sont nécessaires."),
            ValidateError::NoOutput => owned("Choisissez une sortie."),
            ValidateError::InvalidArguments => owned("Arguments invalides"),
            ValidateError::MissingInput => owned("Entrée manquante"),
            ValidateError::OutputIsInput => owned("La sortie doit être différente de l’entrée."),
            ValidateError::OutputMismatch => owned("La sortie ne correspond pas à la commande."),
        }
    }
}

/// The views of a sequence of strings.
pub open spec fn views(s: Seq<String>) -> Seq<Seq<char>> {
    s.map_values(|x: String| x@)
}

/// `a` holds the argument `x`.
pub open spec fn has_arg(a: Seq<String>, x: Seq<char>) -> bool {
    exists|k: int| 0 <= k < a.len() && (#[trigger] a[k])@ == x
}

/// Argument `k` of plan `p` was found to name the same file as the output (the caller
/// resolves paths on disk); entries beyond `same_file` count as not linked.
pub open spec fn linked(same_file: Seq<Vec<bool>>, p: int, k: int) -> bool {
    0 <= p < same_file.len() && 0 <= k < same_file[p]@.len() && same_file[p]@[k]
}

/// A plan has between 1 and 512 arguments, none of which holds a NUL character.
pub open spec fn args_well_formed(a: Seq<String>) -> bool {
    &&& 1 <= a.len() <= 512
    &&& forall|k: int| 0 <= k < a.len() ==> !(#[trigger] a[k])@.contains('\0')
}

/// Some argument right after a `-i` of plan `p` is the output, by name or by link.
pub open spec fn reads_output(a: Seq<String>, output: Seq<char>, same_file: Seq<Vec<bool>>, p: int) -> bool {
    exists|k: int|
        0 <= k < a.len() - 1 && (#[trigger] a[k])@ == "-i"@ && (a[k + 1]@ == output || linked(
            same_file,
            p,
            k + 1,
        ))
}

/// The refusal that plan `p` (arguments `a`) earns on its own, if any.
pub open spec fn plan_error(a: Seq<String>, output: Seq<char>, same_file: Seq<Vec<bool>>, p: int) -> Option<ValidateError> {
    if !args_well_formed(a) {
        Some(ValidateError::InvalidArguments)
    } else if !has_arg(a, "-i"@) {
        Some(ValidateError::MissingInput)
    } else if reads_output(a, output, same_file, p) {
        Some(ValidateError::OutputIsInput)
    } else {
        None
    }
}

/// The verdict on `plans` writing to `output`: one or two passes, a non-blank output,
/// each plan well formed, naming an input and not reading the output, checked plan by
/// plan, and the output last on the last plan.
pub open spec fn validation(plans: Seq<Vec<String>>, output: Seq<char>, same_file: Seq<Vec<bool>>) -> Result<(), ValidateError> {
    if plans.len() == 0 || plans.len() > 2 {
        Err(ValidateError::PassCount)
    } else if forall|k: int| 0 <= k < output.len() ==> is_white_space(#[trigger] output[k]) {
        Err(ValidateError::NoOutput)
    } else if plan_error(plans[0]@, output, same_file, 0) is Some {
        Err(plan_error(plans[0]@, output, same_file, 0)->0)
    } else if plans.len() == 2 && plan_error(plans[1]@, output, same_file, 1) is Some {
        Err(plan_error(plans[1]@, output, same_file, 1)->0)
    } else if plans.last()@.last()@ == output {
        Ok(())
    } else {
        Err(ValidateError::OutputMismatch)
    }
}

/// Whether `args` holds the argument `x`.
pub fn contains_arg(args: &[String], x: &str) -> (r: bool)
    ensures
        r == has_arg(args@, x@),
{
    for k in 0..args.len()
        invariant
            forall|j: int| 0 <= j < k ==> (#[trigger] args@[j])@ != x@,
    {
        if str_eq(args[k].as_str(), x) {
            assert(args@[k as int]@ == x@);
            return true;
        }
    }
    false
}

fn is_linked(same_file: &[Vec<bool>], p: usize, k: usize) -> (r: bool)
    ensures
        r == linked(same_file@, p as int, k as int),
{
    p < same_file.len() && k < same_file[p].len() && same_file[p][k]
}

fn check_plan(a: &Vec<String>, output: &str, same_file: &[Vec<bool>], p: usize) -> (r: Option<ValidateError>)
    ensures
        r == plan_error(a@, output@, same_file@, p as int),
{
    if a.len() == 0 || a.len() > 512 {
        return Some(ValidateError::InvalidArguments);
    }
    for k in 0..a.len()
        invariant
            forall|j: int| 0 <= j < k ==> !(#[trigger] a@[j])@.contains('\0'),
    {
        if contains_char(a[k].as_str(), '\0') {
            return Some(ValidateError::InvalidArguments);
        }
    }
    if !contains_arg(a.as_slice(), "-i") {
        return Some(ValidateError::MissingInput);
    }
    let n = a.len() - 1;
    for k in 0..n
        invariant
            n == a@.len() - 1,
            args_well_formed(a@),
            has_arg(a@, "-i"@),
            forall|j: int|
                0 <= j < k ==> !((#[trigger] a@[j])@ == "-i"@ && (a@[j + 1]@ == output@ || linked(
                    same_file@,
                    p as int,
                    j + 1,
                ))),
    {
        if str_eq(a[k].as_str(), "-i") && (str_eq(a[k + 1].as_str(), output) || is_linked(
            same_file,
            p,
            k + 1,
        )) {
            assert(a@[k as int]@ == "-i"@);
            return Some(ValidateError::OutputIsInput);
        }
    }
    None
}

/// Checks encoding plans against their output. Reading files is the caller's part:
/// `same_file[p][k]` tells that argument `k` of plan `p` resolves on disk to the same
/// file as the output (missing entries count as no); an input that spells the output,
/// or resolves to it, is refused.
pub fn validate(plans: &[Vec<String>], output: &str, same_file: &[Vec<bool>]) -> (r: Result<(), ValidateError>)
    ensures
        r == validation(plans@, output@, same_file@),
        r is Ok ==> {
            &&& 1 <= plans@.len() <= 2
            &&& plans@.last()@.last()@ == output@
            &&& forall|p: int|
                0 <= p < plans@.len() ==> {
                    &&& has_arg(#[trigger] plans@[p]@, "-i"@)
                    &&& args_well_formed(plans@[p]@)
                    &&& forall|k: int|
                        0 <= k < plans@[p]@.len() - 1 && (#[trigger] plans@[p]@[k])@ == "-i"@
                            ==> plans@[p]@[k + 1]@ != output@ && !linked(same_file@, p, k + 1)
                }
        },
{
    if plans.len() == 0 || plans.len() > 2 {
        return Err(ValidateError::PassCount);
    }
    if all_white_space(output) {
        return Err(ValidateError::NoOutput);
    }
    if let Some(e) = check_plan(&plans[0], output, same_file, 0) {
        return Err(e);
    }
    if plans.len() == 2 {
        if let Some(e) = check_plan(&plans[1], output, same_file, 1) {
            return Err(e);
        }
    }
    let last = &plans[plans.len() - 1];
    let r = if str_eq(last[last.len() - 1].as_str(), output) {
        Ok(())
    } else {
        Err(ValidateError::OutputMismatch)
    };
    proof {
        if r is Ok {
            assert forall|p: int| 0 <= p < plans@.len() implies {
                &&& has_arg(#[trigger] plans@[p]@, "-i"@)
                &&& args_well_formed(plans@[p]@)
                &&& forall|k: int|
                    0 <= k < plans@[p]@.len() - 1 && (#[trigger] plans@[p]@[k])@ == "-i"@
                        ==> plans@[p]@[k + 1]@ != output@ && !linked(same_file@, p, k + 1)
            } by {
                assert(plan_error(plans@[p]@, output@, same_file@, p) is None);
            }
        }
    }
    r
}

/// The arguments given to FFmpeg for one pass: progress reporting on standard output,
/// then `-n` unless the plan itself says `-y` or `-n`, then the plan.
pub open spec fn pass_arguments(plan: Seq<String>) -> Seq<Seq<char>> {
    seq!["-nostdin"@, "-progress"@, "pipe:1"@, "-nostats"@] + (if has_arg(plan, "-y"@) || has_arg(
        plan,
        "-n"@,
    ) {
        Seq::empty()
    } else {
        seq!["-n"@]
    }) + views(plan)
}

/// Builds the FFmpeg arguments for one pass of `plan`; an existing output is never
/// overwritten unless the plan asks for it with `-y`.
pub fn ffmpeg_args(plan: &[String]) -> (r: Vec<String>)
    ensures
        views(r@) == pass_arguments(plan@),
        !has_arg(plan@, "-y"@) ==> views(r@).contains("-n"@),
{
    let mut r: Vec<String> = Vec::new();
    r.push(owned("-nostdin"));
    r.push(owned("-progress"));
    r.push(owned("pipe:1"));
    r.push(owned("-nostats"));
    let explicit = contains_arg(plan, "-y") || contains_arg(plan, "-n");
    if !explicit {
        r.push(owned("-n"));
        assert(views(r@) =~= seq!["-nostdin"@, "-progress"@, "pipe:1"@, "-nostats"@] + seq!["-n"@]);
    } else {
        assert(views(r@) =~= seq!["-nostdin"@, "-progress"@, "pipe:1"@, "-nostats"@] + Seq::<Seq<char>>::empty());
    }
    let ghost head = views(r@);
    assert(plan@.take(0) =~= Seq::<String>::empty());
    assert(head =~= head + views(plan@.take(0)));
    for k in 0..plan.len()
        invariant
            views(r@) == head + views(plan@.take(k as int)),
    {
        let ghost before = r@;
        r.push(plan[k].clone());
        assert(plan@.take(k + 1) =~= plan@.take(k as int).push(plan@[k as int]));
        assert(views(plan@.take(k + 1)) =~= views(plan@.take(k as int)).push(plan@[k as int]@));
        assert(views(r@) =~= views(before).push(plan@[k as int]@));
    }
    assert(plan@.take(plan@.len() as int) =~= plan@);
    proof {
        if !has_arg(plan@, "-y"@) && !has_arg(plan@, "-n"@) {
            assert(views(r@)[4] == "-n"@);
        }
        if has_arg(plan@, "-n"@) {
            let k = choose|k: int| 0 <= k < plan@.len() && (#[trigger] plan@[k])@ == "-n"@;
            assert(views(r@)[head.len() + k] == "-n"@);
        }
    }
    r
}

/// Only a blank output is refused as missing: the refusal `NoOutput` comes only when
/// every character of the output is white space, so an output holding any other
/// character (a visible ASCII character such as a letter, a digit, `/` or `:`, or any
/// character outside Unicode's white space), spaces inside it or not, is never refused
/// for want of an output.
pub proof fn law_only_a_blank_output_is_missing(
    plans: Seq<Vec<String>>,
    output: Seq<char>,
    same_file: Seq<Vec<bool>>,
    c: int,
)
    requires
        0 <= c < output.len(),
        !is_white_space(output[c]) || (0x21 <= (output[c] as u32) && (output[c] as u32) <= 0x7e),
    ensures
        !(validation(plans, output, same_file) matches Err(ValidateError::NoOutput)),
{
    assert(!is_white_space(output[c]));
}

/// The refusal `NoOutput` means that every character of the output is white space.
pub proof fn law_missing_output_is_blank(plans: Seq<Vec<String>>, output: Seq<char>, same_file: Seq<Vec<bool>>)
    ensures
        validation(plans, output, same_file) matches Err(ValidateError::NoOutput) ==> forall|k: int|
            0 <= k < output.len() ==> is_white_space(#[trigger] output[k]) && !(0x21 <= (
            output[k] as u32) && (output[k] as u32) <= 0x7e),
{
}

/// Plans that meet every rule are accepted: one or two passes, an output holding a
/// character other than white space, each plan of 1 to 512 arguments without NUL, each
/// with an `-i`, no argument after an `-i` that spells the output or resolves to it,
/// and the output last on the last plan.
pub proof fn law_well_formed_plans_are_accepted(
    plans: Seq<Vec<String>>,
    output: Seq<char>,
    same_file: Seq<Vec<bool>>,
    c: int,
)
    requires
        1 <= plans.len() <= 2,
        0 <= c < output.len(),
        0x21 <= (output[c] as u32) && (output[c] as u32) <= 0x7e,
        forall|p: int| 0 <= p < plans.len() ==> 1 <= (#[trigger] plans[p])@.len() <= 512,
        forall|p: int, a: int|
            0 <= p < plans.len() && 0 <= a < plans[p]@.len() ==> !(#[trigger] plans[p]@[a])@.contains(
                '\0',
            ),
        forall|p: int|
            0 <= p < plans.len() ==> exists|a: int|
                0 <= a < (#[trigger] plans[p])@.len() && plans[p]@[a]@ == "-i"@,
        forall|p: int, a: int|
            0 <= p < plans.len() && 0 <= a < plans[p]@.len() - 1 && (#[trigger] plans[p]@[a])@
                == "-i"@ ==> plans[p]@[a + 1]@ != output && !(p < same_file.len() && a + 1
                < same_file[p]@.len() && same_file[p]@[a + 1]),
        plans.last()@.last()@ == output,
    ensures
        validation(plans, output, same_file) == Ok::<(), ValidateError>(()),
{
    assert(!is_white_space(output[c]));
    assert forall|p: int| 0 <= p < plans.len() implies plan_error(plans[p]@, output, same_file, p) is None by {
        assert(args_well_formed(plans[p]@)) by {
            assert forall|a: int| 0 <= a < plans[p]@.len() implies !(#[trigger] plans[p]@[a])@.contains('\0') by {
                assert(!(plans[p]@[a])@.contains('\0'));
            }
        }
        let a = choose|a: int| 0 <= a < plans[p]@.len() && plans[p]@[a]@ == "-i"@;
        assert(has_arg(plans[p]@, "-i"@));
        if reads_output(plans[p]@, output, same_file, p) {
            let a = choose|a: int|
                0 <= a < plans[p]@.len() - 1 && (#[trigger] plans[p]@[a])@ == "-i"@ && (plans[p]@[a
                    + 1]@ == output || linked(same_file, p, a + 1));
            assert(plans[p]@[a + 1]@ != output);
        }
    }
    assert(plan_error(plans[0]@, output, same_file, 0) is None);
    if plans.len() == 2 {
        assert(plan_error(plans[1]@, output, same_file, 1) is None);
    }
}

/// Every pass's arguments begin with progress reporting on standard output
/// (`-nostdin -progress pipe:1 -nostats`) and end with the plan itself; in between
/// stands `-n` exactly when the plan says neither `-y` nor `-n`, and nothing else.
pub proof fn law_pass_arguments_shape(plan: Seq<String>)
    ensures
        ({
            let a = pass_arguments(plan);
            let explicit = (exists|k: int| 0 <= k < plan.len() && (#[trigger] plan[k])@ == "-y"@) || (
            exists|k: int| 0 <= k < plan.len() && (#[trigger] plan[k])@ == "-n"@);
            &&& a.len() == 4 + plan.len() + (if explicit {
                0int
            } else {
                1int
            })
            &&& a[0] == "-nostdin"@
            &&& a[1] == "-progress"@
            &&& a[2] == "pipe:1"@
            &&& a[3] == "-nostats"@
            &&& !explicit ==> a[4] == "-n"@
            &&& forall|k: int| 0 <= k < plan.len() ==> a[a.len() - plan.len() + k] == (#[trigger] plan[k])@
        }),
{
    let a = pass_arguments(plan);
    let head = seq!["-nostdin"@, "-progress"@, "pipe:1"@, "-nostats"@];
    let mid: Seq<Seq<char>> = if has_arg(plan, "-y"@) || has_arg(plan, "-n"@) {
        Seq::empty()
    } else {
        seq!["-n"@]
    };
    assert(a == head + mid + views(plan));
    assert forall|k: int| 0 <= k < plan.len() implies a[a.len() - plan.len() + k] == (#[trigger] plan[k])@ by {
        assert(a[a.len() - plan.len() + k] == views(plan)[k]);
    }
}

/// Starting a run is refused when its output already exists and its last plan does not
/// ask for overwriting with `-y`.
pub open spec fn overwrite_refused_spec(output_exists: bool, plans: Seq<Vec<String>>) -> bool {
    output_exists && !(plans.len() > 0 && has_arg(plans.last()@, "-y"@))
}

/// Whether a run must be refused because it would overwrite an existing output.
pub fn overwrite_refused(output_exists: bool, plans: &[Vec<String>]) -> (r: bool)
    ensures
        r == overwrite_refused_spec(output_exists, plans@),
{
    if !output_exists {
        return false;
    }
    if plans.len() == 0 {
        return true;
    }
    !contains_arg(plans[plans.len() - 1].as_slice(), "-y")
}

/// The number carried by an FFmpeg progress line `out_time_us=<n>`, as text.
pub fn progress_field(line: &str) -> (r: Option<String>)
    ensures
        r is Some <==> has_prefix(line@, "out_time_us="@),
        r matches Some(t) ==> t@ == line@.skip("out_time_us="@.len() as int),
{
    strip_prefix(line, "out_time_us=")
}

/// Why an encoding run ended without completing.
#[derive(Debug)]
pub enum RunError {
    OutputExists,
    Cancelled,
    Exited { code: Option<i32> },
}

/// How `{:?}` writes an optional exit code.
pub open spec fn exit_code_text(code: Option<i32>) -> Seq<char> {
    match code {
        Some(n) => "Some("@ + signed_decimal(n as int) + ")"@,
        None => "None"@,
    }
}

impl RunError {
    /// The message recorded for this ending.
    pub open spec fn text(self) -> Seq<char> {
        match self {
            RunError::OutputExists => "Le fichier de sortie existe déjà. Activez explicitement l’écrasement ou choisissez un autre nom."@,
            RunError::Cancelled => "Encodage annulé. La sortie partielle peut être supprimée manuellement."@,
            RunError::Exited { code } => "FFmpeg s’est arrêté avec le code "@ + exit_code_text(code) + "."@,
        }
    }

    /// The message recorded for this ending.
    pub fn message(&self) -> (r: String)
        ensures
            r@ == self.text(),
    {
        match self {
            RunError::OutputExists => owned(
                "Le fichier de sortie existe déjà. Activez explicitement l’écrasement ou choisissez un autre nom.",
            ),
            RunError::Cancelled => owned(
                "Encodage annulé. La sortie partielle peut être supprimée manuellement.",
            ),
            RunError::Exited { code } => {
                let mut s = owned("FFmpeg s’est arrêté avec le code ");
                match code {
                    Some(n) => {
                        s.append("Some(");
                        push_signed_decimal(&mut s, *n);
                        s.append(")");
                    },
                    None => {
                        s.append("None");
                    },
                }
                s.append(".");
                assert(s@ =~= self.text());
                s
            },
        }
    }
}


/// What happened in an encoding run since its last step.
#[derive(Debug)]
pub enum RunEvent {
    /// The next pass is due; `stop` tells whether a stop was asked for the run.
    PassDue { stop: bool },
    /// The pass that was started exited: with success or not, and with which code.
    PassExited { success: bool, code: Option<i32> },
}

/// What the runner of an encoding run does next.
#[derive(Debug)]
pub enum RunAction {
    /// Start the pass with this index (0 for the first).
    StartPass(usize),
    /// The pass succeeded: go on with this many passes done.
    Continue(usize),
    /// The run is over, with this outcome.
    Finish(Result<(), RunError>),
}

/// One step of a run of `passes` passes, `done` of which succeeded: when a pass is due,
/// the run succeeds once every pass is done, is cancelled when a stop was asked, and
/// starts the next pass otherwise; when a pass exits, a success counts it as done and a
/// failure ends the run with its exit code.
pub open spec fn run_step_spec(passes: nat, done: nat, event: RunEvent) -> RunAction {
    match event {
        RunEvent::PassDue { stop } => if done >= passes {
            RunAction::Finish(Ok(()))
        } else if stop {
            RunAction::Finish(Err(RunError::Cancelled))
        } else {
            RunAction::StartPass(done as usize)
        },
        RunEvent::PassExited { success, code } => if success {
            RunAction::Continue((done + 1) as usize)
        } else {
            RunAction::Finish(Err(RunError::Exited { code }))
        },
    }
}

/// Decides the next step of an encoding run of `passes` passes, `done` of which
/// succeeded, after `event`. A pass exits only after it was started, so then
/// `done < passes`.
pub fn run_step(passes: usize, done: usize, event: RunEvent) -> (r: RunAction)
    requires
        event is PassExited ==> done < passes,
    ensures
        r == run_step_spec(passes as nat, done as nat, event),
{
    match event {
        RunEvent::PassDue { stop } => {
            if done >= passes {
                RunAction::Finish(Ok(()))
            } else if stop {
                RunAction::Finish(Err(RunError::Cancelled))
            } else {
                RunAction::StartPass(done)
            }
        },
        RunEvent::PassExited { success, code } => {
            if success {
                RunAction::Continue(done + 1)
            } else {
                RunAction::Finish(Err(RunError::Exited { code }))
            }
        },
    }
}

/// How a run of `passes` passes goes on from `done` passes done, when `stops[k]` tells
/// whether a stop was asked before pass `k` and `exits[k]` how pass `k` exited (success,
/// code): its outcome, and how many passes were started in all.
pub open spec fn run_from(passes: nat, done: nat, stops: Seq<bool>, exits: Seq<(bool, Option<i32>)>) -> (Result<(), RunError>, nat)
    decreases passes - done,
{
    if done >= passes {
        (Ok(()), done)
    } else if stops[done as int] {
        (Err(RunError::Cancelled), done)
    } else if !exits[done as int].0 {
        (Err(RunError::Exited { code: exits[done as int].1 }), done + 1)
    } else {
        run_from(passes, done + 1, stops, exits)
    }
}

/// Each step that `run_step` decides follows the run: a finish when a pass is due ends
/// it with no further pass started; otherwise the pass started is the next one, its
/// failure ends the run after it, and its success leads on from one pass more.
pub proof fn law_run_steps_follow_the_run(
    passes: nat,
    done: nat,
    stops: Seq<bool>,
    exits: Seq<(bool, Option<i32>)>,
)
    requires
        done <= passes,
        passes <= usize::MAX,
        stops.len() >= passes,
        exits.len() >= passes,
    ensures
        ({
            let due = run_step_spec(passes, done, RunEvent::PassDue { stop: stops[done as int] });
            &&& due matches RunAction::Finish(r) ==> run_from(passes, done, stops, exits) == (
            r, done)
            &&& due matches RunAction::StartPass(k) ==> {
                let exited = run_step_spec(
                    passes,
                    done,
                    RunEvent::PassExited {
                        success: exits[done as int].0,
                        code: exits[done as int].1,
                    },
                );
                &&& k == done
                &&& done < passes
                &&& exited matches RunAction::Finish(r) ==> run_from(passes, done, stops, exits)
                    == (r, done + 1)
                &&& exited matches RunAction::Continue(m) ==> m == done + 1 && run_from(
                    passes,
                    done,
                    stops,
                    exits,
                ) == run_from(passes, m as nat, stops, exits)
            }
            &&& !(due is Continue)
        }),
{
}

proof fn lemma_run_from(passes: nat, done: nat, stops: Seq<bool>, exits: Seq<(bool, Option<i32>)>)
    requires
        done <= passes,
        stops.len() >= passes,
        exits.len() >= passes,
    ensures
        ({
            let (r, started) = run_from(passes, done, stops, exits);
            &&& done <= started <= passes
            &&& r is Ok <==> forall|k: int|
                done <= k < passes ==> !(#[trigger] stops[k]) && exits[k].0
            &&& r is Ok ==> started == passes
            &&& r matches Err(RunError::Exited { code }) ==> {
                &&& done < started
                &&& !exits[started - 1].0
                &&& exits[started - 1].1 == code
                &&& !stops[started - 1]
                &&& forall|k: int| done <= k < started - 1 ==> !(#[trigger] stops[k]) && exits[k].0
            }
            &&& r matches Err(RunError::Cancelled) ==> {
                &&& started < passes
                &&& stops[started as int]
                &&& forall|k: int| done <= k < started ==> !(#[trigger] stops[k]) && exits[k].0
            }
            &&& !(r matches Err(RunError::OutputExists))
        }),
    decreases passes - done,
{
    if done < passes && !stops[done as int] && exits[done as int].0 {
        lemma_run_from(passes, done + 1, stops, exits);
        let t = run_from(passes, done + 1, stops, exits);
        assert(run_from(passes, done, stops, exits) == t);
        if t.0 is Ok {
            assert forall|k: int| done <= k < passes implies !(#[trigger] stops[k]) && exits[k].0 by {
                if k > done {
                    assert(done + 1 <= k < passes);
                }
            }
        }
    }
}

/// How an encoding run ends: it succeeds exactly when no stop was asked before any pass
/// and every pass exited with success, and then every pass was started; it ends with
/// an exit code only after that pass failed, every pass before it having succeeded with
/// no stop asked, and no later pass is started; it is cancelled only when a stop was
/// asked before a pass, every pass before it having succeeded.
pub proof fn law_run_outcome(passes: nat, stops: Seq<bool>, exits: Seq<(bool, Option<i32>)>)
    requires
        stops.len() >= passes,
        exits.len() >= passes,
    ensures
        ({
            let (r, started) = run_from(passes, 0, stops, exits);
            &&& started <= passes
            &&& r is Ok <==> forall|k: int| 0 <= k < passes ==> !(#[trigger] stops[k]) && exits[k].0
            &&& r is Ok ==> started == passes
            &&& r matches Err(RunError::Exited { code }) ==> {
                &&& 0 < started
                &&& !exits[started - 1].0
                &&& exits[started - 1].1 == code
                &&& !stops[started - 1]
                &&& forall|k: int| 0 <= k < started - 1 ==> !(#[trigger] stops[k]) && exits[k].0
            }
            &&& r matches Err(RunError::Cancelled) ==> {
                &&& started < passes
                &&& stops[started as int]
                &&& forall|k: int| 0 <= k < started ==> !(#[trigger] stops[k]) && exits[k].0
            }
            &&& !(r matches Err(RunError::OutputExists))
        }),
{
    lemma_run_from(passes, 0, stops, exits);
}

/// How long ffprobe may take to analyse a file, in nanoseconds.
pub const PROBE_TIMEOUT_NANOS: u128 = 25_000_000_000;

/// What to do next while ffprobe analyses a file.
#[derive(Debug)]
pub enum ProbeStep {
    /// ffprobe exited: read what it wrote.
    Finished,
    /// ffprobe ran too long: stop it.
    TimedOut,
    /// Look again a little later.
    Wait,
}

/// Decides, after checking whether ffprobe exited and how long it has run, what to do
/// next: an exit is taken first, then the time limit.
pub fn probe_step(exited: bool, elapsed_nanos: u128) -> (r: ProbeStep)
    ensures
        exited ==> r is Finished,
        !exited && elapsed_nanos > PROBE_TIMEOUT_NANOS ==> r is TimedOut,
        !exited && elapsed_nanos <= PROBE_TIMEOUT_NANOS ==> r is Wait,
{
    if exited {
        ProbeStep::Finished
    } else if elapsed_nanos > PROBE_TIMEOUT_NANOS {
        ProbeStep::TimedOut
    } else {
        ProbeStep::Wait
    }
}

/// Why analysing a file failed.
#[derive(Debug)]
pub enum ProbeError {
    TimedOut,
    ReadInterrupted,
    /// ffprobe exited with failure; its error output, as text.
    Failed(String),
    /// ffprobe's output is not a JSON document; serde_json's message.
    Unreadable(String),
}

impl ProbeError {
    /// The message shown for this failure.
    pub open spec fn text(self) -> Seq<char> {
        match self {
            ProbeError::TimedOut => "L’analyse du média a dépassé 25 secondes."@,
            ProbeError::ReadInterrupted => "Lecture interrompue"@,
            ProbeError::Failed(m) => m@,
            ProbeError::Unreadable(m) => m@,
        }
    }

    /// The message shown for this failure.
    pub fn message(&self) -> (r: String)
        ensures
            r@ == self.text(),
    {
        match self {
            ProbeError::TimedOut => owned("L’analyse du média a dépassé 25 secondes."),
            ProbeError::ReadInterrupted => owned("Lecture interrompue"),
            ProbeError::Failed(m) => m.clone(),
            ProbeError::Unreadable(m) => m.clone(),
        }
    }
}

/// serde_json's `Value`: a JSON document.
#[verifier::external_type_specification]
#[verifier::external_body]
pub struct ExJsonValue(serde_json::Value);

/// What serde_json's `from_slice` makes of `bytes` read as a JSON document: the
/// document when it accepts them, the message of its error otherwise.
pub uninterp spec fn json_parse(bytes: Seq<u8>) -> Result<serde_json::Value, Seq<char>>;

/// serde_json's `from_slice` into a `Value`: gives the document that `json_parse`
/// names for the bytes, or the `Display` text of its error.
#[verifier::external_body]
fn parse_json(bytes: &[u8]) -> (r: Result<serde_json::Value, String>)
    ensures
        match json_parse(bytes@) {
            Ok(v) => r matches Ok(w) && w == v,
            Err(m) => r matches Err(e) && e@ == m,
        },
{
    match serde_json::from_slice::<serde_json::Value>(bytes) {
        Ok(v) => Ok(v),
        Err(e) => Err(e.to_string()),
    }
}

/// The result of an ffprobe run that exited, from what it wrote (as far as it was
/// read): on failure, its error output decoded as UTF-8 with invalid sequences
/// replaced; on success, the JSON document that serde_json reads from its standard
/// output, refused with serde_json's message when it is not one.
pub fn probe_outcome(success: bool, stdout: &[u8], stderr: &[u8]) -> (r: Result<serde_json::Value, ProbeError>)
    ensures
        !success ==> (r matches Err(ProbeError::Failed(m)) && m@ == utf8_lossy(stderr@)),
        success ==> match json_parse(stdout@) {
            Ok(v) => r matches Ok(w) && w == v,
            Err(m) => r matches Err(ProbeError::Unreadable(e)) && e@ == m,
        },
{
    if !success {
        return Err(ProbeError::Failed(from_utf8_lossy(stderr)));
    }
    match parse_json(stdout) {
        Ok(v) => Ok(v),
        Err(m) => Err(ProbeError::Unreadable(m)),
    }
}

/// The arguments given to ffprobe to describe the file at `path`: errors only, the
/// container and its streams, as JSON.
pub fn probe_args(path: &str) -> (r: Vec<String>)
    ensures
        views(r@) == seq![
            "-v"@,
            "error"@,
            "-show_format"@,
            "-show_streams"@,
            "-of"@,
            "json"@,
            path@,
        ],
{
    let mut r: Vec<String> = Vec::new();
    r.push(owned("-v"));
    r.push(owned("error"));
    r.push(owned("-show_format"));
    r.push(owned("-show_streams"));
    r.push(owned("-of"));
    r.push(owned("json"));
    r.push(owned(path));
    assert(views(r@) =~= seq!["-v"@, "error"@, "-show_format"@, "-show_streams"@, "-of"@, "json"@, path@]);
    r
}

} // verus!
