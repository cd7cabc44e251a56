//! The `--on-exit` hooks of a run that has ended.

use crate::model::ids::uuid_text;
use crate::model::meta::{texts, Meta, MetaModel};
use crate::model::state::{ExitReason, RunStatus};
use crate::sidecar::startup::pairs_of;
use crate::text::{decimal, push_decimal};
use vstd::prelude::*;

verus! {

/// The words of a command line, or `None` where its quoting is broken.
pub uninterp spec fn shell_words_of(command: Seq<char>) -> Option<Seq<Seq<char>>>;

/// `shell_words::split`: the words of the command line by the rules of a POSIX
/// shell, or an error where a quote is not closed. Depends on nothing else.
#[verifier::external_body]
fn shell_split(command: &str) -> (words: Option<Vec<String>>)
    ensures
        match shell_words_of(command@) {
            Some(w) => words matches Some(v) && texts(v@) == w,
            None => words is None,
        },
{
    shell_words::split(command).ok()
}

/// The arguments that a command line stands for, given its words: a command line
/// that is no shell syntax is one word.
pub open spec fn argv_of(command: Seq<char>, words: Option<Seq<Seq<char>>>) -> Seq<Seq<char>> {
    match words {
        Some(words) => words,
        None => seq![command],
    }
}

/// The arguments that a command line stands for, given its words.
pub fn argv_of_words(command: &str, words: Option<Vec<String>>) -> (argv: Vec<String>)
    ensures
        texts(argv@) == argv_of(
            command@,
            match words {
                Some(w) => Some(texts(w@)),
                None => None,
            },
        ),
{
    match words {
        Some(words) => words,
        None => {
            let argv = vec![command.to_owned()];
            assert(texts(argv@) =~= seq![command@]);
            argv
        },
    }
}

/// The arguments that a hook's command line stands for.
pub fn hook_argv(command: &str) -> (argv: Vec<String>)
    ensures
        texts(argv@) == argv_of(command@, shell_words_of(command@)),
{
    argv_of_words(command, shell_split(command))
}

/// A hook to run.
#[derive(Clone, Debug, PartialEq, Eq)]
pub struct Hook {
    /// Its place among the hooks that were asked for.
    pub index: usize,
    pub command: String,
    /// The program and its arguments; never empty.
    pub argv: Vec<String>,
}

/// A hook to run.
pub struct HookModel {
    pub index: nat,
    pub command: Seq<char>,
    pub argv: Seq<Seq<char>>,
}

impl View for Hook {
    type V = HookModel;

    open spec fn view(&self) -> HookModel {
        HookModel {
            index: self.index as nat,
            command: self.command@,
            argv: texts(self.argv@),
        }
    }
}

pub open spec fn hook_models(hooks: Seq<Hook>) -> Seq<HookModel> {
    Seq::new(hooks.len(), |i: int| hooks[i]@)
}

/// The hook of a command line with these arguments, if it names a program.
pub fn hook_of(index: usize, command: &str, argv: Vec<String>) -> (hook: Option<Hook>)
    ensures
        hook is Some <==> argv@.len() > 0,
        hook matches Some(h) ==> h.index == index && h.command@ == command@ && h.argv == argv,
{
    if argv.len() == 0 {
        None
    } else {
        Some(Hook { index, command: command.to_owned(), argv })
    }
}

/// The hooks among `commands` that name a program, in order.
pub open spec fn hooks_of(commands: Seq<Seq<char>>) -> Seq<HookModel>
    decreases commands.len(),
{
    if commands.len() == 0 {
        Seq::empty()
    } else {
        let head = hooks_of(commands.drop_last());
        let command = commands.last();
        let argv = argv_of(command, shell_words_of(command));
        if argv.len() == 0 {
            head
        } else {
            head.push(HookModel { index: (commands.len() - 1) as nat, command, argv })
        }
    }
}

/// The hooks to run for a run with this status: only a run whose child ran and
/// ended has any.
pub fn planned_hooks(status: &RunStatus, commands: &Vec<String>) -> (hooks: Vec<Hook>)
    ensures
        hook_models(hooks@) == (if status is Exited {
            hooks_of(texts(commands@))
        } else {
            Seq::empty()
        }),
{
    let mut hooks: Vec<Hook> = Vec::new();
    assert(hook_models(hooks@) =~= Seq::empty());
    match status {
        RunStatus::Exited { .. } => {},
        _ => return hooks,
    }
    let ghost all = texts(commands@);
    let mut i: usize = 0;
    assert(all.take(0) =~= Seq::empty());
    while i < commands.len()
        invariant
            i <= commands@.len(),
            all == texts(commands@),
            hook_models(hooks@) == hooks_of(all.take(i as int)),
        decreases commands@.len() - i,
    {
        proof {
            assert(all.take(i + 1).drop_last() =~= all.take(i as int));
            assert(all.take(i + 1).last() == commands@[i as int]@);
        }
        let ghost before = hooks@;
        let argv = hook_argv(commands[i].as_str());
        assert(texts(argv@).len() == argv@.len());
        if let Some(hook) = hook_of(i, commands[i].as_str(), argv) {
            let ghost model = hook@;
            hooks.push(hook);
            assert(hook_models(hooks@) =~= hook_models(before).push(model));
        }
        i = i + 1;
    }
    assert(all.take(i as int) =~= all);
    hooks
}

/// Every hook that is run names a program.
pub proof fn law_hooks_name_a_program(commands: Seq<Seq<char>>)
    ensures
        forall|i: int|
            0 <= i < hooks_of(commands).len() ==> (#[trigger] hooks_of(commands)[i]).argv.len() > 0
                && hooks_of(commands)[i].index < commands.len() && hooks_of(commands)[i].command
                == commands[hooks_of(commands)[i].index as int],
    decreases commands.len(),
{
    if commands.len() > 0 {
        law_hooks_name_a_program(commands.drop_last());
        let head = hooks_of(commands.drop_last());
        assert forall|i: int| 0 <= i < hooks_of(commands).len() implies (
        #[trigger] hooks_of(commands)[i]).argv.len() > 0 && hooks_of(commands)[i].index
            < commands.len() && hooks_of(commands)[i].command == commands[hooks_of(
            commands,
        )[i].index as int] by {
            if i < head.len() {
                assert(hooks_of(commands)[i] == head[i]);
            }
        }
    }
}

/// `TENDR_EXIT_REASON` for the hooks.
pub open spec fn exit_reason_text(how: ExitReason) -> Seq<char> {
    match how {
        ExitReason::ExitedOk => "ExitedOk"@,
        ExitReason::ExitedError { code } => "ExitedError { code: "@ + signed_decimal(code@ as int)
            + " }"@,
        ExitReason::Killed => "Killed"@,
        ExitReason::KilledForced => "KilledForced"@,
        ExitReason::TimedOut => "TimedOut"@,
        ExitReason::SidecarFailed { .. } => "SidecarFailed"@,
    }
}

/// A number in decimal, behind a minus sign where it is negative.
pub open spec fn signed_decimal(value: int) -> Seq<char> {
    if value < 0 {
        "-"@ + decimal((0 - value) as nat)
    } else {
        decimal(value as nat)
    }
}

/// `TENDR_EXIT_REASON` for `--on-exit` hooks. `SidecarFailed` is the bare reason
/// name, so a hook can match it exactly; the failing step is in the run's record.
pub fn exit_reason_env(how: &ExitReason) -> (text: String)
    ensures
        text@ == exit_reason_text(*how),
{
    let mut text = String::new();
    match how {
        ExitReason::ExitedOk => text.append("ExitedOk"),
        ExitReason::ExitedError { code } => {
            let code: i64 = code.get() as i64;
            text.append("ExitedError { code: ");
            if code < 0 {
                text.append("-");
                push_decimal(&mut text, (0 - code) as u64);
            } else {
                push_decimal(&mut text, code as u64);
            }
            text.append(" }");
        },
        ExitReason::Killed => text.append("Killed"),
        ExitReason::KilledForced => text.append("KilledForced"),
        ExitReason::TimedOut => text.append("TimedOut"),
        ExitReason::SidecarFailed { .. } => text.append("SidecarFailed"),
    }
    assert(text@ =~= exit_reason_text(*how));
    text
}

/// The namespace of a run that was launched in none.
pub open spec fn namespace_text(namespace: Option<&str>) -> Seq<char> {
    match namespace {
        Some(name) => name@,
        None => "default"@,
    }
}

/// What the hooks of a run that ended as `how` find in their environment.
pub open spec fn hook_env_of(
    meta: MetaModel,
    how: ExitReason,
    namespace: Seq<char>,
    dir: Seq<char>,
) -> Seq<(Seq<char>, Seq<char>)> {
    seq![
        ("TENDR_SESSION"@, meta.session),
        ("TENDR_NAMESPACE"@, namespace),
        ("TENDR_RUN_ID"@, uuid_text(meta.run_id@.0, meta.run_id@.1)),
        ("TENDR_GENERATION"@, decimal(meta.generation as nat)),
        ("TENDR_EXIT_REASON"@, exit_reason_text(how)),
        ("TENDR_SESSION_DIR"@, dir),
    ]
}

/// The variables that the hooks of a run find in their environment; `None` where its child
/// did not run and end, so that it has no hooks.
pub fn hook_env(meta: &Meta, namespace: Option<&str>, dir: &str) -> (env: Option<
    Vec<(String, String)>,
>)
    ensures
        match meta@.status {
            RunStatus::Exited { how, .. } => env matches Some(vars) && pairs_of(vars@)
                == hook_env_of(meta@, how, namespace_text(namespace), dir@),
            _ => env is None,
        },
{
    let how = match meta.status() {
        RunStatus::Exited { how, .. } => how,
        _ => return None,
    };
    let namespace = match namespace {
        Some(name) => name,
        None => "default",
    };
    let mut generation = String::new();
    push_decimal(&mut generation, meta.generation());
    assert(generation@ =~= decimal(meta@.generation as nat));
    let mut env: Vec<(String, String)> = Vec::new();
    env.push(("TENDR_SESSION".to_owned(), meta.session().to_owned()));
    env.push(("TENDR_NAMESPACE".to_owned(), namespace.to_owned()));
    env.push(("TENDR_RUN_ID".to_owned(), meta.run_id().to_text()));
    env.push(("TENDR_GENERATION".to_owned(), generation));
    env.push(("TENDR_EXIT_REASON".to_owned(), exit_reason_env(how)));
    env.push(("TENDR_SESSION_DIR".to_owned(), dir.to_owned()));
    assert(pairs_of(env@) =~= hook_env_of(meta@, *how, namespace@, dir@));
    Some(env)
}

/// How running a hook's program ended.
#[derive(Clone, Debug, PartialEq, Eq)]
pub enum HookRun {
    /// It could not be started.
    SpawnFailed(String),
    /// It exited, with this code if it has one, and said this.
    Exited { success: bool, code: Option<i32>, stderr: String },
}

/// What is recorded of a hook.
#[derive(Clone, Debug, PartialEq, Eq)]
pub enum HookRecord {
    Succeeded,
    Failed { exit_code: Option<i32>, stderr: String },
    SpawnFailed { error: String },
}

/// What is recorded of a hook that ran, or did not.
pub fn hook_record(run: HookRun) -> (record: HookRecord)
    ensures
        match run {
            HookRun::SpawnFailed(error) => record matches HookRecord::SpawnFailed { error: e } && e@
                == error@,
            HookRun::Exited { success, code, stderr } => if success {
                record is Succeeded
            } else {
                record matches HookRecord::Failed { exit_code, stderr: s } && exit_code == code && s@
                    == crate::text::trimmed(stderr@)
            },
        },
{
    match run {
        HookRun::SpawnFailed(error) => HookRecord::SpawnFailed { error },
        HookRun::Exited { success, code, stderr } => if success {
            HookRecord::Succeeded
        } else {
            HookRecord::Failed {
                exit_code: code,
                stderr: crate::text::trim(stderr.as_str()).to_owned(),
            }
        },
    }
}

impl HookRecord {
    pub open spec fn status_text(self) -> Seq<char> {
        match self {
            HookRecord::Succeeded => "ok"@,
            HookRecord::Failed { .. } => "failed"@,
            HookRecord::SpawnFailed { .. } => "spawn_failed"@,
        }
    }

    /// The `status` of the record.
    pub fn status(&self) -> (status: &'static str)
        ensures
            status@ == self.status_text(),
    {
        match self {
            HookRecord::Succeeded => "ok",
            HookRecord::Failed { .. } => "failed",
            HookRecord::SpawnFailed { .. } => "spawn_failed",
        }
    }
}

// What each operation does, in terms of what it was given and what it gave back.

/// A command line that is no shell syntax is one word, and otherwise it is its words. A
/// hook is made of the place, the command line and the words that it was given, where there
/// is a word at all.
pub proof fn law_hooks_are_their_words(
    command: &str,
    words: Option<Vec<String>>,
    argv: Vec<String>,
    index: usize,
    given: Vec<String>,
    hook: Option<Hook>,
)
    requires
        call_ensures(argv_of_words, (command, words), argv),
        call_ensures(hook_of, (index, command, given), hook),
    ensures
        words is None ==> texts(argv@) =~= seq![command@],
        words matches Some(w) ==> texts(argv@) == texts(w@),
        hook is None <==> given@.len() == 0,
        hook matches Some(h) ==> h.index == index && h.command@ == command@ && h.argv@ == given@,
{
}

/// Only a run whose child ran and ended has hooks. Of one command more, the hooks are those
/// of the others and then its own, in its place and with its words, if it has any.
pub proof fn law_hooks_are_planned_in_order(
    status: RunStatus,
    commands: Vec<String>,
    hooks: Vec<Hook>,
    more: Vec<String>,
    all: Vec<Hook>,
    command: &str,
    argv: Vec<String>,
)
    requires
        texts(more@) == texts(commands@).push(command@),
        call_ensures(planned_hooks, (&status, &commands), hooks),
        call_ensures(planned_hooks, (&status, &more), all),
        call_ensures(hook_argv, (command,), argv),
    ensures
        !(status is Exited) ==> hooks@.len() == 0,
        commands@.len() == 0 ==> hooks@.len() == 0,
        status is Exited && argv@.len() == 0 ==> hook_models(all@) == hook_models(hooks@),
        status is Exited && argv@.len() > 0 ==> hook_models(all@) =~= hook_models(hooks@).push(
            HookModel { index: commands@.len() as nat, command: command@, argv: texts(argv@) },
        ),
{
    assert(hook_models(hooks@).len() == hooks@.len());
    assert(texts(commands@).len() == commands@.len());
    assert(texts(argv@).len() == argv@.len());
    assert(texts(more@).drop_last() =~= texts(commands@));
    assert(texts(more@).last() == command@);
}

/// How the run ended is told to hooks by its name, and with the code where the child exited
/// with one.
pub proof fn law_hooks_are_told_the_reason(how: ExitReason, text: String)
    requires
        call_ensures(exit_reason_env, (&how,), text),
    ensures
        how is ExitedOk ==> text@ == "ExitedOk"@,
        how is Killed ==> text@ == "Killed"@,
        how is KilledForced ==> text@ == "KilledForced"@,
        how is TimedOut ==> text@ == "TimedOut"@,
        how is SidecarFailed ==> text@ == "SidecarFailed"@,
        how matches ExitReason::ExitedError { code } ==> text@ == "ExitedError { code: "@ + (
        if code@ < 0 {
            "-"@ + decimal((0 - code@) as nat)
        } else {
            decimal(code@ as nat)
        }) + " }"@,
{
}

/// The hooks of a run that ended find six variables: its session, namespace, identity,
/// generation, the reason and its directory. There are none for a run that did not.
pub proof fn law_hook_environment(
    meta: Meta,
    namespace: Option<&str>,
    dir: &str,
    env: Option<Vec<(String, String)>>,
    how: ExitReason,
    reason: String,
)
    requires
        call_ensures(hook_env, (&meta, namespace, dir), env),
        meta@.status matches RunStatus::Exited { how: h, .. } ==> h == how,
        call_ensures(exit_reason_env, (&how,), reason),
    ensures
        env is Some <==> meta@.status is Exited,
        env matches Some(vars) ==> {
            let v = pairs_of(vars@);
            &&& v.len() == 6
            &&& v[0] == ("TENDR_SESSION"@, meta@.session)
            &&& v[1].0 == "TENDR_NAMESPACE"@
            &&& namespace matches Some(name) ==> v[1].1 == name@
            &&& namespace is None ==> v[1].1 == "default"@
            &&& v[2] == ("TENDR_RUN_ID"@, uuid_text(meta@.run_id@.0, meta@.run_id@.1))
            &&& v[3] == ("TENDR_GENERATION"@, decimal(meta@.generation as nat))
            &&& v[4] == ("TENDR_EXIT_REASON"@, reason@)
            &&& v[5] == ("TENDR_SESSION_DIR"@, dir@)
        },
{
}

/// What is recorded of a hook: that it could not be started, with the error; that it
/// succeeded; or that it failed, with its code and what it said, trimmed. Each has its own
/// status.
pub proof fn law_hooks_are_recorded(
    run: HookRun,
    record: HookRecord,
    status: &'static str,
)
    requires
        call_ensures(hook_record, (run,), record),
        call_ensures(HookRecord::status, (&record,), status),
    ensures
        match run {
            HookRun::SpawnFailed(error) => (record matches HookRecord::SpawnFailed { error: e } && e@
                == error@) && status@ == "spawn_failed"@,
            HookRun::Exited { success, code, stderr } => if success {
                record is Succeeded && status@ == "ok"@
            } else {
                (record matches HookRecord::Failed { exit_code, stderr: s } && exit_code == code
                    && s@ == crate::text::trimmed(stderr@)) && status@ == "failed"@
            },
        },
{
}

} // verus!
