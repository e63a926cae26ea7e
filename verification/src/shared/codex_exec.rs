//! Builder for the `codex exec` command line.

use vstd::prelude::*;

use crate::shared::cmdline::{
    opt_arg, opt_value, push_lit, push_opt, push_repeated, push_switch, push_value, repeated_arg,
    switch_arg,
};
use vstd::seq_lib::lemma_concat_associative;

use crate::text::{chars_of, decimal, opt_view, owned, push_decimal, push_all, push_string, string_of, strings_view};

verus! {

/// Whether a run starts a new Codex session or resumes one.
#[derive(Clone, Copy, PartialEq, Eq, Structural, Debug)]
pub enum ExecMode {
    Start,
    Resume,
}

/// Accumulates the options of a `codex exec` invocation.
#[derive(Debug, Clone)]
pub struct CodexExecBuilder {
    mode: ExecMode,
    prompt: Option<String>,
    command: Option<String>,
    session_id: Option<String>,
    model: Option<String>,
    sandbox_mode: Option<String>,
    profile: Option<String>,
    working_dir: Option<String>,
    output_schema: Option<String>,
    output_last_message: Option<String>,
    color: Option<String>,
    image_files: Vec<String>,
    features_enabled: Vec<String>,
    features_disabled: Vec<String>,
    config_overrides: Vec<String>,
    json: bool,
    full_auto: bool,
    skip_git_repo_check: bool,
    oss: bool,
    resume_last: bool,
    change_dir: Option<String>,
}

/// The options of a `codex exec` invocation, as mathematical values.
pub struct CodexExecSpec {
    pub resume: bool,
    pub prompt: Option<Seq<char>>,
    pub command: Option<Seq<char>>,
    pub session_id: Option<Seq<char>>,
    pub model: Option<Seq<char>>,
    pub sandbox_mode: Option<Seq<char>>,
    pub profile: Option<Seq<char>>,
    pub working_dir: Option<Seq<char>>,
    pub output_schema: Option<Seq<char>>,
    pub output_last_message: Option<Seq<char>>,
    pub color: Option<Seq<char>>,
    pub image_files: Seq<Seq<char>>,
    pub features_enabled: Seq<Seq<char>>,
    pub features_disabled: Seq<Seq<char>>,
    pub config_overrides: Seq<Seq<char>>,
    pub json: bool,
    pub full_auto: bool,
    pub skip_git_repo_check: bool,
    pub oss: bool,
    pub resume_last: bool,
    pub change_dir: Option<Seq<char>>,
}

/// A builder with no option set.
pub open spec fn empty_spec(resume: bool) -> CodexExecSpec {
    CodexExecSpec {
        resume,
        prompt: None,
        command: None,
        session_id: None,
        model: None,
        sandbox_mode: None,
        profile: None,
        working_dir: None,
        output_schema: None,
        output_last_message: None,
        color: None,
        image_files: Seq::empty(),
        features_enabled: Seq::empty(),
        features_disabled: Seq::empty(),
        config_overrides: Seq::empty(),
        json: false,
        full_auto: false,
        skip_git_repo_check: false,
        oss: false,
        resume_last: false,
        change_dir: None,
    }
}

impl View for CodexExecBuilder {
    type V = CodexExecSpec;

    closed spec fn view(&self) -> CodexExecSpec {
        CodexExecSpec {
            resume: self.mode == ExecMode::Resume,
            prompt: opt_view(self.prompt),
            command: opt_view(self.command),
            session_id: opt_view(self.session_id),
            model: opt_view(self.model),
            sandbox_mode: opt_view(self.sandbox_mode),
            profile: opt_view(self.profile),
            working_dir: opt_view(self.working_dir),
            output_schema: opt_view(self.output_schema),
            output_last_message: opt_view(self.output_last_message),
            color: opt_view(self.color),
            image_files: strings_view(self.image_files@),
            features_enabled: strings_view(self.features_enabled@),
            features_disabled: strings_view(self.features_disabled@),
            config_overrides: strings_view(self.config_overrides@),
            json: self.json,
            full_auto: self.full_auto,
            skip_git_repo_check: self.skip_git_repo_check,
            oss: self.oss,
            resume_last: self.resume_last,
            change_dir: opt_view(self.change_dir),
        }
    }
}

/// `acc` followed by the positional arguments that end the command line.
pub open spec fn append_trailing(acc: Seq<Seq<char>>, b: CodexExecSpec) -> Seq<Seq<char>> {
    if !b.resume {
        acc + opt_value(b.prompt) + opt_value(b.command)
    } else {
        acc + (match b.session_id {
            Some(id) => seq![id],
            None => switch_arg("--last"@, b.resume_last),
        }) + opt_value(b.prompt)
    }
}

/// `acc` followed by the options between the subcommand and the positional
/// arguments.
pub open spec fn append_options(acc: Seq<Seq<char>>, b: CodexExecSpec) -> Seq<Seq<char>> {
    acc + opt_arg("-C"@, b.change_dir) + repeated_arg("-c"@, b.config_overrides) + repeated_arg(
        "--enable"@,
        b.features_enabled,
    ) + repeated_arg("--disable"@, b.features_disabled) + repeated_arg("--image"@, b.image_files)
        + opt_arg("--model"@, b.model) + opt_arg("--sandbox"@, b.sandbox_mode) + opt_arg(
        "--profile"@,
        b.profile,
    ) + opt_arg("--cd"@, b.working_dir) + opt_arg("--output-schema"@, b.output_schema) + opt_arg(
        "--output-last-message"@,
        b.output_last_message,
    ) + opt_arg("--color"@, b.color) + switch_arg("--json"@, b.json) + switch_arg(
        "--full-auto"@,
        b.full_auto,
    ) + switch_arg("--skip-git-repo-check"@, b.skip_git_repo_check) + switch_arg("--oss"@, b.oss)
}

/// The full `codex exec` command line for the options `b`.
pub open spec fn codex_args(b: CodexExecSpec) -> Seq<Seq<char>> {
    append_trailing(
        append_options(seq!["codex"@, "exec"@] + switch_arg("resume"@, b.resume), b),
        b,
    )
}

impl CodexExecBuilder {
    fn empty(mode: ExecMode) -> (r: Self)
        ensures
            r@ == empty_spec(mode == ExecMode::Resume),
    {
        let r = CodexExecBuilder {
            mode,
            prompt: None,
            command: None,
            session_id: None,
            model: None,
            sandbox_mode: None,
            profile: None,
            working_dir: None,
            output_schema: None,
            output_last_message: None,
            color: None,
            image_files: Vec::new(),
            features_enabled: Vec::new(),
            features_disabled: Vec::new(),
            config_overrides: Vec::new(),
            json: false,
            full_auto: false,
            skip_git_repo_check: false,
            oss: false,
            resume_last: false,
            change_dir: None,
        };
        assert(strings_view(r.image_files@) =~= Seq::<Seq<char>>::empty());
        assert(strings_view(r.features_enabled@) =~= Seq::<Seq<char>>::empty());
        assert(strings_view(r.features_disabled@) =~= Seq::<Seq<char>>::empty());
        assert(strings_view(r.config_overrides@) =~= Seq::<Seq<char>>::empty());
        r
    }

    /// A builder for a run that starts a new session.
    pub fn new() -> (r: Self)
        ensures
            r@ == empty_spec(false),
    {
        Self::empty(ExecMode::Start)
    }

    /// A builder for a run that resumes a session.
    pub fn resume() -> (r: Self)
        ensures
            r@ == empty_spec(true),
    {
        Self::empty(ExecMode::Resume)
    }

    /// Sets the prompt.
    pub fn prompt(self, prompt: &str) -> (r: Self)
        ensures
            r@ == (CodexExecSpec { prompt: Some(prompt@), ..self@ }),
    {
        let mut s = self;
        s.prompt = Some(owned(prompt));
        s
    }

    /// Sets the command that follows the prompt.
    pub fn command(self, command: &str) -> (r: Self)
        ensures
            r@ == (CodexExecSpec { command: Some(command@), ..self@ }),
    {
        let mut s = self;
        s.command = Some(owned(command));
        s
    }

    /// Sets the session to resume.
    pub fn session_id(self, id: &str) -> (r: Self)
        ensures
            r@ == (CodexExecSpec { session_id: Some(id@), ..self@ }),
    {
        let mut s = self;
        s.session_id = Some(owned(id));
        s
    }

    /// Sets the model.
    pub fn model(self, model: &str) -> (r: Self)
        ensures
            r@ == (CodexExecSpec { model: Some(model@), ..self@ }),
    {
        let mut s = self;
        s.model = Some(owned(model));
        s
    }

    /// Sets the sandbox mode.
    pub fn sandbox(self, sandbox: &str) -> (r: Self)
        ensures
            r@ == (CodexExecSpec { sandbox_mode: Some(sandbox@), ..self@ }),
    {
        let mut s = self;
        s.sandbox_mode = Some(owned(sandbox));
        s
    }

    /// Sets the configuration profile.
    pub fn profile(self, profile: &str) -> (r: Self)
        ensures
            r@ == (CodexExecSpec { profile: Some(profile@), ..self@ }),
    {
        let mut s = self;
        s.profile = Some(owned(profile));
        s
    }

    /// Sets the working directory passed with `--cd`.
    pub fn working_dir(self, dir: &str) -> (r: Self)
        ensures
            r@ == (CodexExecSpec { working_dir: Some(dir@), ..self@ }),
    {
        let mut s = self;
        s.working_dir = Some(owned(dir));
        s
    }

    /// Sets the directory passed with `-C`.
    pub fn change_dir(self, dir: &str) -> (r: Self)
        ensures
            r@ == (CodexExecSpec { change_dir: Some(dir@), ..self@ }),
    {
        let mut s = self;
        s.change_dir = Some(owned(dir));
        s
    }

    /// Sets the output schema file.
    pub fn output_schema(self, file: &str) -> (r: Self)
        ensures
            r@ == (CodexExecSpec { output_schema: Some(file@), ..self@ }),
    {
        let mut s = self;
        s.output_schema = Some(owned(file));
        s
    }

    /// Sets the file that receives the last message.
    pub fn output_last_message(self, file: &str) -> (r: Self)
        ensures
            r@ == (CodexExecSpec { output_last_message: Some(file@), ..self@ }),
    {
        let mut s = self;
        s.output_last_message = Some(owned(file));
        s
    }

    /// Sets the color mode.
    pub fn color(self, color: &str) -> (r: Self)
        ensures
            r@ == (CodexExecSpec { color: Some(color@), ..self@ }),
    {
        let mut s = self;
        s.color = Some(owned(color));
        s
    }

    /// Adds an image file.
    pub fn add_image(self, file: &str) -> (r: Self)
        ensures
            r@ == (CodexExecSpec { image_files: self@.image_files.push(file@), ..self@ }),
    {
        let mut s = self;
        push_string(&mut s.image_files, owned(file));
        s
    }

    /// Enables a feature.
    pub fn enable_feature(self, feature: &str) -> (r: Self)
        ensures
            r@ == (CodexExecSpec {
                features_enabled: self@.features_enabled.push(feature@),
                ..self@
            }),
    {
        let mut s = self;
        push_string(&mut s.features_enabled, owned(feature));
        s
    }

    /// Disables a feature.
    pub fn disable_feature(self, feature: &str) -> (r: Self)
        ensures
            r@ == (CodexExecSpec {
                features_disabled: self@.features_disabled.push(feature@),
                ..self@
            }),
    {
        let mut s = self;
        push_string(&mut s.features_disabled, owned(feature));
        s
    }

    /// Adds a `key=value` configuration override.
    pub fn config_override(self, key_value: &str) -> (r: Self)
        ensures
            r@ == (CodexExecSpec {
                config_overrides: self@.config_overrides.push(key_value@),
                ..self@
            }),
    {
        let mut s = self;
        push_string(&mut s.config_overrides, owned(key_value));
        s
    }

    /// Turns JSON event output on or off.
    pub fn json(self, enabled: bool) -> (r: Self)
        ensures
            r@ == (CodexExecSpec { json: enabled, ..self@ }),
    {
        let mut s = self;
        s.json = enabled;
        s
    }

    /// Turns full-auto mode on or off.
    pub fn full_auto(self, enabled: bool) -> (r: Self)
        ensures
            r@ == (CodexExecSpec { full_auto: enabled, ..self@ }),
    {
        let mut s = self;
        s.full_auto = enabled;
        s
    }

    /// Turns the git repository check off or on.
    pub fn skip_git_repo_check(self, enabled: bool) -> (r: Self)
        ensures
            r@ == (CodexExecSpec { skip_git_repo_check: enabled, ..self@ }),
    {
        let mut s = self;
        s.skip_git_repo_check = enabled;
        s
    }

    /// Turns the open-source model provider on or off.
    pub fn oss(self, enabled: bool) -> (r: Self)
        ensures
            r@ == (CodexExecSpec { oss: enabled, ..self@ }),
    {
        let mut s = self;
        s.oss = enabled;
        s
    }

    /// Resumes the most recent session when no session id is given.
    pub fn resume_last(self, enabled: bool) -> (r: Self)
        ensures
            r@ == (CodexExecSpec { resume_last: enabled, ..self@ }),
    {
        let mut s = self;
        s.resume_last = enabled;
        s
    }

    /// The command line, program name first.
    pub fn build(self) -> (args: Vec<String>)
        ensures
            strings_view(args@) == codex_args(self@),
    {
        let ghost b = self@;
        let resume = self.mode == ExecMode::Resume;
        let mut args: Vec<String> = Vec::new();
        push_lit(&mut args, "codex");
        push_lit(&mut args, "exec");
        assert(strings_view(args@) =~= seq!["codex"@, "exec"@]);
        push_switch(&mut args, "resume", resume);
        push_opt(&mut args, "-C", self.change_dir);
        push_repeated(&mut args, "-c", self.config_overrides);
        push_repeated(&mut args, "--enable", self.features_enabled);
        push_repeated(&mut args, "--disable", self.features_disabled);
        push_repeated(&mut args, "--image", self.image_files);
        push_opt(&mut args, "--model", self.model);
        push_opt(&mut args, "--sandbox", self.sandbox_mode);
        push_opt(&mut args, "--profile", self.profile);
        push_opt(&mut args, "--cd", self.working_dir);
        push_opt(&mut args, "--output-schema", self.output_schema);
        push_opt(&mut args, "--output-last-message", self.output_last_message);
        push_opt(&mut args, "--color", self.color);
        push_switch(&mut args, "--json", self.json);
        push_switch(&mut args, "--full-auto", self.full_auto);
        push_switch(&mut args, "--skip-git-repo-check", self.skip_git_repo_check);
        push_switch(&mut args, "--oss", self.oss);
        let ghost mid = strings_view(args@);
        if !resume {
            push_value(&mut args, self.prompt);
            push_value(&mut args, self.command);
        } else {
            match self.session_id {
                Some(id) => {
                    let ghost idv = id@;
                    push_string(&mut args, id);
                    assert(strings_view(args@) =~= mid + seq![idv]);
                },
                None => {
                    push_switch(&mut args, "--last", self.resume_last);
                },
            }
            push_value(&mut args, self.prompt);
        }
        args
    }
}

/// The options after the configuration overrides.
pub open spec fn options_after_overrides(b: CodexExecSpec) -> Seq<Seq<char>> {
    repeated_arg("--enable"@, b.features_enabled) + repeated_arg("--disable"@, b.features_disabled)
        + repeated_arg("--image"@, b.image_files) + opt_arg("--model"@, b.model) + opt_arg(
        "--sandbox"@,
        b.sandbox_mode,
    ) + opt_arg("--profile"@, b.profile) + opt_arg("--cd"@, b.working_dir) + opt_arg(
        "--output-schema"@,
        b.output_schema,
    ) + opt_arg("--output-last-message"@, b.output_last_message) + opt_arg("--color"@, b.color)
        + switch_arg("--json"@, b.json) + switch_arg("--full-auto"@, b.full_auto) + switch_arg(
        "--skip-git-repo-check"@,
        b.skip_git_repo_check,
    ) + switch_arg("--oss"@, b.oss)
}

/// The arguments before the configuration overrides.
pub open spec fn head_args(b: CodexExecSpec) -> Seq<Seq<char>> {
    seq!["codex"@, "exec"@] + switch_arg("resume"@, b.resume) + opt_arg("-C"@, b.change_dir)
}

type Args = Seq<Seq<char>>;

/// Regrouping a chain of fourteen concatenations after `y`.
proof fn lemma_regroup(
    y: Args, p3: Args, p4: Args, p5: Args, p6: Args, p7: Args, p8: Args, p9: Args, p10: Args,
    p11: Args, p12: Args, p13: Args, p14: Args, p15: Args, p16: Args,
)
    ensures
        y + p3 + p4 + p5 + p6 + p7 + p8 + p9 + p10 + p11 + p12 + p13 + p14 + p15 + p16 == y + (p3
            + p4 + p5 + p6 + p7 + p8 + p9 + p10 + p11 + p12 + p13 + p14 + p15 + p16),
{
    let q4 = p3 + p4;
    lemma_concat_associative(y, p3, p4);
    let q5 = q4 + p5;
    lemma_concat_associative(y, q4, p5);
    let q6 = q5 + p6;
    lemma_concat_associative(y, q5, p6);
    let q7 = q6 + p7;
    lemma_concat_associative(y, q6, p7);
    let q8 = q7 + p8;
    lemma_concat_associative(y, q7, p8);
    let q9 = q8 + p9;
    lemma_concat_associative(y, q8, p9);
    let q10 = q9 + p10;
    lemma_concat_associative(y, q9, p10);
    let q11 = q10 + p11;
    lemma_concat_associative(y, q10, p11);
    let q12 = q11 + p12;
    lemma_concat_associative(y, q11, p12);
    let q13 = q12 + p13;
    lemma_concat_associative(y, q12, p13);
    let q14 = q13 + p14;
    lemma_concat_associative(y, q13, p14);
    let q15 = q14 + p15;
    lemma_concat_associative(y, q14, p15);
    lemma_concat_associative(y, q15, p16);
}

/// The options after `acc` are those after the overrides, following `acc`,
/// the `-C` option and the overrides.
proof fn lemma_options_regroup(acc: Args, b: CodexExecSpec)
    ensures
        append_options(acc, b) == (acc + opt_arg("-C"@, b.change_dir) + repeated_arg(
            "-c"@,
            b.config_overrides,
        )) + options_after_overrides(b),
{
    lemma_regroup(
        acc + opt_arg("-C"@, b.change_dir) + repeated_arg("-c"@, b.config_overrides),
        repeated_arg("--enable"@, b.features_enabled),
        repeated_arg("--disable"@, b.features_disabled),
        repeated_arg("--image"@, b.image_files),
        opt_arg("--model"@, b.model),
        opt_arg("--sandbox"@, b.sandbox_mode),
        opt_arg("--profile"@, b.profile),
        opt_arg("--cd"@, b.working_dir),
        opt_arg("--output-schema"@, b.output_schema),
        opt_arg("--output-last-message"@, b.output_last_message),
        opt_arg("--color"@, b.color),
        switch_arg("--json"@, b.json),
        switch_arg("--full-auto"@, b.full_auto),
        switch_arg("--skip-git-repo-check"@, b.skip_git_repo_check),
        switch_arg("--oss"@, b.oss),
    );
}

/// The positional arguments that end the command line.
pub open spec fn trailing_args(b: CodexExecSpec) -> Args {
    if !b.resume {
        opt_value(b.prompt) + opt_value(b.command)
    } else {
        (match b.session_id {
            Some(id) => seq![id],
            None => switch_arg("--last"@, b.resume_last),
        }) + opt_value(b.prompt)
    }
}

/// The trailing arguments follow what comes before them.
proof fn lemma_trailing(acc: Args, b: CodexExecSpec)
    ensures
        append_trailing(acc, b) == acc + trailing_args(b),
{
    if !b.resume {
        lemma_concat_associative(acc, opt_value(b.prompt), opt_value(b.command));
    } else {
        let t = match b.session_id {
            Some(id) => seq![id],
            None => switch_arg("--last"@, b.resume_last),
        };
        lemma_concat_associative(acc, t, opt_value(b.prompt));
    }
}

/// The command line cut around the overrides: what comes before them, the
/// overrides, and what follows.
pub proof fn lemma_codex_args_parts(b: CodexExecSpec)
    ensures
        codex_args(b) == (head_args(b) + repeated_arg("-c"@, b.config_overrides)) + (
        options_after_overrides(b) + trailing_args(b)),
{
    let h = seq!["codex"@, "exec"@] + switch_arg("resume"@, b.resume);
    let y = head_args(b) + repeated_arg("-c"@, b.config_overrides);
    lemma_options_regroup(h, b);
    lemma_trailing(append_options(h, b), b);
    lemma_concat_associative(y, options_after_overrides(b), trailing_args(b));
}

/// `flag v` for each value: twice as many arguments as values.
pub proof fn lemma_repeated_arg_len(flag: Seq<char>, values: Seq<Seq<char>>)
    ensures
        repeated_arg(flag, values).len() == 2 * values.len(),
    decreases values.len(),
{
    if values.len() > 0 {
        lemma_repeated_arg_len(flag, values.drop_last());
    }
}

/// In `flag v1 flag v2 ...`, the `i`-th value follows its flag at `2 i`.
pub proof fn lemma_repeated_arg_index(flag: Seq<char>, values: Seq<Seq<char>>, i: int)
    requires
        0 <= i < values.len(),
    ensures
        repeated_arg(flag, values).len() == 2 * values.len(),
        repeated_arg(flag, values)[2 * i] == flag,
        repeated_arg(flag, values)[2 * i + 1] == values[i],
    decreases values.len(),
{
    lemma_repeated_arg_len(flag, values);
    lemma_repeated_arg_len(flag, values.drop_last());
    if i < values.len() - 1 {
        lemma_repeated_arg_index(flag, values.drop_last(), i);
    }
}

/// Two configuration overrides added one after the other both reach the
/// command line, in the order they were added, as `-c <first> -c <second>`
/// right after the overrides already there: nothing is dropped or merged,
/// even when the two are equal, and nothing else moves.
pub proof fn lemma_config_overrides_in_order(b: CodexExecSpec, k1: Seq<char>, k2: Seq<char>)
    ensures
        ({
            let b2 = CodexExecSpec { config_overrides: b.config_overrides.push(k1).push(k2), ..b };
            let p: int = (head_args(b).len() + 2 * b.config_overrides.len()) as int;
            &&& codex_args(b2) == codex_args(b).take(p) + seq!["-c"@, k1, "-c"@, k2]
                + codex_args(b).skip(p)
            &&& codex_args(b2).len() == codex_args(b).len() + 4
            &&& head_args(b).len() == 2 + (if b.resume { 1int } else { 0int }) + (if b.change_dir is Some { 2int } else { 0int })
        }),
{
    let b2 = CodexExecSpec { config_overrides: b.config_overrides.push(k1).push(k2), ..b };
    lemma_codex_args_parts(b);
    lemma_codex_args_parts(b2);
    lemma_repeated_arg_len("-c"@, b.config_overrides);
    let ov = b.config_overrides;
    assert(ov.push(k1).push(k2).drop_last() =~= ov.push(k1));
    assert(ov.push(k1).drop_last() =~= ov);
    let r = repeated_arg("-c"@, ov);
    assert(repeated_arg("-c"@, ov.push(k1)) == r + seq!["-c"@, k1]);
    assert(repeated_arg("-c"@, ov.push(k1).push(k2)) == (r + seq!["-c"@, k1]) + seq!["-c"@, k2]);
    assert((r + seq!["-c"@, k1]) + seq!["-c"@, k2] =~= r + seq!["-c"@, k1, "-c"@, k2]);
    lemma_concat_associative(head_args(b), r, seq!["-c"@, k1, "-c"@, k2]);
    assert(options_after_overrides(b2) == options_after_overrides(b));
    assert(trailing_args(b2) == trailing_args(b));
    let h = head_args(b);
    let t = options_after_overrides(b) + trailing_args(b);
    let p: int = (h.len() + 2 * ov.len()) as int;
    assert((h + r + t).take(p) =~= h + r);
    assert((h + r + t).skip(p) =~= t);
    assert(codex_args(b2) == (h + r) + seq!["-c"@, k1, "-c"@, k2] + t);
}

/// No argument of `s` is `v`.
pub open spec fn avoids(s: Args, v: Seq<char>) -> bool {
    forall|i: int| 0 <= i < s.len() ==> s[i] != v
}

/// Two sequences avoid `v` exactly when laid end to end they do.
pub broadcast proof fn lemma_avoids_add(a: Args, b: Args, v: Seq<char>)
    ensures
        #[trigger] avoids(a + b, v) == (avoids(a, v) && avoids(b, v)),
{
    if avoids(a, v) && avoids(b, v) {
        assert forall|i: int| 0 <= i < (a + b).len() implies (a + b)[i] != v by {
            if i < a.len() {
                assert((a + b)[i] == a[i]);
            } else {
                assert((a + b)[i] == b[i - a.len()]);
            }
        }
    }
    if avoids(a + b, v) {
        assert forall|i: int| 0 <= i < a.len() implies a[i] != v by {
            assert((a + b)[i] == a[i]);
        }
        assert forall|i: int| 0 <= i < b.len() implies b[i] != v by {
            assert((a + b)[i + a.len()] == b[i]);
        }
    }
}

/// `flag v1 flag v2 ...` avoids `v` when the flag and the values do.
proof fn lemma_repeated_avoids(flag: Seq<char>, values: Args, v: Seq<char>)
    requires
        flag != v,
        !values.contains(v),
    ensures
        avoids(repeated_arg(flag, values), v),
    decreases values.len(),
{
    broadcast use lemma_avoids_add;

    if values.len() > 0 {
        assert(!values.drop_last().contains(v)) by {
            if values.drop_last().contains(v) {
                let k = choose|k: int| 0 <= k < values.drop_last().len() && values.drop_last()[k] == v;
                assert(values[k] == v);
            }
        }
        assert(values[values.len() - 1] == values.last());
        lemma_repeated_avoids(flag, values.drop_last(), v);
    }
}

/// No option value of `b` is `v`.
pub open spec fn values_avoid(b: CodexExecSpec, v: Seq<char>) -> bool {
    &&& b.prompt != Some(v)
    &&& b.command != Some(v)
    &&& b.model != Some(v)
    &&& b.sandbox_mode != Some(v)
    &&& b.profile != Some(v)
    &&& b.working_dir != Some(v)
    &&& b.output_schema != Some(v)
    &&& b.output_last_message != Some(v)
    &&& b.color != Some(v)
    &&& b.change_dir != Some(v)
    &&& !b.image_files.contains(v)
    &&& !b.features_enabled.contains(v)
    &&& !b.features_disabled.contains(v)
    &&& !b.config_overrides.contains(v)
}

/// A session id is ignored when a session is started.
pub proof fn lemma_session_id_ignored_on_start(b: CodexExecSpec, x: Seq<char>)
    requires
        !b.resume,
    ensures
        codex_args(CodexExecSpec { session_id: Some(x), ..b }) == codex_args(b),
{
}

/// When a session is resumed, its id comes after all the options, just
/// before the prompt, and takes the place of `--last`: whether `--last` was
/// asked for makes no difference, and, when no option value is `--last`,
/// no argument is. Without a prompt the id ends the command line.
pub proof fn lemma_session_id_replaces_last(b: CodexExecSpec, x: Seq<char>)
    requires
        b.resume,
    ensures
        codex_args(CodexExecSpec { session_id: Some(x), ..b }) == codex_args(
            CodexExecSpec { session_id: None, resume_last: false, prompt: None, ..b },
        ) + seq![x] + opt_value(b.prompt),
        codex_args(CodexExecSpec { session_id: Some(x), resume_last: true, ..b }) == codex_args(
            CodexExecSpec { session_id: Some(x), resume_last: false, ..b },
        ),
        b.prompt is None ==> codex_args(CodexExecSpec { session_id: Some(x), ..b }).last() == x,
        values_avoid(b, "--last"@) && x != "--last"@ ==> !codex_args(
            CodexExecSpec { session_id: Some(x), ..b },
        ).contains("--last"@),
{
    broadcast use lemma_avoids_add;

    let b2 = CodexExecSpec { session_id: Some(x), ..b };
    let b0 = CodexExecSpec { session_id: None, resume_last: false, prompt: None, ..b };
    lemma_codex_args_parts(b2);
    lemma_codex_args_parts(b0);
    let y = head_args(b) + repeated_arg("-c"@, b.config_overrides);
    let o = options_after_overrides(b);
    assert(trailing_args(b0) =~= Seq::<Seq<char>>::empty());
    assert(y + (o + Seq::<Seq<char>>::empty()) =~= y + o);
    lemma_concat_associative(y, o, seq![x] + opt_value(b.prompt));
    lemma_concat_associative(y + o, seq![x], opt_value(b.prompt));
    if values_avoid(b, "--last"@) && x != "--last"@ {
        lemma_resume_line_avoids_last(b2);
        let all = codex_args(b2);
        if all.contains("--last"@) {
            let k = choose|k: int| 0 <= k < all.len() && all[k] == "--last"@;
            assert(all[k] != "--last"@);
        }
    }
}

/// No flag that the command line may hold is `--last`.
proof fn lemma_flags_differ_from_last()
    ensures
        "codex"@ != "--last"@,
        "exec"@ != "--last"@,
        "resume"@ != "--last"@,
        "-C"@ != "--last"@,
        "-c"@ != "--last"@,
        "--enable"@ != "--last"@,
        "--disable"@ != "--last"@,
        "--image"@ != "--last"@,
        "--model"@ != "--last"@,
        "--sandbox"@ != "--last"@,
        "--profile"@ != "--last"@,
        "--cd"@ != "--last"@,
        "--output-schema"@ != "--last"@,
        "--output-last-message"@ != "--last"@,
        "--color"@ != "--last"@,
        "--json"@ != "--last"@,
        "--full-auto"@ != "--last"@,
        "--skip-git-repo-check"@ != "--last"@,
        "--oss"@ != "--last"@,
{
    reveal_strlit("--last");
    reveal_strlit("codex");
    reveal_strlit("exec");
    reveal_strlit("resume");
    reveal_strlit("-C");
    reveal_strlit("-c");
    reveal_strlit("--enable");
    reveal_strlit("--disable");
    reveal_strlit("--image");
    reveal_strlit("--model");
    reveal_strlit("--sandbox");
    reveal_strlit("--profile");
    reveal_strlit("--cd");
    reveal_strlit("--output-schema");
    reveal_strlit("--output-last-message");
    reveal_strlit("--color");
    reveal_strlit("--json");
    reveal_strlit("--full-auto");
    reveal_strlit("--skip-git-repo-check");
    reveal_strlit("--oss");
    assert("--last"@.len() == 6);
    assert("codex"@.len() == 5);
    assert("exec"@.len() == 4);
    assert("resume"@[0] != "--last"@[0]);
    assert("-C"@.len() == 2);
    assert("-c"@.len() == 2);
    assert("--enable"@.len() == 8);
    assert("--disable"@.len() == 9);
    assert("--image"@.len() == 7);
    assert("--model"@.len() == 7);
    assert("--sandbox"@.len() == 9);
    assert("--profile"@.len() == 9);
    assert("--cd"@.len() == 4);
    assert("--output-schema"@.len() == 15);
    assert("--output-last-message"@.len() == 21);
    assert("--color"@.len() == 7);
    assert("--json"@[2] != "--last"@[2]);
    assert("--full-auto"@.len() == 11);
    assert("--skip-git-repo-check"@.len() == 21);
    assert("--oss"@.len() == 5);
}

/// A resume command line with a session id holds no `--last` when neither
/// the id nor an option value is `--last`.
#[verifier::rlimit(40)]
proof fn lemma_resume_line_avoids_last(b: CodexExecSpec)
    requires
        b.resume,
        b.session_id is Some,
        b.session_id != Some("--last"@),
        values_avoid(b, "--last"@),
    ensures
        avoids(codex_args(b), "--last"@),
{
    broadcast use lemma_avoids_add;

    let l = "--last"@;
    lemma_flags_differ_from_last();
    lemma_codex_args_parts(b);
    lemma_repeated_avoids("-c"@, b.config_overrides, l);
    lemma_repeated_avoids("--enable"@, b.features_enabled, l);
    lemma_repeated_avoids("--disable"@, b.features_disabled, l);
    lemma_repeated_avoids("--image"@, b.image_files, l);
    assert(avoids(seq!["codex"@, "exec"@], l));
    assert(avoids(switch_arg("resume"@, b.resume), l));
    assert(avoids(opt_arg("-C"@, b.change_dir), l));
    assert(avoids(head_args(b) + repeated_arg("-c"@, b.config_overrides), l));
    assert(avoids(options_after_overrides(b), l));
    assert(avoids(trailing_args(b), l));
}

/// The options of the default Codex run: JSON output, the Robot Farm output
/// schema and MCP server on `port` (8080 when absent), resuming
/// `resume_session` when one is given.
pub open spec fn default_exec_options(port: Option<u16>, resume_session: Option<Seq<char>>) -> CodexExecSpec {
    let p: nat = match port {
        Some(p) => p as nat,
        None => 8080,
    };
    let base = match resume_session {
        Some(id) => CodexExecSpec { session_id: Some(id), ..empty_spec(true) },
        None => empty_spec(false),
    };
    CodexExecSpec {
        change_dir: Some("/workspace"@),
        json: true,
        output_schema: Some("/opt/robot-farm/schema.json"@),
        config_overrides: seq![
            "mcp_servers.robot_farm.enabled=true"@,
            "mcp_servers.robot_farm.tool_timeout_sec=900"@,
            "mcp_servers.robot_farm.url=\"http://127.0.0.1:"@ + decimal(p) + "/mcp\""@,
        ],
        ..base
    }
}

/// The `codex exec` command line of a default run against the local MCP
/// server.
pub fn build_default_codex_exec_command(port: Option<u16>, resume_session: Option<&str>) -> (args: Vec<String>)
    ensures
        strings_view(args@) == codex_args(
            default_exec_options(
                port,
                match resume_session {
                    Some(s) => Some(s@),
                    None => None,
                },
            ),
        ),
{
    let port: u16 = match port {
        Some(p) => p,
        None => 8080,
    };
    let builder = match resume_session {
        Some(id) => CodexExecBuilder::resume().session_id(id),
        None => CodexExecBuilder::new(),
    };
    let mut url: Vec<char> = Vec::new();
    push_all(&mut url, &chars_of("mcp_servers.robot_farm.url=\"http://127.0.0.1:"));
    push_decimal(&mut url, port as u64);
    push_all(&mut url, &chars_of("/mcp\""));
    let url = string_of(&url);
    let b = builder.change_dir("/workspace").json(true).output_schema(
        "/opt/robot-farm/schema.json",
    ).config_override("mcp_servers.robot_farm.enabled=true").config_override(
        "mcp_servers.robot_farm.tool_timeout_sec=900",
    ).config_override(url.as_str());
    assert(b@.config_overrides =~= default_exec_options(
        Some(port),
        match resume_session {
            Some(s) => Some(s@),
            None => None,
        },
    ).config_overrides);
    b.build()
}

} // verus!
