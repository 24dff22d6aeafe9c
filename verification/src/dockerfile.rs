//! Dockerfile instructions, as parsed by `dockerfile_parser`, held as plain values.

use vstd::prelude::*;
use dockerfile_parser::{Dockerfile, Instruction, ShellOrExecExpr};

verus! {

#[verifier::external_type_specification]
#[verifier::external_body]
pub struct ExDockerfile(Dockerfile);

#[verifier::external_type_specification]
#[verifier::external_body]
pub struct ExDockerfileError(dockerfile_parser::Error);

/// The command of `CMD`, `ENTRYPOINT` or `RUN`: an exec array or a shell string.
pub enum CommandExpr {
    Exec(Vec<String>),
    Shell(String),
}

pub enum CommandExprView {
    Exec(Seq<Seq<char>>),
    Shell(Seq<char>),
}

impl View for CommandExpr {
    type V = CommandExprView;

    open spec fn view(&self) -> CommandExprView {
        match self {
            CommandExpr::Exec(items) => CommandExprView::Exec(items.deep_view()),
            CommandExpr::Shell(text) => CommandExprView::Shell(text@),
        }
    }
}

/// One Dockerfile instruction with the parts the builder reads.
pub enum Instr {
    /// `FROM`, with its image reference after `ARG` substitution.
    From(String),
    /// `ARG`, with its name.
    Arg(String),
    /// `ENV`, with its key/value pairs.
    Env(Vec<(String, String)>),
    /// `LABEL`, with its name/value pairs.
    Label(Vec<(String, String)>),
    Cmd(CommandExpr),
    Entrypoint(CommandExpr),
    Run(CommandExpr),
    /// `COPY`: its flags as name/value pairs, its sources, its destination.
    Copy(Vec<(String, String)>, Vec<String>, String),
    /// Any other instruction: its name and its argument text.
    Misc(String, String),
}

pub enum InstrView {
    From(Seq<char>),
    Arg(Seq<char>),
    Env(Seq<(Seq<char>, Seq<char>)>),
    Label(Seq<(Seq<char>, Seq<char>)>),
    Cmd(CommandExprView),
    Entrypoint(CommandExprView),
    Run(CommandExprView),
    Copy(Seq<(Seq<char>, Seq<char>)>, Seq<Seq<char>>, Seq<char>),
    Misc(Seq<char>, Seq<char>),
}

impl View for Instr {
    type V = InstrView;

    open spec fn view(&self) -> InstrView {
        match self {
            Instr::From(image) => InstrView::From(image@),
            Instr::Arg(name) => InstrView::Arg(name@),
            Instr::Env(vars) => InstrView::Env(vars.deep_view()),
            Instr::Label(labels) => InstrView::Label(labels.deep_view()),
            Instr::Cmd(c) => InstrView::Cmd(c@),
            Instr::Entrypoint(c) => InstrView::Entrypoint(c@),
            Instr::Run(c) => InstrView::Run(c@),
            Instr::Copy(flags, sources, dest) => InstrView::Copy(flags.deep_view(), sources.deep_view(), dest@),
            Instr::Misc(name, args) => InstrView::Misc(name@, args@),
        }
    }
}

/// Which instruction an [`Instr`] is.
#[derive(PartialEq, Eq, Structural, Clone, Copy, Debug)]
pub enum InstrKind {
    From,
    Arg,
    Env,
    Label,
    Cmd,
    Entrypoint,
    Run,
    Copy,
    Misc,
}

pub open spec fn kind_of(i: InstrView) -> InstrKind {
    match i {
        InstrView::From(_) => InstrKind::From,
        InstrView::Arg(_) => InstrKind::Arg,
        InstrView::Env(_) => InstrKind::Env,
        InstrView::Label(_) => InstrKind::Label,
        InstrView::Cmd(_) => InstrKind::Cmd,
        InstrView::Entrypoint(_) => InstrKind::Entrypoint,
        InstrView::Run(_) => InstrKind::Run,
        InstrView::Copy(_, _, _) => InstrKind::Copy,
        InstrView::Misc(_, _) => InstrKind::Misc,
    }
}

/// What `Dockerfile::parse` makes of a text: its instructions, or nothing when
/// the text does not parse.
pub uninterp spec fn dockerfile_parse_result(text: Seq<char>) -> Option<Seq<InstrView>>;

/// The instructions a parsed `Dockerfile` holds, in order.
pub uninterp spec fn dockerfile_contents(d: Dockerfile) -> Seq<InstrView>;

/// `Dockerfile::parse`. Claims only that it succeeds exactly when the text
/// parses, and that a parsed file holds the instructions of that text.
#[verifier::external_body]
fn dockerfile_parse(text: &str) -> (res: Result<Dockerfile, dockerfile_parser::Error>)
    ensures
        res is Ok <==> dockerfile_parse_result(text@) is Some,
        res matches Ok(d) ==> dockerfile_parse_result(text@) == Some(dockerfile_contents(d)),
{
    Dockerfile::parse(text)
}

/// The message of a Dockerfile that does not parse.
pub open spec fn parse_error_message() -> Seq<char> {
    "unable to parse Dockerfile"@
}

/// Parses a Dockerfile.
pub fn parse_dockerfile(text: &str) -> (res: Result<Dockerfile, String>)
    ensures
        res is Ok <==> dockerfile_parse_result(text@) is Some,
        res matches Ok(d) ==> dockerfile_parse_result(text@) == Some(dockerfile_contents(d)),
        res matches Err(msg) ==> msg@ == parse_error_message(),
{
    match dockerfile_parse(text) {
        Ok(d) => Ok(d),
        Err(_) => Err(String::from_str("unable to parse Dockerfile")),
    }
}

/// The number of instructions (`dockerfile.instructions.len()`).
#[verifier::external_body]
fn instruction_count(d: &Dockerfile) -> (res: usize)
    ensures
        res == dockerfile_contents(*d).len(),
{
    d.instructions.len()
}

/// Which variant of `dockerfile_parser::Instruction` stands at position `i`.
#[verifier::external_body]
fn instruction_kind(d: &Dockerfile, i: usize) -> (res: InstrKind)
    requires
        i < dockerfile_contents(*d).len(),
    ensures
        res == kind_of(dockerfile_contents(*d)[i as int]),
{
    match &d.instructions[i] {
        Instruction::From(_) => InstrKind::From,
        Instruction::Arg(_) => InstrKind::Arg,
        Instruction::Env(_) => InstrKind::Env,
        Instruction::Label(_) => InstrKind::Label,
        Instruction::Cmd(_) => InstrKind::Cmd,
        Instruction::Entrypoint(_) => InstrKind::Entrypoint,
        Instruction::Run(_) => InstrKind::Run,
        Instruction::Copy(_) => InstrKind::Copy,
        Instruction::Misc(_) => InstrKind::Misc,
    }
}

/// `ImageRef::resolve_vars` on a `FROM` image, falling back to the image as
/// written, then `to_string`.
#[verifier::external_body]
fn from_image_text(d: &Dockerfile, i: usize) -> (res: String)
    requires
        i < dockerfile_contents(*d).len(),
        kind_of(dockerfile_contents(*d)[i as int]) == InstrKind::From,
    ensures
        dockerfile_contents(*d)[i as int] == InstrView::From(res@),
{
    match &d.instructions[i] {
        Instruction::From(f) => f.image_parsed.resolve_vars(d).unwrap_or_else(
            || f.image_parsed.clone(),
        ).to_string(),
        _ => String::new(),
    }
}

/// The name of an `ARG`.
#[verifier::external_body]
fn arg_name(d: &Dockerfile, i: usize) -> (res: String)
    requires
        i < dockerfile_contents(*d).len(),
        kind_of(dockerfile_contents(*d)[i as int]) == InstrKind::Arg,
    ensures
        dockerfile_contents(*d)[i as int] == InstrView::Arg(res@),
{
    match &d.instructions[i] {
        Instruction::Arg(a) => a.name.content.clone(),
        _ => String::new(),
    }
}

/// The pairs of an `ENV`: each key, and its value as `BreakableString::to_string`.
#[verifier::external_body]
fn env_vars(d: &Dockerfile, i: usize) -> (res: Vec<(String, String)>)
    requires
        i < dockerfile_contents(*d).len(),
        kind_of(dockerfile_contents(*d)[i as int]) == InstrKind::Env,
    ensures
        dockerfile_contents(*d)[i as int] == InstrView::Env(res.deep_view()),
{
    match &d.instructions[i] {
        Instruction::Env(e) => e.vars.iter().map(|v| (v.key.content.clone(), v.value.to_string())).collect(),
        _ => Vec::new(),
    }
}

/// The name/value pairs of a `LABEL`.
#[verifier::external_body]
fn label_pairs(d: &Dockerfile, i: usize) -> (res: Vec<(String, String)>)
    requires
        i < dockerfile_contents(*d).len(),
        kind_of(dockerfile_contents(*d)[i as int]) == InstrKind::Label,
    ensures
        dockerfile_contents(*d)[i as int] == InstrView::Label(res.deep_view()),
{
    match &d.instructions[i] {
        Instruction::Label(l) => l.labels.iter().map(|x| (x.name.content.clone(), x.value.content.clone())).collect(),
        _ => Vec::new(),
    }
}

/// The command of a `CMD`, `ENTRYPOINT` or `RUN`: its exec array, or its shell
/// text as `BreakableString::to_string`.
#[verifier::external_body]
fn command_expr(d: &Dockerfile, i: usize) -> (res: CommandExpr)
    requires
        i < dockerfile_contents(*d).len(),
    ensures
        kind_of(dockerfile_contents(*d)[i as int]) == InstrKind::Cmd ==> dockerfile_contents(
            *d,
        )[i as int] == InstrView::Cmd(res@),
        kind_of(dockerfile_contents(*d)[i as int]) == InstrKind::Entrypoint ==> dockerfile_contents(
            *d,
        )[i as int] == InstrView::Entrypoint(res@),
        kind_of(dockerfile_contents(*d)[i as int]) == InstrKind::Run ==> dockerfile_contents(
            *d,
        )[i as int] == InstrView::Run(res@),
{
    let expr = match &d.instructions[i] {
        Instruction::Cmd(c) => &c.expr,
        Instruction::Entrypoint(e) => &e.expr,
        Instruction::Run(r) => &r.expr,
        _ => return CommandExpr::Shell(String::new()),
    };
    match expr {
        ShellOrExecExpr::Exec(a) => CommandExpr::Exec(a.elements.iter().map(|e| e.content.clone()).collect()),
        ShellOrExecExpr::Shell(s) => CommandExpr::Shell(s.to_string()),
    }
}

/// The flags (`--name=value`), the sources and the destination of a `COPY`,
/// each as its parsed text.
#[verifier::external_body]
fn copy_parts(d: &Dockerfile, i: usize) -> (res: (Vec<(String, String)>, Vec<String>, String))
    requires
        i < dockerfile_contents(*d).len(),
        kind_of(dockerfile_contents(*d)[i as int]) == InstrKind::Copy,
    ensures
        dockerfile_contents(*d)[i as int] == InstrView::Copy(res.0.deep_view(), res.1.deep_view(), res.2@),
{
    match &d.instructions[i] {
        Instruction::Copy(c) => (
            c.flags.iter().map(|f| (f.name.content.clone(), f.value.content.clone())).collect(),
            c.sources.iter().map(|s| s.content.clone()).collect(),
            c.destination.content.clone(),
        ),
        _ => (Vec::new(), Vec::new(), String::new()),
    }
}

/// The name of any other instruction, and its arguments as `BreakableString::to_string`.
#[verifier::external_body]
fn misc_parts(d: &Dockerfile, i: usize) -> (res: (String, String))
    requires
        i < dockerfile_contents(*d).len(),
        kind_of(dockerfile_contents(*d)[i as int]) == InstrKind::Misc,
    ensures
        dockerfile_contents(*d)[i as int] == InstrView::Misc(res.0@, res.1@),
{
    match &d.instructions[i] {
        Instruction::Misc(m) => (m.instruction.content.clone(), m.arguments.to_string()),
        _ => (String::new(), String::new()),
    }
}

pub open spec fn instr_views(s: Seq<Instr>) -> Seq<InstrView> {
    s.map_values(|i: Instr| i@)
}

/// The instruction at position `i`.
pub fn instruction_at(d: &Dockerfile, i: usize) -> (res: Instr)
    requires
        i < dockerfile_contents(*d).len(),
    ensures
        res@ == dockerfile_contents(*d)[i as int],
{
    match instruction_kind(d, i) {
        InstrKind::From => Instr::From(from_image_text(d, i)),
        InstrKind::Arg => Instr::Arg(arg_name(d, i)),
        InstrKind::Env => Instr::Env(env_vars(d, i)),
        InstrKind::Label => Instr::Label(label_pairs(d, i)),
        InstrKind::Cmd => Instr::Cmd(command_expr(d, i)),
        InstrKind::Entrypoint => Instr::Entrypoint(command_expr(d, i)),
        InstrKind::Run => Instr::Run(command_expr(d, i)),
        InstrKind::Copy => {
            let (flags, sources, dest) = copy_parts(d, i);
            Instr::Copy(flags, sources, dest)
        },
        InstrKind::Misc => {
            let (name, args) = misc_parts(d, i);
            Instr::Misc(name, args)
        },
    }
}

/// All instructions of a parsed Dockerfile, in order.
pub fn read_instructions(d: &Dockerfile) -> (res: Vec<Instr>)
    ensures
        instr_views(res@) == dockerfile_contents(*d),
{
    let n = instruction_count(d);
    let mut res: Vec<Instr> = Vec::new();
    let mut i: usize = 0;
    while i < n
        invariant
            n == dockerfile_contents(*d).len(),
            i <= n,
            instr_views(res@) =~= dockerfile_contents(*d).take(i as int),
        decreases n - i,
    {
        let ghost before = instr_views(res@);
        res.push(instruction_at(d, i));
        assert(instr_views(res@) =~= before.push(dockerfile_contents(*d)[i as int]));
        i = i + 1;
    }
    res
}

} // verus!
