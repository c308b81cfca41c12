//! The command session: a working directory kept across calls, a `cd`
//! built-in, and every other line handed to a shell interpreter.
//!
//! The session decides; the caller does the outside work. `Session::plan`
//! says what a line asks for. A `cd` target is checked by the caller and
//! the answer goes to `Session::finish_cd`; a delegated line is run by the
//! caller in `Step::Delegate`'s directory and its captured output goes to
//! `finish_command`.

use vstd::prelude::*;
use crate::path::{joined, is_absolute, opt_view, parent_of, join_path, parent_or_self};
use crate::text::{
    words, trimmed, views, tokenize, trim_text, is_ws, lemma_one_word, lemma_two_words,
};

verus! {

/// The text that `String::from_utf8_lossy` decodes from a byte sequence.
pub uninterp spec fn lossy_text(b: Seq<u8>) -> Seq<char>;

/// Relies on `String::from_utf8_lossy`: the bytes decoded as UTF-8, each
/// invalid sequence replaced; the result depends on the bytes alone.
#[verifier::external_body]
fn decode_lossy(b: &Vec<u8>) -> (r: String)
    ensures
        r@ == lossy_text(b@),
{
    String::from_utf8_lossy(b.as_slice()).into_owned()
}

/// Relies on `dirs::home_dir`: the current user's home directory, where one
/// is known. It comes from the environment, so nothing is promised of it.
#[verifier::external_body]
fn home_directory() -> (r: Option<String>) {
    match dirs::home_dir() {
        Some(p) => Some(p.to_string_lossy().into_owned()),
        None => None,
    }
}

/// The navigation built-in.
pub open spec fn cd_word() -> Seq<char> {
    seq!['c', 'd']
}

/// The argument of `cd` that names the parent directory.
pub open spec fn up_word() -> Seq<char> {
    seq!['.', '.']
}

pub enum ErrorModel {
    NoSuchDirectory(Seq<char>),
    Launch(Seq<char>),
}

/// Why a line could not be carried out.
#[derive(Debug, PartialEq, Eq)]
pub enum ShellError {
    /// A `cd` whose target (the word as typed) is not a directory.
    NoSuchDirectory(String),
    /// The shell interpreter could not be started; the system's message.
    Launch(String),
}

impl View for ShellError {
    type V = ErrorModel;

    open spec fn view(&self) -> ErrorModel {
        match self {
            ShellError::NoSuchDirectory(t) => ErrorModel::NoSuchDirectory(t@),
            ShellError::Launch(m) => ErrorModel::Launch(m@),
        }
    }
}

/// The text of an error as reported to the user.
pub open spec fn error_text(e: ErrorModel) -> Seq<char> {
    match e {
        ErrorModel::NoSuchDirectory(t) => "cd: no such directory: "@ + t,
        ErrorModel::Launch(m) => m,
    }
}

impl ShellError {
    pub fn message(&self) -> (r: String)
        ensures
            r@ == error_text(self@),
    {
        match self {
            ShellError::NoSuchDirectory(t) => {
                let mut r = String::from_str("cd: no such directory: ");
                r.append(t.as_str());
                r
            },
            ShellError::Launch(m) => m.clone(),
        }
    }
}

/// The view of a result of the session.
pub open spec fn result_view(r: Result<String, ShellError>) -> Result<Seq<char>, ErrorModel> {
    match r {
        Ok(s) => Ok(s@),
        Err(e) => Err(e@),
    }
}

pub enum StepModel {
    Reply(Seq<char>),
    CheckDir { target: Seq<char>, path: Seq<char> },
    Fail(ErrorModel),
    Delegate { line: Seq<char>, dir: Seq<char> },
}

/// What a command line asks of the caller.
#[derive(Debug, PartialEq, Eq)]
pub enum Step {
    /// Nothing to do outside: this is the answer.
    Reply(String),
    /// A `cd`: the caller checks that `path` is a directory and hands the
    /// answer to `Session::finish_cd`.
    CheckDir { target: String, path: String },
    /// The line fails without any outside work.
    Fail(ShellError),
    /// The caller runs `line` with a shell interpreter in `dir` and hands
    /// what it captured to `finish_command`.
    Delegate { line: String, dir: String },
}

impl View for Step {
    type V = StepModel;

    open spec fn view(&self) -> StepModel {
        match self {
            Step::Reply(s) => StepModel::Reply(s@),
            Step::CheckDir { target, path } => StepModel::CheckDir { target: target@, path: path@ },
            Step::Fail(e) => StepModel::Fail(e@),
            Step::Delegate { line, dir } => StepModel::Delegate { line: line@, dir: dir@ },
        }
    }
}

/// Where `cd arg` leads from `cwd`: `..` to the parent (or nowhere new at
/// the root), any other word joined onto `cwd`.
pub open spec fn cd_path(cwd: Seq<char>, arg: Seq<char>) -> Seq<char> {
    if arg == up_word() {
        match parent_of(cwd) {
            Some(p) => p,
            None => cwd,
        }
    } else {
        joined(cwd, arg)
    }
}

/// Whether `line` is a bare `cd`, which leads to the home directory.
pub open spec fn wants_home(line: Seq<char>) -> bool {
    words(line).len() == 1 && words(line)[0] == cd_word()
}

/// What `line` asks for in working directory `cwd`, with `home` the user's
/// home directory where one is known.
pub open spec fn plan_spec(cwd: Seq<char>, line: Seq<char>, home: Option<Seq<char>>) -> StepModel {
    let w = words(line);
    if w.len() == 0 {
        StepModel::Reply(Seq::empty())
    } else if w[0] != cd_word() {
        StepModel::Delegate { line, dir: cwd }
    } else if w.len() == 1 {
        match home {
            Some(h) => StepModel::CheckDir { target: Seq::empty(), path: h },
            None => StepModel::Fail(ErrorModel::NoSuchDirectory(Seq::empty())),
        }
    } else {
        StepModel::CheckDir { target: w[1], path: cd_path(cwd, w[1]) }
    }
}

/// The working directory and the result after a `cd` to `path`, typed as
/// `target`, where `is_dir` tells whether `path` is a directory.
pub open spec fn cd_outcome(cwd: Seq<char>, target: Seq<char>, path: Seq<char>, is_dir: bool) -> (
    Seq<char>,
    Result<Seq<char>, ErrorModel>,
) {
    if is_dir {
        (path, Ok(path))
    } else {
        (cwd, Err(ErrorModel::NoSuchDirectory(target)))
    }
}

/// The answer to a delegated line from what it wrote to standard output
/// and standard error.
pub open spec fn output_text(out: Seq<char>, err: Seq<char>) -> Seq<char> {
    trimmed(out + err)
}

/// A word as the session reads it: nonempty, without whitespace.
pub open spec fn is_word(d: Seq<char>) -> bool {
    d.len() > 0 && forall|i: int| 0 <= i < d.len() ==> !is_ws(#[trigger] d[i])
}

/// The line `cd d`.
pub open spec fn cd_line(d: Seq<char>) -> Seq<char> {
    cd_word() + seq![' '] + d
}

/// A line that asks for the working directory.
pub open spec fn pwd_line() -> Seq<char> {
    seq!['p', 'w', 'd']
}

proof fn lemma_cd_line(d: Seq<char>)
    requires
        is_word(d),
    ensures
        words(cd_line(d)) == seq![cd_word(), d],
{
    assert(!is_ws('c') && !is_ws('d'));
    assert(is_word(cd_word()));
    lemma_two_words(cd_word(), d);
}

proof fn lemma_pwd_line(cwd: Seq<char>, home: Option<Seq<char>>)
    ensures
        plan_spec(cwd, pwd_line(), home) == (StepModel::Delegate { line: pwd_line(), dir: cwd }),
{
    assert(!is_ws('p') && !is_ws('w') && !is_ws('d'));
    assert(is_word(pwd_line()));
    lemma_one_word(pwd_line());
    assert(pwd_line()[0] != cd_word()[0]);
}

/// A `cd` into a directory `d` makes `d`, resolved against the old working
/// directory, the new one, answers with it, and a `pwd` after it runs
/// there; an absolute `d` resolves to itself.
pub proof fn lemma_cd_then_pwd(
    cwd: Seq<char>,
    d: Seq<char>,
    home: Option<Seq<char>>,
    later_home: Option<Seq<char>>,
)
    requires
        is_word(d),
        d != up_word(),
    ensures
        plan_spec(cwd, cd_line(d), home) == (StepModel::CheckDir {
            target: d,
            path: joined(cwd, d),
        }),
        cd_outcome(cwd, d, joined(cwd, d), true) == (
            joined(cwd, d),
            Ok::<Seq<char>, ErrorModel>(joined(cwd, d)),
        ),
        plan_spec(joined(cwd, d), pwd_line(), later_home) == (StepModel::Delegate {
            line: pwd_line(),
            dir: joined(cwd, d),
        }),
        is_absolute(d) ==> joined(cwd, d) == d,
{
    lemma_cd_line(d);
    lemma_pwd_line(joined(cwd, d), later_home);
}

/// A `cd` to what is not a directory keeps the working directory and
/// reports the target as typed; a `pwd` after it runs in the old directory.
pub proof fn lemma_failed_cd_keeps_cwd(
    cwd: Seq<char>,
    d: Seq<char>,
    home: Option<Seq<char>>,
    later_home: Option<Seq<char>>,
)
    requires
        is_word(d),
    ensures
        plan_spec(cwd, cd_line(d), home) == (StepModel::CheckDir {
            target: d,
            path: cd_path(cwd, d),
        }),
        cd_outcome(cwd, d, cd_path(cwd, d), false) == (
            cwd,
            Err::<Seq<char>, ErrorModel>(ErrorModel::NoSuchDirectory(d)),
        ),
        plan_spec(cwd, pwd_line(), later_home) == (StepModel::Delegate { line: pwd_line(), dir: cwd }),
{
    lemma_cd_line(d);
    lemma_pwd_line(cwd, later_home);
}

/// `cd ..` in a directory without a parent leads back to that directory:
/// it answers with it and leaves the session where it was.
pub proof fn lemma_up_without_parent(cwd: Seq<char>, home: Option<Seq<char>>)
    requires
        parent_of(cwd) is None,
    ensures
        plan_spec(cwd, cd_line(up_word()), home) == (StepModel::CheckDir {
            target: up_word(),
            path: cwd,
        }),
        cd_outcome(cwd, up_word(), cwd, true) == (cwd, Ok::<Seq<char>, ErrorModel>(cwd)),
{
    assert(!is_ws('.'));
    assert(is_word(up_word()));
    lemma_cd_line(up_word());
}

fn is_cd(s: &str) -> (r: bool)
    ensures
        r == (s@ == cd_word()),
{
    if s.unicode_len() == 2 && s.get_char(0) == 'c' && s.get_char(1) == 'd' {
        assert(s@ =~= cd_word());
        true
    } else {
        false
    }
}

fn is_up(s: &str) -> (r: bool)
    ensures
        r == (s@ == up_word()),
{
    if s.unicode_len() == 2 && s.get_char(0) == '.' && s.get_char(1) == '.' {
        assert(s@ =~= up_word());
        true
    } else {
        false
    }
}

/// A command session: the working directory that its lines run in.
pub struct Session {
    cwd: String,
}

impl View for Session {
    type V = Seq<char>;

    closed spec fn view(&self) -> Seq<char> {
        self.cwd@
    }
}

impl Session {
    /// A session whose working directory is `cwd`.
    pub fn new(cwd: String) -> (r: Session)
        ensures
            r@ == cwd@,
    {
        Session { cwd }
    }

    /// A session in the user's home directory, where one is known.
    pub fn at_home() -> (r: Option<Session>) {
        match home_directory() {
            Some(h) => Some(Session { cwd: h }),
            None => None,
        }
    }

    /// The working directory.
    pub fn cwd(&self) -> (r: String)
        ensures
            r@ == self@,
    {
        self.cwd.clone()
    }

    /// What `line` asks for, with `home` the user's home directory where
    /// one is known.
    pub fn plan_with_home(&self, line: &str, home: Option<String>) -> (r: Step)
        ensures
            r@ == plan_spec(self@, line@, opt_view(home)),
    {
        let w = tokenize(line);
        self.plan_words(line, &w, home)
    }

    /// What `line` asks for. Only a bare `cd` looks up the home directory.
    pub fn plan(&self, line: &str) -> (r: Step)
        ensures
            !wants_home(line@) ==> r@ == plan_spec(self@, line@, None),
            wants_home(line@) ==> exists|h: Option<Seq<char>>| r@ == plan_spec(self@, line@, h),
    {
        let w = tokenize(line);
        let bare_cd = w.len() == 1 && is_cd(w[0].as_str());
        proof {
            if w.len() == 1 {
                assert(views(w@)[0] == w@[0]@);
            }
        }
        let home = if bare_cd {
            home_directory()
        } else {
            None
        };
        let r = self.plan_words(line, &w, home);
        assert(r@ == plan_spec(self@, line@, opt_view(home)));
        r
    }

    fn plan_words(&self, line: &str, w: &Vec<String>, home: Option<String>) -> (r: Step)
        requires
            views(w@) == words(line@),
        ensures
            r@ == plan_spec(self@, line@, opt_view(home)),
    {
        if w.len() == 0 {
            return Step::Reply(String::new());
        }
        assert(views(w@)[0] == w@[0]@);
        if !is_cd(w[0].as_str()) {
            return Step::Delegate { line: String::from_str(line), dir: self.cwd.clone() };
        }
        if w.len() == 1 {
            return match home {
                Some(h) => Step::CheckDir { target: String::new(), path: h },
                None => Step::Fail(ShellError::NoSuchDirectory(String::new())),
            };
        }
        assert(views(w@)[1] == w@[1]@);
        let t = w[1].as_str();
        let path = if is_up(t) {
            parent_or_self(self.cwd.as_str())
        } else {
            join_path(self.cwd.as_str(), t)
        };
        Step::CheckDir { target: String::from_str(t), path }
    }

    /// Completes a `cd` to `path`, typed as `target`: where `path` is a
    /// directory it becomes the working directory and is the answer;
    /// otherwise the working directory stays and the target is reported.
    pub fn finish_cd(&mut self, target: &str, path: &str, is_dir: bool) -> (r: Result<
        String,
        ShellError,
    >)
        ensures
            (final(self)@, result_view(r)) == cd_outcome(old(self)@, target@, path@, is_dir),
    {
        if is_dir {
            self.cwd = String::from_str(path);
            Ok(String::from_str(path))
        } else {
            Err(ShellError::NoSuchDirectory(String::from_str(target)))
        }
    }
}

/// The answer to a delegated line: standard output then standard error,
/// without surrounding whitespace.
pub fn join_output(out: &str, err: &str) -> (r: String)
    ensures
        r@ == output_text(out@, err@),
{
    let mut all = String::from_str(out);
    all.append(err);
    trim_text(all.as_str())
}

/// The answer to a delegated line from its captured bytes, each stream
/// decoded on its own.
pub fn command_output(out: &Vec<u8>, err: &Vec<u8>) -> (r: String)
    ensures
        r@ == output_text(lossy_text(out@), lossy_text(err@)),
{
    let o = decode_lossy(out);
    let e = decode_lossy(err);
    join_output(o.as_str(), e.as_str())
}

/// Completes a delegated line: its captured output where the interpreter
/// ran, whatever its exit status, or the launch failure.
pub fn finish_command(launched: Result<(Vec<u8>, Vec<u8>), String>) -> (r: Result<
    String,
    ShellError,
>)
    ensures
        match launched {
            Ok((out, err)) => result_view(r) == Ok::<Seq<char>, ErrorModel>(
                output_text(lossy_text(out@), lossy_text(err@)),
            ),
            Err(m) => result_view(r) == Err::<Seq<char>, ErrorModel>(ErrorModel::Launch(m@)),
        },
{
    match launched {
        Ok((out, err)) => Ok(command_output(&out, &err)),
        Err(m) => Err(ShellError::Launch(m)),
    }
}

} // verus!
