//! The interactive shell's `:` commands and the backend labels of headless
//! execution requests.

use vstd::prelude::*;
use crate::driver::backend::Backend;
use crate::text::{
    parse_u8, u8_of_text, chars_of, chars_range, decimal, is_whitespace, is_whitespace_char, push_decimal,
    string_from_chars, str_eq, trim, trim_ws,
};

verus! {

/// Backend requested by a headless execution request.
#[derive(Clone, Copy, Debug, PartialEq, Eq, Structural)]
pub enum HeadlessExecutionBackend {
    Auto,
    C,
    Llvm,
    Jit,
}

/// The label of a headless backend, or `None` for an unknown label.
pub open spec fn headless_backend_of_label(label: Seq<char>) -> Option<HeadlessExecutionBackend> {
    if label == "auto"@ {
        Some(HeadlessExecutionBackend::Auto)
    } else if label == "c"@ {
        Some(HeadlessExecutionBackend::C)
    } else if label == "llvm"@ {
        Some(HeadlessExecutionBackend::Llvm)
    } else if label == "jit"@ {
        Some(HeadlessExecutionBackend::Jit)
    } else {
        None
    }
}

pub open spec fn headless_backend_label(backend: HeadlessExecutionBackend) -> Seq<char> {
    match backend {
        HeadlessExecutionBackend::Auto => "auto"@,
        HeadlessExecutionBackend::C => "c"@,
        HeadlessExecutionBackend::Llvm => "llvm"@,
        HeadlessExecutionBackend::Jit => "jit"@,
    }
}

pub open spec fn unknown_backend_message(label: Seq<char>) -> Seq<char> {
    "unknown backend `"@ + label + "`; expected auto, c, llvm, or jit"@
}

/// Reads a backend label: `auto`, `c`, `llvm` or `jit`.
pub fn parse_headless_backend_label(value: &str) -> (r: Result<HeadlessExecutionBackend, String>)
    ensures
        match headless_backend_of_label(value@) {
            Some(b) => r == Ok::<HeadlessExecutionBackend, String>(b),
            None => r is Err && r->Err_0@ == unknown_backend_message(value@),
        },
{
    if str_eq(value, "auto") {
        Ok(HeadlessExecutionBackend::Auto)
    } else if str_eq(value, "c") {
        Ok(HeadlessExecutionBackend::C)
    } else if str_eq(value, "llvm") {
        Ok(HeadlessExecutionBackend::Llvm)
    } else if str_eq(value, "jit") {
        Ok(HeadlessExecutionBackend::Jit)
    } else {
        let mut e = String::new();
        e.append("unknown backend `");
        e.append(value);
        e.append("`; expected auto, c, llvm, or jit");
        Err(e)
    }
}

/// The label of a backend, as `parse_headless_backend_label` reads it.
pub fn render_headless_backend_label(backend: HeadlessExecutionBackend) -> (r: &'static str)
    ensures
        r@ == headless_backend_label(backend),
{
    match backend {
        HeadlessExecutionBackend::Auto => "auto",
        HeadlessExecutionBackend::C => "c",
        HeadlessExecutionBackend::Llvm => "llvm",
        HeadlessExecutionBackend::Jit => "jit",
    }
}

/// Reading the label of a backend gives that backend back.
pub proof fn lemma_headless_backend_label_round_trip(backend: HeadlessExecutionBackend)
    ensures
        headless_backend_of_label(headless_backend_label(backend)) == Some(backend),
{
    reveal_strlit("auto");
    reveal_strlit("c");
    reveal_strlit("llvm");
    reveal_strlit("jit");
    assert("auto"@.len() == 4 && "c"@.len() == 1 && "llvm"@.len() == 4 && "jit"@.len() == 3);
    assert("auto"@[0] != "llvm"@[0]);
}

/// The driver backend a headless request asks for.
pub open spec fn backend_of_headless(backend: HeadlessExecutionBackend) -> Backend {
    match backend {
        HeadlessExecutionBackend::Auto => Backend::Auto,
        HeadlessExecutionBackend::C => Backend::C,
        HeadlessExecutionBackend::Llvm => Backend::Llvm,
        HeadlessExecutionBackend::Jit => Backend::Jit,
    }
}

/// The headless request backend for a driver backend.
pub open spec fn headless_of_backend(backend: Backend) -> HeadlessExecutionBackend {
    match backend {
        Backend::Auto => HeadlessExecutionBackend::Auto,
        Backend::C => HeadlessExecutionBackend::C,
        Backend::Llvm => HeadlessExecutionBackend::Llvm,
        Backend::Jit => HeadlessExecutionBackend::Jit,
    }
}

/// The driver backend a headless request asks for.
pub fn headless_backend_to_backend(backend: HeadlessExecutionBackend) -> (r: Backend)
    ensures
        r == backend_of_headless(backend),
{
    match backend {
        HeadlessExecutionBackend::Auto => Backend::Auto,
        HeadlessExecutionBackend::C => Backend::C,
        HeadlessExecutionBackend::Llvm => Backend::Llvm,
        HeadlessExecutionBackend::Jit => Backend::Jit,
    }
}

/// The headless request backend for a driver backend.
pub fn backend_to_headless_backend(backend: Backend) -> (r: HeadlessExecutionBackend)
    ensures
        r == headless_of_backend(backend),
{
    match backend {
        Backend::Auto => HeadlessExecutionBackend::Auto,
        Backend::C => HeadlessExecutionBackend::C,
        Backend::Llvm => HeadlessExecutionBackend::Llvm,
        Backend::Jit => HeadlessExecutionBackend::Jit,
    }
}

/// The two backend conversions undo each other.
pub proof fn lemma_headless_backend_conversion_round_trip(b: Backend, h: HeadlessExecutionBackend)
    ensures
        backend_of_headless(headless_of_backend(b)) == b,
        headless_of_backend(backend_of_headless(h)) == h,
{
}

/// Exit code of a headless run: the one it reported, else `0` on success
/// and `1` on failure.
pub fn headless_response_exit_code(exit_code: Option<i32>, success: bool) -> (r: i32)
    ensures
        r == (match exit_code {
            Some(c) => c,
            None => if success {
                0i32
            } else {
                1i32
            },
        }),
{
    match exit_code {
        Some(c) => c,
        None => if success {
            0
        } else {
            1
        },
    }
}

} // verus!

verus! {

pub open spec fn fast_flag_message() -> Seq<char> {
    "`:fast` expects `on` or `off`"@
}

/// The switch named by the argument of `:fast`.
pub open spec fn fast_flag_of(value: Seq<char>) -> Option<bool> {
    if value == "on"@ || value == "true"@ || value == "1"@ {
        Some(true)
    } else if value == "off"@ || value == "false"@ || value == "0"@ {
        Some(false)
    } else {
        None
    }
}

/// Reads the argument of the REPL `:fast` command: `on`, `true` or `1`
/// switch fast mode on, `off`, `false` or `0` switch it off.
pub fn parse_repl_fast_flag(value: &str) -> (r: Result<bool, String>)
    ensures
        match fast_flag_of(value@) {
            Some(b) => r == Ok::<bool, String>(b),
            None => r is Err && r->Err_0@ == fast_flag_message(),
        },
{
    if str_eq(value, "on") || str_eq(value, "true") || str_eq(value, "1") {
        Ok(true)
    } else if str_eq(value, "off") || str_eq(value, "false") || str_eq(value, "0") {
        Ok(false)
    } else {
        Err("`:fast` expects `on` or `off`".to_string())
    }
}

} // verus!

verus! {

/// Length of the leading run of non-whitespace characters.
pub open spec fn token_len(s: Seq<char>) -> nat
    decreases s.len(),
{
    if s.len() == 0 || is_whitespace_char(s[0]) {
        0
    } else {
        1 + token_len(s.drop_first())
    }
}

proof fn lemma_token_len(s: Seq<char>, i: int)
    requires
        0 <= i <= s.len(),
        forall|k: int| 0 <= k < i ==> !is_whitespace_char(#[trigger] s[k]),
        i == s.len() || is_whitespace_char(s[i]),
    ensures
        token_len(s) == i,
    decreases i,
{
    if i > 0 {
        let t = s.drop_first();
        assert forall|k: int| 0 <= k < i - 1 implies !is_whitespace_char(#[trigger] t[k]) by {
            assert(t[k] == s[k + 1]);
        }
        if i < s.len() {
            assert(t[i - 1] == s[i]);
        }
        lemma_token_len(t, i - 1);
    }
}

/// A command of the interactive shell.
#[derive(Debug, PartialEq, Eq)]
pub enum ReplCommandKind {
    Help,
    Quit,
    Reset,
    Show,
    Run,
    Load(String),
    Backend(HeadlessExecutionBackend),
    Opt(u8),
    Fast(bool),
}

/// A shell command, with the path of `:load` as its characters.
pub enum ReplCommandModel {
    Help,
    Quit,
    Reset,
    Show,
    Run,
    Load(Seq<char>),
    Backend(HeadlessExecutionBackend),
    Opt(u8),
    Fast(bool),
}

impl View for ReplCommandKind {
    type V = ReplCommandModel;

    open spec fn view(&self) -> ReplCommandModel {
        match self {
            ReplCommandKind::Help => ReplCommandModel::Help,
            ReplCommandKind::Quit => ReplCommandModel::Quit,
            ReplCommandKind::Reset => ReplCommandModel::Reset,
            ReplCommandKind::Show => ReplCommandModel::Show,
            ReplCommandKind::Run => ReplCommandModel::Run,
            ReplCommandKind::Load(p) => ReplCommandModel::Load(p@),
            ReplCommandKind::Backend(b) => ReplCommandModel::Backend(*b),
            ReplCommandKind::Opt(n) => ReplCommandModel::Opt(*n),
            ReplCommandKind::Fast(f) => ReplCommandModel::Fast(*f),
        }
    }
}

/// The shell command named `command` with argument `tail`.
pub open spec fn repl_command_of(command: Seq<char>, tail: Seq<char>) -> Result<ReplCommandModel, Seq<char>> {
    if command == "help"@ {
        Ok(ReplCommandModel::Help)
    } else if command == "q"@ || command == "quit"@ || command == "exit"@ {
        Ok(ReplCommandModel::Quit)
    } else if command == "reset"@ || command == "clear"@ {
        Ok(ReplCommandModel::Reset)
    } else if command == "show"@ {
        Ok(ReplCommandModel::Show)
    } else if command == "run"@ {
        Ok(ReplCommandModel::Run)
    } else if command == "load"@ {
        if tail.len() == 0 {
            Err("`:load` requires a path"@)
        } else {
            Ok(ReplCommandModel::Load(tail))
        }
    } else if command == "backend"@ {
        match headless_backend_of_label(tail) {
            Some(b) => Ok(ReplCommandModel::Backend(b)),
            None => Err(unknown_backend_message(tail)),
        }
    } else if command == "opt"@ {
        if tail.len() == 0 {
            Err("`:opt` requires a value from 0 to 3"@)
        } else {
            match u8_of_text(tail) {
                None => Err("invalid optimization level `"@ + tail + "`"@),
                Some(n) => if n > 3 {
                    Err("optimization level `"@ + decimal(n as nat) + "` must be 0..=3"@)
                } else {
                    Ok(ReplCommandModel::Opt(n))
                },
            }
        }
    } else if command == "fast"@ {
        match fast_flag_of(tail) {
            Some(f) => Ok(ReplCommandModel::Fast(f)),
            None => Err(fast_flag_message()),
        }
    } else {
        Err("unknown repl command `:"@ + command + "`"@)
    }
}

/// What a line typed into the shell is: `Ok(None)` for source text (it does
/// not start with `:` once trimmed), a command, or why it is no command.
pub open spec fn repl_input_of(input: Seq<char>) -> Result<Option<ReplCommandModel>, Seq<char>> {
    let trimmed = trim_ws(input);
    if !(trimmed.len() > 0 && trimmed[0] == ':') {
        Ok(None)
    } else {
        let body = trim_ws(trimmed.drop_first());
        if body.len() == 0 {
            Err("empty repl command"@)
        } else {
            let k = token_len(body) as int;
            match repl_command_of(body.take(k), trim_ws(body.skip(k))) {
                Ok(c) => Ok(Some(c)),
                Err(e) => Err(e),
            }
        }
    }
}

pub open spec fn repl_result_view(r: Result<Option<ReplCommandKind>, String>) -> Result<Option<ReplCommandModel>, Seq<char>> {
    match r {
        Ok(Some(c)) => Ok(Some(c@)),
        Ok(None) => Ok(None),
        Err(e) => Err(e@),
    }
}

} // verus!

verus! {

/// The shell command named `command` with argument `tail`.
fn repl_command(command: &str, tail: &str) -> (r: Result<ReplCommandKind, String>)
    ensures
        match repl_command_of(command@, tail@) {
            Ok(c) => r is Ok && r->Ok_0@ == c,
            Err(e) => r is Err && r->Err_0@ == e,
        },
{
    if str_eq(command, "help") {
        Ok(ReplCommandKind::Help)
    } else if str_eq(command, "q") || str_eq(command, "quit") || str_eq(command, "exit") {
        Ok(ReplCommandKind::Quit)
    } else if str_eq(command, "reset") || str_eq(command, "clear") {
        Ok(ReplCommandKind::Reset)
    } else if str_eq(command, "show") {
        Ok(ReplCommandKind::Show)
    } else if str_eq(command, "run") {
        Ok(ReplCommandKind::Run)
    } else if str_eq(command, "load") {
        if tail.is_empty() {
            Err("`:load` requires a path".to_string())
        } else {
            Ok(ReplCommandKind::Load(tail.to_string()))
        }
    } else if str_eq(command, "backend") {
        match parse_headless_backend_label(tail) {
            Ok(b) => Ok(ReplCommandKind::Backend(b)),
            Err(e) => Err(e),
        }
    } else if str_eq(command, "opt") {
        if tail.is_empty() {
            return Err("`:opt` requires a value from 0 to 3".to_string());
        }
        match parse_u8(tail) {
            None => {
                let mut e = String::new();
                e.append("invalid optimization level `");
                e.append(tail);
                e.append("`");
                Err(e)
            },
            Some(n) => {
                if n > 3 {
                    let mut e = String::new();
                    e.append("optimization level `");
                    push_decimal(&mut e, n as u128);
                    e.append("` must be 0..=3");
                    Err(e)
                } else {
                    Ok(ReplCommandKind::Opt(n))
                }
            },
        }
    } else if str_eq(command, "fast") {
        match parse_repl_fast_flag(tail) {
            Ok(f) => Ok(ReplCommandKind::Fast(f)),
            Err(e) => Err(e),
        }
    } else {
        let mut e = String::new();
        e.append("unknown repl command `:");
        e.append(command);
        e.append("`");
        Err(e)
    }
}

/// Reads a line typed into the shell: `Ok(None)` when it is source text
/// (it does not start with `:` once trimmed), else the command it names, or
/// an error saying why it names none.
pub fn parse_repl_command(input: &str) -> (r: Result<Option<ReplCommandKind>, String>)
    ensures
        repl_result_view(r) == repl_input_of(input@),
{
    let trimmed = trim(input);
    let tv = chars_of(trimmed.as_str());
    if !(tv.len() > 0 && tv[0] == ':') {
        return Ok(None);
    }
    let rest = string_from_chars(&chars_range(&tv, 1, tv.len()));
    assert(rest@ =~= trimmed@.drop_first());
    let body = trim(rest.as_str());
    let bv = chars_of(body.as_str());
    if bv.len() == 0 {
        return Err("empty repl command".to_string());
    }
    let mut k: usize = 0;
    while k < bv.len() && !is_whitespace(bv[k])
        invariant
            k <= bv.len(),
            forall|j: int| 0 <= j < k ==> !is_whitespace_char(#[trigger] bv@[j]),
        decreases bv.len() - k,
    {
        k += 1;
    }
    proof {
        lemma_token_len(bv@, k as int);
    }
    let command = string_from_chars(&chars_range(&bv, 0, k));
    let after = string_from_chars(&chars_range(&bv, k, bv.len()));
    assert(command@ =~= body@.take(k as int));
    assert(after@ =~= body@.skip(k as int));
    let tail = trim(after.as_str());
    match repl_command(command.as_str(), tail.as_str()) {
        Ok(c) => Ok(Some(c)),
        Err(e) => Err(e),
    }
}

} // verus!
