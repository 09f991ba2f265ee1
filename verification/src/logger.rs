//! Log levels and the pure parts of log formatting.
use vstd::prelude::*;

use crate::text::{
    byte_len, byte_len_exceeds_one, char_utf8_len, chars_of, contains, contains_exec, decimal,
    dedup, dedup_strings, find, find_exec, first_word, first_word_exec, lemma_find, lemma_rfind,
    lemma_split_nonempty, lines, lines_exec, parse_u32, parse_u32_exec, push_char, push_decimal,
    push_range, push_zero_padded, reverse_strings, zero_pad, join, join_strings, rfind, rfind_exec, slice_vec, split, split_exec, starts_with,
    starts_with_exec, strings_view, trim, trim_exec, opt_string_view,
};

verus! {

/// How finely a log level's timestamps are given.
#[derive(Clone, Copy, Debug, PartialEq, Eq, Structural)]
pub enum TimestampPrecision {
    Second,
    Milli,
    Nano,
}

/// The severity of a log entry; each level is written to a file of its own.
#[derive(Clone, Copy, Debug, PartialEq, Eq, Structural)]
pub enum LogLevel {
    CronjobExecution,
    CronjobError,
    Trace,
    Debug,
    Info,
    Warning,
    Error,
}

/// The upper-case name of a log level.
pub open spec fn level_name(level: LogLevel) -> Seq<char> {
    match level {
        LogLevel::CronjobExecution => "CRONJOB"@,
        LogLevel::CronjobError => "CRONJOB_ERROR"@,
        LogLevel::Trace => "TRACE"@,
        LogLevel::Debug => "DEBUG"@,
        LogLevel::Info => "INFO"@,
        LogLevel::Warning => "WARNING"@,
        LogLevel::Error => "ERROR"@,
    }
}

/// The timestamp precision of a log level.
pub open spec fn level_precision(level: LogLevel) -> TimestampPrecision {
    match level {
        LogLevel::Trace => TimestampPrecision::Nano,
        LogLevel::Debug | LogLevel::CronjobExecution | LogLevel::CronjobError => TimestampPrecision::Milli,
        LogLevel::Info | LogLevel::Warning | LogLevel::Error => TimestampPrecision::Second,
    }
}

impl LogLevel {
    /// The upper-case name of the level.
    pub fn as_str(&self) -> (r: &'static str)
        ensures
            r@ == level_name(*self),
    {
        match self {
            LogLevel::CronjobExecution => "CRONJOB",
            LogLevel::CronjobError => "CRONJOB_ERROR",
            LogLevel::Trace => "TRACE",
            LogLevel::Debug => "DEBUG",
            LogLevel::Info => "INFO",
            LogLevel::Warning => "WARNING",
            LogLevel::Error => "ERROR",
        }
    }

    /// The precision of the level's timestamps: nanoseconds for traces,
    /// milliseconds for debugging and cron jobs, seconds otherwise.
    pub fn timestamp_precision(&self) -> (r: TimestampPrecision)
        ensures
            r == level_precision(*self),
    {
        match self {
            LogLevel::Trace => TimestampPrecision::Nano,
            LogLevel::Debug | LogLevel::CronjobExecution | LogLevel::CronjobError => TimestampPrecision::Milli,
            LogLevel::Info | LogLevel::Warning | LogLevel::Error => TimestampPrecision::Second,
        }
    }
}

/// A call-stack entry is noise: logging itself, the standard library, the
/// async runtime, the web framework, closures and generic impls.
pub open spec fn is_noise_function(s: Seq<char>) -> bool {
    ||| contains(s, "logger::"@)
    ||| contains(s, "cata_log"@)
    ||| contains(s, "backtrace::"@)
    ||| contains(s, "std::"@)
    ||| contains(s, "core::"@)
    ||| contains(s, "alloc::"@)
    ||| contains(s, "rust_begin_unwind"@)
    ||| contains(s, "rust_panic"@)
    ||| contains(s, "{{closure}}"@)
    ||| contains(s, "<unknown>"@)
    ||| contains(s, "Runtime::"@)
    ||| contains(s, "Inner::"@)
    ||| contains(s, "Task::"@)
    ||| contains(s, "UnownedTask"@)
    ||| contains(s, "RawTask::"@)
    ||| contains(s, "raw::"@)
    ||| contains(s, "runtime::"@)
    ||| contains(s, "MultiThread::"@)
    ||| contains(s, "block_on"@)
    ||| contains(s, "enter_runtime"@)
    ||| contains(s, "poll"@)
    ||| contains(s, "worker::"@)
    ||| contains(s, "context::"@)
    ||| contains(s, "Scoped"@)
    ||| contains(s, "Context::"@)
    ||| contains(s, "coop::"@)
    ||| contains(s, "budget"@)
    ||| contains(s, "with_budget"@)
    ||| contains(s, "src::rt"@)
    ||| contains(s, "main::rt"@)
    ||| contains(s, "main::panic"@)
    ||| contains(s, "main::panicking"@)
    ||| contains(s, "ops::function"@)
    ||| contains(s, "sys::backtrace"@)
    ||| contains(s, "main::main"@)
    ||| contains(s, "src::lib"@)
    ||| contains(s, "multi_thread::"@)
    ||| contains(s, "future::future"@)
    ||| contains(s, "panic::"@)
    ||| contains(s, "panicking"@)
    ||| contains(s, "unwind_safe"@)
    ||| contains(s, "src::panic"@)
    ||| contains(s, "src::panicking"@)
    ||| contains(s, "thread::"@)
    ||| contains(s, "unix::thread"@)
    ||| contains(s, "main::boxed"@)
    ||| contains(s, "task::"@)
    ||| contains(s, "blocking::"@)
    ||| contains(s, "harness"@)
    ||| contains(s, "LocalNotified"@)
    ||| contains(s, "catch_unwind"@)
    ||| contains(s, "OnceCell"@)
    ||| contains(s, "Lazy<T,F>"@)
    ||| contains(s, "src::imp_std"@)
    ||| contains(s, "imp::"@)
    ||| contains(s, "src::server"@)
    ||| contains(s, "src::rkt"@)
    ||| contains(s, "fairing::"@)
    ||| contains(s, "join_all"@)
    ||| contains(s, "maybe_done"@)
    ||| contains(s, "rocket::"@)
    ||| contains(s, "_Handler::"@)
    ||| contains(s, "Outcome::"@)
    ||| contains(s, "tokio::"@)
    ||| contains(s, "futures::"@)
    ||| contains(s, "catalyst::main"@)
    ||| contains(s, "<impl"@)
    ||| contains(s, "{{"@)
    ||| contains(s, "default::logger"@)
}

/// The number in a `src/<file>.rs:<line>[:<column>]` reference anywhere in a line.
pub open spec fn line_number_from_line(line: Seq<char>) -> Option<u32> {
    match find(line, "src/"@) {
        None => None,
        Some(sp) => {
            let after_src = line.subrange(sp, line.len() as int);
            match find(after_src, ".rs:"@) {
                None => None,
                Some(rp) => {
                    let after_rs = after_src.subrange(rp + ".rs:"@.len(), after_src.len() as int);
                    match find(after_rs, seq![':']) {
                        Some(cp) => parse_u32(after_rs.subrange(0, cp)),
                        None => parse_u32(trim(after_rs)),
                    }
                },
            }
        },
    }
}

/// The number between the last two colons of a `path:line:column` reference.
pub open spec fn line_number_from_path(path: Seq<char>) -> Option<u32> {
    match rfind(path, seq![':']) {
        None => None,
        Some(c) => {
            let before = path.subrange(0, c);
            match rfind(before, seq![':']) {
                None => None,
                Some(pc) => parse_u32(before.subrange(pc + 1, c)),
            }
        },
    }
}

/// `:<n>` for a line number, nothing otherwise.
pub open spec fn line_suffix(n: Option<u32>) -> Seq<char> {
    match n {
        Some(k) => seq![':'] + decimal(k as nat),
        None => seq![],
    }
}

/// `module::function`, followed by `:<line>` when the line is known.
pub open spec fn qualified(module: Seq<char>, function: Seq<char>, n: Option<u32>) -> Seq<char> {
    module + "::"@ + function + line_suffix(n)
}

/// The part of `s` after the first `k` characters.
pub open spec fn tail(s: Seq<char>, k: int) -> Seq<char> {
    s.subrange(k, s.len() as int)
}

/// The pieces of a source reference: the text after `src/` and `.rs` as found
/// in the line, if both occur.
pub open spec fn src_path_pieces(line: Seq<char>) -> Option<(Seq<char>, Seq<char>)> {
    match find(line, "src/"@) {
        None => None,
        Some(sp) => {
            let after_src = tail(line, sp + "src/"@.len());
            match find(after_src, ".rs"@) {
                None => None,
                Some(rp) => Some((after_src.subrange(0, rp), tail(after_src, rp + ".rs"@.len()))),
            }
        },
    }
}

/// Taking the line number of a source reference does not cut a multi-byte
/// character: when a colon follows `.rs` at a later position, the character
/// right after `.rs` is a single byte.
pub open spec fn src_path_sliceable(line: Seq<char>) -> bool {
    match src_path_pieces(line) {
        None => true,
        Some((_, after_rs)) => match find(after_rs, seq![':']) {
            Some(cp) => cp > 0 ==> char_utf8_len(after_rs[0]) == 1,
            None => true,
        },
    }
}

/// `module::file[:line]` from a `src/<dir>/<file>.rs:<line>` reference; the
/// module is the directory above the file, or `main`.
pub open spec fn from_src_path(line: Seq<char>) -> Option<Seq<char>> {
    match src_path_pieces(line) {
        None => None,
        Some((before_rs, after_rs)) => {
            let n = match find(after_rs, seq![':']) {
                Some(cp) => if cp > 0 {
                    parse_u32(after_rs.subrange(1, cp))
                } else {
                    None
                },
                None => None,
            };
            let parts = split(before_rs, seq!['/']);
            let filename = parts.last();
            let module = if parts.len() > 1 {
                parts[parts.len() - 2]
            } else {
                "main"@
            };
            Some(qualified(module, filename, n))
        },
    }
}

/// The module before the first `::` of a trimmed line: what follows the last
/// `::` or the last space before it.
pub open spec fn leading_module(before: Seq<char>) -> Seq<char> {
    match rfind(before, "::"@) {
        Some(l) => tail(before, l + "::"@.len()),
        None => match rfind(before, seq![' ']) {
            Some(sp) => tail(before, sp + 1),
            None => before,
        },
    }
}

/// The first word of `s`, or all of `s` when it has none.
pub open spec fn first_word_or_all(s: Seq<char>) -> Seq<char> {
    match first_word(s) {
        Some(w) => w,
        None => s,
    }
}

/// `module::function` around the first `::` of a line, when both names are
/// longer than one byte and neither holds `<`.
pub open spec fn any_useful_function(line: Seq<char>) -> Option<Seq<char>> {
    if !contains(line, "::"@) {
        None
    } else {
        let trimmed = trim(line);
        match find(trimmed, "::"@) {
            None => None,
            Some(dc) => {
                let module = leading_module(trimmed.subrange(0, dc));
                let function = split(first_word_or_all(tail(trimmed, dc + "::"@.len())), "::"@)[0];
                if module.len() > 0 && function.len() > 0 && byte_len(module) > 1 && byte_len(function)
                    > 1 && !contains(module, seq!['<']) && !contains(function, seq!['<']) {
                    Some(module + "::"@ + function)
                } else {
                    None
                }
            },
        }
    }
}

/// The outcome of reading an application path after `catalyst::`: a name,
/// a rejection, or nothing decided.
pub enum PathReading {
    Found(Seq<char>),
    Rejected,
    Undecided,
}

/// What the application path after `catalyst::` in a line gives.
pub open spec fn catalyst_reading(line: Seq<char>) -> PathReading {
    match find(line, "catalyst::"@) {
        None => PathReading::Undecided,
        Some(cs) => {
            let after = tail(line, cs + "catalyst::"@.len());
            let n = line_number_from_line(line);
            let clean = match find(after, "::h"@) {
                Some(h) => after.subrange(0, h),
                None => match find(after, seq![' ']) {
                    Some(p) => after.subrange(0, p),
                    None => after,
                },
            };
            let parts = split(clean, "::"@);
            if parts.len() >= 2 {
                let module = parts[parts.len() - 2];
                let function = parts[parts.len() - 1];
                if starts_with(function, seq!['<']) || contains(function, "{{"@) || function.len() == 0 {
                    PathReading::Rejected
                } else {
                    PathReading::Found(qualified(module, function, n))
                }
            } else if parts.len() == 1 && parts[0].len() > 0 && !starts_with(parts[0], seq!['<']) {
                PathReading::Found(qualified("catalyst"@, parts[0], n))
            } else {
                PathReading::Undecided
            }
        },
    }
}

/// `module::function[:line]` from the last two `::`-separated names before `at`
/// in a text; `None` when they do not qualify.
pub open spec fn names_before(text: Seq<char>, n: Option<u32>) -> Option<Seq<char>> {
    match rfind(text, "::"@) {
        None => None,
        Some(c) => {
            let before_colon = text.subrange(0, c);
            let after_colon = tail(text, c + "::"@.len());
            match rfind(before_colon, "::"@) {
                None => None,
                Some(lm) => {
                    let module = tail(before_colon, lm + "::"@.len());
                    let function = first_word_or_all(after_colon);
                    if module.len() > 0 && function.len() > 0 && !starts_with(function, seq!['<']) {
                        Some(qualified(module, function, n))
                    } else {
                        None
                    }
                },
            }
        },
    }
}

/// `module::function[:line]` read from a line that names a function outside
/// the standard library: first from a `... at src/...` form, then from the
/// last `::` of the line.
pub open spec fn generic_function_info(line: Seq<char>) -> Option<Seq<char>> {
    if contains(line, "::"@) && !contains(line, "std::"@) && !contains(line, "core::"@) {
        let trimmed = trim(line);
        let from_at = match find(trimmed, " at "@) {
            None => None,
            Some(at) => {
                let before_at = trimmed.subrange(0, at);
                let after_at = tail(trimmed, at + " at "@.len());
                let n = if contains(after_at, "src/"@) {
                    line_number_from_path(after_at)
                } else {
                    None
                };
                names_before(before_at, n)
            },
        };
        match from_at {
            Some(r) => Some(r),
            None => names_before(trimmed, line_number_from_line(line)),
        }
    } else {
        None
    }
}

/// The function that a backtrace line names, if any.
pub open spec fn simple_function_info(line: Seq<char>) -> Option<Seq<char>> {
    match catalyst_reading(line) {
        PathReading::Found(r) => Some(r),
        PathReading::Rejected => None,
        PathReading::Undecided => generic_function_info(line),
    }
}

/// What one backtrace line contributes to the call stack.
pub open spec fn backtrace_entry(line: Seq<char>) -> Option<Seq<char>> {
    let found = match simple_function_info(line) {
        Some(f) => Some(f),
        None => if contains(line, "src/"@) && contains(line, ".rs"@) {
            from_src_path(line)
        } else {
            any_useful_function(line)
        },
    };
    match found {
        Some(f) => if is_noise_function(f) {
            None
        } else {
            Some(f)
        },
        None => None,
    }
}

/// The entries that a sequence of backtrace lines contributes, in order.
pub open spec fn backtrace_entries(ls: Seq<Seq<char>>) -> Seq<Seq<char>>
    decreases ls.len(),
{
    if ls.len() == 0 {
        seq![]
    } else {
        let prev = backtrace_entries(ls.drop_last());
        match backtrace_entry(ls.last()) {
            Some(f) => prev.push(f),
            None => prev,
        }
    }
}

/// Every line of a backtrace can be read without cutting a character.
pub open spec fn backtrace_sliceable(text: Seq<char>) -> bool {
    forall|i: int| 0 <= i < lines(text).len() ==> #[trigger] src_path_sliceable(lines(text)[i])
}

/// The call stack read from a backtrace: the entries of its lines, runs of
/// equal neighbours kept once, caller first.
pub open spec fn call_stack_of(text: Seq<char>) -> Seq<Seq<char>> {
    dedup(backtrace_entries(lines(text))).reverse()
}

/// Whether a call-stack entry is noise.
fn is_noise_exec(v: &Vec<char>) -> (b: bool)
    ensures
        b == is_noise_function(v@),
{
    if contains_exec(&v, &chars_of("logger::")) {
        return true;
    }
    if contains_exec(&v, &chars_of("cata_log")) {
        return true;
    }
    if contains_exec(&v, &chars_of("backtrace::")) {
        return true;
    }
    if contains_exec(&v, &chars_of("std::")) {
        return true;
    }
    if contains_exec(&v, &chars_of("core::")) {
        return true;
    }
    if contains_exec(&v, &chars_of("alloc::")) {
        return true;
    }
    if contains_exec(&v, &chars_of("rust_begin_unwind")) {
        return true;
    }
    if contains_exec(&v, &chars_of("rust_panic")) {
        return true;
    }
    if contains_exec(&v, &chars_of("{{closure}}")) {
        return true;
    }
    if contains_exec(&v, &chars_of("<unknown>")) {
        return true;
    }
    if contains_exec(&v, &chars_of("Runtime::")) {
        return true;
    }
    if contains_exec(&v, &chars_of("Inner::")) {
        return true;
    }
    if contains_exec(&v, &chars_of("Task::")) {
        return true;
    }
    if contains_exec(&v, &chars_of("UnownedTask")) {
        return true;
    }
    if contains_exec(&v, &chars_of("RawTask::")) {
        return true;
    }
    if contains_exec(&v, &chars_of("raw::")) {
        return true;
    }
    if contains_exec(&v, &chars_of("runtime::")) {
        return true;
    }
    if contains_exec(&v, &chars_of("MultiThread::")) {
        return true;
    }
    if contains_exec(&v, &chars_of("block_on")) {
        return true;
    }
    if contains_exec(&v, &chars_of("enter_runtime")) {
        return true;
    }
    if contains_exec(&v, &chars_of("poll")) {
        return true;
    }
    if contains_exec(&v, &chars_of("worker::")) {
        return true;
    }
    if contains_exec(&v, &chars_of("context::")) {
        return true;
    }
    if contains_exec(&v, &chars_of("Scoped")) {
        return true;
    }
    if contains_exec(&v, &chars_of("Context::")) {
        return true;
    }
    if contains_exec(&v, &chars_of("coop::")) {
        return true;
    }
    if contains_exec(&v, &chars_of("budget")) {
        return true;
    }
    if contains_exec(&v, &chars_of("with_budget")) {
        return true;
    }
    if contains_exec(&v, &chars_of("src::rt")) {
        return true;
    }
    if contains_exec(&v, &chars_of("main::rt")) {
        return true;
    }
    if contains_exec(&v, &chars_of("main::panic")) {
        return true;
    }
    if contains_exec(&v, &chars_of("main::panicking")) {
        return true;
    }
    if contains_exec(&v, &chars_of("ops::function")) {
        return true;
    }
    if contains_exec(&v, &chars_of("sys::backtrace")) {
        return true;
    }
    if contains_exec(&v, &chars_of("main::main")) {
        return true;
    }
    if contains_exec(&v, &chars_of("src::lib")) {
        return true;
    }
    if contains_exec(&v, &chars_of("multi_thread::")) {
        return true;
    }
    if contains_exec(&v, &chars_of("future::future")) {
        return true;
    }
    if contains_exec(&v, &chars_of("panic::")) {
        return true;
    }
    if contains_exec(&v, &chars_of("panicking")) {
        return true;
    }
    if contains_exec(&v, &chars_of("unwind_safe")) {
        return true;
    }
    if contains_exec(&v, &chars_of("src::panic")) {
        return true;
    }
    if contains_exec(&v, &chars_of("src::panicking")) {
        return true;
    }
    if contains_exec(&v, &chars_of("thread::")) {
        return true;
    }
    if contains_exec(&v, &chars_of("unix::thread")) {
        return true;
    }
    if contains_exec(&v, &chars_of("main::boxed")) {
        return true;
    }
    if contains_exec(&v, &chars_of("task::")) {
        return true;
    }
    if contains_exec(&v, &chars_of("blocking::")) {
        return true;
    }
    if contains_exec(&v, &chars_of("harness")) {
        return true;
    }
    if contains_exec(&v, &chars_of("LocalNotified")) {
        return true;
    }
    if contains_exec(&v, &chars_of("catch_unwind")) {
        return true;
    }
    if contains_exec(&v, &chars_of("OnceCell")) {
        return true;
    }
    if contains_exec(&v, &chars_of("Lazy<T,F>")) {
        return true;
    }
    if contains_exec(&v, &chars_of("src::imp_std")) {
        return true;
    }
    if contains_exec(&v, &chars_of("imp::")) {
        return true;
    }
    if contains_exec(&v, &chars_of("src::server")) {
        return true;
    }
    if contains_exec(&v, &chars_of("src::rkt")) {
        return true;
    }
    if contains_exec(&v, &chars_of("fairing::")) {
        return true;
    }
    if contains_exec(&v, &chars_of("join_all")) {
        return true;
    }
    if contains_exec(&v, &chars_of("maybe_done")) {
        return true;
    }
    if contains_exec(&v, &chars_of("rocket::")) {
        return true;
    }
    if contains_exec(&v, &chars_of("_Handler::")) {
        return true;
    }
    if contains_exec(&v, &chars_of("Outcome::")) {
        return true;
    }
    if contains_exec(&v, &chars_of("tokio::")) {
        return true;
    }
    if contains_exec(&v, &chars_of("futures::")) {
        return true;
    }
    if contains_exec(&v, &chars_of("catalyst::main")) {
        return true;
    }
    if contains_exec(&v, &chars_of("<impl")) {
        return true;
    }
    if contains_exec(&v, &chars_of("{{")) {
        return true;
    }
    if contains_exec(&v, &chars_of("default::logger")) {
        return true;
    }
    false
}

/// Whether a call-stack entry is noise (logging, runtime, framework or
/// generic internals).
pub fn should_skip_function(function_info: &str) -> (b: bool)
    ensures
        b == is_noise_function(function_info@),
{
    let v = chars_of(function_info);
    is_noise_exec(&v)
}

/// The part of `v` after the first `k` characters.
fn tail_exec(v: &Vec<char>, k: usize) -> (r: Vec<char>)
    requires
        k <= v@.len(),
    ensures
        r@ == tail(v@, k as int),
{
    slice_vec(v, k, v.len())
}

/// The line number of a `src/<file>.rs:<line>` reference in a line.
fn line_number_from_line_exec(line: &Vec<char>) -> (r: Option<u32>)
    ensures
        r == line_number_from_line(line@),
{
    let src = chars_of("src/");
    match find_exec(line, &src) {
        None => None,
        Some(sp) => {
            proof { lemma_find(line@, src@); }
            let after_src = slice_vec(line, sp, line.len());
            let rs = chars_of(".rs:");
            match find_exec(&after_src, &rs) {
                None => None,
                Some(rp) => {
                    proof { lemma_find(after_src@, rs@); }
                    let after_rs = slice_vec(&after_src, rp + rs.len(), after_src.len());
                    let colon: Vec<char> = vec![':'];
                    assert(colon@ =~= seq![':']);
                    match find_exec(&after_rs, &colon) {
                        Some(cp) => {
                            proof { lemma_find(after_rs@, colon@); }
                            let part = slice_vec(&after_rs, 0, cp);
                            parse_u32_exec(&part)
                        },
                        None => {
                            let t = trim_exec(&after_rs);
                            parse_u32_exec(&t)
                        },
                    }
                },
            }
        },
    }
}

/// The line number in a `src/<file>.rs:<line>` reference anywhere in a line.
pub fn extract_line_number_from_line(line: &str) -> (r: Option<u32>)
    ensures
        r == line_number_from_line(line@),
{
    let v = chars_of(line);
    line_number_from_line_exec(&v)
}

/// The number between the last two colons of a `path:line:column` reference.
fn line_number_from_path_exec(path: &Vec<char>) -> (r: Option<u32>)
    ensures
        r == line_number_from_path(path@),
{
    let colon: Vec<char> = vec![':'];
    assert(colon@ =~= seq![':']);
    match rfind_exec(path, &colon) {
        None => None,
        Some(c) => {
            proof { lemma_rfind(path@, colon@); }
            let before = slice_vec(path, 0, c);
            match rfind_exec(&before, &colon) {
                None => None,
                Some(pc) => {
                    proof { lemma_rfind(before@, colon@); }
                    let part = slice_vec(&before, pc + 1, c);
                    parse_u32_exec(&part)
                },
            }
        },
    }
}

/// The line number between the last two colons of a `path:line:column` reference.
pub fn extract_line_number_from_path(path: &str) -> (r: Option<u32>)
    ensures
        r == line_number_from_path(path@),
{
    let v = chars_of(path);
    line_number_from_path_exec(&v)
}

/// `module::function`, followed by `:<line>` when the line is known.
fn qualified_exec(module: &Vec<char>, function: &Vec<char>, n: Option<u32>) -> (r: String)
    ensures
        r@ == qualified(module@, function@, n),
{
    let mut out = String::new();
    push_range(&mut out, module, 0, module.len());
    out.append("::");
    push_range(&mut out, function, 0, function.len());
    match n {
        Some(k) => {
            push_char(&mut out, ':');
            push_decimal(&mut out, k as u64);
        },
        None => {},
    }
    assert(module@.subrange(0, module@.len() as int) =~= module@);
    assert(function@.subrange(0, function@.len() as int) =~= function@);
    assert(out@ =~= qualified(module@, function@, n));
    out
}

/// The text after `src/` and before `.rs`, and the text after `.rs`.
fn src_path_pieces_exec(line: &Vec<char>) -> (r: Option<(Vec<char>, Vec<char>)>)
    ensures
        match r {
            Some((a, b)) => src_path_pieces(line@) == Some((a@, b@)),
            None => src_path_pieces(line@) is None,
        },
{
    let src = chars_of("src/");
    match find_exec(line, &src) {
        None => None,
        Some(sp) => {
            proof { lemma_find(line@, src@); }
            let after_src = tail_exec(line, sp + src.len());
            let rs = chars_of(".rs");
            match find_exec(&after_src, &rs) {
                None => None,
                Some(rp) => {
                    proof { lemma_find(after_src@, rs@); }
                    let before_rs = slice_vec(&after_src, 0, rp);
                    let after_rs = tail_exec(&after_src, rp + rs.len());
                    Some((before_rs, after_rs))
                },
            }
        },
    }
}

/// Whether a line's source reference can be read without cutting a character.
pub fn src_path_is_sliceable(line: &Vec<char>) -> (r: bool)
    ensures
        r == src_path_sliceable(line@),
{
    match src_path_pieces_exec(line) {
        None => true,
        Some((_, after_rs)) => {
            let colon: Vec<char> = vec![':'];
            assert(colon@ =~= seq![':']);
            match find_exec(&after_rs, &colon) {
                Some(cp) => {
                    if cp > 0 {
                        let c = after_rs[0];
                        (c as u32) < 0x80
                    } else {
                        true
                    }
                },
                None => true,
            }
        },
    }
}

/// Whether every line of a backtrace can be read without cutting a character,
/// as `parse_backtrace_simple` asks.
pub fn backtrace_is_sliceable(text: &str) -> (r: bool)
    ensures
        r == backtrace_sliceable(text@),
{
    let v = chars_of(text);
    let ls = lines_exec(&v);
    let mut i: usize = 0;
    while i < ls.len()
        invariant
            i <= ls@.len(),
            v@ == text@,
            ls@.len() == lines(v@).len(),
            forall|j: int| 0 <= j < ls@.len() ==> #[trigger] ls@[j]@ == lines(v@)[j],
            forall|j: int| 0 <= j < i ==> #[trigger] src_path_sliceable(lines(v@)[j]),
        decreases ls@.len() - i,
    {
        if !src_path_is_sliceable(&ls[i]) {
            assert(!src_path_sliceable(lines(v@)[i as int]));
            return false;
        }
        i = i + 1;
    }
    true
}

/// `module::file[:line]` from a `src/<dir>/<file>.rs:<line>` reference.
pub fn extract_from_src_path(line: &str) -> (r: Option<String>)
    requires
        src_path_sliceable(line@),
    ensures
        opt_string_view(r) == from_src_path(line@),
{
    let v = chars_of(line);
    from_src_path_exec(&v)
}

/// `module::file[:line]` from a source reference in a line.
fn from_src_path_exec(line: &Vec<char>) -> (r: Option<String>)
    requires
        src_path_sliceable(line@),
    ensures
        opt_string_view(r) == from_src_path(line@),
{
    match src_path_pieces_exec(line) {
        None => None,
        Some((before_rs, after_rs)) => {
            let colon: Vec<char> = vec![':'];
            assert(colon@ =~= seq![':']);
            let n = match find_exec(&after_rs, &colon) {
                Some(cp) => {
                    proof { lemma_find(after_rs@, colon@); }
                    if cp > 0 {
                        let part = slice_vec(&after_rs, 1, cp);
                        parse_u32_exec(&part)
                    } else {
                        None
                    }
                },
                None => None,
            };
            let slash: Vec<char> = vec!['/'];
            assert(slash@ =~= seq!['/']);
            let parts = split_exec(&before_rs, &slash);
            proof { lemma_split_nonempty(before_rs@, slash@); }
            let k = parts.len();
            let filename = &parts[k - 1];
            let main: Vec<char> = chars_of("main");
            let module: &Vec<char> = if k > 1 {
                &parts[k - 2]
            } else {
                &main
            };
            Some(qualified_exec(module, filename, n))
        },
    }
}

/// The module before the first `::` of a line.
fn leading_module_exec(before: &Vec<char>) -> (r: Vec<char>)
    ensures
        r@ == leading_module(before@),
{
    let dc = chars_of("::");
    proof { reveal_strlit("::"); }
    match rfind_exec(before, &dc) {
        Some(l) => {
            proof { lemma_rfind(before@, dc@); }
            tail_exec(before, l + dc.len())
        },
        None => {
            let space: Vec<char> = vec![' '];
            assert(space@ =~= seq![' ']);
            match rfind_exec(before, &space) {
                Some(sp) => {
                    proof { lemma_rfind(before@, space@); }
                    tail_exec(before, sp + 1)
                },
                None => slice_vec(before, 0, before.len()),
            }
        },
    }
}

/// The first word of `v`, or all of `v` when it has none.
fn first_word_or_all_exec(v: &Vec<char>) -> (r: Vec<char>)
    ensures
        r@ == first_word_or_all(v@),
{
    match first_word_exec(v) {
        Some(w) => w,
        None => {
            let r = slice_vec(v, 0, v.len());
            assert(r@ =~= v@);
            r
        },
    }
}

/// `module::function` around the first `::` of a line, when both names look
/// like application code.
fn any_useful_function_exec(line: &Vec<char>) -> (r: Option<String>)
    ensures
        opt_string_view(r) == any_useful_function(line@),
{
    let dc = chars_of("::");
    proof { reveal_strlit("::"); }
    if !contains_exec(line, &dc) {
        return None;
    }
    let trimmed = trim_exec(line);
    match find_exec(&trimmed, &dc) {
        None => None,
        Some(d) => {
            proof { lemma_find(trimmed@, dc@); }
            let before = slice_vec(&trimmed, 0, d);
            let module = leading_module_exec(&before);
            let after = tail_exec(&trimmed, d + dc.len());
            let word = first_word_or_all_exec(&after);
            let pieces = split_exec(&word, &dc);
            proof { lemma_split_nonempty(word@, dc@); }
            let function = &pieces[0];
            let lt: Vec<char> = vec!['<'];
            assert(lt@ =~= seq!['<']);
            if module.len() > 0 && function.len() > 0 && byte_len_exceeds_one(&module)
                && byte_len_exceeds_one(function) && !contains_exec(&module, &lt) && !contains_exec(
                function,
                &lt,
            ) {
                let mut out = String::new();
                push_range(&mut out, &module, 0, module.len());
                out.append("::");
                push_range(&mut out, function, 0, function.len());
                assert(module@.subrange(0, module@.len() as int) =~= module@);
                assert(function@.subrange(0, function@.len() as int) =~= function@);
                Some(out)
            } else {
                None
            }
        },
    }
}

/// `module::function` around the first `::` of a line, when both names look
/// like application code.
pub fn extract_any_useful_function(line: &str) -> (r: Option<String>)
    ensures
        opt_string_view(r) == any_useful_function(line@),
{
    let v = chars_of(line);
    any_useful_function_exec(&v)
}

/// What the application path after `catalyst::` in a line gives.
enum Reading {
    Found(String),
    Rejected,
    Undecided,
}

/// The reading, viewed.
spec fn reading_view(r: Reading) -> PathReading {
    match r {
        Reading::Found(s) => PathReading::Found(s@),
        Reading::Rejected => PathReading::Rejected,
        Reading::Undecided => PathReading::Undecided,
    }
}

/// Reads the application path after `catalyst::` in a line.
fn catalyst_reading_exec(line: &Vec<char>) -> (r: Reading)
    ensures
        reading_view(r) == catalyst_reading(line@),
{
    let cat = chars_of("catalyst::");
    match find_exec(line, &cat) {
        None => Reading::Undecided,
        Some(cs) => {
            proof { lemma_find(line@, cat@); }
            let after = tail_exec(line, cs + cat.len());
            let n = line_number_from_line_exec(line);
            let hash = chars_of("::h");
            let clean = match find_exec(&after, &hash) {
                Some(h) => {
                    proof { lemma_find(after@, hash@); }
                    slice_vec(&after, 0, h)
                },
                None => {
                    let space: Vec<char> = vec![' '];
                    assert(space@ =~= seq![' ']);
                    match find_exec(&after, &space) {
                        Some(p) => {
                            proof { lemma_find(after@, space@); }
                            slice_vec(&after, 0, p)
                        },
                        None => {
                            let c = slice_vec(&after, 0, after.len());
                            assert(c@ =~= after@);
                            c
                        },
                    }
                },
            };
            let dc = chars_of("::");
            proof { reveal_strlit("::"); }
    proof { reveal_strlit("::"); }
            let parts = split_exec(&clean, &dc);
            proof { lemma_split_nonempty(clean@, dc@); }
            let k = parts.len();
            let lt: Vec<char> = vec!['<'];
            assert(lt@ =~= seq!['<']);
            let braces = chars_of("{{");
            if k >= 2 {
                let module = &parts[k - 2];
                let function = &parts[k - 1];
                if starts_with_exec(function, &lt) || contains_exec(function, &braces) || function.len() == 0 {
                    Reading::Rejected
                } else {
                    Reading::Found(qualified_exec(module, function, n))
                }
            } else if k == 1 && parts[0].len() > 0 && !starts_with_exec(&parts[0], &lt) {
                let catalyst = chars_of("catalyst");
                Reading::Found(qualified_exec(&catalyst, &parts[0], n))
            } else {
                Reading::Undecided
            }
        },
    }
}

/// `module::function[:line]` from the last two `::`-separated names of a text.
fn names_before_exec(text: &Vec<char>, n: Option<u32>) -> (r: Option<String>)
    ensures
        opt_string_view(r) == names_before(text@, n),
{
    let dc = chars_of("::");
    proof { reveal_strlit("::"); }
    match rfind_exec(text, &dc) {
        None => None,
        Some(c) => {
            proof { lemma_rfind(text@, dc@); }
            let before_colon = slice_vec(text, 0, c);
            let after_colon = tail_exec(text, c + dc.len());
            match rfind_exec(&before_colon, &dc) {
                None => None,
                Some(lm) => {
                    proof { lemma_rfind(before_colon@, dc@); }
                    let module = tail_exec(&before_colon, lm + dc.len());
                    let function = first_word_or_all_exec(&after_colon);
                    let lt: Vec<char> = vec!['<'];
                    assert(lt@ =~= seq!['<']);
                    if module.len() > 0 && function.len() > 0 && !starts_with_exec(&function, &lt) {
                        Some(qualified_exec(&module, &function, n))
                    } else {
                        None
                    }
                },
            }
        },
    }
}

/// `module::function[:line]` from a line naming a function outside the
/// standard library.
fn generic_function_info_exec(line: &Vec<char>) -> (r: Option<String>)
    ensures
        opt_string_view(r) == generic_function_info(line@),
{
    let dc = chars_of("::");
    proof { reveal_strlit("::"); }
    let std_ = chars_of("std::");
    let core_ = chars_of("core::");
    if !(contains_exec(line, &dc) && !contains_exec(line, &std_) && !contains_exec(line, &core_)) {
        return None;
    }
    let trimmed = trim_exec(line);
    let at = chars_of(" at ");
    let from_at = match find_exec(&trimmed, &at) {
        None => None,
        Some(a) => {
            proof { lemma_find(trimmed@, at@); }
            let before_at = slice_vec(&trimmed, 0, a);
            let after_at = tail_exec(&trimmed, a + at.len());
            let src = chars_of("src/");
            let n = if contains_exec(&after_at, &src) {
                line_number_from_path_exec(&after_at)
            } else {
                None
            };
            names_before_exec(&before_at, n)
        },
    };
    match from_at {
        Some(r) => Some(r),
        None => {
            let n = line_number_from_line_exec(line);
            names_before_exec(&trimmed, n)
        },
    }
}

/// The function that a backtrace line names, if any.
fn simple_function_info_exec(line: &Vec<char>) -> (r: Option<String>)
    ensures
        opt_string_view(r) == simple_function_info(line@),
{
    match catalyst_reading_exec(line) {
        Reading::Found(s) => Some(s),
        Reading::Rejected => None,
        Reading::Undecided => generic_function_info_exec(line),
    }
}

/// The function that a backtrace line names, if any: an application path
/// after `catalyst::`, else a `module::function` pair outside the standard
/// library, each with its line number when the line gives one.
pub fn extract_simple_function_info(line: &str) -> (r: Option<String>)
    ensures
        opt_string_view(r) == simple_function_info(line@),
{
    let v = chars_of(line);
    simple_function_info_exec(&v)
}

/// What one backtrace line contributes to the call stack.
fn backtrace_entry_exec(line: &Vec<char>) -> (r: Option<String>)
    requires
        src_path_sliceable(line@),
    ensures
        opt_string_view(r) == backtrace_entry(line@),
{
    let found = match simple_function_info_exec(line) {
        Some(f) => Some(f),
        None => {
            let src = chars_of("src/");
            let rs = chars_of(".rs");
            if contains_exec(line, &src) && contains_exec(line, &rs) {
                from_src_path_exec(line)
            } else {
                any_useful_function_exec(line)
            }
        },
    };
    match found {
        Some(f) => {
            let fv = chars_of(f.as_str());
            if is_noise_exec(&fv) {
                None
            } else {
                Some(f)
            }
        },
        None => None,
    }
}

/// The call stack named by a backtrace: the function of each line that names
/// one outside the noise, runs of equal neighbours kept once, caller first.
pub fn parse_backtrace_simple(backtrace_str: &str) -> (r: Vec<String>)
    requires
        backtrace_sliceable(backtrace_str@),
    ensures
        strings_view(r@) == call_stack_of(backtrace_str@),
{
    let text = chars_of(backtrace_str);
    let ls = lines_exec(&text);
    let mut call_stack: Vec<String> = Vec::new();
    let mut i: usize = 0;
    while i < ls.len()
        invariant
            i <= ls@.len(),
            ls@.len() == lines(text@).len(),
            forall|j: int| 0 <= j < ls@.len() ==> #[trigger] ls@[j]@ == lines(text@)[j],
            text@ == backtrace_str@,
            backtrace_sliceable(backtrace_str@),
            strings_view(call_stack@) == backtrace_entries(lines(text@).subrange(0, i as int)),
        decreases ls@.len() - i,
    {
        let ghost pre = lines(text@).subrange(0, i as int);
        let ghost nxt = lines(text@).subrange(0, i + 1);
        assert(nxt.drop_last() =~= pre);
        assert(nxt.last() == ls@[i as int]@);
        assert(src_path_sliceable(lines(text@)[i as int]));
        let ghost before = strings_view(call_stack@);
        match backtrace_entry_exec(&ls[i]) {
            Some(f) => {
                call_stack.push(f);
                assert(strings_view(call_stack@) =~= before.push(f@));
            },
            None => {},
        }
        i = i + 1;
    }
    assert(lines(text@).subrange(0, ls@.len() as int) =~= lines(text@));
    let deduped = dedup_strings(&call_stack);
    reverse_strings(deduped)
}

/// The elements of `s` that satisfy `p`, in order.
pub open spec fn keep_where(s: Seq<Seq<char>>, p: spec_fn(Seq<char>) -> bool) -> Seq<Seq<char>>
    decreases s.len(),
{
    if s.len() == 0 {
        seq![]
    } else if p(s.last()) {
        keep_where(s.drop_last(), p).push(s.last())
    } else {
        keep_where(s.drop_last(), p)
    }
}

/// A call-stack entry worth showing in a trace: not blank and not a generic impl.
pub open spec fn trace_worthy(e: Seq<char>) -> bool {
    trim(e).len() > 0 && !contains(e, "<impl"@)
}

/// A call-stack entry that carries information: not blank and not a marker of
/// a failed trace.
pub open spec fn meaningful_entry(e: Seq<char>) -> bool {
    trim(e).len() > 0 && !contains(e, "no_application_functions_found"@) && !contains(
        e,
        "trace_parsing_failed"@,
    )
}

/// The numbered trace lines `    <n>. <entry>`, counting from one.
pub open spec fn numbered_lines(calls: Seq<Seq<char>>) -> Seq<Seq<char>> {
    Seq::new(calls.len(), |i: int| "    "@ + decimal((i + 1) as nat) + ". "@ + calls[i])
}

/// A message followed by the numbered call trace, when the stack holds an
/// entry worth showing.
pub open spec fn with_trace(message: Seq<char>, stack: Seq<Seq<char>>) -> Seq<char> {
    let calls = keep_where(stack, |e: Seq<char>| trace_worthy(e));
    if calls.len() == 0 {
        message
    } else {
        message + "\n  Call trace:\n"@ + join(numbered_lines(calls), "\n"@)
    }
}

/// A one-line log message: message, context and timing, then the meaningful
/// entries of the stack joined by arrows.
pub open spec fn one_line_trace(
    message: Seq<char>,
    context: Seq<char>,
    stack: Seq<Seq<char>>,
    time: Seq<char>,
) -> Seq<char> {
    let meaningful = keep_where(stack, |e: Seq<char>| meaningful_entry(e));
    let head = message + " → "@ + context + " • "@ + time;
    if meaningful.len() == 0 {
        head
    } else {
        head + " → "@ + join(meaningful, " → "@)
    }
}

/// The elements of a list of strings that are worth showing in a trace.
fn trace_worthy_calls(stack: &Vec<String>) -> (r: Vec<String>)
    ensures
        strings_view(r@) == keep_where(strings_view(stack@), |e: Seq<char>| trace_worthy(e)),
{
    let mut out: Vec<String> = Vec::new();
    let mut i: usize = 0;
    let ghost p = |e: Seq<char>| trace_worthy(e);
    while i < stack.len()
        invariant
            i <= stack@.len(),
            p == (|e: Seq<char>| trace_worthy(e)),
            strings_view(out@) == keep_where(strings_view(stack@.subrange(0, i as int)), p),
        decreases stack@.len() - i,
    {
        let ghost pre = strings_view(stack@.subrange(0, i as int));
        let ghost nxt = strings_view(stack@.subrange(0, i + 1));
        assert(nxt.drop_last() =~= pre);
        assert(nxt.last() == stack@[i as int]@);
        let v = chars_of(stack[i].as_str());
        let t = trim_exec(&v);
        let imp = chars_of("<impl");
        if t.len() > 0 && !contains_exec(&v, &imp) {
            let ghost before = strings_view(out@);
            out.push(stack[i].clone());
            assert(strings_view(out@) =~= before.push(stack@[i as int]@));
        }
        i = i + 1;
    }
    assert(stack@.subrange(0, stack@.len() as int) =~= stack@);
    out
}

/// The elements of a list of strings that carry information.
fn meaningful_calls(stack: &Vec<String>) -> (r: Vec<String>)
    ensures
        strings_view(r@) == keep_where(strings_view(stack@), |e: Seq<char>| meaningful_entry(e)),
{
    let mut out: Vec<String> = Vec::new();
    let mut i: usize = 0;
    let ghost p = |e: Seq<char>| meaningful_entry(e);
    while i < stack.len()
        invariant
            i <= stack@.len(),
            p == (|e: Seq<char>| meaningful_entry(e)),
            strings_view(out@) == keep_where(strings_view(stack@.subrange(0, i as int)), p),
        decreases stack@.len() - i,
    {
        let ghost pre = strings_view(stack@.subrange(0, i as int));
        let ghost nxt = strings_view(stack@.subrange(0, i + 1));
        assert(nxt.drop_last() =~= pre);
        assert(nxt.last() == stack@[i as int]@);
        let v = chars_of(stack[i].as_str());
        let t = trim_exec(&v);
        let a = chars_of("no_application_functions_found");
        let b = chars_of("trace_parsing_failed");
        if t.len() > 0 && !contains_exec(&v, &a) && !contains_exec(&v, &b) {
            let ghost before = strings_view(out@);
            out.push(stack[i].clone());
            assert(strings_view(out@) =~= before.push(stack@[i as int]@));
        }
        i = i + 1;
    }
    assert(stack@.subrange(0, stack@.len() as int) =~= stack@);
    out
}

/// A message followed by `  Call trace:` and the numbered entries of the call
/// stack that are worth showing; the message alone when there are none.
pub fn format_with_trace(message: &str, call_stack: &Vec<String>) -> (r: String)
    ensures
        r@ == with_trace(message@, strings_view(call_stack@)),
{
    let calls = trace_worthy_calls(call_stack);
    if calls.len() == 0 {
        return String::from_str(message);
    }
    let mut numbered: Vec<String> = Vec::new();
    let mut i: usize = 0;
    let ghost cv = strings_view(calls@);
    while i < calls.len()
        invariant
            i <= calls@.len(),
            cv == strings_view(calls@),
            numbered@.len() == i,
            forall|j: int| 0 <= j < i ==> #[trigger] numbered@[j]@ == numbered_lines(cv)[j],
        decreases calls@.len() - i,
    {
        let mut line = String::from_str("    ");
        push_decimal(&mut line, (i as u64) + 1);
        line.append(". ");
        line.append(calls[i].as_str());
        assert(line@ == numbered_lines(cv)[i as int]);
        numbered.push(line);
        i = i + 1;
    }
    assert(strings_view(numbered@) =~= numbered_lines(cv));
    let trace = join_strings(&numbered, "\n");
    let mut out = String::from_str(message);
    out.append("\n  Call trace:\n");
    out.append(trace.as_str());
    out
}

/// A message tagged with its context, followed by the call trace.
pub fn format_with_context(message: &str, context: &str, call_stack: &Vec<String>) -> (r: String)
    ensures
        r@ == with_trace(message@ + " [Context: "@ + context@ + "]"@, strings_view(call_stack@)),
{
    let mut base = String::from_str(message);
    base.append(" [Context: ");
    base.append(context);
    base.append("]");
    format_with_trace(base.as_str(), call_stack)
}

/// A one-line log message with the timing already rendered as `time`.
pub fn format_with_context_and_trace_timed(
    message: &str,
    context: &str,
    call_stack: &Vec<String>,
    time: &str,
) -> (r: String)
    ensures
        r@ == one_line_trace(message@, context@, strings_view(call_stack@), time@),
{
    let meaningful = meaningful_calls(call_stack);
    let mut out = String::from_str(message);
    out.append(" → ");
    out.append(context);
    out.append(" • ");
    out.append(time);
    if meaningful.len() > 0 {
        out.append(" → ");
        let chain = join_strings(&meaningful, " → ");
        out.append(chain.as_str());
    }
    out
}

/// A duration under a microsecond, rendered as `<n>ns`.
pub fn format_time_nanos(nanoseconds: u64) -> (r: String)
    requires
        nanoseconds < 1000,
    ensures
        r@ == decimal(nanoseconds as nat) + "ns"@,
{
    let mut out = String::new();
    push_decimal(&mut out, nanoseconds);
    out.append("ns");
    out
}

/// A one-line log message whose trace took no measured time (`0ns`).
pub fn format_with_context_and_trace(message: &str, context: &str, call_stack: &Vec<String>) -> (r: String)
    ensures
        r@ == one_line_trace(message@, context@, strings_view(call_stack@), decimal(0) + "ns"@),
{
    let time = format_time_nanos(0);
    format_with_context_and_trace_timed(message, context, call_stack, time.as_str())
}

/// The last piece of a `/`-separated path.
pub open spec fn last_segment(path: Seq<char>) -> Seq<char> {
    split(path, seq!['/']).last()
}

/// The piece of a `/`-separated path before its last one, or `unknown`.
pub open spec fn parent_segment(path: Seq<char>) -> Seq<char> {
    let parts = split(path, seq!['/']);
    if parts.len() >= 2 {
        parts[parts.len() - 2]
    } else {
        "unknown"@
    }
}

/// `file:line::directory` for the place in the source that logs.
pub open spec fn caller_label(file: Seq<char>, line: u32) -> Seq<char> {
    last_segment(file) + seq![':'] + decimal(line as nat) + "::"@ + parent_segment(file)
}

/// The message that a log call from a source location writes: the location in
/// brackets, the message, then ` → context` and ` | data: data` when given.
pub open spec fn caller_message(
    file: Seq<char>,
    line: u32,
    message: Seq<char>,
    context: Option<Seq<char>>,
    data: Option<Seq<char>>,
) -> Seq<char> {
    let with_context = match context {
        Some(c) => message + " → "@ + c,
        None => message,
    };
    let enhanced = match data {
        Some(d) => with_context + " | data: "@ + d,
        None => with_context,
    };
    "["@ + caller_label(file, line) + "] "@ + enhanced
}

/// The location label of a log call: file name, line, and the directory that
/// holds the file.
pub fn caller_location(file: &str, line: u32) -> (r: String)
    ensures
        r@ == caller_label(file@, line),
{
    let v = chars_of(file);
    let slash: Vec<char> = vec!['/'];
    assert(slash@ =~= seq!['/']);
    let parts = split_exec(&v, &slash);
    proof { lemma_split_nonempty(v@, slash@); }
    let k = parts.len();
    let mut out = String::new();
    push_range(&mut out, &parts[k - 1], 0, parts[k - 1].len());
    assert(parts@[k - 1]@.subrange(0, parts@[k - 1]@.len() as int) =~= parts@[k - 1]@);
    push_char(&mut out, ':');
    push_decimal(&mut out, line as u64);
    out.append("::");
    if k >= 2 {
        push_range(&mut out, &parts[k - 2], 0, parts[k - 2].len());
        assert(parts@[k - 2]@.subrange(0, parts@[k - 2]@.len() as int) =~= parts@[k - 2]@);
    } else {
        out.append("unknown");
    }
    out
}

/// The full message of a log call from a source location.
pub fn compose_caller_message(
    file: &str,
    line: u32,
    message: &str,
    context: Option<&str>,
    data: Option<&str>,
) -> (r: String)
    ensures
        r@ == caller_message(
            file@,
            line,
            message@,
            match context {
                Some(c) => Some(c@),
                None => None,
            },
            match data {
                Some(d) => Some(d@),
                None => None,
            },
        ),
{
    let mut out = String::from_str("[");
    let label = caller_location(file, line);
    out.append(label.as_str());
    out.append("] ");
    out.append(message);
    match context {
        Some(c) => {
            out.append(" → ");
            out.append(c);
        },
        None => {},
    }
    match data {
        Some(d) => {
            out.append(" | data: ");
            out.append(d);
        },
        None => {},
    }
    out
}

/// The name of the file a log level is written to.
pub open spec fn level_file_name(level: LogLevel) -> Seq<char> {
    match level {
        LogLevel::CronjobExecution => "cronjob.log"@,
        LogLevel::CronjobError => "cronjob_error.log"@,
        LogLevel::Trace => "trace.log"@,
        LogLevel::Debug => "debug.log"@,
        LogLevel::Info => "info.log"@,
        LogLevel::Warning => "warning.log"@,
        LogLevel::Error => "error.log"@,
    }
}

impl LogLevel {
    /// The file the level's entries go to: its name in lower case, with `.log`.
    pub fn file_name(&self) -> (r: &'static str)
        ensures
            r@ == level_file_name(*self),
    {
        match self {
            LogLevel::CronjobExecution => "cronjob.log",
            LogLevel::CronjobError => "cronjob_error.log",
            LogLevel::Trace => "trace.log",
            LogLevel::Debug => "debug.log",
            LogLevel::Info => "info.log",
            LogLevel::Warning => "warning.log",
            LogLevel::Error => "error.log",
        }
    }
}

/// One line of a log file: timestamp, level in brackets, message, newline.
pub fn format_log_entry(timestamp: &str, level: LogLevel, message: &str) -> (r: String)
    ensures
        r@ == timestamp@ + " ["@ + level_name(level) + "] "@ + message@ + "\n"@,
{
    let mut out = String::from_str(timestamp);
    out.append(" [");
    out.append(level.as_str());
    out.append("] ");
    out.append(message);
    out.append("\n");
    out
}

/// A timestamp: seconds since the epoch, with a fraction at the level's
/// precision, then the local time.
pub open spec fn timestamp_text(
    precision: TimestampPrecision,
    secs: u64,
    millis: u32,
    nanos: u32,
    local: Seq<char>,
) -> Seq<char> {
    match precision {
        TimestampPrecision::Second => decimal(secs as nat) + "-"@ + local,
        TimestampPrecision::Milli => decimal(secs as nat) + "."@ + zero_pad(decimal(millis as nat), 3)
            + "-"@ + local,
        TimestampPrecision::Nano => decimal(secs as nat) + "."@ + zero_pad(decimal(nanos as nat), 9)
            + "-"@ + local,
    }
}

/// Renders a log timestamp from the clock readings.
pub fn format_timestamp(
    precision: TimestampPrecision,
    secs: u64,
    subsec_millis: u32,
    subsec_nanos: u32,
    local_time: &str,
) -> (r: String)
    ensures
        r@ == timestamp_text(precision, secs, subsec_millis, subsec_nanos, local_time@),
{
    let mut out = String::new();
    push_decimal(&mut out, secs);
    match precision {
        TimestampPrecision::Second => {},
        TimestampPrecision::Milli => {
            out.append(".");
            push_zero_padded(&mut out, subsec_millis as u64, 3);
        },
        TimestampPrecision::Nano => {
            out.append(".");
            push_zero_padded(&mut out, subsec_nanos as u64, 9);
        },
    }
    out.append("-");
    out.append(local_time);
    out
}

/// Writes log entries, one file per level.
pub struct CatalystLogger;

impl CatalystLogger {
    /// The timestamp of an entry at `level`, from the clock readings: the
    /// level decides the precision.
    pub fn get_timestamp(
        level: LogLevel,
        secs: u64,
        subsec_millis: u32,
        subsec_nanos: u32,
        local_time: &str,
    ) -> (r: String)
        ensures
            r@ == timestamp_text(level_precision(level), secs, subsec_millis, subsec_nanos, local_time@),
    {
        format_timestamp(level.timestamp_precision(), secs, subsec_millis, subsec_nanos, local_time)
    }

    /// The line an entry adds to its level's file.
    pub fn entry(level: LogLevel, timestamp: &str, message: &str) -> (r: String)
        ensures
            r@ == timestamp@ + " ["@ + level_name(level) + "] "@ + message@ + "\n"@,
    {
        format_log_entry(timestamp, level, message)
    }
}

/// A character in lower case: ASCII capitals become small letters, every
/// other character stays.
pub open spec fn lower_char(c: char) -> char {
    if 'A' <= c && c <= 'Z' {
        ((c as u32) + 32) as char
    } else {
        c
    }
}

/// A text in lower case, character by character.
pub open spec fn lower_text(s: Seq<char>) -> Seq<char> {
    s.map_values(|c: char| lower_char(c))
}

/// Each level writes to the file named by its name in lower case followed by
/// `.log`; no two levels share a name, nor a file.
pub proof fn law_level_files(level: LogLevel, other: LogLevel)
    ensures
        level_file_name(level) == lower_text(level_name(level)) + ".log"@,
        level_file_name(level) == level_file_name(other) ==> level == other,
        level_name(level) == level_name(other) ==> level == other,
{
    reveal_strlit(".log");
    reveal_strlit("CRONJOB");
    reveal_strlit("CRONJOB_ERROR");
    reveal_strlit("TRACE");
    reveal_strlit("DEBUG");
    reveal_strlit("INFO");
    reveal_strlit("WARNING");
    reveal_strlit("ERROR");
    reveal_strlit("cronjob.log");
    reveal_strlit("cronjob_error.log");
    reveal_strlit("trace.log");
    reveal_strlit("debug.log");
    reveal_strlit("info.log");
    reveal_strlit("warning.log");
    reveal_strlit("error.log");
    assert(level_file_name(level) =~= lower_text(level_name(level)) + ".log"@);
    if level_name(level) == level_name(other) {
        let a = level_name(level);
        let b = level_name(other);
        assert(a.len() == b.len() && a[0] == b[0]);
    }
    if level_file_name(level) == level_file_name(other) {
        let a = level_file_name(level);
        let b = level_file_name(other);
        assert(a.len() == b.len() && a[0] == b[0]);
    }
}

} // verus!
