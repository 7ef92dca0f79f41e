use vstd::prelude::*;
use vstd::string::StringExecFns;

use crate::ascii::{ascii_chars, ascii_string, is_ascii_bytes, lemma_ascii_chars_concat};
use crate::events::AppEventPayload;

verus! {

/// Where a log line comes from.
#[allow(non_camel_case_types)]
#[derive(Debug, Clone, Copy, PartialEq, Eq, Structural)]
pub enum CommandLogLineSource {
    STDOUT,
    STDERR,
    INFO,
}

impl CommandLogLineSource {
    /// The number under which the store keeps the source.
    pub open spec fn spec_code(self) -> i32 {
        match self {
            CommandLogLineSource::STDOUT => 1,
            CommandLogLineSource::STDERR => 2,
            CommandLogLineSource::INFO => 3,
        }
    }

    pub fn code(&self) -> (r: i32)
        ensures
            r == self.spec_code(),
    {
        match self {
            CommandLogLineSource::STDOUT => 1,
            CommandLogLineSource::STDERR => 2,
            CommandLogLineSource::INFO => 3,
        }
    }
}

/// How a command's last run ended.
#[derive(Debug, Clone, Copy, PartialEq, Eq, Structural)]
pub enum LastRunResultType {
    Exit,
    Killed,
    Error,
}

impl LastRunResultType {
    /// The name under which the store keeps the result.
    pub open spec fn spec_name(self) -> Seq<char> {
        match self {
            LastRunResultType::Exit => "exit"@,
            LastRunResultType::Killed => "killed"@,
            LastRunResultType::Error => "error"@,
        }
    }

    pub fn as_str(&self) -> (r: &'static str)
        ensures
            r@ == self.spec_name(),
    {
        match self {
            LastRunResultType::Exit => "exit",
            LastRunResultType::Killed => "killed",
            LastRunResultType::Error => "error",
        }
    }
}

/// The log line written when a run starts.
pub open spec fn started_text(command: Seq<char>, cwd: Seq<char>) -> Seq<char> {
    "Running command `"@ + command + "` at `"@ + cwd + "`"@
}

/// The log line written when a command cannot be started.
pub open spec fn spawn_failed_text(error: Seq<char>) -> Seq<char> {
    "Command failed to start: "@ + error
}

/// The log line written when a run ends by itself.
pub open spec fn finished_text(status: Seq<char>) -> Seq<char> {
    "Command finished with "@ + status
}

/// The log line written when a run has been killed.
pub open spec fn killed_text() -> Seq<char> {
    "Command killed."@
}

pub fn started_log_text(command: &str, cwd: &str) -> (r: String)
    ensures
        r@ == started_text(command@, cwd@),
{
    let mut s = "Running command `".to_owned();
    s.append(command);
    s.append("` at `");
    s.append(cwd);
    s.append("`");
    s
}

pub fn spawn_failed_log_text(error: &str) -> (r: String)
    ensures
        r@ == spawn_failed_text(error@),
{
    let mut s = "Command failed to start: ".to_owned();
    s.append(error);
    s
}

pub fn finished_log_text(status: &str) -> (r: String)
    ensures
        r@ == finished_text(status@),
{
    let mut s = "Command finished with ".to_owned();
    s.append(status);
    s
}

pub fn killed_log_text() -> (r: String)
    ensures
        r@ == killed_text(),
{
    "Command killed.".to_owned()
}

/// The decimal digit for `d`, below ten.
pub open spec fn digit_char(d: nat) -> char {
    ('0' as int + d) as u32 as char
}

/// The decimal digits of `n`, most significant first, without leading zeros.
pub open spec fn digits(n: nat) -> Seq<char>
    decreases n,
{
    if n < 10 {
        seq![digit_char(n)]
    } else {
        digits(n / 10) + seq![digit_char(n % 10)]
    }
}

/// `n` written in decimal, with a leading `-` when negative.
pub open spec fn decimal(n: int) -> Seq<char> {
    if n < 0 {
        seq!['-'] + digits((-n) as nat)
    } else {
        digits(n as nat)
    }
}

fn push_digits(n: u32, out: &mut Vec<u8>)
    requires
        is_ascii_bytes(old(out)@),
    ensures
        is_ascii_bytes(final(out)@),
        ascii_chars(final(out)@) == ascii_chars(old(out)@) + digits(n as nat),
    decreases n,
{
    let ghost start = out@;
    if n >= 10 {
        push_digits(n / 10, out);
    }
    let ghost mid = out@;
    let d: u8 = (n % 10) as u8;
    out.push(48u8 + d);
    proof {
        lemma_ascii_chars_concat(mid, seq![(48 + d) as u8]);
        assert(ascii_chars(seq![(48 + d) as u8]) =~= seq![digit_char((n % 10) as nat)]);
        assert(out@ == mid + seq![(48 + d) as u8]);
    }
}

/// `n` written in decimal.
pub fn decimal_text(n: i32) -> (r: String)
    ensures
        r@ == decimal(n as int),
{
    let mut out: Vec<u8> = Vec::new();
    if n < 0 {
        out.push(45u8);
        let m: u32 = (0i64 - n as i64) as u32;
        proof {
            assert(ascii_chars(out@) =~= seq!['-']);
        }
        push_digits(m, &mut out);
    } else {
        proof {
            assert(ascii_chars(out@) =~= Seq::<char>::empty());
        }
        push_digits(n as u32, &mut out);
    }
    ascii_string(out)
}

/// The exit code as the store keeps it: its decimal text, if there is one.
pub open spec fn code_text(code: Option<i32>) -> Option<Seq<char>> {
    match code {
        Some(c) => Some(decimal(c as int)),
        None => None,
    }
}

pub fn exit_code_text(code: Option<i32>) -> (r: Option<String>)
    ensures
        text_view(&r) == code_text(code),
{
    match code {
        Some(c) => Some(decimal_text(c)),
        None => None,
    }
}

/// The view of an optional text.
pub open spec fn text_view(t: &Option<String>) -> Option<Seq<char>> {
    match t {
        Some(s) => Some(s@),
        None => None,
    }
}

/// One thing that the store or the user interface is to be told.
#[derive(Debug, PartialEq, Eq)]
pub enum Effect {
    /// Append a line to the command's log.
    AppendLog { source: CommandLogLineSource, text: String },
    /// Record how the command's last run ended.
    SetLastRun { result: LastRunResultType, code: Option<String> },
    /// Signal a change.
    Notify(AppEventPayload),
}

/// The model of an `Effect`, with texts as character sequences.
pub enum EffectView {
    AppendLog { source: CommandLogLineSource, text: Seq<char> },
    SetLastRun { result: LastRunResultType, code: Option<Seq<char>> },
    Notify(AppEventPayload),
}

impl View for Effect {
    type V = EffectView;

    open spec fn view(&self) -> EffectView {
        match self {
            Effect::AppendLog { source, text } => EffectView::AppendLog { source: *source, text: text@ },
            Effect::SetLastRun { result, code } => EffectView::SetLastRun {
                result: *result,
                code: text_view(code),
            },
            Effect::Notify(p) => EffectView::Notify(*p),
        }
    }
}

/// The models of a sequence of effects.
pub open spec fn effects_view(s: Seq<Effect>) -> Seq<EffectView> {
    s.map_values(|e: Effect| e@)
}

pub open spec fn log_changed(id: i32) -> EffectView {
    EffectView::Notify(AppEventPayload::CommandLogUpdateEvent(id))
}

pub open spec fn command_changed(id: i32) -> EffectView {
    EffectView::Notify(AppEventPayload::CommandUpdateEvent(id))
}

pub open spec fn info_line(text: Seq<char>) -> EffectView {
    EffectView::AppendLog { source: CommandLogLineSource::INFO, text }
}

/// A command that could not be started: the failure is logged, the run is
/// recorded as an error without a code, and both signals follow.
pub open spec fn spawn_failed_effects(id: i32, error: Seq<char>) -> Seq<EffectView> {
    seq![
        info_line(spawn_failed_text(error)),
        EffectView::SetLastRun { result: LastRunResultType::Error, code: None },
        log_changed(id),
        command_changed(id),
    ]
}

/// A run that started: the invocation is logged and both signals follow.
pub open spec fn started_effects(id: i32, command: Seq<char>, cwd: Seq<char>) -> Seq<EffectView> {
    seq![info_line(started_text(command, cwd)), log_changed(id), command_changed(id)]
}

/// A line that the child wrote: it is logged as it is, under its stream.
pub open spec fn output_line_effects(
    id: i32,
    source: CommandLogLineSource,
    line: Seq<char>,
) -> Seq<EffectView> {
    seq![EffectView::AppendLog { source, text: line }, log_changed(id)]
}

/// A run that ended by itself: the status is logged, the run is recorded as
/// an exit with the process's code, and both signals follow.
pub open spec fn finished_effects(id: i32, status: Seq<char>, code: Option<i32>) -> Seq<EffectView> {
    seq![
        info_line(finished_text(status)),
        EffectView::SetLastRun { result: LastRunResultType::Exit, code: code_text(code) },
        log_changed(id),
        command_changed(id),
    ]
}

/// A run that was killed: the kill is logged and the run is recorded as
/// killed, without a code.
pub open spec fn killed_effects() -> Seq<EffectView> {
    seq![
        info_line(killed_text()),
        EffectView::SetLastRun { result: LastRunResultType::Killed, code: None },
    ]
}

fn notify_log(id: i32) -> (r: Effect)
    ensures
        r@ == log_changed(id),
{
    Effect::Notify(AppEventPayload::CommandLogUpdateEvent(id))
}

fn notify_command(id: i32) -> (r: Effect)
    ensures
        r@ == command_changed(id),
{
    Effect::Notify(AppEventPayload::CommandUpdateEvent(id))
}

fn info(text: String) -> (r: Effect)
    ensures
        r@ == info_line(text@),
{
    Effect::AppendLog { source: CommandLogLineSource::INFO, text }
}

pub fn spawn_failed(id: i32, error: &str) -> (r: Vec<Effect>)
    ensures
        effects_view(r@) == spawn_failed_effects(id, error@),
{
    let r = vec![
        info(spawn_failed_log_text(error)),
        Effect::SetLastRun { result: LastRunResultType::Error, code: None },
        notify_log(id),
        notify_command(id),
    ];
    assert(effects_view(r@) =~= spawn_failed_effects(id, error@));
    r
}

pub fn started(id: i32, command: &str, cwd: &str) -> (r: Vec<Effect>)
    ensures
        effects_view(r@) == started_effects(id, command@, cwd@),
{
    let r = vec![info(started_log_text(command, cwd)), notify_log(id), notify_command(id)];
    assert(effects_view(r@) =~= started_effects(id, command@, cwd@));
    r
}

pub fn output_line(id: i32, source: CommandLogLineSource, line: String) -> (r: Vec<Effect>)
    ensures
        effects_view(r@) == output_line_effects(id, source, line@),
{
    let ghost text = line@;
    let r = vec![Effect::AppendLog { source, text: line }, notify_log(id)];
    assert(effects_view(r@) =~= output_line_effects(id, source, text));
    r
}

pub fn finished(id: i32, status: &str, code: Option<i32>) -> (r: Vec<Effect>)
    ensures
        effects_view(r@) == finished_effects(id, status@, code),
{
    let r = vec![
        info(finished_log_text(status)),
        Effect::SetLastRun { result: LastRunResultType::Exit, code: exit_code_text(code) },
        notify_log(id),
        notify_command(id),
    ];
    assert(effects_view(r@) =~= finished_effects(id, status@, code));
    r
}

pub fn killed() -> (r: Vec<Effect>)
    ensures
        effects_view(r@) == killed_effects(),
{
    let r = vec![
        info(killed_log_text()),
        Effect::SetLastRun { result: LastRunResultType::Killed, code: None },
    ];
    assert(effects_view(r@) =~= killed_effects());
    r
}


/// The log lines that a sequence of effects appends, in order.
pub open spec fn log_entries(effects: Seq<EffectView>) -> Seq<(CommandLogLineSource, Seq<char>)>
    decreases effects.len(),
{
    if effects.len() == 0 {
        Seq::empty()
    } else {
        let rest = log_entries(effects.drop_last());
        match effects.last() {
            EffectView::AppendLog { source, text } => rest.push((source, text)),
            _ => rest,
        }
    }
}

/// The effects of output lines handled in the order in which they arrived,
/// each with the stream it came from.
pub open spec fn arrivals_effects(id: i32, lines: Seq<(CommandLogLineSource, Seq<char>)>) -> Seq<
    EffectView,
>
    decreases lines.len(),
{
    if lines.len() == 0 {
        Seq::empty()
    } else {
        arrivals_effects(id, lines.drop_last()) + output_line_effects(
            id,
            lines.last().0,
            lines.last().1,
        )
    }
}

proof fn lemma_log_entries_concat(a: Seq<EffectView>, b: Seq<EffectView>)
    ensures
        log_entries(a + b) == log_entries(a) + log_entries(b),
    decreases b.len(),
{
    if b.len() == 0 {
        assert(a + b =~= a);
        assert(log_entries(a) + log_entries(b) =~= log_entries(a));
    } else {
        lemma_log_entries_concat(a, b.drop_last());
        assert((a + b).drop_last() =~= a + b.drop_last());
        assert((a + b).last() == b.last());
        match b.last() {
            EffectView::AppendLog { source, text } => {
                assert(log_entries(a + b) =~= log_entries(a) + log_entries(b));
            },
            _ => {
                assert(log_entries(a + b) =~= log_entries(a) + log_entries(b));
            },
        }
    }
}

/// Every output line is logged verbatim under its stream, in the order of
/// arrival; so each stream's lines keep their order.
pub proof fn lemma_output_logged_verbatim(id: i32, lines: Seq<(CommandLogLineSource, Seq<char>)>)
    ensures
        log_entries(arrivals_effects(id, lines)) == lines,
    decreases lines.len(),
{
    if lines.len() > 0 {
        let l = lines.last();
        lemma_output_logged_verbatim(id, lines.drop_last());
        lemma_log_entries_concat(
            arrivals_effects(id, lines.drop_last()),
            output_line_effects(id, l.0, l.1),
        );
        let o = output_line_effects(id, l.0, l.1);
        assert(o.drop_last().drop_last() =~= Seq::<EffectView>::empty());
        assert(log_entries(o.drop_last()) == log_entries(o.drop_last().drop_last()).push((l.0, l.1)));
        assert(log_entries(o) =~= seq![(l.0, l.1)]);
        assert(lines.drop_last().push(l) =~= lines);
    }
}

/// A run that ends by itself, with its output stored before the end is
/// recorded, logs exactly one start line, then every output line as it
/// came, then exactly one end line; its result is an exit with the
/// process's code.
pub proof fn lemma_natural_run_log(
    id: i32,
    command: Seq<char>,
    cwd: Seq<char>,
    lines: Seq<(CommandLogLineSource, Seq<char>)>,
    status: Seq<char>,
    code: Option<i32>,
)
    ensures
        log_entries(
            started_effects(id, command, cwd) + arrivals_effects(id, lines) + finished_effects(
                id,
                status,
                code,
            ),
        ) == seq![(CommandLogLineSource::INFO, started_text(command, cwd))] + lines + seq![
            (CommandLogLineSource::INFO, finished_text(status)),
        ],
        finished_effects(id, status, code)[1] == (EffectView::SetLastRun {
            result: LastRunResultType::Exit,
            code: code_text(code),
        }),
{
    let s = started_effects(id, command, cwd);
    let m = arrivals_effects(id, lines);
    let f = finished_effects(id, status, code);
    lemma_output_logged_verbatim(id, lines);
    lemma_log_entries_concat(s + m, f);
    lemma_log_entries_concat(s, m);
    let e = Seq::<EffectView>::empty();
    assert(s.drop_last() =~= seq![s[0], s[1]]);
    assert(seq![s[0], s[1]].drop_last() =~= seq![s[0]]);
    assert(seq![s[0]].drop_last() =~= e);
    assert(log_entries(seq![s[0]]) == log_entries(e).push((CommandLogLineSource::INFO, started_text(command, cwd))));
    assert(log_entries(seq![s[0], s[1]]) == log_entries(seq![s[0]]));
    assert(log_entries(s) == log_entries(seq![s[0], s[1]]));
    assert(log_entries(s) =~= seq![(CommandLogLineSource::INFO, started_text(command, cwd))]);
    assert(f.drop_last() =~= seq![f[0], f[1], f[2]]);
    assert(seq![f[0], f[1], f[2]].drop_last() =~= seq![f[0], f[1]]);
    assert(seq![f[0], f[1]].drop_last() =~= seq![f[0]]);
    assert(seq![f[0]].drop_last() =~= e);
    assert(log_entries(seq![f[0]]) == log_entries(e).push((CommandLogLineSource::INFO, finished_text(status))));
    assert(log_entries(seq![f[0], f[1]]) == log_entries(seq![f[0]]));
    assert(log_entries(seq![f[0], f[1], f[2]]) == log_entries(seq![f[0], f[1]]));
    assert(log_entries(f) == log_entries(seq![f[0], f[1], f[2]]));
    assert(log_entries(f) =~= seq![(CommandLogLineSource::INFO, finished_text(status))]);
}

} // verus!
