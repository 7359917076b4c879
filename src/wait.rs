//! Wait conditions, and the decision each poll of a wait makes.

use vstd::prelude::*;
use crate::error::TermwrightError;
use crate::patterns::{pattern_is_match, regex_compiles, regex_found};
use crate::screen::{Position, Screen};
use crate::text::{
    chars_of, decimal_chars, digit_char, digit_char_exec, is_substring, push_decimal_chars,
    push_str, string_of,
};

verus! {

/// Default timeout of a wait, in milliseconds.
pub const DEFAULT_TIMEOUT_MS: u64 = 30000;

/// Default interval between two polls of a wait, in milliseconds.
pub const DEFAULT_POLL_INTERVAL_MS: u64 = 50;

/// A condition to wait for.
#[derive(Debug, Clone)]
pub enum WaitCondition {
    /// The text appears on screen.
    TextAppears(String),
    /// The text is no longer on screen.
    TextDisappears(String),
    /// The regular expression matches the screen's text.
    PatternMatches(String),
    /// The regular expression no longer matches the screen's text.
    PatternNotMatches(String),
    /// The cursor is at the position.
    CursorAt(Position),
    /// The screen's text has not changed for this many milliseconds.
    ScreenStable(u64),
    /// The child process has exited.
    ProcessExit,
}

/// Whether `c` holds of a screen with text `text` and cursor `cursor`, the
/// previous sample's text being `prev`.  A pattern that does not compile
/// never holds; process exit is not visible on a screen.
pub open spec fn condition_holds(
    c: WaitCondition,
    text: Seq<char>,
    cursor: Position,
    prev: Option<Seq<char>>,
) -> bool {
    match c {
        WaitCondition::TextAppears(t) => is_substring(t@, text),
        WaitCondition::TextDisappears(t) => !is_substring(t@, text),
        WaitCondition::PatternMatches(p) => regex_compiles(p@) && regex_found(p@, text),
        WaitCondition::PatternNotMatches(p) => regex_compiles(p@) && !regex_found(p@, text),
        WaitCondition::CursorAt(pos) => cursor == pos,
        WaitCondition::ScreenStable(_) => prev == Some(text),
        WaitCondition::ProcessExit => false,
    }
}

/// `.` and the digits of `f` milliseconds as a fraction of a second, without
/// trailing zeros; nothing for zero.
pub open spec fn millis_fraction(f: nat) -> Seq<char> {
    if f == 0 {
        seq![]
    } else if f % 100 == 0 {
        seq!['.', digit_char(f / 100)]
    } else if f % 10 == 0 {
        seq!['.', digit_char(f / 100), digit_char((f / 10) % 10)]
    } else {
        seq!['.', digit_char(f / 100), digit_char((f / 10) % 10), digit_char(f % 10)]
    }
}

/// A duration of `ms` milliseconds as `Duration`'s debug form writes it:
/// `0ns`, `<n>ms` below a second, else seconds with a fraction, as `2.5s`.
pub open spec fn duration_text(ms: nat) -> Seq<char> {
    if ms == 0 {
        "0ns"@
    } else if ms < 1000 {
        decimal_chars(ms) + "ms"@
    } else {
        decimal_chars(ms / 1000) + millis_fraction(ms % 1000) + "s"@
    }
}

/// The human description of a condition, used in timeout errors.
pub open spec fn description_text(c: WaitCondition) -> Seq<char> {
    match c {
        WaitCondition::TextAppears(t) => "text '"@ + t@ + "' to appear"@,
        WaitCondition::TextDisappears(t) => "text '"@ + t@ + "' to disappear"@,
        WaitCondition::PatternMatches(p) => "pattern '"@ + p@ + "' to match"@,
        WaitCondition::PatternNotMatches(p) => "pattern '"@ + p@ + "' to stop matching"@,
        WaitCondition::CursorAt(pos) => "cursor at row="@ + decimal_chars(pos.row as nat)
            + ", col="@ + decimal_chars(pos.col as nat),
        WaitCondition::ScreenStable(ms) => "screen stable for "@ + duration_text(ms as nat),
        WaitCondition::ProcessExit => "process to exit"@,
    }
}

fn push_duration(out: &mut Vec<char>, ms: u64)
    ensures
        final(out)@ == old(out)@ + duration_text(ms as nat),
{
    if ms == 0 {
        push_str(out, "0ns");
    } else if ms < 1000 {
        push_decimal_chars(out, ms);
        push_str(out, "ms");
    } else {
        push_decimal_chars(out, ms / 1000);
        let f = ms % 1000;
        let ghost mid = out@;
        if f != 0 {
            out.push('.');
            out.push(digit_char_exec(f / 100));
            if f % 100 != 0 {
                out.push(digit_char_exec((f / 10) % 10));
                if f % 10 != 0 {
                    out.push(digit_char_exec(f % 10));
                }
            }
        }
        assert(out@ =~= mid + millis_fraction(f as nat));
        push_str(out, "s");
    }
    assert(final(out)@ =~= old(out)@ + duration_text(ms as nat));
}

impl WaitCondition {
    /// Whether the condition holds of `screen`, `prev_screen` being the
    /// previous sample; a pattern that does not compile never holds.  Process
    /// exit is not visible on a screen and never holds here.
    pub fn is_satisfied(&self, screen: &Screen, prev_screen: Option<&Screen>) -> (r: bool)
        ensures
            r == condition_holds(
                *self,
                screen.text_view(),
                screen@.cursor,
                match prev_screen {
                    Some(p) => Some(p.text_view()),
                    None => None,
                },
            ),
    {
        match self {
            WaitCondition::TextAppears(text) => screen.contains(text.as_str()),
            WaitCondition::TextDisappears(text) => !screen.contains(text.as_str()),
            WaitCondition::PatternMatches(pattern) => {
                let t = screen.text();
                match pattern_is_match(pattern.as_str(), t.as_str()) {
                    Ok(b) => b,
                    Err(_) => false,
                }
            },
            WaitCondition::PatternNotMatches(pattern) => {
                let t = screen.text();
                match pattern_is_match(pattern.as_str(), t.as_str()) {
                    Ok(b) => !b,
                    Err(_) => false,
                }
            },
            WaitCondition::CursorAt(pos) => {
                let c = screen.cursor();
                c.row == pos.row && c.col == pos.col
            },
            WaitCondition::ScreenStable(_) => {
                match prev_screen {
                    Some(prev) => {
                        let a = chars_of(screen.text().as_str());
                        let b = chars_of(prev.text().as_str());
                        crate::text::chars_equal(&a, &b)
                    },
                    None => false,
                }
            },
            WaitCondition::ProcessExit => false,
        }
    }

    /// A human-readable description of the condition.
    pub fn description(&self) -> (r: String)
        ensures
            r@ == description_text(*self),
    {
        let mut out: Vec<char> = Vec::new();
        match self {
            WaitCondition::TextAppears(t) => {
                push_str(&mut out, "text '");
                push_str(&mut out, t.as_str());
                push_str(&mut out, "' to appear");
            },
            WaitCondition::TextDisappears(t) => {
                push_str(&mut out, "text '");
                push_str(&mut out, t.as_str());
                push_str(&mut out, "' to disappear");
            },
            WaitCondition::PatternMatches(p) => {
                push_str(&mut out, "pattern '");
                push_str(&mut out, p.as_str());
                push_str(&mut out, "' to match");
            },
            WaitCondition::PatternNotMatches(p) => {
                push_str(&mut out, "pattern '");
                push_str(&mut out, p.as_str());
                push_str(&mut out, "' to stop matching");
            },
            WaitCondition::CursorAt(pos) => {
                push_str(&mut out, "cursor at row=");
                push_decimal_chars(&mut out, pos.row as u64);
                push_str(&mut out, ", col=");
                push_decimal_chars(&mut out, pos.col as u64);
            },
            WaitCondition::ScreenStable(ms) => {
                push_str(&mut out, "screen stable for ");
                push_duration(&mut out, *ms);
            },
            WaitCondition::ProcessExit => {
                push_str(&mut out, "process to exit");
            },
        }
        assert(out@ =~= description_text(*self));
        string_of(&out)
    }
}

/// Relies on std::time::Duration::from_secs.
pub assume_specification[ std::time::Duration::from_secs ](secs: u64) -> std::time::Duration;

/// Relies on std::time::Duration::from_millis.
pub assume_specification[ std::time::Duration::from_millis ](millis: u64) -> std::time::Duration;

/// Durations from plain numbers.
pub trait DurationExt {
    /// This many seconds.
    fn seconds(self) -> std::time::Duration;

    /// This many milliseconds.
    fn millis(self) -> std::time::Duration;
}

impl DurationExt for u64 {
    fn seconds(self) -> std::time::Duration {
        std::time::Duration::from_secs(self)
    }

    fn millis(self) -> std::time::Duration {
        std::time::Duration::from_millis(self)
    }
}

impl DurationExt for i32 {
    fn seconds(self) -> std::time::Duration {
        std::time::Duration::from_secs(self as u64)
    }

    fn millis(self) -> std::time::Duration {
        std::time::Duration::from_millis(self as u64)
    }
}

/// A condition with the timeout and poll interval of a wait, in milliseconds.
pub struct WaitBuilder {
    condition: WaitCondition,
    timeout_ms: u64,
    poll_interval_ms: u64,
}

/// The parts of a wait, as values.
pub struct WaitBuilderView {
    pub condition: WaitCondition,
    pub timeout_ms: u64,
    pub poll_interval_ms: u64,
}

impl View for WaitBuilder {
    type V = WaitBuilderView;

    closed spec fn view(&self) -> WaitBuilderView {
        WaitBuilderView {
            condition: self.condition,
            timeout_ms: self.timeout_ms,
            poll_interval_ms: self.poll_interval_ms,
        }
    }
}

/// What a wait remembers between polls: the previous sample's text and since
/// when, in milliseconds, the text has not changed.
pub struct WaitState {
    prev_text: Option<String>,
    stable_since_ms: Option<u64>,
}

impl View for WaitState {
    type V = (Option<Seq<char>>, Option<u64>);

    closed spec fn view(&self) -> (Option<Seq<char>>, Option<u64>) {
        (
            match self.prev_text {
                Some(t) => Some(t@),
                None => None,
            },
            self.stable_since_ms,
        )
    }
}

impl WaitState {
    /// The state before the first poll.
    pub fn new() -> (r: Self)
        ensures
            r@ == (None::<Seq<char>>, None::<u64>),
    {
        WaitState { prev_text: None, stable_since_ms: None }
    }
}

/// What a poll decided.
#[derive(Debug, Clone, Copy, PartialEq, Eq, Structural)]
pub enum WaitStep {
    /// The condition holds: the wait succeeds.
    Satisfied,
    /// Not yet: sleep one poll interval and poll again.
    Pending,
    /// The deadline has passed: the wait fails with a timeout.
    TimedOut,
}

/// The deadline of a wait that started at `start` has passed at `now`.
pub open spec fn deadline_passed(start: u64, now: u64, timeout: u64) -> bool {
    now >= start && now - start >= timeout
}

/// One poll at time `now` of a wait for `c` that started at `start`, on a
/// sample with text `text` and cursor `cursor`, the process having exited or
/// not.  The condition is checked before the deadline, so a condition that
/// already holds is satisfied on the first poll.
pub open spec fn poll_step(
    c: WaitCondition,
    timeout: u64,
    start: u64,
    now: u64,
    st: (Option<Seq<char>>, Option<u64>),
    text: Seq<char>,
    cursor: Position,
    exited: bool,
) -> ((Option<Seq<char>>, Option<u64>), WaitStep) {
    let hit = condition_holds(c, text, cursor, None);
    let late = if deadline_passed(start, now, timeout) {
        WaitStep::TimedOut
    } else {
        WaitStep::Pending
    };
    match c {
        WaitCondition::ProcessExit => (st, if exited {
            WaitStep::Satisfied
        } else {
            late
        }),
        WaitCondition::ScreenStable(d) => {
            let stable = st.0 == Some(text);
            let done = stable && (st.1 matches Some(since) && now >= since && now - since >= d);
            let since2 = if stable {
                match st.1 {
                    Some(since) => Some(since),
                    None => Some(now),
                }
            } else {
                None
            };
            ((Some(text), since2), if done {
                WaitStep::Satisfied
            } else {
                late
            })
        },
        _ => (st, if hit {
            WaitStep::Satisfied
        } else {
            late
        }),
    }
}

impl WaitBuilder {
    /// A wait for `condition` with the default timeout and poll interval.
    pub fn new(condition: WaitCondition) -> (r: Self)
        ensures
            r@.condition == condition,
            r@.timeout_ms == DEFAULT_TIMEOUT_MS,
            r@.poll_interval_ms == DEFAULT_POLL_INTERVAL_MS,
    {
        WaitBuilder {
            condition,
            timeout_ms: DEFAULT_TIMEOUT_MS,
            poll_interval_ms: DEFAULT_POLL_INTERVAL_MS,
        }
    }

    /// The same wait with a timeout of `timeout_ms` milliseconds.
    pub fn timeout(self, timeout_ms: u64) -> (r: Self)
        ensures
            r@.condition == self@.condition,
            r@.timeout_ms == timeout_ms,
            r@.poll_interval_ms == self@.poll_interval_ms,
    {
        WaitBuilder { timeout_ms, ..self }
    }

    /// The same wait polling every `interval_ms` milliseconds.
    pub fn poll_interval(self, interval_ms: u64) -> (r: Self)
        ensures
            r@.condition == self@.condition,
            r@.timeout_ms == self@.timeout_ms,
            r@.poll_interval_ms == interval_ms,
    {
        WaitBuilder { poll_interval_ms: interval_ms, ..self }
    }

    pub fn condition(&self) -> (r: &WaitCondition)
        ensures
            *r == self@.condition,
    {
        &self.condition
    }

    pub fn get_timeout(&self) -> (r: u64)
        ensures
            r == self@.timeout_ms,
    {
        self.timeout_ms
    }

    pub fn get_poll_interval(&self) -> (r: u64)
        ensures
            r == self@.poll_interval_ms,
    {
        self.poll_interval_ms
    }

    /// The error of a wait that timed out: the condition's description and
    /// the timeout.
    pub fn timeout_error(&self) -> (r: TermwrightError)
        ensures
            r matches TermwrightError::Timeout { condition, timeout_ms } && condition@
                == description_text(self@.condition) && timeout_ms == self@.timeout_ms,
    {
        TermwrightError::Timeout { condition: self.condition.description(), timeout_ms: self.timeout_ms }
    }

    /// One poll of the wait at time `now_ms`, the wait having started at
    /// `start_ms`: `screen` is a fresh sample and `exited` tells whether the
    /// child has exited.  Only a screen-stability wait updates `state`.
    pub fn poll(
        &self,
        state: &mut WaitState,
        screen: &Screen,
        exited: bool,
        start_ms: u64,
        now_ms: u64,
    ) -> (r: WaitStep)
        ensures
            (final(state)@, r) == poll_step(
                self@.condition,
                self@.timeout_ms,
                start_ms,
                now_ms,
                old(state)@,
                screen.text_view(),
                screen@.cursor,
                exited,
            ),
    {
        let late = if now_ms >= start_ms && now_ms - start_ms >= self.timeout_ms {
            WaitStep::TimedOut
        } else {
            WaitStep::Pending
        };
        match &self.condition {
            WaitCondition::ProcessExit => {
                let r = if exited {
                    WaitStep::Satisfied
                } else {
                    late
                };
                r
            },
            WaitCondition::ScreenStable(d) => {
                let text = screen.text();
                let tv = chars_of(text.as_str());
                let stable = match &state.prev_text {
                    Some(p) => {
                        let pv = chars_of(p.as_str());
                        crate::text::chars_equal(&pv, &tv)
                    },
                    None => false,
                };
                let done = stable && match state.stable_since_ms {
                    Some(since) => now_ms >= since && now_ms - since >= *d,
                    None => false,
                };
                let since2 = if stable {
                    match state.stable_since_ms {
                        Some(since) => Some(since),
                        None => Some(now_ms),
                    }
                } else {
                    None
                };
                state.prev_text = Some(text);
                state.stable_since_ms = since2;
                let r = if done {
                    WaitStep::Satisfied
                } else {
                    late
                };
                r
            },
            _ => {
                let hit = self.condition.is_satisfied(screen, None);
                let r = if hit {
                    WaitStep::Satisfied
                } else {
                    late
                };
                r
            },
        }
    }
}

/// A wait for text that the screen already shows is satisfied on its first
/// poll, whatever its timeout and start.
pub proof fn lemma_wait_text_first_poll(
    t: String,
    timeout: u64,
    start: u64,
    now: u64,
    st: (Option<Seq<char>>, Option<u64>),
    text: Seq<char>,
    cursor: Position,
    exited: bool,
)
    requires
        is_substring(t@, text),
    ensures
        poll_step(WaitCondition::TextAppears(t), timeout, start, now, st, text, cursor, exited).1
            == WaitStep::Satisfied,
{
}

/// A stability wait is satisfied exactly on a poll whose text equals the
/// previous sample's and has stayed so for at least its interval; a changed
/// text restarts the interval, and an unchanged one keeps its start.
pub proof fn lemma_stability_poll(
    d: u64,
    timeout: u64,
    start: u64,
    now: u64,
    st: (Option<Seq<char>>, Option<u64>),
    text: Seq<char>,
    cursor: Position,
    exited: bool,
)
    ensures
        ({
            let (st2, step) = poll_step(WaitCondition::ScreenStable(d), timeout, start, now, st, text, cursor, exited);
            &&& (step == WaitStep::Satisfied) <==> (st.0 == Some(text) && (st.1 matches Some(since)
                && now >= since && now - since >= d))
            &&& st2.0 == Some(text)
            &&& st.0 != Some(text) ==> st2.1 is None
            &&& st.0 == Some(text) ==> st2.1 == (match st.1 {
                Some(since) => Some(since),
                None => Some(now),
            })
        }),
{
}

} // verus!
