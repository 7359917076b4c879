//! Session configuration, the child's environment, and the replies the
//! session writes back for the child's terminal queries.

use vstd::prelude::*;
use crate::csi::{csi_run, CsiEmulator, CsiPhase};
use crate::osc::{default_background, default_foreground, osc_run, OscColorState, OscEmulator, OscPhase};
use crate::screen::Position;
use crate::text::{chars_are, chars_of, string_of};
use crate::wait::DEFAULT_TIMEOUT_MS;

verus! {

/// Default terminal width.
pub const DEFAULT_COLS: u16 = 80;

/// Default terminal height.
pub const DEFAULT_ROWS: u16 = 24;

/// Configuration of a session.
#[derive(Debug)]
pub struct TerminalConfig {
    pub cols: u16,
    pub rows: u16,
    /// Environment variables for the child.
    pub env: EnvVars,
    /// Working directory of the child.
    pub working_dir: Option<String>,
    /// Default timeout of operations, in milliseconds.
    pub timeout_ms: u64,
}

/// The variables as pairs of character sequences.
pub open spec fn env_view(e: Seq<(String, String)>) -> Seq<(Seq<char>, Seq<char>)> {
    e.map_values(|p: (String, String)| (p.0@, p.1@))
}

/// Some variable is named `k`.
pub open spec fn has_key(e: Seq<(Seq<char>, Seq<char>)>, k: Seq<char>) -> bool {
    exists|i: int| 0 <= i < e.len() && #[trigger] e[i].0 == k
}

/// The variables other than `k`, in order.
pub open spec fn without_key(e: Seq<(Seq<char>, Seq<char>)>, k: Seq<char>) -> Seq<(Seq<char>, Seq<char>)>
    decreases e.len(),
{
    if e.len() == 0 {
        seq![]
    } else {
        let r = without_key(e.drop_last(), k);
        if e.last().0 == k {
            r
        } else {
            r.push(e.last())
        }
    }
}

/// No name occurs twice.
pub open spec fn names_unique(e: Seq<(Seq<char>, Seq<char>)>) -> bool {
    forall|i: int, j: int| 0 <= i < j < e.len() ==> #[trigger] e[i].0 != #[trigger] e[j].0
}

proof fn lemma_without_key(e: Seq<(Seq<char>, Seq<char>)>, k: Seq<char>)
    ensures
        forall|i: int|
            0 <= i < without_key(e, k).len() ==> #[trigger] without_key(e, k)[i].0 != k && exists|j: int|
                0 <= j < e.len() && without_key(e, k)[i] == #[trigger] e[j],
        names_unique(e) ==> names_unique(without_key(e, k)),
    decreases e.len(),
{
    if e.len() > 0 {
        let d = e.drop_last();
        lemma_without_key(d, k);
        let r = without_key(d, k);
        assert forall|i: int| #![trigger r[i]] 0 <= i < r.len() implies exists|j: int| 0 <= j < e.len() && r[i] == #[trigger] e[j] by {
            let j = choose|j: int| 0 <= j < d.len() && r[i] == #[trigger] d[j];
            assert(r[i] == e[j]);
        }
        if e.last().0 != k && names_unique(e) {
            let w = without_key(e, k);
            assert(w == r.push(e.last()));
            assert forall|i: int, j: int| 0 <= i < j < w.len() implies #[trigger] w[i].0 != #[trigger] w[j].0 by {
                if j == w.len() - 1 {
                    let jj = choose|jj: int| 0 <= jj < d.len() && r[i] == #[trigger] d[jj];
                    assert(e[jj] == r[i]);
                    assert(e[e.len() - 1] == e.last());
                } else {
                    assert(w[i] == r[i] && w[j] == r[j]);
                }
            }
        }
    }
}

/// Environment variables, each name at most once.
#[derive(Debug)]
pub struct EnvVars {
    vars: Vec<(String, String)>,
}

impl View for EnvVars {
    type V = Seq<(Seq<char>, Seq<char>)>;

    closed spec fn view(&self) -> Seq<(Seq<char>, Seq<char>)> {
        env_view(self.vars@)
    }
}

impl EnvVars {
    #[verifier::type_invariant]
    spec fn names_once(self) -> bool {
        names_unique(env_view(self.vars@))
    }

    /// No variables.
    pub fn new() -> (r: Self)
        ensures
            r@.len() == 0,
    {
        let r = EnvVars { vars: Vec::new() };
        assert(env_view(r.vars@) =~= seq![]);
        r
    }

    /// Sets `key` to `value`, replacing an earlier value of `key`.
    pub fn set(&mut self, key: String, value: String)
        ensures
            final(self)@ == without_key(old(self)@, key@).push((key@, value@)),
            names_unique(final(self)@),
    {
        proof {
            use_type_invariant(&*self);
            lemma_without_key(self@, key@);
        }
        let mut e = variables_without(&self.vars, key.as_str());
        let ghost kv = key@;
        let ghost vv = value@;
        let ghost before = env_view(e@);
        e.push((key, value));
        assert(env_view(e@) =~= before.push((kv, vv)));
        proof {
            let w = env_view(e@);
            assert forall|i: int, j: int| 0 <= i < j < w.len() implies #[trigger] w[i].0 != #[trigger] w[j].0 by {
                if j == w.len() - 1 {
                    assert(w[i] == before[i]);
                } else {
                    assert(w[i] == before[i] && w[j] == before[j]);
                }
            }
        }
        self.vars = e;
    }

    /// Whether `key` is set.
    pub fn contains(&self, key: &str) -> (r: bool)
        ensures
            r == has_key(self@, key@),
    {
        env_has(&self.vars, key)
    }

    /// The variables, in the order they were first set.
    pub fn vars(&self) -> (r: &Vec<(String, String)>)
        ensures
            env_view(r@) == self@,
            names_unique(self@),
    {
        proof {
            use_type_invariant(self);
        }
        &self.vars
    }
}

impl Default for TerminalConfig {
    fn default() -> (r: Self)
        ensures
            r.cols == DEFAULT_COLS,
            r.rows == DEFAULT_ROWS,
            r.env@.len() == 0,
            r.working_dir is None,
            r.timeout_ms == DEFAULT_TIMEOUT_MS,
    {
        TerminalConfig {
            cols: DEFAULT_COLS,
            rows: DEFAULT_ROWS,
            env: EnvVars::new(),
            working_dir: None,
            timeout_ms: DEFAULT_TIMEOUT_MS,
        }
    }
}

/// Builder of a session's configuration.
#[derive(Debug)]
pub struct TerminalBuilder {
    pub config: TerminalConfig,
    /// Whether `TERM` and `COLORTERM` are given defaults and `NO_COLOR` removed.
    pub inject_default_env: bool,
    /// Whether OSC color queries are answered.
    pub osc_emulation: bool,
}

impl Default for TerminalBuilder {
    fn default() -> (r: Self)
        ensures
            r.config.cols == DEFAULT_COLS,
            r.config.rows == DEFAULT_ROWS,
            r.config.env@.len() == 0,
            r.config.working_dir is None,
            r.config.timeout_ms == DEFAULT_TIMEOUT_MS,
            r.inject_default_env,
            r.osc_emulation,
    {
        TerminalBuilder { config: TerminalConfig::default(), inject_default_env: true, osc_emulation: true }
    }
}

fn variables_without(env: &Vec<(String, String)>, key: &str) -> (r: Vec<(String, String)>)
    ensures
        env_view(r@) == without_key(env_view(env@), key@),
{
    let mut out: Vec<(String, String)> = Vec::new();
    let mut i: usize = 0;
    let kv = chars_of(key);
    while i < env.len()
        invariant
            i <= env@.len(),
            kv@ == key@,
            env_view(out@) == without_key(env_view(env@.subrange(0, i as int)), key@),
        decreases env@.len() - i,
    {
        proof {
            let pre = env@.subrange(0, i + 1);
            assert(pre.drop_last() =~= env@.subrange(0, i as int));
            assert(env_view(pre).drop_last() =~= env_view(env@.subrange(0, i as int)));
            assert(env_view(pre).last() == (env@[i as int].0@, env@[i as int].1@));
        }
        let name = chars_of(env[i].0.as_str());
        if !crate::text::chars_equal(&name, &kv) {
            let p = (env[i].0.clone(), env[i].1.clone());
            out.push(p);
            assert(env_view(out@) =~= without_key(env_view(env@.subrange(0, i + 1)), key@));
        }
        i += 1;
    }
    assert(env@.subrange(0, env@.len() as int) =~= env@);
    out
}

impl TerminalBuilder {
    pub fn new() -> (r: Self)
        ensures
            r.config.cols == DEFAULT_COLS,
            r.config.rows == DEFAULT_ROWS,
            r.config.env@.len() == 0,
            r.config.working_dir is None,
            r.config.timeout_ms == DEFAULT_TIMEOUT_MS,
            r.inject_default_env,
            r.osc_emulation,
    {
        TerminalBuilder::default()
    }

    /// The same builder with a terminal of `cols` by `rows`.
    pub fn size(self, cols: u16, rows: u16) -> (r: Self)
        ensures
            r.config.cols == cols,
            r.config.rows == rows,
            r.config.env == self.config.env,
            r.config.working_dir == self.config.working_dir,
            r.config.timeout_ms == self.config.timeout_ms,
            r.inject_default_env == self.inject_default_env,
            r.osc_emulation == self.osc_emulation,
    {
        let mut b = self;
        b.config.cols = cols;
        b.config.rows = rows;
        b
    }

    /// The same builder with the variable `key` set to `value`, replacing an
    /// earlier value of `key`.
    pub fn env(self, key: String, value: String) -> (r: Self)
        ensures
            r.config.env@ == without_key(self.config.env@, key@).push((key@, value@)),
            r.config.cols == self.config.cols,
            r.config.rows == self.config.rows,
            r.config.working_dir == self.config.working_dir,
            r.config.timeout_ms == self.config.timeout_ms,
            r.inject_default_env == self.inject_default_env,
            r.osc_emulation == self.osc_emulation,
    {
        let mut b = self;
        b.config.env.set(key, value);
        b
    }

    /// The same builder without default `TERM`/`COLORTERM` and `NO_COLOR` removal.
    pub fn no_default_env(self) -> (r: Self)
        ensures
            !r.inject_default_env,
            r.osc_emulation == self.osc_emulation,
            r.config == self.config,
    {
        let mut b = self;
        b.inject_default_env = false;
        b
    }

    /// The same builder without OSC color query answers.
    pub fn no_osc_emulation(self) -> (r: Self)
        ensures
            !r.osc_emulation,
            r.inject_default_env == self.inject_default_env,
            r.config == self.config,
    {
        let mut b = self;
        b.osc_emulation = false;
        b
    }

    /// The same builder with the child's working directory set to `path`.
    pub fn working_dir(self, path: String) -> (r: Self)
        ensures
            r.config.working_dir == Some(path),
            r.config.cols == self.config.cols,
            r.config.rows == self.config.rows,
            r.config.env == self.config.env,
            r.config.timeout_ms == self.config.timeout_ms,
            r.inject_default_env == self.inject_default_env,
            r.osc_emulation == self.osc_emulation,
    {
        let mut b = self;
        b.config.working_dir = Some(path);
        b
    }

    /// The same builder with a default timeout of `timeout_ms` milliseconds.
    pub fn timeout(self, timeout_ms: u64) -> (r: Self)
        ensures
            r.config.timeout_ms == timeout_ms,
            r.config.cols == self.config.cols,
            r.config.rows == self.config.rows,
            r.config.env == self.config.env,
            r.config.working_dir == self.config.working_dir,
            r.inject_default_env == self.inject_default_env,
            r.osc_emulation == self.osc_emulation,
    {
        let mut b = self;
        b.config.timeout_ms = timeout_ms;
        b
    }
}

/// The changes to the child's environment.
#[derive(Debug)]
pub struct ChildEnvironment {
    /// Variables to set, in order.
    pub set: Vec<(String, String)>,
    /// Variables to remove.
    pub remove: Vec<String>,
}

/// The defaults added to the caller's variables, unless suppressed: `TERM`
/// and `COLORTERM` where the caller did not set them.
pub open spec fn default_additions(e: Seq<(Seq<char>, Seq<char>)>, inject: bool) -> Seq<(Seq<char>, Seq<char>)> {
    if !inject {
        seq![]
    } else {
        (if has_key(e, "TERM"@) {
            seq![]
        } else {
            seq![("TERM"@, "xterm-256color"@)]
        }) + (if has_key(e, "COLORTERM"@) {
            seq![]
        } else {
            seq![("COLORTERM"@, "truecolor"@)]
        })
    }
}

/// `NO_COLOR` is removed unless suppressed or set by the caller.
pub open spec fn default_removals(e: Seq<(Seq<char>, Seq<char>)>, inject: bool) -> Seq<Seq<char>> {
    if inject && !has_key(e, "NO_COLOR"@) {
        seq!["NO_COLOR"@]
    } else {
        seq![]
    }
}

fn env_has(e: &Vec<(String, String)>, key: &str) -> (r: bool)
    ensures
        r == has_key(env_view(e@), key@),
{
    let mut i: usize = 0;
    while i < e.len()
        invariant
            i <= e@.len(),
            forall|j: int| 0 <= j < i ==> env_view(e@)[j].0 != key@,
        decreases e@.len() - i,
    {
        let name = chars_of(e[i].0.as_str());
        if chars_are(&name, key) {
            assert(env_view(e@)[i as int].0 == key@);
            return true;
        }
        i += 1;
    }
    false
}

/// The environment changes for a child of a session with `config`: the
/// caller's variables, then the defaults, and the variables to remove.
pub fn child_environment(config: &TerminalConfig, inject_default_env: bool) -> (r: ChildEnvironment)
    ensures
        env_view(r.set@) == config.env@ + default_additions(config.env@, inject_default_env),
        r.remove@.map_values(|s: String| s@) == default_removals(config.env@, inject_default_env),
{
    let vars = config.env.vars();
    let mut set: Vec<(String, String)> = Vec::new();
    let mut i: usize = 0;
    while i < vars.len()
        invariant
            i <= vars@.len(),
            env_view(set@) == env_view(vars@.subrange(0, i as int)),
        decreases vars@.len() - i,
    {
        let ghost before = set@;
        let name = vars[i].0.clone();
        let value = vars[i].1.clone();
        set.push((name, value));
        proof {
            let pre = vars@.subrange(0, i + 1);
            assert(pre =~= vars@.subrange(0, i as int).push(vars@[i as int]));
            assert(set@ =~= before.push(vars@[i as int]));
            assert(env_view(set@) =~= env_view(before).push((vars@[i as int].0@, vars@[i as int].1@)));
            assert(env_view(pre) =~= env_view(vars@.subrange(0, i as int)).push((vars@[i as int].0@, vars@[i as int].1@)));
        }
        i += 1;
    }
    assert(vars@.subrange(0, vars@.len() as int) =~= vars@);
    let ghost base = env_view(set@);
    let mut remove: Vec<String> = Vec::new();
    if inject_default_env {
        let has_term = config.env.contains("TERM");
        let has_colorterm = config.env.contains("COLORTERM");
        if !has_term {
            set.push((string_of(&chars_of("TERM")), string_of(&chars_of("xterm-256color"))));
        }
        if !has_colorterm {
            set.push((string_of(&chars_of("COLORTERM")), string_of(&chars_of("truecolor"))));
        }
        assert(env_view(set@) =~= base + default_additions(base, true));
        if !config.env.contains("NO_COLOR") {
            remove.push(string_of(&chars_of("NO_COLOR")));
        }
    } else {
        assert(env_view(set@) =~= base + default_additions(base, false));
    }
    assert(remove@.map_values(|s: String| s@) =~= default_removals(config.env@, inject_default_env));
    ChildEnvironment { set, remove }
}

/// The replies in order, one after another.
pub open spec fn concat(rs: Seq<Seq<u8>>) -> Seq<u8>
    decreases rs.len(),
{
    if rs.len() == 0 {
        seq![]
    } else {
        concat(rs.drop_last()) + rs.last()
    }
}

fn concat_replies(out: &mut Vec<u8>, rs: Vec<Vec<u8>>)
    ensures
        final(out)@ == old(out)@ + concat(rs@.map_values(|v: Vec<u8>| v@)),
{
    let ghost view = rs@.map_values(|v: Vec<u8>| v@);
    let mut i: usize = 0;
    while i < rs.len()
        invariant
            i <= rs@.len(),
            view == rs@.map_values(|v: Vec<u8>| v@),
            out@ == old(out)@ + concat(view.subrange(0, i as int)),
        decreases rs@.len() - i,
    {
        let mut k: usize = 0;
        let ghost before = out@;
        while k < rs[i].len()
            invariant
                i < rs@.len(),
                k <= rs@[i as int]@.len(),
                out@ == before + rs@[i as int]@.subrange(0, k as int),
            decreases rs@[i as int]@.len() - k,
        {
            out.push(rs[i][k]);
            k += 1;
            assert(out@ =~= before + rs@[i as int]@.subrange(0, k as int));
        }
        proof {
            let s2 = view.subrange(0, i + 1);
            assert(s2.drop_last() =~= view.subrange(0, i as int));
            assert(rs@[i as int]@.subrange(0, k as int) =~= rs@[i as int]@);
            assert(out@ =~= old(out)@ + concat(s2));
        }
        i += 1;
    }
    assert(view.subrange(0, rs@.len() as int) =~= view);
}

/// The emulators that answer the child's terminal queries.
pub struct QueryResponder {
    osc: Option<OscEmulator>,
    csi: CsiEmulator,
}

impl View for QueryResponder {
    type V = (Option<(OscColorState, OscPhase)>, CsiPhase);

    closed spec fn view(&self) -> (Option<(OscColorState, OscPhase)>, CsiPhase) {
        (
            match self.osc {
                Some(o) => Some(o@),
                None => None,
            },
            self.csi@,
        )
    }
}

impl QueryResponder {
    /// Answers CSI cursor reports, and OSC color queries when `osc_emulation`.
    pub fn new(osc_emulation: bool) -> (r: Self)
        ensures
            r@ == (if osc_emulation {
                Some(
                    (
                        OscColorState {
                            foreground: default_foreground(),
                            background: default_background(),
                            cursor: default_foreground(),
                        },
                        OscPhase::Ground,
                    ),
                )
            } else {
                None
            }, CsiPhase::Ground),
    {
        let osc = if osc_emulation {
            Some(OscEmulator::new(crate::osc::initial_color_state()))
        } else {
            None
        };
        QueryResponder { osc, csi: CsiEmulator::new() }
    }

    /// Feeds a chunk of the child's output, `cursor` being the screen's cursor
    /// after it; returns the bytes to write back: the OSC replies, then the
    /// CSI replies, each in order.
    pub fn replies(&mut self, bytes: &[u8], cursor: Position) -> (r: Vec<u8>)
        ensures
            final(self)@ == (match old(self)@.0 {
                Some(o) => Some((osc_run(o.0, o.1, bytes@).0, osc_run(o.0, o.1, bytes@).1)),
                None => None,
            }, csi_run(old(self)@.1, bytes@, cursor).0),
            r@ == (match old(self)@.0 {
                Some(o) => concat(osc_run(o.0, o.1, bytes@).2),
                None => seq![],
            }) + concat(csi_run(old(self)@.1, bytes@, cursor).1),
    {
        let mut out: Vec<u8> = Vec::new();
        match &mut self.osc {
            Some(o) => {
                let rs = o.process_output(bytes);
                concat_replies(&mut out, rs);
            },
            None => {},
        }
        let rs = self.csi.process_output(bytes, cursor);
        concat_replies(&mut out, rs);
        out
    }
}

} // verus!
