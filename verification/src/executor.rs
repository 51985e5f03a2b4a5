//! The installation executor, as an explicit step machine: it decides which
//! package-manager command to issue next and classifies each command's
//! outcome, while the surrounding program performs the actual subprocess
//! calls and feeds their results back in as events. One machine run performs
//! one installation attempt for one entry (with one attempt per fallback
//! candidate for casks) and never retries.

use vstd::prelude::*;

verus! {

use vstd::string::StringExecFns;
use crate::manifest::{Entry, EntryKind, EntrySpec};
use crate::text::{
    trim_spec,
    trim_start_spec,
    trim_end_spec,
    trim_chars,
    trim_start_chars,
    starts_with_spec,
    starts_with_chars,
    find_char,
    find_char_in,
    split_lines,
    split_lines_chars,
    views_of,
    str_views,
    chars_of,
    string_from_chars,
    subvec,
    int_chars,
    i32_string,
    push_char,
};

/// The per-entry result of one installation attempt, or its progress.
#[derive(Clone, Debug)]
pub enum Status {
    Pending(String),
    Success(String),
    Skipped(String),
    Failed(String),
}

/// The mathematical model of a `Status`.
pub ghost enum StatusSpec {
    Pending(Seq<char>),
    Success(Seq<char>),
    Skipped(Seq<char>),
    Failed(Seq<char>),
}

impl StatusSpec {
    /// The human-readable message carried by any status.
    pub open spec fn message(self) -> Seq<char> {
        match self {
            StatusSpec::Pending(m) => m,
            StatusSpec::Success(m) => m,
            StatusSpec::Skipped(m) => m,
            StatusSpec::Failed(m) => m,
        }
    }
}

impl View for Status {
    type V = StatusSpec;

    open spec fn view(&self) -> StatusSpec {
        match self {
            Status::Pending(m) => StatusSpec::Pending(m@),
            Status::Success(m) => StatusSpec::Success(m@),
            Status::Skipped(m) => StatusSpec::Skipped(m@),
            Status::Failed(m) => StatusSpec::Failed(m@),
        }
    }
}

impl Status {
    /// The message carried by this status.
    pub fn message(&self) -> (r: &str)
        ensures
            r@ == self@.message(),
    {
        match self {
            Status::Pending(m) => m.as_str(),
            Status::Success(m) => m.as_str(),
            Status::Skipped(m) => m.as_str(),
            Status::Failed(m) => m.as_str(),
        }
    }
}

/// What one finished subprocess produced: its exit state and captured output.
#[derive(Clone, Debug)]
pub struct CmdOutput {
    /// Whether the exit status was zero.
    pub success: bool,
    /// The exit code, with -1 standing for termination without one.
    pub code: i32,
    pub stdout: String,
    pub stderr: String,
}

/// The mathematical model of a `CmdOutput`.
pub ghost struct CmdOutputSpec {
    pub success: bool,
    pub code: int,
    pub stdout: Seq<char>,
    pub stderr: Seq<char>,
}

impl View for CmdOutput {
    type V = CmdOutputSpec;

    open spec fn view(&self) -> CmdOutputSpec {
        CmdOutputSpec {
            success: self.success,
            code: self.code as int,
            stdout: self.stdout@,
            stderr: self.stderr@,
        }
    }
}

/// What running one requested command came to: the command ran to completion,
/// or it could not be spawned at all.
#[derive(Clone, Debug)]
pub enum CmdEvent {
    Output(CmdOutput),
    SpawnFailed(String),
}

/// The mathematical model of a `CmdEvent`.
pub ghost enum CmdEventSpec {
    Output(CmdOutputSpec),
    SpawnFailed(Seq<char>),
}

impl View for CmdEvent {
    type V = CmdEventSpec;

    open spec fn view(&self) -> CmdEventSpec {
        match self {
            CmdEvent::Output(o) => CmdEventSpec::Output(o@),
            CmdEvent::SpawnFailed(e) => CmdEventSpec::SpawnFailed(e@),
        }
    }
}

/// The first line of a text (all of it when it has no newline).
pub open spec fn first_line_spec(s: Seq<char>) -> Seq<char> {
    let k = find_char(s, '\n', 0);
    if 0 <= k < s.len() {
        s.take(k)
    } else {
        s
    }
}

/// The status message a captured output is reduced to: its first line,
/// trimmed; nothing when that is empty; truncated to 80 characters with an
/// ellipsis mark appended when longer.
pub open spec fn shorten_spec(s: Seq<char>) -> Option<Seq<char>> {
    if s.len() == 0 {
        Option::None
    } else {
        let line = trim_spec(first_line_spec(s));
        if line.len() == 0 {
            Option::None
        } else if line.len() <= 80 {
            Option::Some(line)
        } else {
            Option::Some(trim_end_spec(line.take(80)).push('…'))
        }
    }
}

/// Reduces a captured command output to a short status message.
pub fn shorten_message(output: &str) -> (r: Option<String>)
    ensures
        (r matches Some(m) ==> shorten_spec(output@) == Option::Some(m@)),
        (r is None ==> shorten_spec(output@) is None),
{
    let cs = chars_of(output);
    if cs.len() == 0 {
        return Option::None;
    }
    let line = match find_char_in(&cs, '\n', 0) {
        Option::Some(k) => {
            let v = subvec(&cs, 0, k);
            proof {
                assert(v@ =~= first_line_spec(cs@));
            }
            v
        },
        Option::None => {
            let v = subvec(&cs, 0, cs.len());
            proof {
                assert(v@ =~= cs@);
            }
            v
        },
    };
    let t = trim_chars(&line);
    if t.len() == 0 {
        return Option::None;
    }
    if t.len() <= 80 {
        return Option::Some(string_from_chars(&t));
    }
    let head = subvec(&t, 0, 80);
    proof {
        assert(head@ =~= t@.take(80));
        // the start of `head` is already trimmed, so a full trim only trims its end
        crate::text::lemma_trim_start_first(first_line_spec(cs@));
        crate::text::lemma_trim_end_first(trim_start_spec(first_line_spec(cs@)));
        assert(head@[0] == t@[0]);
        assert(!crate::text::is_space(t@[0]));
        assert(crate::text::trim_start_spec(head@) == head@);
    }
    let trimmed = trim_chars(&head);
    let mut m = string_from_chars(&trimmed);
    push_char(&mut m, '…');
    Option::Some(m)
}

/// The success message: the shortened standard output, or a generic default.
pub open spec fn success_msg(stdout: Seq<char>, default: Seq<char>) -> Seq<char> {
    match shorten_spec(stdout) {
        Option::Some(m) => m,
        Option::None => default,
    }
}

fn success_message(stdout: &String, default: &str) -> (r: String)
    ensures
        r@ == success_msg(stdout@, default@),
{
    match shorten_message(stdout.as_str()) {
        Option::Some(m) => m,
        Option::None => String::from_str(default),
    }
}

/// The failure message: the shortened standard error, else the shortened
/// standard output, else the exit status.
pub open spec fn failure_msg(o: CmdOutputSpec) -> Seq<char> {
    match shorten_spec(o.stderr) {
        Option::Some(m) => m,
        Option::None => match shorten_spec(o.stdout) {
            Option::Some(m) => m,
            Option::None => "Exit status "@ + int_chars(o.code),
        },
    }
}

fn failure_message(o: &CmdOutput) -> (r: String)
    ensures
        r@ == failure_msg(o@),
{
    match shorten_message(o.stderr.as_str()) {
        Option::Some(m) => m,
        Option::None => match shorten_message(o.stdout.as_str()) {
            Option::Some(m) => m,
            Option::None => {
                let mut s = String::from_str("Exit status ");
                let digits = i32_string(o.code);
                s.append(digits.as_str());
                s
            },
        },
    }
}

/// The command-line tool an entry's installation relies on.
pub open spec fn required_tool_spec(kind: EntryKind) -> Seq<char> {
    if kind is StoreApp {
        "mas"@
    } else {
        "brew"@
    }
}

/// The name of the command-line tool that must be discoverable on the search
/// path before this kind of entry can be installed.
pub fn required_tool(kind: EntryKind) -> (r: String)
    ensures
        r@ == required_tool_spec(kind),
{
    match kind {
        EntryKind::StoreApp => String::from_str("mas"),
        _ => String::from_str("brew"),
    }
}

/// Where the machine stands within one entry's installation.
#[derive(Clone, Copy, Debug)]
pub enum Phase {
    /// Asking whether candidate `pos` is already installed.
    CheckingInstalled(usize),
    /// Installing candidate `pos`.
    InstallingCandidate(usize),
    /// Asking the store-app manager for its installed-apps listing.
    ListingApps,
    /// Installing the store app.
    InstallingApp,
}

/// The mathematical model of a `Phase`.
pub ghost enum PhaseSpec {
    CheckingInstalled(int),
    InstallingCandidate(int),
    ListingApps,
    InstallingApp,
}

impl View for Phase {
    type V = PhaseSpec;

    open spec fn view(&self) -> PhaseSpec {
        match self {
            Phase::CheckingInstalled(p) => PhaseSpec::CheckingInstalled(*p as int),
            Phase::InstallingCandidate(p) => PhaseSpec::InstallingCandidate(*p as int),
            Phase::ListingApps => PhaseSpec::ListingApps,
            Phase::InstallingApp => PhaseSpec::InstallingApp,
        }
    }
}

/// The installation step machine for one entry.
pub struct Installer {
    pub kind: EntryKind,
    /// The identifiers tried in order: the primary first, then, for casks,
    /// the fallback identifiers.
    pub candidates: Vec<String>,
    pub phase: Phase,
}

/// The mathematical model of an `Installer`.
pub ghost struct InstallerSpec {
    pub kind: EntryKind,
    pub candidates: Seq<Seq<char>>,
    pub phase: PhaseSpec,
}

impl View for Installer {
    type V = InstallerSpec;

    open spec fn view(&self) -> InstallerSpec {
        InstallerSpec { kind: self.kind, candidates: str_views(self.candidates@), phase: self.phase@ }
    }
}

impl InstallerSpec {
    /// Machine sanity: at least one candidate, and the phase fits the kind.
    pub open spec fn wf(self) -> bool {
        self.candidates.len() >= 1 && match self.phase {
            PhaseSpec::CheckingInstalled(pos) => 0 <= pos < self.candidates.len() && !(self.kind
                is StoreApp),
            PhaseSpec::InstallingCandidate(pos) => 0 <= pos < self.candidates.len() && !(self.kind
                is StoreApp),
            PhaseSpec::ListingApps => self.kind is StoreApp && self.candidates.len() == 1,
            PhaseSpec::InstallingApp => self.kind is StoreApp && self.candidates.len() == 1,
        }
    }
}

/// The arguments of the is-it-installed query for one candidate.
pub open spec fn check_args(kind: EntryKind, cand: Seq<char>) -> Seq<Seq<char>> {
    if kind is Cask {
        seq!["brew"@, "list"@, "--cask"@, "--versions"@, cand]
    } else {
        seq!["brew"@, "list"@, "--formula"@, "--versions"@, cand]
    }
}

/// The arguments of the install command for one candidate.
pub open spec fn install_args(kind: EntryKind, cand: Seq<char>) -> Seq<Seq<char>> {
    if kind is Cask {
        seq!["brew"@, "install"@, "--cask"@, cand]
    } else {
        seq!["brew"@, "install"@, cand]
    }
}

/// The arguments of the store-app listing query.
pub open spec fn mas_list_args() -> Seq<Seq<char>> {
    seq!["mas"@, "list"@]
}

/// The arguments of the store-app install command.
pub open spec fn mas_install_args(id: Seq<char>) -> Seq<Seq<char>> {
    seq!["mas"@, "install"@, id]
}

/// The command the machine is waiting on in its current phase.
pub open spec fn request_of(m: InstallerSpec) -> Seq<Seq<char>> {
    match m.phase {
        PhaseSpec::CheckingInstalled(pos) => check_args(m.kind, m.candidates[pos]),
        PhaseSpec::InstallingCandidate(pos) => install_args(m.kind, m.candidates[pos]),
        PhaseSpec::ListingApps => mas_list_args(),
        PhaseSpec::InstallingApp => mas_install_args(m.candidates[0]),
    }
}

/// Whether the store-app listing shows the app: some line, after leading
/// whitespace, begins with the numeric identifier.
pub open spec fn mas_lists(out: Seq<char>, id: Seq<char>) -> bool {
    exists|i: int|
        #![trigger split_lines(out)[i]]
        0 <= i < split_lines(out).len() && starts_with_spec(
            trim_start_spec(split_lines(out)[i]),
            id,
        )
}

fn mas_lists_installed(out: &String, id: &String) -> (r: bool)
    ensures
        r == mas_lists(out@, id@),
{
    let cs = chars_of(out.as_str());
    let lines = split_lines_chars(&cs);
    let idc = chars_of(id.as_str());
    let ghost line_views = views_of(lines@);
    let mut i: usize = 0;
    while i < lines.len()
        invariant
            0 <= i <= lines@.len(),
            line_views == views_of(lines@),
            line_views == split_lines(out@),
            idc@ == id@,
            forall|j: int|
                #![trigger line_views[j]]
                0 <= j < i ==> !starts_with_spec(trim_start_spec(line_views[j]), id@),
        decreases lines.len() - i,
    {
        let ts = trim_start_chars(&lines[i]);
        if starts_with_chars(&ts, &idc) {
            proof {
                assert(starts_with_spec(trim_start_spec(line_views[i as int]), id@));
            }
            return true;
        }
        i += 1;
    }
    false
}

/// One machine step's result: a finished classification, or the next machine
/// state together with the command it asks the caller to run.
pub enum StepResult {
    Finished(Status),
    Running(Installer, Vec<String>),
}

/// The mathematical model of a `StepResult`.
pub ghost enum StepSpec {
    Finished(StatusSpec),
    Running(InstallerSpec, Seq<Seq<char>>),
}

impl View for StepResult {
    type V = StepSpec;

    open spec fn view(&self) -> StepSpec {
        match self {
            StepResult::Finished(s) => StepSpec::Finished(s@),
            StepResult::Running(m, args) => StepSpec::Running(m@, str_views(args@)),
        }
    }
}

/// Where the machine goes after an is-it-installed query said "not
/// installed" (or could not run, which counts the same): the next candidate's
/// query, or the first install attempt.
pub open spec fn checking_next(m: InstallerSpec, pos: int) -> StepSpec {
    if pos + 1 < m.candidates.len() {
        let m2 = InstallerSpec { phase: PhaseSpec::CheckingInstalled(pos + 1), ..m };
        StepSpec::Running(m2, request_of(m2))
    } else {
        let m2 = InstallerSpec { phase: PhaseSpec::InstallingCandidate(0), ..m };
        StepSpec::Running(m2, request_of(m2))
    }
}

/// Where the machine goes after an install attempt failed with message
/// `err`: the next candidate, or a final failure carrying the last
/// candidate's error.
pub open spec fn installing_next(m: InstallerSpec, pos: int, err: Seq<char>) -> StepSpec {
    if pos + 1 < m.candidates.len() {
        let m2 = InstallerSpec { phase: PhaseSpec::InstallingCandidate(pos + 1), ..m };
        StepSpec::Running(m2, request_of(m2))
    } else {
        StepSpec::Finished(StatusSpec::Failed(err))
    }
}

/// The machine's transition relation: what one command event makes of the
/// machine in each phase.
pub open spec fn inst_step(m: InstallerSpec, ev: CmdEventSpec) -> StepSpec {
    match m.phase {
        PhaseSpec::CheckingInstalled(pos) => match ev {
            CmdEventSpec::Output(o) => if o.success {
                StepSpec::Finished(
                    StatusSpec::Skipped(
                        if pos == 0 {
                            "Already installed"@
                        } else {
                            "Already installed (via fallback)"@
                        },
                    ),
                )
            } else {
                checking_next(m, pos)
            },
            // a query that cannot run counts as "not installed"
            CmdEventSpec::SpawnFailed(_) => checking_next(m, pos),
        },
        PhaseSpec::InstallingCandidate(pos) => match ev {
            CmdEventSpec::Output(o) => if o.success {
                StepSpec::Finished(
                    StatusSpec::Success(
                        if pos > 0 {
                            success_msg(o.stdout, "Installed"@) + " (fallback)"@
                        } else {
                            success_msg(o.stdout, "Installed"@)
                        },
                    ),
                )
            } else {
                installing_next(m, pos, failure_msg(o))
            },
            CmdEventSpec::SpawnFailed(e) => installing_next(m, pos, "Failed to run brew: "@ + e),
        },
        PhaseSpec::ListingApps => match ev {
            // a non-zero exit of the listing is ignored: install is attempted anyway
            CmdEventSpec::Output(o) => if o.success && mas_lists(o.stdout, m.candidates[0]) {
                StepSpec::Finished(StatusSpec::Skipped("Already installed"@))
            } else {
                let m2 = InstallerSpec { phase: PhaseSpec::InstallingApp, ..m };
                StepSpec::Running(m2, request_of(m2))
            },
            CmdEventSpec::SpawnFailed(e) => StepSpec::Finished(
                StatusSpec::Failed("Failed to run mas list: "@ + e),
            ),
        },
        PhaseSpec::InstallingApp => match ev {
            CmdEventSpec::Output(o) => if o.success {
                StepSpec::Finished(StatusSpec::Success(success_msg(o.stdout, "Installed"@)))
            } else {
                StepSpec::Finished(StatusSpec::Failed(failure_msg(o)))
            },
            CmdEventSpec::SpawnFailed(e) => StepSpec::Finished(
                StatusSpec::Failed("Failed to run mas install: "@ + e),
            ),
        },
    }
}

/// How an installation starts for an entry: an immediate failure when the
/// required tool is not on the search path, else the machine's first state
/// and first command.
pub open spec fn inst_start(e: EntrySpec, tool_available: bool) -> StepSpec {
    if !tool_available {
        StepSpec::Finished(
            StatusSpec::Failed(
                if e.kind is StoreApp {
                    "mas CLI not available"@
                } else {
                    "Homebrew not available"@
                },
            ),
        )
    } else if e.kind is StoreApp {
        let m = InstallerSpec {
            kind: e.kind,
            candidates: seq![e.identifier],
            phase: PhaseSpec::ListingApps,
        };
        StepSpec::Running(m, request_of(m))
    } else {
        let m = InstallerSpec {
            kind: e.kind,
            candidates: if e.kind is Cask {
                seq![e.identifier] + e.fallback_identifiers
            } else {
                seq![e.identifier]
            },
            phase: PhaseSpec::CheckingInstalled(0),
        };
        StepSpec::Running(m, request_of(m))
    }
}

/// Runs the machine over a sequence of command events; a finished machine
/// absorbs any further events.
pub open spec fn run_steps(st: StepSpec, evs: Seq<CmdEventSpec>) -> StepSpec
    decreases evs.len(),
{
    if evs.len() == 0 {
        st
    } else {
        match st {
            StepSpec::Finished(_) => st,
            StepSpec::Running(m, _) => run_steps(inst_step(m, evs[0]), evs.drop_first()),
        }
    }
}

proof fn lemma_run_steps_append(st: StepSpec, a: Seq<CmdEventSpec>, b: Seq<CmdEventSpec>)
    ensures
        run_steps(st, a + b) == run_steps(run_steps(st, a), b),
    decreases a.len(),
{
    if a.len() == 0 {
        assert(a + b =~= b);
    } else {
        match st {
            StepSpec::Finished(_) => {
                assert((a + b).len() > 0);
            },
            StepSpec::Running(m, _) => {
                assert((a + b)[0] == a[0]);
                assert((a + b).drop_first() =~= a.drop_first() + b);
                lemma_run_steps_append(inst_step(m, a[0]), a.drop_first(), b);
            },
        }
    }
}

/// The same machine, about to run its first install attempt.
pub open spec fn at_first_install(m: InstallerSpec) -> InstallerSpec {
    InstallerSpec { phase: PhaseSpec::InstallingCandidate(0), ..m }
}

proof fn lemma_failed_checks(m: InstallerSpec, evs: Seq<CmdEventSpec>)
    requires
        m.wf(),
        m.phase matches PhaseSpec::CheckingInstalled(pos) && evs.len() == m.candidates.len()
            - pos,
        forall|i: int|
            0 <= i < evs.len() ==> (#[trigger] evs[i] matches CmdEventSpec::Output(o)
                && !o.success),
    ensures
        run_steps(StepSpec::Running(m, request_of(m)), evs) == StepSpec::Running(
            at_first_install(m),
            request_of(at_first_install(m)),
        ),
    decreases evs.len(),
{
    match m.phase {
        PhaseSpec::CheckingInstalled(pos) => {
            assert(evs.len() >= 1);
            assert(evs[0] matches CmdEventSpec::Output(o) && !o.success);
            assert(inst_step(m, evs[0]) == checking_next(m, pos));
            if pos + 1 < m.candidates.len() {
                let m2 = InstallerSpec { phase: PhaseSpec::CheckingInstalled(pos + 1), ..m };
                assert(m2.wf());
                assert forall|i: int| 0 <= i < evs.drop_first().len() implies (#[trigger] evs.drop_first()[i]
                    matches CmdEventSpec::Output(o) && !o.success) by {
                    assert(evs.drop_first()[i] == evs[i + 1]);
                }
                lemma_failed_checks(m2, evs.drop_first());
                assert(at_first_install(m2) == at_first_install(m));
            } else {
                assert(evs.len() == 1);
                assert(evs.drop_first() =~= Seq::<CmdEventSpec>::empty());
            }
        },
        _ => {},
    }
}

/// Cascading-fallback law: for a cask entry with at least one fallback
/// identifier, when no candidate reports itself already installed, the
/// primary identifier's install command fails, and the first fallback's
/// install command succeeds, the machine finishes with `Success` and a
/// message marking the fallback.
pub proof fn lemma_cask_fallback(
    e: EntrySpec,
    checks: Seq<CmdEventSpec>,
    fail_out: CmdOutputSpec,
    ok_out: CmdOutputSpec,
)
    requires
        e.kind is Cask,
        e.fallback_identifiers.len() >= 1,
        checks.len() == 1 + e.fallback_identifiers.len(),
        forall|i: int|
            0 <= i < checks.len() ==> (#[trigger] checks[i] matches CmdEventSpec::Output(o)
                && !o.success),
        !fail_out.success,
        ok_out.success,
    ensures
        run_steps(
            inst_start(e, true),
            checks + seq![CmdEventSpec::Output(fail_out), CmdEventSpec::Output(ok_out)],
        ) == StepSpec::Finished(
            StatusSpec::Success(success_msg(ok_out.stdout, "Installed"@) + " (fallback)"@),
        ),
{
    let m0 = InstallerSpec {
        kind: e.kind,
        candidates: seq![e.identifier] + e.fallback_identifiers,
        phase: PhaseSpec::CheckingInstalled(0),
    };
    assert(inst_start(e, true) == StepSpec::Running(m0, request_of(m0)));
    assert(m0.candidates.len() >= 2);
    assert(m0.wf());
    let tail = seq![CmdEventSpec::Output(fail_out), CmdEventSpec::Output(ok_out)];
    lemma_run_steps_append(StepSpec::Running(m0, request_of(m0)), checks, tail);
    lemma_failed_checks(m0, checks);
    let mi = at_first_install(m0);
    let mi1 = InstallerSpec { phase: PhaseSpec::InstallingCandidate(1), ..mi };
    assert(tail[0] == CmdEventSpec::Output(fail_out));
    assert(inst_step(mi, tail[0]) == StepSpec::Running(mi1, request_of(mi1)));
    let t2 = tail.drop_first();
    assert(t2 =~= seq![CmdEventSpec::Output(ok_out)]);
    assert(t2[0] == CmdEventSpec::Output(ok_out));
    let fin = StepSpec::Finished(
        StatusSpec::Success(success_msg(ok_out.stdout, "Installed"@) + " (fallback)"@),
    );
    assert(inst_step(mi1, t2[0]) == fin);
    assert(t2.drop_first() =~= Seq::<CmdEventSpec>::empty());
    assert(run_steps(fin, t2.drop_first()) == fin);
    assert(run_steps(StepSpec::Running(mi1, request_of(mi1)), t2) == fin);
    assert(run_steps(StepSpec::Running(mi, request_of(mi)), tail) == fin);
}

fn check_args_exec(kind: EntryKind, cand: &String) -> (r: Vec<String>)
    ensures
        str_views(r@) == check_args(kind, cand@),
{
    let mut v: Vec<String> = Vec::new();
    v.push(String::from_str("brew"));
    v.push(String::from_str("list"));
    if matches!(kind, EntryKind::Cask) {
        v.push(String::from_str("--cask"));
    } else {
        v.push(String::from_str("--formula"));
    }
    v.push(String::from_str("--versions"));
    v.push(cand.clone());
    proof {
        assert(str_views(v@) =~= check_args(kind, cand@));
    }
    v
}

fn install_args_exec(kind: EntryKind, cand: &String) -> (r: Vec<String>)
    ensures
        str_views(r@) == install_args(kind, cand@),
{
    let mut v: Vec<String> = Vec::new();
    v.push(String::from_str("brew"));
    v.push(String::from_str("install"));
    if matches!(kind, EntryKind::Cask) {
        v.push(String::from_str("--cask"));
    }
    v.push(cand.clone());
    proof {
        assert(str_views(v@) =~= install_args(kind, cand@));
    }
    v
}

fn mas_list_args_exec() -> (r: Vec<String>)
    ensures
        str_views(r@) == mas_list_args(),
{
    let mut v: Vec<String> = Vec::new();
    v.push(String::from_str("mas"));
    v.push(String::from_str("list"));
    proof {
        assert(str_views(v@) =~= mas_list_args());
    }
    v
}

fn mas_install_args_exec(id: &String) -> (r: Vec<String>)
    ensures
        str_views(r@) == mas_install_args(id@),
{
    let mut v: Vec<String> = Vec::new();
    v.push(String::from_str("mas"));
    v.push(String::from_str("install"));
    v.push(id.clone());
    proof {
        assert(str_views(v@) =~= mas_install_args(id@));
    }
    v
}

/// Starts an installation attempt for `entry`. `tool_available` says whether
/// the required command-line tool was found on the search path.
pub fn start_install(entry: &Entry, tool_available: bool) -> (r: StepResult)
    ensures
        r@ == inst_start(entry@, tool_available),
        (r matches StepResult::Running(m, _) ==> m@.wf()),
{
    if !tool_available {
        let msg = if matches!(entry.kind, EntryKind::StoreApp) {
            String::from_str("mas CLI not available")
        } else {
            String::from_str("Homebrew not available")
        };
        return StepResult::Finished(Status::Failed(msg));
    }
    match entry.kind {
        EntryKind::StoreApp => {
            let mut candidates: Vec<String> = Vec::new();
            candidates.push(entry.identifier.clone());
            let args = mas_list_args_exec();
            let m = Installer { kind: entry.kind, candidates, phase: Phase::ListingApps };
            proof {
                assert(m@.candidates =~= seq![entry@.identifier]);
            }
            StepResult::Running(m, args)
        },
        EntryKind::Cask => {
            let mut candidates: Vec<String> = Vec::new();
            candidates.push(entry.identifier.clone());
            let mut i: usize = 0;
            while i < entry.fallback_identifiers.len()
                invariant
                    0 <= i <= entry.fallback_identifiers@.len(),
                    candidates@.len() == 1 + i,
                    candidates@[0]@ == entry@.identifier,
                    forall|j: int|
                        0 <= j < i ==> #[trigger] candidates@[j + 1]@
                            == entry@.fallback_identifiers[j],
                decreases entry.fallback_identifiers.len() - i,
            {
                candidates.push(entry.fallback_identifiers[i].clone());
                i += 1;
            }
            proof {
                let fb = entry@.fallback_identifiers;
                let rhs = seq![entry@.identifier] + fb;
                assert(candidates@.len() == rhs.len());
                assert forall|j: int| 0 <= j < rhs.len() implies str_views(candidates@)[j]
                    == rhs[j] by {
                    assert(str_views(candidates@)[j] == candidates@[j]@);
                    if j > 0 {
                        assert(candidates@[(j - 1) + 1]@ == fb[j - 1]);
                    }
                }
                assert(str_views(candidates@) =~= rhs);
            }
            let args = check_args_exec(entry.kind, &candidates[0]);
            let m = Installer {
                kind: entry.kind,
                candidates,
                phase: Phase::CheckingInstalled(0),
            };
            StepResult::Running(m, args)
        },
        EntryKind::Formula => {
            let mut candidates: Vec<String> = Vec::new();
            candidates.push(entry.identifier.clone());
            let args = check_args_exec(entry.kind, &candidates[0]);
            let m = Installer {
                kind: entry.kind,
                candidates,
                phase: Phase::CheckingInstalled(0),
            };
            proof {
                assert(m@.candidates =~= seq![entry@.identifier]);
            }
            StepResult::Running(m, args)
        },
    }
}

impl Installer {
    fn advance_check(self, pos: usize) -> (r: StepResult)
        requires
            self@.wf(),
            self@.phase == PhaseSpec::CheckingInstalled(pos as int),
        ensures
            r@ == checking_next(self@, pos as int),
            (r matches StepResult::Running(m, _) ==> m@.wf()),
    {
        proof {
            assert(pos < self.candidates.len());
        }
        if pos + 1 < self.candidates.len() {
            let args = check_args_exec(self.kind, &self.candidates[pos + 1]);
            let m = Installer { phase: Phase::CheckingInstalled(pos + 1), ..self };
            StepResult::Running(m, args)
        } else {
            let args = install_args_exec(self.kind, &self.candidates[0]);
            let m = Installer { phase: Phase::InstallingCandidate(0), ..self };
            StepResult::Running(m, args)
        }
    }

    fn advance_install(self, pos: usize, err: String) -> (r: StepResult)
        requires
            self@.wf(),
            self@.phase == PhaseSpec::InstallingCandidate(pos as int),
        ensures
            r@ == installing_next(self@, pos as int, err@),
            (r matches StepResult::Running(m, _) ==> m@.wf()),
    {
        proof {
            assert(pos < self.candidates.len());
        }
        if pos + 1 < self.candidates.len() {
            let args = install_args_exec(self.kind, &self.candidates[pos + 1]);
            let m = Installer { phase: Phase::InstallingCandidate(pos + 1), ..self };
            StepResult::Running(m, args)
        } else {
            StepResult::Finished(Status::Failed(err))
        }
    }

    /// Feeds the outcome of the requested command into the machine.
    pub fn step(self, ev: CmdEvent) -> (r: StepResult)
        requires
            self@.wf(),
        ensures
            r@ == inst_step(self@, ev@),
            (r matches StepResult::Running(m, _) ==> m@.wf()),
    {
        match self.phase {
            Phase::CheckingInstalled(pos) => match ev {
                CmdEvent::Output(o) => {
                    if o.success {
                        let msg = if pos == 0 {
                            String::from_str("Already installed")
                        } else {
                            String::from_str("Already installed (via fallback)")
                        };
                        StepResult::Finished(Status::Skipped(msg))
                    } else {
                        self.advance_check(pos)
                    }
                },
                CmdEvent::SpawnFailed(_) => self.advance_check(pos),
            },
            Phase::InstallingCandidate(pos) => match ev {
                CmdEvent::Output(o) => {
                    if o.success {
                        let mut msg = success_message(&o.stdout, "Installed");
                        if pos > 0 {
                            msg.append(" (fallback)");
                        }
                        StepResult::Finished(Status::Success(msg))
                    } else {
                        let err = failure_message(&o);
                        self.advance_install(pos, err)
                    }
                },
                CmdEvent::SpawnFailed(e) => {
                    let mut err = String::from_str("Failed to run brew: ");
                    err.append(e.as_str());
                    self.advance_install(pos, err)
                },
            },
            Phase::ListingApps => match ev {
                CmdEvent::Output(o) => {
                    if o.success && mas_lists_installed(&o.stdout, &self.candidates[0]) {
                        StepResult::Finished(
                            Status::Skipped(String::from_str("Already installed")),
                        )
                    } else {
                        let args = mas_install_args_exec(&self.candidates[0]);
                        let m = Installer { phase: Phase::InstallingApp, ..self };
                        StepResult::Running(m, args)
                    }
                },
                CmdEvent::SpawnFailed(e) => {
                    let mut err = String::from_str("Failed to run mas list: ");
                    err.append(e.as_str());
                    StepResult::Finished(Status::Failed(err))
                },
            },
            Phase::InstallingApp => match ev {
                CmdEvent::Output(o) => {
                    if o.success {
                        let msg = success_message(&o.stdout, "Installed");
                        StepResult::Finished(Status::Success(msg))
                    } else {
                        StepResult::Finished(Status::Failed(failure_message(&o)))
                    }
                },
                CmdEvent::SpawnFailed(e) => {
                    let mut err = String::from_str("Failed to run mas install: ");
                    err.append(e.as_str());
                    StepResult::Finished(Status::Failed(err))
                },
            },
        }
    }
}

} // verus!
