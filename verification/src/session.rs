//! What the window remembers while it is open: the install that runs, its log
//! and the state of the tool's own update.
use vstd::prelude::*;

use crate::cli::Engine;
use crate::diagnose::{Finding, Level, Note};
use crate::game::GameStatus;
use crate::numbers::{dec, dec_text};
use crate::strs::{cat, join, join_with, opt_string, str_eq, texts};
use crate::text::{tidied, tidy};

verus! {

/// A line of the log.
#[derive(Debug, Clone)]
pub enum LogLine {
    Step(String),
    Fine(String),
    Fail(String),
    Plain(String),
}

pub enum LineView {
    Step(Seq<char>),
    Fine(Seq<char>),
    Fail(Seq<char>),
    Plain(Seq<char>),
}

impl View for LogLine {
    type V = LineView;

    open spec fn view(&self) -> LineView {
        match *self {
            LogLine::Step(s) => LineView::Step(s@),
            LogLine::Fine(s) => LineView::Fine(s@),
            LogLine::Fail(s) => LineView::Fail(s@),
            LogLine::Plain(s) => LineView::Plain(s@),
        }
    }
}

pub open spec fn log_views(v: Seq<LogLine>) -> Seq<LineView> {
    v.map_values(|l: LogLine| l@)
}

/// How far a step of the install is.
#[derive(Debug, Clone, Copy, PartialEq, Eq, Structural)]
pub enum StepState {
    Start,
    Done,
    Error,
}

pub open spec fn step_says(
    i: nat,
    n: nat,
    name: Seq<char>,
    state: StepState,
    detail: Seq<char>,
) -> LineView {
    match state {
        StepState::Start => LineView::Step("["@ + dec(i + 1) + "/"@ + dec(n) + "] "@ + name),
        StepState::Done => LineView::Fine("ok: "@ + detail),
        StepState::Error => LineView::Fail("FAILED: "@ + detail),
    }
}

/// What the log says of the step at `i` of `n`.
pub fn step_line(i: u32, n: u32, name: &str, state: StepState, detail: &str) -> (r: LogLine)
    ensures
        r@ == step_says(i as nat, n as nat, name@, state, detail@),
{
    match state {
        StepState::Start => {
            let mut s = cat("[", dec_text(i as u64 + 1).as_str());
            s.append("/");
            s.append(dec_text(n as u64).as_str());
            s.append("] ");
            s.append(name);
            LogLine::Step(s)
        },
        StepState::Done => LogLine::Fine(cat("ok: ", detail)),
        StepState::Error => LogLine::Fail(cat("FAILED: ", detail)),
    }
}

/// How a finding is logged.
pub open spec fn logged(n: Note) -> LineView {
    match n.0 {
        Level::Fine => LineView::Fine("ok: "@ + tidied(n.1)),
        Level::Warn => LineView::Plain("warn: "@ + tidied(n.1)),
        Level::Bad => LineView::Fail("FAIL: "@ + tidied(n.1)),
    }
}

pub fn finding_log(f: &Finding) -> (r: LogLine)
    ensures
        r@ == logged(f@),
{
    let text = tidy(f.text.as_str());
    match f.level {
        Level::Fine => LogLine::Fine(cat("ok: ", text.as_str())),
        Level::Warn => LogLine::Plain(cat("warn: ", text.as_str())),
        Level::Bad => LogLine::Fail(cat("FAIL: ", text.as_str())),
    }
}

/// What is said when files have been removed.
pub fn removed_text(removed: &[String]) -> (r: String)
    ensures
        r@ == "Removed: "@ + (if removed@.len() == 0 {
            "nothing"@
        } else {
            join(texts(removed@), ", "@)
        }),
{
    if removed.len() == 0 {
        cat("Removed: ", "nothing")
    } else {
        cat("Removed: ", join_with(removed, ", ").as_str())
    }
}

/// What the log says when an install is done.
pub fn installed_text(engine: Engine) -> (r: &'static str)
    ensures
        r@ == (match engine {
            Engine::Opti => "Done. In game: Insert opens the OptiScaler overlay → enable Neural Rendering."@,
            Engine::ReShade => "Done. In game: Home opens ReShade → Add-ons tab → DLSS 5 Neural Rendering → enable. (Home tab saying \"no effect files\" is normal on games with their own DLSS.)"@,
        }),
{
    match engine {
        Engine::Opti => "Done. In game: Insert opens the OptiScaler overlay → enable Neural Rendering.",
        Engine::ReShade => "Done. In game: Home opens ReShade → Add-ons tab → DLSS 5 Neural Rendering → enable. (Home tab saying \"no effect files\" is normal on games with their own DLSS.)",
    }
}

/// What the thread that installs or removes reports.
#[derive(Debug)]
pub enum Msg {
    Progress(u8, String),
    Log(LogLine),
    Finished(Result<String, String>),
}

/// The install or removal, and what is shown of it.
#[derive(Debug)]
pub struct Job {
    pub running: bool,
    pub progress: u8,
    pub progress_msg: String,
    pub log: Vec<LogLine>,
    pub last_error: Option<String>,
    /// The card being installed from the Games page, so that the progress is
    /// shown where the user started it.
    pub updating: Option<usize>,
    /// A card whose install just finished and whose state has to be read again.
    pub pending_refresh: Option<usize>,
}

pub struct JobView {
    pub running: bool,
    pub progress: u8,
    pub progress_msg: Seq<char>,
    pub log: Seq<LineView>,
    pub last_error: Option<Seq<char>>,
    pub updating: Option<usize>,
    pub pending_refresh: Option<usize>,
}

impl View for Job {
    type V = JobView;

    open spec fn view(&self) -> JobView {
        JobView {
            running: self.running,
            progress: self.progress,
            progress_msg: self.progress_msg@,
            log: log_views(self.log@),
            last_error: opt_string(self.last_error),
            updating: self.updating,
            pending_refresh: self.pending_refresh,
        }
    }
}

/// The job after a report that does not end it.
pub open spec fn after_msg(j: JobView, m: Msg) -> JobView {
    match m {
        Msg::Progress(p, s) => JobView { progress: p, progress_msg: s@, ..j },
        Msg::Log(l) => JobView { log: j.log.push(l@), ..j },
        Msg::Finished(_) => j,
    }
}

pub open spec fn after_msgs(j: JobView, ms: Seq<Msg>) -> JobView
    decreases ms.len(),
{
    if ms.len() == 0 {
        j
    } else {
        after_msg(after_msgs(j, ms.drop_last()), ms.last())
    }
}

/// The last end that is reported.
pub open spec fn end_of(ms: Seq<Msg>) -> Option<Result<String, String>>
    decreases ms.len(),
{
    if ms.len() == 0 {
        None
    } else {
        match ms.last() {
            Msg::Finished(r) => Some(r),
            _ => end_of(ms.drop_last()),
        }
    }
}

/// The job once it has ended: the card that it was started from is to be read
/// again.
pub open spec fn ended(j: JobView, r: Result<String, String>) -> JobView {
    let j = JobView {
        running: false,
        updating: None,
        pending_refresh: match j.updating {
            Some(i) => Some(i),
            None => j.pending_refresh,
        },
        ..j
    };
    match r {
        Ok(s) => JobView {
            progress: 100,
            progress_msg: "Done."@,
            log: j.log.push(LineView::Plain(s@)),
            ..j
        },
        Err(e) => JobView {
            progress_msg: "Failed."@,
            log: j.log.push(LineView::Fail(e@)),
            last_error: Some(e@),
            ..j
        },
    }
}

proof fn log_grows(v: Seq<LogLine>, l: LogLine)
    ensures
        log_views(v.push(l)) == log_views(v).push(l@),
{
    assert(log_views(v.push(l)) =~= log_views(v).push(l@));
}

impl Job {
    pub fn new() -> (r: Job)
        ensures
            r@ == (JobView {
                running: false,
                progress: 0,
                progress_msg: Seq::empty(),
                log: Seq::empty(),
                last_error: None,
                updating: None,
                pending_refresh: None,
            }),
    {
        let progress_msg = String::new();
        let log: Vec<LogLine> = Vec::new();
        assert(log_views(log@) =~= Seq::empty());
        assert(progress_msg@ =~= Seq::empty());
        Job {
            running: false,
            progress: 0,
            progress_msg,
            log,
            last_error: None,
            updating: None,
            pending_refresh: None,
        }
    }

    /// A new run starts with nothing to show.
    pub fn start(&mut self)
        ensures
            final(self)@ == (JobView {
                running: true,
                progress: 0,
                progress_msg: Seq::empty(),
                log: Seq::empty(),
                last_error: None,
                ..old(self)@
            }),
    {
        self.running = true;
        self.progress = 0;
        self.progress_msg = String::new();
        self.log = Vec::new();
        self.last_error = None;
        assert(self.progress_msg@ =~= Seq::empty());
        assert(log_views(self.log@) =~= Seq::empty());
    }

    /// The findings take the place of the log.
    pub fn show_findings(&mut self, findings: &[Finding])
        ensures
            final(self)@ == (JobView {
                progress_msg: Seq::empty(),
                log: findings@.map_values(|f: Finding| logged(f@)),
                ..old(self)@
            }),
    {
        self.progress_msg = String::new();
        assert(self.progress_msg@ =~= Seq::empty());
        let ghost all = findings@.map_values(|f: Finding| logged(f@));
        let mut log: Vec<LogLine> = Vec::new();
        let mut i: usize = 0;
        assert(log_views(log@) =~= all.take(0));
        while i < findings.len()
            invariant
                i <= findings@.len(),
                all == findings@.map_values(|f: Finding| logged(f@)),
                log_views(log@) == all.take(i as int),
            decreases findings@.len() - i,
        {
            let l = finding_log(&findings[i]);
            proof {
                log_grows(log@, l);
            }
            assert(all.take(i + 1) =~= all.take(i as int).push(all[i as int]));
            log.push(l);
            i += 1;
        }
        assert(all.take(i as int) =~= all);
        self.log = log;
    }

    fn end(&mut self, r: Result<String, String>)
        ensures
            final(self)@ == ended(old(self)@, r),
    {
        self.running = false;
        if let Some(i) = self.updating {
            self.pending_refresh = Some(i);
        }
        self.updating = None;
        match r {
            Ok(s) => {
                self.progress = 100;
                self.progress_msg = "Done.".to_owned();
                let l = LogLine::Plain(s);
                proof {
                    log_grows(self.log@, l);
                }
                self.log.push(l);
            },
            Err(e) => {
                self.progress_msg = "Failed.".to_owned();
                let l = LogLine::Fail(e.clone());
                proof {
                    log_grows(self.log@, l);
                }
                self.log.push(l);
                self.last_error = Some(e);
            },
        }
    }

    /// Takes in what was reported since the last time. Has the job ended? Then
    /// the game is to be read again.
    pub fn pump(&mut self, msgs: Vec<Msg>) -> (r: bool)
        ensures
            r == (end_of(msgs@) is Some),
            final(self)@ == (match end_of(msgs@) {
                Some(e) => ended(after_msgs(old(self)@, msgs@), e),
                None => after_msgs(old(self)@, msgs@),
            }),
    {
        let ghost start = self@;
        let ghost all = msgs@;
        let n: usize = msgs.len();
        let mut msgs = msgs;
        let mut finished: Option<Result<String, String>> = None;
        let mut i: usize = 0;
        assert(msgs@ =~= all.skip(0));
        assert(all.take(0) =~= Seq::empty());
        while i < n
            invariant
                n == all.len(),
                i <= n,
                msgs@ == all.skip(i as int),
                self@ == after_msgs(start, all.take(i as int)),
                finished == end_of(all.take(i as int)),
            decreases n - i,
        {
            assert(all.take(i + 1).drop_last() =~= all.take(i as int));
            assert(all.skip(i as int)[0] == all[i as int]);
            assert(all.skip(i as int).remove(0) =~= all.skip(i + 1));
            let m = msgs.remove(0);
            match m {
                Msg::Progress(p, s) => {
                    self.progress = p;
                    self.progress_msg = s;
                },
                Msg::Log(l) => {
                    proof {
                        log_grows(self.log@, l);
                    }
                    self.log.push(l);
                },
                Msg::Finished(r) => {
                    finished = Some(r);
                },
            }
            i += 1;
        }
        assert(all.take(i as int) =~= all);
        match finished {
            Some(r) => {
                self.end(r);
                true
            },
            None => false,
        }
    }
}

/// Once the end of a job is reported, it does not run any more, and the card
/// that it was started from is the one to read again.
pub proof fn law_job_ends(j: JobView, ms: Seq<Msg>)
    requires
        end_of(ms) is Some,
    ensures
        !ended(after_msgs(j, ms), end_of(ms)->0).running,
        ended(after_msgs(j, ms), end_of(ms)->0).updating is None,
        j.updating is Some ==> ended(after_msgs(j, ms), end_of(ms)->0).pending_refresh
            == j.updating,
{
    msgs_keep(j, ms);
}

proof fn msgs_keep(j: JobView, ms: Seq<Msg>)
    ensures
        after_msgs(j, ms).running == j.running,
        after_msgs(j, ms).updating == j.updating,
        after_msgs(j, ms).pending_refresh == j.pending_refresh,
        after_msgs(j, ms).last_error == j.last_error,
    decreases ms.len(),
{
    if ms.len() > 0 {
        msgs_keep(j, ms.drop_last());
    }
}

/// A newer release of the tool.
#[derive(Debug, Clone)]
pub struct Available {
    pub version: String,
    pub tag: String,
}

/// The tool's own update.
#[derive(Debug, Clone)]
pub enum UpdateState {
    Idle,
    Available(Available),
    Downloading(u8, String),
    Restarting,
    Failed(String),
}

/// A version that the user does not want to hear of.
pub open spec fn is_skipped(s: UpdateState, skipped: Seq<char>) -> bool {
    match s {
        UpdateState::Available(a) => a.version@ == skipped,
        _ => false,
    }
}

/// The state after what the update's thread reported.
pub open spec fn update_after(
    now: UpdateState,
    reports: Seq<UpdateState>,
    skipped: Seq<char>,
) -> UpdateState {
    if reports.len() == 0 {
        now
    } else if is_skipped(reports.last(), skipped) {
        UpdateState::Idle
    } else {
        reports.last()
    }
}

/// The state after what the update's thread reported: the last report counts,
/// and a skipped version is none.
pub fn pump_update(now: UpdateState, reports: Vec<UpdateState>, skipped: &str) -> (r: UpdateState)
    ensures
        r == update_after(now, reports@, skipped@),
{
    let mut reports = reports;
    match reports.pop() {
        Some(last) => {
            let skip = match &last {
                UpdateState::Available(a) => str_eq(a.version.as_str(), skipped),
                _ => false,
            };
            if skip {
                UpdateState::Idle
            } else {
                last
            }
        },
        None => now,
    }
}

/// How often a newer release is looked for while the window is open, in
/// seconds.
pub const UPDATE_CHECK_EVERY: u64 = 1800;

/// It is time for another look, `elapsed` seconds after the last one.
pub open spec fn is_recheck_due(state: UpdateState, in_flight: bool, elapsed: u64) -> bool {
    !in_flight && state is Idle && elapsed >= 1800
}

/// It is time to look for a newer release: nothing is under way and the last
/// look was long enough ago.
pub fn recheck_due(state: &UpdateState, in_flight: bool, elapsed: u64) -> (r: bool)
    ensures
        r == is_recheck_due(*state, in_flight, elapsed),
{
    let idle = matches!(state, UpdateState::Idle);
    !in_flight && idle && elapsed >= UPDATE_CHECK_EVERY
}

/// A look for a newer release can be asked for.
pub open spec fn is_checkable(state: UpdateState, in_flight: bool) -> bool {
    !in_flight && state is Idle
}

/// The user can ask for a look: nothing is under way.
pub fn can_check(state: &UpdateState, in_flight: bool) -> (r: bool)
    ensures
        r == is_checkable(*state, in_flight),
{
    !in_flight && matches!(state, UpdateState::Idle)
}

/// "Nothing new" is worth saying only to a user who asked.
pub fn says_newest(asked: bool, state: &UpdateState, in_flight: bool) -> (r: bool)
    ensures
        r == (asked && !in_flight && *state is Idle),
{
    asked && can_check(state, in_flight)
}

/// What the bar at the top says of the update.
pub open spec fn bar_says(s: UpdateState, current: Seq<char>) -> Option<Seq<char>> {
    match s {
        UpdateState::Idle => None,
        UpdateState::Available(a) => Some(
            "Version "@ + a.version@ + " is available (you have "@ + current + ")."@,
        ),
        UpdateState::Downloading(pct, msg) => Some(
            "Updating: "@ + dec(pct as nat) + "% "@ + msg@,
        ),
        UpdateState::Restarting => Some("Updated. Restarting..."@),
        UpdateState::Failed(e) => Some("Update failed: "@ + e@),
    }
}

pub fn update_bar(s: &UpdateState, current: &str) -> (r: Option<String>)
    ensures
        opt_string(r) == bar_says(*s, current@),
{
    match s {
        UpdateState::Idle => None,
        UpdateState::Available(a) => {
            let mut t = cat("Version ", a.version.as_str());
            t.append(" is available (you have ");
            t.append(current);
            t.append(").");
            Some(t)
        },
        UpdateState::Downloading(pct, msg) => {
            let mut t = cat("Updating: ", dec_text(*pct as u64).as_str());
            t.append("% ");
            t.append(msg.as_str());
            Some(t)
        },
        UpdateState::Restarting => Some("Updated. Restarting...".to_owned()),
        UpdateState::Failed(e) => Some(cat("Update failed: ", e.as_str())),
    }
}

/// The page of a release.
pub fn release_url(repo: &str, tag: &str) -> (r: String)
    ensures
        r@ == "https://github.com/"@ + repo@ + "/releases/tag/"@ + tag@,
{
    let mut s = cat("https://github.com/", repo);
    s.append("/releases/tag/");
    s.append(tag);
    s
}

/// What "Update" on a card does.
#[derive(Debug, Clone, Copy, PartialEq, Eq, Structural)]
pub enum UpdateMove {
    /// Install with the engine that the game already carries.
    Install(Engine),
    /// What stops the Install button stops this too.
    Blocked,
    /// The game could not be read: only the Setup page can explain why.
    Explain,
}

/// What "Update" does for a game of that status.
pub open spec fn move_for(st: Option<Result<GameStatus, String>>) -> UpdateMove {
    match st {
        Some(Ok(s)) => if s.problems@.len() > 0 {
            UpdateMove::Blocked
        } else {
            UpdateMove::Install(
                if s.opti {
                    Engine::Opti
                } else {
                    Engine::ReShade
                },
            )
        },
        _ => UpdateMove::Explain,
    }
}

pub fn update_move(st: &Option<Result<GameStatus, String>>) -> (r: UpdateMove)
    ensures
        r == move_for(*st),
{
    match st {
        Some(Ok(s)) => {
            if s.problems.len() > 0 {
                UpdateMove::Blocked
            } else if s.opti {
                UpdateMove::Install(Engine::Opti)
            } else {
                UpdateMove::Install(Engine::ReShade)
            }
        },
        _ => UpdateMove::Explain,
    }
}

} // verus!
