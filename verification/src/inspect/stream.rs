//! Printing the log of a job, and following it while the stage runs.

use vstd::prelude::*;
use vstd::string::*;

use crate::app::ticks::stage_named;
use crate::clock::found_or;
use crate::inspect::lookup::Opts;
use crate::inspect::report::dimmed;
use crate::inspect::{
    find_job, followed, job_label, label_of, log_line, no_job_text, pair_at, printed_line,
    status_text, wrapped, Paint,
};
use crate::model::{text_ref, JobInstanceView, PipelineInstance, PipelineInstanceView};
use crate::text;

verus! {

/// A log that is being printed.
#[derive(Debug)]
pub struct LogStream {
    pub name: String,
    pub counter: i64,
    pub stage: String,
    pub stage_counter: String,
    pub job: String,
    /// The lines printed so far; the next fetch starts there.
    pub sent: usize,
    /// Whether to go on while the stage runs.
    pub follow: bool,
}

#[verifier::ext_equal]
pub struct LogStreamView {
    pub name: Seq<char>,
    pub counter: i64,
    pub stage: Seq<char>,
    pub stage_counter: Seq<char>,
    pub job: Seq<char>,
    pub sent: usize,
    pub follow: bool,
}

impl DeepView for LogStream {
    type V = LogStreamView;

    open spec fn deep_view(&self) -> LogStreamView {
        LogStreamView {
            name: self.name@,
            counter: self.counter,
            stage: self.stage@,
            stage_counter: self.stage_counter@,
            job: self.job@,
            sent: self.sent,
            follow: self.follow,
        }
    }
}


/// What comes next.
#[derive(Debug, PartialEq, Eq)]
pub enum StreamStep {
    /// The end, with this exit code.
    Exit(u8),
    /// The end: this is said, and the exit code is 1.
    Fail(String),
    /// See whether the stage still runs.
    CheckRun,
    /// Wait, and fetch again.
    Wait,
}

#[verifier::ext_equal]
pub enum StreamStepView {
    Exit(u8),
    Fail(Seq<char>),
    CheckRun,
    Wait,
}

impl DeepView for StreamStep {
    type V = StreamStepView;

    open spec fn deep_view(&self) -> StreamStepView {
        match self {
            StreamStep::Exit(x) => StreamStepView::Exit(*x),
            StreamStep::Fail(x) => StreamStepView::Fail(x@),
            StreamStep::CheckRun => StreamStepView::CheckRun,
            StreamStep::Wait => StreamStepView::Wait,
        }
    }
}

impl StreamStepView {
    /// The exit code of a step that is the end.
    pub open spec fn code(self) -> Option<u8> {
        match self {
            StreamStepView::Exit(c) => Some(c),
            StreamStepView::Fail(_) => Some(1),
            _ => None,
        }
    }
}

impl StreamStep {
    pub fn exit_code(&self) -> (r: Option<u8>)
        ensures
            r == self.deep_view().code(),
    {
        match self {
            StreamStep::Exit(c) => Some(*c),
            StreamStep::Fail(_) => Some(1),
            StreamStep::CheckRun | StreamStep::Wait => None,
        }
    }
}

// ---- the start -----------------------------------------------------------

/// Why there is no log to print.
pub open spec fn unscheduled_text(stage: Seq<char>, counter: i64) -> Seq<char> {
    "Stage "@ + stage + " of run #"@ + text::dec_int(counter as int)
        + " has not been scheduled, so it has no console log yet."@
}

/// The line above a log. It goes to the error output, so that the log stays
/// clean for a pipe.
pub open spec fn header_line(
    on: bool,
    name: Seq<char>,
    counter: i64,
    stage: Seq<char>,
    job: JobInstanceView,
) -> Seq<char> {
    dimmed(on, "==>"@) + " "@ + wrapped(on, "1"@, name) + " #"@ + text::dec_int(counter as int)
        + " "@ + stage + "/"@ + job.name + "  "@ + status_text(on, label_of(job))
}

/// The log to print and the line above it, or why there is none.
pub open spec fn stream_start(
    on: bool,
    name: Seq<char>,
    run: PipelineInstanceView,
    stage: Option<Seq<char>>,
    job: Option<Seq<char>>,
    follow: bool,
) -> Result<(LogStreamView, Seq<char>), Seq<char>> {
    match followed(run.stages, stage, job) {
        None => Err(no_job_text(run, stage, job)),
        Some(at) => {
            let (s, j) = pair_at(run.stages, at);
            match s.counter {
                None => Err(unscheduled_text(s.name, run.counter)),
                Some(stage_counter) => Ok(
                    (
                        LogStreamView {
                            name,
                            counter: run.counter,
                            stage: s.name,
                            stage_counter,
                            job: j.name,
                            sent: 0,
                            follow,
                        },
                        header_line(on, name, run.counter, s.name, j),
                    ),
                ),
            }
        },
    }
}

/// Chooses the job whose log is printed. Where there is none, what is said, and the
/// exit code.
pub fn stream_logs(p: &Paint, name: &str, run: &PipelineInstance, opts: &Opts) -> (r: Result<
    (LogStream, String),
    (String, u8),
>)
    ensures
        match (
            r,
            stream_start(
                p.0,
                name@,
                run.deep_view(),
                opts.stage.deep_view(),
                opts.job.deep_view(),
                opts.follow,
            ),
        ) {
            (Ok(a), Ok(b)) => (a.0.deep_view(), a.1@) == b,
            (Err(a), Err(b)) => a.0@ == b && a.1 == 1,
            _ => false,
        },
{
    let (stage, job) = match find_job(run, text_ref(&opts.stage), text_ref(&opts.job)) {
        Ok(pair) => pair,
        Err(e) => {
            return Err((e, 1));
        },
    };
    let number = text::decimal_i(run.counter);
    let stage_counter = match &stage.counter {
        Some(c) => c.clone(),
        None => {
            let why = text::cat5(
                "Stage ",
                stage.name.as_str(),
                " of run #",
                number.as_str(),
                " has not been scheduled, so it has no console log yet.",
            );
            return Err((why, 1));
        },
    };
    let arrow = p.dim("==>");
    let bold = p.bold(name);
    let status = p.status(job_label(job));
    let mut head = arrow;
    head.append(" ");
    head.append(bold.as_str());
    head.append(" #");
    head.append(number.as_str());
    head.append(" ");
    head.append(stage.name.as_str());
    head.append("/");
    head.append(job.name.as_str());
    head.append("  ");
    head.append(status.as_str());
    let stream = LogStream {
        name: text::owned(name),
        counter: run.counter,
        stage: stage.name.clone(),
        stage_counter,
        job: job.name.clone(),
        sent: 0,
        follow: opts.follow,
    };
    Ok((stream, head))
}

// ---- chunks --------------------------------------------------------------

/// `a + b`, as far as a `usize` counts.
pub open spec fn counted(a: usize, b: nat) -> usize {
    if a + b > usize::MAX {
        usize::MAX
    } else {
        (a + b) as usize
    }
}

impl LogStreamView {
    /// The lines to print for what was fetched.
    pub open spec fn chunk_lines(self, on: bool, chunk: Result<&str, &str>) -> Seq<Seq<char>> {
        match chunk {
            Ok(t) => Seq::new(
                text::lines_of(t@).len(),
                |i: int| printed_line(on, text::lines_of(t@)[i]),
            ),
            Err(_) => Seq::empty(),
        }
    }

    pub open spec fn after_chunk(self, chunk: Result<&str, &str>) -> LogStreamView {
        match chunk {
            Ok(t) => LogStreamView {
                sent: counted(self.sent, text::lines_of(t@).len()),
                ..self
            },
            Err(_) => self,
        }
    }

    /// What follows what was fetched. A job that waits has no log yet, which is
    /// worth waiting for where the log is followed. Output is itself proof that
    /// the job is alive.
    pub open spec fn chunk_step(self, chunk: Result<&str, &str>) -> StreamStepView {
        match chunk {
            Err(e) => if self.sent == 0 && !self.follow {
                StreamStepView::Fail(e@)
            } else if self.follow {
                StreamStepView::CheckRun
            } else {
                StreamStepView::Exit(0)
            },
            Ok(t) => if !self.follow {
                StreamStepView::Exit(0)
            } else if t@.len() == 0 {
                StreamStepView::CheckRun
            } else {
                StreamStepView::Wait
            },
        }
    }

    /// The end of a followed log: the stage is no longer active. It is a failure
    /// where the stage failed.
    pub open spec fn ended(self, on: bool, fresh: PipelineInstanceView) -> Option<(Seq<char>, u8)> {
        let p = stage_named(fresh.stages, self.stage, 0);
        if p < fresh.stages.len() && fresh.stages[p].active() {
            None
        } else {
            let result = if p < fresh.stages.len() {
                found_or(fresh.stages[p].status, "Unknown"@)
            } else {
                "Unknown"@
            };
            Some(
                (
                    dimmed(on, "==>"@) + " "@ + self.stage + " "@ + status_text(on, result),
                    if result == "Failed"@ {
                        1
                    } else {
                        0
                    },
                ),
            )
        }
    }
}

impl LogStream {
    /// Takes in what was fetched from line `sent` on: the lines to print, and
    /// what comes next.
    pub fn on_chunk(&mut self, p: &Paint, chunk: Result<&str, &str>) -> (r: (Vec<String>, StreamStep))
        ensures
            r.0.deep_view() == old(self).deep_view().chunk_lines(p.0, chunk),
            r.1.deep_view() == old(self).deep_view().chunk_step(chunk),
            final(self).deep_view() == old(self).deep_view().after_chunk(chunk),
    {
        let mut out: Vec<String> = Vec::new();
        let content = match chunk {
            Ok(t) => t,
            Err(e) => {
                assert(out.deep_view() =~= Seq::<Seq<char>>::empty());
                if self.sent == 0 && !self.follow {
                    return (out, StreamStep::Fail(text::owned(e)));
                }
                if self.follow {
                    return (out, StreamStep::CheckRun);
                }
                return (out, StreamStep::Exit(0));
            },
        };
        let ls = text::lines(content);
        let ghost all = text::lines_of(content@);
        let ghost want = old(self).deep_view().chunk_lines(p.0, chunk);
        let mut i: usize = 0;
        assert(out.deep_view() =~= want.take(0));
        while i < ls.len()
            invariant
                all == ls.deep_view(),
                want == Seq::new(all.len(), |i: int| printed_line(p.0, all[i])),
                i <= ls@.len(),
                out.deep_view() == want.take(i as int),
            decreases ls@.len() - i,
        {
            assert(all[i as int] == ls@[i as int]@);
            text::push_line(&mut out, log_line(p, ls[i]));
            assert(want.take(i + 1) =~= want.take(i as int).push(want[i as int]));
            i = i + 1;
        }
        assert(want.take(i as int) =~= want);
        self.sent = if self.sent > usize::MAX - ls.len() {
            usize::MAX
        } else {
            self.sent + ls.len()
        };
        let step = if !self.follow {
            StreamStep::Exit(0)
        } else if content.unicode_len() == 0 {
            StreamStep::CheckRun
        } else {
            StreamStep::Wait
        };
        (out, step)
    }

    /// Takes in the run as it is now: the last line and the exit code where the
    /// stage is over, and nothing while it runs.
    pub fn on_run(&self, p: &Paint, fresh: &PipelineInstance) -> (r: Option<(String, u8)>)
        ensures
            r.deep_view() == self.deep_view().ended(p.0, fresh.deep_view()),
    {
        let stages = &fresh.stages;
        let ghost all = stages.deep_view();
        let n: usize = stages.len();
        let mut k: usize = 0;
        while k < n && !text::same(stages[k].name.as_str(), self.stage.as_str())
            invariant
                all == stages.deep_view(),
                n == stages@.len(),
                k <= n,
                stage_named(all, self.stage@, 0) == stage_named(all, self.stage@, k as int),
            decreases n - k,
        {
            assert(all[k as int] == stages@[k as int].deep_view());
            k = k + 1;
        }
        let result = if k < n {
            assert(all[k as int] == stages@[k as int].deep_view());
            if stages[k].is_active() {
                return None;
            }
            match &stages[k].status {
                Some(s) => s.as_str(),
                None => "Unknown",
            }
        } else {
            "Unknown"
        };
        let arrow = p.dim("==>");
        let status = p.status(result);
        let line = text::cat5(arrow.as_str(), " ", self.stage.as_str(), " ", status.as_str());
        Some((line, if text::same(result, "Failed") { 1 } else { 0 }))
    }
}

// ---- laws ----------------------------------------------------------------

/// As many lines are printed as are counted as sent: the next fetch starts where
/// the printed log ends, so that no line is printed twice and none is left out.
pub proof fn printed_lines_are_counted(s: LogStreamView, on: bool, chunk: Result<&str, &str>)
    requires
        s.sent + s.chunk_lines(on, chunk).len() <= usize::MAX,
    ensures
        s.after_chunk(chunk).sent == s.sent + s.chunk_lines(on, chunk).len(),
{
}

/// A log that is not followed is printed once.
pub proof fn without_following_it_ends(s: LogStreamView, chunk: Result<&str, &str>)
    requires
        !s.follow,
    ensures
        s.chunk_step(chunk) is Exit || s.chunk_step(chunk) is Fail,
{
}

} // verus!
