//! The dashboard as a state machine over mathematical values: the state,
//! each transition as a function of the state and of what came from
//! outside, and what holds of them.
use crate::config::Config;
use crate::focus::{FocusPanel, Rect};
use crate::slurm::JobView;
use crate::text::{find, lemma_find, lemma_find_is, lines};
use vstd::prelude::*;

verus! {

/// The number of trailing lines that a log is read for.
pub const TAIL_LINES: usize = 500;

/// The rows of a panel that its border takes.
pub const BORDER_ROWS: u16 = 2;

/// What the dashboard asks of the outside before it can go on.
pub enum RequestView {
    /// Nothing: the state is settled.
    Idle,
    /// The output paths of the job with this identifier.
    Details { job_id: Seq<char> },
    /// The last `tail_lines` lines of the file at `path`, which the node
    /// `node` wrote.
    Log { path: Seq<char>, node: Seq<char>, tail_lines: usize },
}

/// The state of the dashboard.
pub struct AppView {
    pub config: Config,
    /// The jobs of the last snapshot, with the output paths that are known.
    pub jobs: Seq<JobView>,
    /// The position of the selected job in `jobs`.
    pub selected: Option<nat>,
    pub should_quit: bool,
    /// The text of the log that is shown.
    pub log_preview: Option<Seq<char>>,
    /// Why no log is shown.
    pub log_error: Option<Seq<char>>,
    /// Standard error is shown, not standard output.
    pub show_stderr: bool,
    /// The number of lines above the first line on screen.
    pub log_scroll: nat,
    /// The number of lines of `log_preview`.
    pub log_line_count: nat,
    pub focus: FocusPanel,
    /// Where the job list was drawn last.
    pub job_list_area: Rect,
    /// Where the log was drawn last.
    pub log_area: Rect,
    /// The job whose output paths were last looked up or found present.
    pub last_detail_job_id: Option<Seq<char>>,
    /// The job and stream that `log_preview` or `log_error` belongs to.
    pub last_log_key: Option<Seq<char>>,
}

// ---------------------------------------------------------------------------
// Job lists
// ---------------------------------------------------------------------------

/// The identifiers of the jobs, in order.
pub open spec fn ids(jobs: Seq<JobView>) -> Seq<Seq<char>> {
    jobs.map_values(|j: JobView| j.job_id)
}

/// The position of the first job with the identifier `id`, or the length of
/// the list where no job has it.
pub open spec fn position(jobs: Seq<JobView>, id: Seq<char>) -> int {
    find(ids(jobs), id)
}

/// Some job of the list has the identifier `id`.
pub open spec fn has_id(jobs: Seq<JobView>, id: Seq<char>) -> bool {
    exists|i: int| 0 <= i < jobs.len() && (#[trigger] jobs[i]).job_id == id
}

/// No two jobs of the list have the same identifier.
pub open spec fn distinct_ids(jobs: Seq<JobView>) -> bool {
    forall|i: int, j: int|
        0 <= i < j < jobs.len() ==> (#[trigger] jobs[i]).job_id != (#[trigger] jobs[j]).job_id
}

/// For each job, its identifier if one of its output paths is known.
pub open spec fn fetched_ids(jobs: Seq<JobView>) -> Seq<Option<Seq<char>>> {
    jobs.map_values(
        |j: JobView|
            if j.any_path() {
                Some(j.job_id)
            } else {
                None
            },
    )
}

/// The position of the first job with the identifier `id` of which an
/// output path is known, or the length of the list where there is none.
pub open spec fn fetched_position(jobs: Seq<JobView>, id: Seq<char>) -> int {
    find(fetched_ids(jobs), Some(id))
}

/// The output paths known for the identifier `id`: both paths of the first
/// job with that identifier of which one is known.
pub open spec fn known_paths(jobs: Seq<JobView>, id: Seq<char>) -> Option<
    (Option<Seq<char>>, Option<Seq<char>>),
> {
    let at = fetched_position(jobs, id);
    if 0 <= at < jobs.len() {
        Some((jobs[at].stderr, jobs[at].stdout))
    } else {
        None
    }
}

/// `job` with the output paths that `old` knows for its identifier, if any.
pub open spec fn carried(old: Seq<JobView>, job: JobView) -> JobView {
    match known_paths(old, job.job_id) {
        Some((stderr, stdout)) => job.with_paths(stderr, stdout),
        None => job,
    }
}

/// The jobs of `snapshot`, each with the output paths that `old` knows for
/// it.
pub open spec fn merged(old: Seq<JobView>, snapshot: Seq<JobView>) -> Seq<JobView> {
    snapshot.map_values(|j: JobView| carried(old, j))
}

/// The position nearest to `selected` in a list of `len` jobs: none in an
/// empty list, the first where nothing was selected.
pub open spec fn clamped(selected: Option<nat>, len: nat) -> Option<nat> {
    if len == 0 {
        None
    } else {
        match selected {
            Some(i) => Some(
                if i >= len {
                    (len - 1) as nat
                } else {
                    i
                },
            ),
            None => Some(0),
        }
    }
}

/// The key under which the log of one job and stream is remembered.
pub open spec fn log_key(job_id: Seq<char>, show_stderr: bool) -> Seq<char> {
    job_id.push(':') + if show_stderr {
        "err"@
    } else {
        "out"@
    }
}

/// What is shown where a job has no path for the stream.
pub open spec fn no_path() -> Seq<char> {
    "No path available"@
}

impl AppView {
    /// The state before any job list was read: no job, the first position
    /// selected, standard output shown, the focus on the job list, nothing
    /// drawn and nothing remembered.
    pub open spec fn initial(config: Config) -> AppView {
        AppView {
            config,
            jobs: Seq::empty(),
            selected: Some(0),
            should_quit: false,
            log_preview: None,
            log_error: None,
            show_stderr: false,
            log_scroll: 0,
            log_line_count: 0,
            focus: FocusPanel::Jobs,
            job_list_area: Rect::empty(),
            log_area: Rect::empty(),
            last_detail_job_id: None,
            last_log_key: None,
        }
    }

    // -----------------------------------------------------------------------
    // Selection
    // -----------------------------------------------------------------------
    /// The selected job.
    pub open spec fn selected_job(self) -> Option<JobView> {
        match self.selected {
            Some(i) => if i < self.jobs.len() {
                Some(self.jobs[i as int])
            } else {
                None
            },
            None => None,
        }
    }

    /// A job is selected exactly when there is one, and the selection is a
    /// position in the list.
    pub open spec fn selection_valid(self) -> bool {
        match self.selected {
            Some(i) => i < self.jobs.len(),
            None => self.jobs.len() == 0,
        }
    }

    /// A log and an error are not shown together, and the number of lines is
    /// that of the log that is shown.
    pub open spec fn log_valid(self) -> bool {
        match self.log_preview {
            Some(text) => self.log_error is None && self.log_line_count == lines(
                text,
                '\n',
                '\r',
            ).len(),
            None => true,
        }
    }

    /// The state after the job list was read anew as `snapshot`.
    pub open spec fn refreshed(self, snapshot: Seq<JobView>) -> AppView {
        let jobs = merged(self.jobs, snapshot);
        let kept = match self.selected_job() {
            Some(job) => position(jobs, job.job_id),
            None => jobs.len() as int,
        };
        if 0 <= kept < jobs.len() {
            AppView { jobs, selected: Some(kept as nat), ..self }
        } else {
            AppView {
                jobs,
                selected: clamped(self.selected, jobs.len()),
                last_detail_job_id: None,
                last_log_key: None,
                ..self
            }
        }
    }

    /// The state after the job list was read anew several times.
    pub open spec fn refreshed_all(self, snapshots: Seq<Seq<JobView>>) -> AppView
        decreases snapshots.len(),
    {
        if snapshots.len() == 0 {
            self
        } else {
            self.refreshed_all(snapshots.drop_last()).refreshed(snapshots.last())
        }
    }

    /// The selection moved one job down, from the last job to the first.
    pub open spec fn next_job(self) -> AppView {
        if self.jobs.len() == 0 {
            self
        } else {
            let to: nat = match self.selected {
                Some(i) => if i >= self.jobs.len() - 1 {
                    0
                } else {
                    i + 1
                },
                None => 0,
            };
            AppView { selected: Some(to), ..self }
        }
    }

    /// The selection moved one job up, from the first job to the last.
    pub open spec fn previous_job(self) -> AppView {
        if self.jobs.len() == 0 {
            self
        } else {
            let to: nat = match self.selected {
                Some(i) => if i == 0 {
                    (self.jobs.len() - 1) as nat
                } else {
                    (i - 1) as nat
                },
                None => 0,
            };
            AppView { selected: Some(to), ..self }
        }
    }

    /// The first job selected.
    pub open spec fn select_first(self) -> AppView {
        if self.jobs.len() == 0 {
            self
        } else {
            AppView { selected: Some(0), ..self }
        }
    }

    /// The last job selected.
    pub open spec fn select_last(self) -> AppView {
        if self.jobs.len() == 0 {
            self
        } else {
            AppView { selected: Some((self.jobs.len() - 1) as nat), ..self }
        }
    }

    // -----------------------------------------------------------------------
    // Scrolling
    // -----------------------------------------------------------------------
    /// The number of log lines that fit on screen.
    pub open spec fn viewport(self) -> nat {
        if self.log_area.height >= BORDER_ROWS {
            (self.log_area.height - BORDER_ROWS) as nat
        } else {
            0
        }
    }

    /// The scroll offset at which the last line of the log stands at the
    /// bottom of the screen: the number of lines that do not fit, as far as
    /// an offset can count them.
    pub open spec fn bottom(self) -> nat {
        let count = if self.log_line_count > u16::MAX {
            u16::MAX as nat
        } else {
            self.log_line_count
        };
        if count >= self.viewport() {
            (count - self.viewport()) as nat
        } else {
            0
        }
    }

    /// The log is scrolled to its bottom, or beyond.
    pub open spec fn at_bottom(self) -> bool {
        self.log_scroll >= self.bottom()
    }

    /// The scroll offset lies between the top and the bottom.
    pub open spec fn scroll_in_bounds(self) -> bool {
        self.log_scroll <= self.bottom()
    }

    /// Scrolled down by `amount` lines, to the bottom at most.
    pub open spec fn scrolled_down(self, amount: nat) -> AppView {
        let to = self.log_scroll + amount;
        AppView {
            log_scroll: if to <= self.bottom() {
                to as nat
            } else {
                self.bottom()
            },
            ..self
        }
    }

    /// Scrolled up by `amount` lines, to the top at most.
    pub open spec fn scrolled_up(self, amount: nat) -> AppView {
        AppView {
            log_scroll: if self.log_scroll >= amount {
                (self.log_scroll - amount) as nat
            } else {
                0
            },
            ..self
        }
    }

    /// Scrolled to the first line.
    pub open spec fn scrolled_top(self) -> AppView {
        AppView { log_scroll: 0, ..self }
    }

    /// Scrolled to the last line.
    pub open spec fn scrolled_bottom(self) -> AppView {
        AppView { log_scroll: self.bottom(), ..self }
    }

    /// The numbers of the first and the last line on screen, counted from
    /// one, or nothing where the log has no line. The last is the last line
    /// of the log at most.
    pub open spec fn visible_lines(self) -> Option<(nat, nat)> {
        if self.log_line_count == 0 {
            None
        } else if self.log_scroll + self.viewport() <= self.log_line_count {
            Some((self.log_scroll + 1, self.log_scroll + self.viewport()))
        } else {
            Some((self.log_scroll + 1, self.log_line_count))
        }
    }

    /// The number of lines that do not fit on screen, or nothing where all
    /// do.
    pub open spec fn scroll_range(self) -> Option<nat> {
        if self.log_line_count > self.viewport() {
            Some((self.log_line_count - self.viewport()) as nat)
        } else {
            None
        }
    }

    /// The other stream shown, from its top, with the log to be read anew.
    pub open spec fn toggled_log_mode(self) -> AppView {
        AppView { show_stderr: !self.show_stderr, last_log_key: None, log_scroll: 0, ..self }
    }

    // -----------------------------------------------------------------------
    // Focus
    // -----------------------------------------------------------------------
    /// The focus on the other panel.
    pub open spec fn cycled_focus(self) -> AppView {
        AppView { focus: self.focus.other(), ..self }
    }

    /// The focus on the job list.
    pub open spec fn focused_jobs(self) -> AppView {
        AppView { focus: FocusPanel::Jobs, ..self }
    }

    /// The focus after a click on the cell at `col` and `row`: on the panel
    /// that was drawn there, the log before the job list, and unchanged
    /// where neither was.
    pub open spec fn clicked(self, col: int, row: int) -> AppView {
        if self.log_area.holds(col, row) {
            AppView { focus: FocusPanel::Log, ..self }
        } else if self.job_list_area.holds(col, row) {
            AppView { focus: FocusPanel::Jobs, ..self }
        } else {
            self
        }
    }

    /// The dashboard asked to end.
    pub open spec fn quitting(self) -> AppView {
        AppView { should_quit: true, ..self }
    }

    /// The areas in which the two panels were drawn recorded.
    pub open spec fn with_areas(self, job_list_area: Rect, log_area: Rect) -> AppView {
        AppView { job_list_area, log_area, ..self }
    }

    // -----------------------------------------------------------------------
    // Details and log
    // -----------------------------------------------------------------------
    /// Makes sure that the log of the selected job and stream is the one
    /// shown: the state to go on with, and the reading that has to be done
    /// first, if any.
    pub open spec fn ensure_log_loaded(self) -> (AppView, RequestView) {
        match self.selected_job() {
            None => (self, RequestView::Idle),
            Some(job) => {
                let key = log_key(job.job_id, self.show_stderr);
                let path = if self.show_stderr {
                    job.stderr
                } else {
                    job.stdout
                };
                if self.last_log_key == Some(key) {
                    (self, RequestView::Idle)
                } else if path is Some && path->0.len() > 0 {
                    (
                        self,
                        RequestView::Log { path: path->0, node: job.nodelist, tail_lines: TAIL_LINES },
                    )
                } else {
                    (
                        AppView {
                            log_error: Some(no_path()),
                            log_preview: None,
                            last_log_key: Some(key),
                            ..self
                        },
                        RequestView::Idle,
                    )
                }
            },
        }
    }

    /// The state after the log of the selected job and stream was read,
    /// with the text or the error that the reading gave.
    pub open spec fn log_loaded(self, outcome: Result<Seq<char>, Seq<char>>) -> AppView {
        match self.selected_job() {
            None => self,
            Some(job) => {
                let key = Some(log_key(job.job_id, self.show_stderr));
                match outcome {
                    Ok(text) => {
                        let shown = AppView {
                            log_line_count: lines(text, '\n', '\r').len(),
                            log_preview: Some(text),
                            log_error: None,
                            last_log_key: key,
                            ..self
                        };
                        if self.at_bottom() || self.log_preview is None {
                            shown.scrolled_bottom()
                        } else {
                            shown
                        }
                    },
                    Err(error) => AppView {
                        log_preview: None,
                        log_error: Some(error),
                        log_line_count: 0,
                        log_scroll: 0,
                        last_log_key: key,
                        ..self
                    },
                }
            },
        }
    }

    /// Makes sure that the output paths of the selected job were looked up
    /// and that its log is the one shown: the state to go on with, and what
    /// has to be done first, if anything. The paths are looked up once for a
    /// selection, unless the job has both and neither is empty.
    pub open spec fn ensure_job_details(self) -> (AppView, RequestView) {
        match self.selected_job() {
            None => (self, RequestView::Idle),
            Some(job) => if self.last_detail_job_id == Some(job.job_id) {
                self.ensure_log_loaded()
            } else if !job.both_paths() {
                (self, RequestView::Details { job_id: job.job_id })
            } else {
                AppView { last_detail_job_id: Some(job.job_id), ..self }.ensure_log_loaded()
            },
        }
    }

    /// The state after the output paths of the selected job were looked up,
    /// with the paths of standard error and standard output that were found,
    /// and what has to be done next. The paths that were found take the
    /// place of the job's own, unless the job has both and neither is
    /// empty.
    pub open spec fn details_fetched(self, details: Option<(Seq<char>, Seq<char>)>) -> (
        AppView,
        RequestView,
    ) {
        match self.selected_job() {
            None => (self, RequestView::Idle),
            Some(job) => {
                let jobs = match details {
                    Some(found) => if !job.both_paths() {
                        self.jobs.update(
                            self.selected->0 as int,
                            job.with_paths(Some(found.0), Some(found.1)),
                        )
                    } else {
                        self.jobs
                    },
                    None => self.jobs,
                };
                AppView { jobs, last_detail_job_id: Some(job.job_id), ..self }.ensure_log_loaded()
            },
        }
    }

    /// One round of `ensure_job_details` in which every request is
    /// answered: a lookup of output paths with `details`, a reading of the
    /// log with `outcome`.
    pub open spec fn settled(
        self,
        details: Option<(Seq<char>, Seq<char>)>,
        outcome: Result<Seq<char>, Seq<char>>,
    ) -> AppView {
        let first = self.ensure_job_details();
        let second = if first.1 is Details {
            first.0.details_fetched(details)
        } else {
            first
        };
        if second.1 is Log {
            second.0.log_loaded(outcome)
        } else {
            second.0
        }
    }
}

// ---------------------------------------------------------------------------
// What holds of the transitions
// ---------------------------------------------------------------------------

/// Where some job has the identifier, `position` gives a job that has it.
pub proof fn lemma_position(jobs: Seq<JobView>, id: Seq<char>)
    ensures
        0 <= position(jobs, id) <= jobs.len(),
        has_id(jobs, id) <==> position(jobs, id) < jobs.len(),
        position(jobs, id) < jobs.len() ==> jobs[position(jobs, id)].job_id == id,
        forall|i: int| 0 <= i < position(jobs, id) ==> (#[trigger] jobs[i]).job_id != id,
{
    lemma_find(ids(jobs), id);
    let at = position(jobs, id);
    assert forall|i: int| 0 <= i < at implies (#[trigger] jobs[i]).job_id != id by {
        assert(ids(jobs)[i] == jobs[i].job_id);
    }
    if at < jobs.len() {
        assert(ids(jobs)[at] == jobs[at].job_id);
    }
    if has_id(jobs, id) {
        let i = choose|i: int| 0 <= i < jobs.len() && (#[trigger] jobs[i]).job_id == id;
        if at > i {
            assert(jobs[i].job_id != id);
        }
    }
}

/// Where `known_paths` gives paths, they are those of a job with the
/// identifier, and one of them is known.
pub proof fn lemma_known_paths(jobs: Seq<JobView>, id: Seq<char>)
    ensures
        0 <= fetched_position(jobs, id) <= jobs.len(),
        fetched_position(jobs, id) < jobs.len() ==> {
            &&& jobs[fetched_position(jobs, id)].job_id == id
            &&& jobs[fetched_position(jobs, id)].any_path()
        },
        forall|i: int|
            0 <= i < fetched_position(jobs, id) ==> !((#[trigger] jobs[i]).job_id == id
                && jobs[i].any_path()),
        match known_paths(jobs, id) {
            Some(paths) => paths.0 is Some || paths.1 is Some,
            None => true,
        },
{
    let marks = fetched_ids(jobs);
    lemma_find(marks, Some(id));
    let at = fetched_position(jobs, id);
    assert forall|i: int| 0 <= i < at implies !((#[trigger] jobs[i]).job_id == id
        && jobs[i].any_path()) by {
        assert(marks[i] != Some(id));
    }
    if at < jobs.len() {
        assert(marks[at] == Some(id));
    }
}

/// Reading the job list anew keeps the identifiers of the snapshot and all
/// else of each job but its output paths.
pub proof fn lemma_merged(old: Seq<JobView>, snapshot: Seq<JobView>)
    ensures
        merged(old, snapshot).len() == snapshot.len(),
        ids(merged(old, snapshot)) == ids(snapshot),
        forall|i: int|
            0 <= i < snapshot.len() ==> (#[trigger] merged(old, snapshot)[i]) == carried(
                old,
                snapshot[i],
            ),
{
    assert(ids(merged(old, snapshot)) =~= ids(snapshot));
}

/// After the job list was read anew, a job is selected exactly when there
/// is one, whatever was selected before.
pub proof fn law_refresh_selects(m: AppView, snapshot: Seq<JobView>)
    ensures
        m.refreshed(snapshot).selection_valid(),
        m.refreshed(snapshot).jobs.len() == snapshot.len(),
{
    lemma_merged(m.jobs, snapshot);
}

/// Moving the selection keeps it valid, and so does looking up details
/// and reading the log, which leave the selection as it is.
pub proof fn law_steps_keep_selection(
    m: AppView,
    details: Option<(Seq<char>, Seq<char>)>,
    outcome: Result<Seq<char>, Seq<char>>,
)
    requires
        m.selection_valid(),
    ensures
        m.next_job().selection_valid(),
        m.previous_job().selection_valid(),
        m.select_first().selection_valid(),
        m.select_last().selection_valid(),
        m.ensure_job_details().0.selection_valid(),
        m.details_fetched(details).0.selection_valid(),
        m.ensure_log_loaded().0.selection_valid(),
        m.log_loaded(outcome).selection_valid(),
        m.settled(details, outcome).selection_valid(),
        m.settled(details, outcome).selected == m.selected,
{
}

/// Selection stability: where the selected job has the identifier `id` and
/// the new snapshot holds a job with that identifier, the job selected after
/// the refresh has that identifier, wherever it stands, and what was
/// remembered of details and log stays remembered.
pub proof fn law_selection_stable(m: AppView, snapshot: Seq<JobView>, id: Seq<char>)
    requires
        m.selected_job() is Some,
        m.selected_job()->0.job_id == id,
        has_id(snapshot, id),
    ensures
        m.refreshed(snapshot).selected_job() is Some,
        m.refreshed(snapshot).selected_job()->0.job_id == id,
        m.refreshed(snapshot).selected == Some(position(snapshot, id) as nat),
        m.refreshed(snapshot).last_detail_job_id == m.last_detail_job_id,
        m.refreshed(snapshot).last_log_key == m.last_log_key,
{
    lemma_merged(m.jobs, snapshot);
    lemma_position(snapshot, id);
    lemma_position(merged(m.jobs, snapshot), id);
}

/// Selection clamping: where the selected job is gone from the new
/// snapshot, or none was selected, and the selected position lies at or
/// beyond the end of the new list, which is not empty, the last job is
/// selected after the refresh. What was remembered of details and log is
/// forgotten.
pub proof fn law_selection_clamped(m: AppView, snapshot: Seq<JobView>)
    requires
        m.selected_job() is Some ==> !has_id(snapshot, m.selected_job()->0.job_id),
        m.selected is Some,
        m.selected->0 >= snapshot.len() > 0,
    ensures
        m.refreshed(snapshot).selected == Some((snapshot.len() - 1) as nat),
        m.refreshed(snapshot).last_detail_job_id is None,
        m.refreshed(snapshot).last_log_key is None,
{
    lemma_merged(m.jobs, snapshot);
    if m.selected_job() is Some {
        let id = m.selected_job()->0.job_id;
        lemma_position(snapshot, id);
        lemma_position(merged(m.jobs, snapshot), id);
    }
}

/// Where the selected job is gone from the new snapshot, or none was
/// selected, the selection after the refresh is the old position, moved
/// into the new list, and what was remembered of details and log is
/// forgotten.
pub proof fn law_selection_lost(m: AppView, snapshot: Seq<JobView>)
    requires
        m.selected_job() is Some ==> !has_id(snapshot, m.selected_job()->0.job_id),
    ensures
        m.refreshed(snapshot).selected == clamped(m.selected, snapshot.len()),
        m.refreshed(snapshot).last_detail_job_id is None,
        m.refreshed(snapshot).last_log_key is None,
{
    lemma_merged(m.jobs, snapshot);
    if m.selected_job() is Some {
        let id = m.selected_job()->0.job_id;
        lemma_position(snapshot, id);
        lemma_position(merged(m.jobs, snapshot), id);
    }
}

/// One refresh keeps the output paths that are known for an identifier, on
/// every job of the new snapshot that has that identifier.
pub proof fn lemma_refresh_keeps_paths(
    m: AppView,
    snapshot: Seq<JobView>,
    id: Seq<char>,
    paths: (Option<Seq<char>>, Option<Seq<char>>),
)
    requires
        known_paths(m.jobs, id) == Some(paths),
    ensures
        forall|i: int|
            0 <= i < snapshot.len() && snapshot[i].job_id == id ==> {
                &&& (#[trigger] m.refreshed(snapshot).jobs[i]).job_id == id
                &&& m.refreshed(snapshot).jobs[i].stderr == paths.0
                &&& m.refreshed(snapshot).jobs[i].stdout == paths.1
            },
        has_id(snapshot, id) ==> known_paths(m.refreshed(snapshot).jobs, id) == Some(paths),
{
    lemma_merged(m.jobs, snapshot);
    lemma_known_paths(m.jobs, id);
    let after = m.refreshed(snapshot).jobs;
    assert(after == merged(m.jobs, snapshot));
    assert forall|i: int| 0 <= i < snapshot.len() && snapshot[i].job_id == id implies {
        &&& (#[trigger] after[i]).job_id == id
        &&& after[i].stderr == paths.0
        &&& after[i].stdout == paths.1
    } by {
        assert(after[i] == carried(m.jobs, snapshot[i]));
    }
    if has_id(snapshot, id) {
        lemma_position(snapshot, id);
        let first = position(snapshot, id);
        assert(after[first].job_id == id);
        assert(after[first].any_path());
        // The first job with the identifier carries the paths; no job
        // before it has the identifier.
        let marks = fetched_ids(after);
        assert forall|i: int| 0 <= i < first implies #[trigger] marks[i] != Some(id) by {
            assert(after[i] == carried(m.jobs, snapshot[i]));
            assert(snapshot[i].job_id != id);
        }
        assert(marks[first] == Some(id));
        lemma_find_is(marks, Some(id), first);
    }
}

/// Detail transfer: the output paths that are known for an identifier stay
/// known, unchanged, through any number of refreshes whose snapshots all
/// hold a job with that identifier; and after at least one refresh every job
/// with that identifier carries them.
pub proof fn law_detail_transfer(
    m: AppView,
    snapshots: Seq<Seq<JobView>>,
    id: Seq<char>,
    paths: (Option<Seq<char>>, Option<Seq<char>>),
)
    requires
        known_paths(m.jobs, id) == Some(paths),
        forall|k: int| 0 <= k < snapshots.len() ==> has_id(#[trigger] snapshots[k], id),
    ensures
        known_paths(m.refreshed_all(snapshots).jobs, id) == Some(paths),
        snapshots.len() > 0 ==> forall|i: int|
            0 <= i < m.refreshed_all(snapshots).jobs.len() && (#[trigger] m.refreshed_all(
                snapshots,
            ).jobs[i]).job_id == id ==> {
                &&& m.refreshed_all(snapshots).jobs[i].stderr == paths.0
                &&& m.refreshed_all(snapshots).jobs[i].stdout == paths.1
            },
    decreases snapshots.len(),
{
    if snapshots.len() > 0 {
        let before = m.refreshed_all(snapshots.drop_last());
        let last = snapshots.last();
        assert forall|k: int| 0 <= k < snapshots.drop_last().len() implies has_id(
            #[trigger] snapshots.drop_last()[k],
            id,
        ) by {
            assert(snapshots.drop_last()[k] == snapshots[k]);
        }
        law_detail_transfer(m, snapshots.drop_last(), id, paths);
        lemma_refresh_keeps_paths(before, last, id, paths);
        lemma_merged(before.jobs, last);
        let end = m.refreshed_all(snapshots);
        assert(end == before.refreshed(last));
        assert forall|i: int| 0 <= i < end.jobs.len() && (#[trigger] end.jobs[i]).job_id
            == id implies {
            &&& end.jobs[i].stderr == paths.0
            &&& end.jobs[i].stdout == paths.1
        } by {
            assert(ids(end.jobs)[i] == ids(last)[i]);
            assert(last[i].job_id == id);
        }
    }
}

/// Where no two jobs of the list have the same identifier, the paths known
/// for the identifier of a job of which a path is known are that job's own.
pub proof fn lemma_known_paths_of_job(jobs: Seq<JobView>, at: int)
    requires
        distinct_ids(jobs),
        0 <= at < jobs.len(),
        jobs[at].any_path(),
    ensures
        known_paths(jobs, jobs[at].job_id) == Some((jobs[at].stderr, jobs[at].stdout)),
{
    let id = jobs[at].job_id;
    let marks = fetched_ids(jobs);
    assert forall|i: int| 0 <= i < at implies #[trigger] marks[i] != Some(id) by {
        assert(jobs[i].job_id != jobs[at].job_id);
    }
    assert(marks[at] == Some(id));
    lemma_find_is(marks, Some(id), at);
}

/// Detail transfer, for one refresh: where no two jobs have the same
/// identifier, every job of the snapshot that has the identifier of a job
/// of which a path was known has both paths of that job after the refresh,
/// wherever it stands and whatever else the snapshot says of it.
pub proof fn law_refresh_keeps_job_paths(m: AppView, snapshot: Seq<JobView>, at: int)
    requires
        distinct_ids(m.jobs),
        0 <= at < m.jobs.len(),
        m.jobs[at].any_path(),
    ensures
        forall|i: int|
            0 <= i < snapshot.len() && snapshot[i].job_id == m.jobs[at].job_id ==> {
                &&& (#[trigger] m.refreshed(snapshot).jobs[i]).job_id == m.jobs[at].job_id
                &&& m.refreshed(snapshot).jobs[i].stderr == m.jobs[at].stderr
                &&& m.refreshed(snapshot).jobs[i].stdout == m.jobs[at].stdout
            },
{
    lemma_known_paths_of_job(m.jobs, at);
    lemma_refresh_keeps_paths(
        m,
        snapshot,
        m.jobs[at].job_id,
        (m.jobs[at].stderr, m.jobs[at].stdout),
    );
}

/// Detail transfer, for any number of refreshes: where no two jobs have the
/// same identifier and every snapshot holds the identifier of a job of
/// which a path was known, every job with that identifier has both paths of
/// that job after the last refresh. Where neither path is empty and such a
/// job is selected then, its paths are not looked up again.
pub proof fn law_detail_transfer_of_job(m: AppView, snapshots: Seq<Seq<JobView>>, at: int)
    requires
        distinct_ids(m.jobs),
        0 <= at < m.jobs.len(),
        m.jobs[at].any_path(),
        snapshots.len() > 0,
        forall|k: int|
            0 <= k < snapshots.len() ==> has_id(#[trigger] snapshots[k], m.jobs[at].job_id),
    ensures
        forall|i: int|
            0 <= i < m.refreshed_all(snapshots).jobs.len() && (#[trigger] m.refreshed_all(
                snapshots,
            ).jobs[i]).job_id == m.jobs[at].job_id ==> {
                &&& m.refreshed_all(snapshots).jobs[i].stderr == m.jobs[at].stderr
                &&& m.refreshed_all(snapshots).jobs[i].stdout == m.jobs[at].stdout
            },
        has_id(m.refreshed_all(snapshots).jobs, m.jobs[at].job_id),
        m.jobs[at].both_paths() && m.refreshed_all(snapshots).selected_job() is Some
            && m.refreshed_all(snapshots).selected_job()->0.job_id == m.jobs[at].job_id ==> !(
        m.refreshed_all(snapshots).ensure_job_details().1 is Details),
{
    let id = m.jobs[at].job_id;
    let paths = (m.jobs[at].stderr, m.jobs[at].stdout);
    lemma_known_paths_of_job(m.jobs, at);
    law_detail_transfer(m, snapshots, id, paths);
    let end = m.refreshed_all(snapshots);
    let before = m.refreshed_all(snapshots.drop_last());
    lemma_merged(before.jobs, snapshots.last());
    lemma_position(snapshots.last(), id);
    let first = position(snapshots.last(), id);
    assert(ids(end.jobs)[first] == ids(snapshots.last())[first]);
    assert(end.jobs[first].job_id == id);
    law_no_lookup(end);
}

/// The paths of the selected job are asked for exactly where they were
/// not looked up or found present for this selection yet and the job lacks
/// one, or has an empty one. They are never asked for twice in a row.
pub proof fn law_no_lookup(m: AppView)
    ensures
        m.ensure_job_details().1 is Details <==> m.selected_job() is Some && m.last_detail_job_id
            != Some(m.selected_job()->0.job_id) && !m.selected_job()->0.both_paths(),
        m.ensure_job_details().1 is Details ==> m.ensure_job_details() == (
            m,
            RequestView::Details { job_id: m.selected_job()->0.job_id },
        ),
{
}

/// After a refresh every job is as the snapshot has it, but for its
/// output paths; and a job for whose identifier no paths were known has the
/// paths of the snapshot too.
pub proof fn law_refresh_replaces_jobs(m: AppView, snapshot: Seq<JobView>)
    ensures
        m.refreshed(snapshot).jobs.len() == snapshot.len(),
        forall|i: int|
            0 <= i < snapshot.len() ==> (#[trigger] m.refreshed(snapshot).jobs[i]).with_paths(
                snapshot[i].stderr,
                snapshot[i].stdout,
            ) == snapshot[i],
        forall|i: int|
            0 <= i < snapshot.len() && known_paths(m.jobs, snapshot[i].job_id) is None ==> (
            #[trigger] m.refreshed(snapshot).jobs[i]) == snapshot[i],
{
    lemma_merged(m.jobs, snapshot);
}

/// A refresh changes nothing but the job list, the selection and what is
/// remembered of details and log.
pub proof fn law_refresh_frame(m: AppView, snapshot: Seq<JobView>)
    ensures
        m.refreshed(snapshot) == (AppView {
            jobs: m.refreshed(snapshot).jobs,
            selected: m.refreshed(snapshot).selected,
            last_detail_job_id: m.refreshed(snapshot).last_detail_job_id,
            last_log_key: m.refreshed(snapshot).last_log_key,
            ..m
        }),
{
}

/// Sticky bottom: a log that loads while the view is at its bottom is shown
/// at its new bottom; one that loads while the view shows an earlier log
/// above its bottom is shown at the same offset.
pub proof fn law_sticky_bottom(m: AppView, text: Seq<char>)
    requires
        m.selected_job() is Some,
    ensures
        m.at_bottom() ==> m.log_loaded(Ok(text)).log_scroll == m.log_loaded(Ok(text)).bottom(),
        !m.at_bottom() && m.log_preview is Some ==> m.log_loaded(Ok(text)).log_scroll
            == m.log_scroll,
        m.log_preview is None ==> m.log_loaded(Ok(text)).log_scroll == m.log_loaded(
            Ok(text),
        ).bottom(),
{
}

/// A reading that fails leaves no log, the error, no lines, and the view at
/// the top.
pub proof fn law_failed_load(m: AppView, error: Seq<char>)
    requires
        m.selected_job() is Some,
    ensures
        m.log_loaded(Err(error)).log_preview is None,
        m.log_loaded(Err(error)).log_error == Some(error),
        m.log_loaded(Err(error)).log_line_count == 0,
        m.log_loaded(Err(error)).log_scroll == 0,
        m.log_loaded(Err(error)).scroll_in_bounds(),
{
}

/// Scrolling by hand ends between the top and the bottom: always when
/// scrolling down or to either end, and when scrolling up from an offset
/// that was not beyond the bottom.
pub proof fn law_scroll_bounds(m: AppView, amount: nat)
    ensures
        m.scrolled_down(amount).scroll_in_bounds(),
        m.scrolled_top().scroll_in_bounds(),
        m.scrolled_bottom().scroll_in_bounds(),
        m.scroll_in_bounds() ==> m.scrolled_up(amount).scroll_in_bounds(),
        m.toggled_log_mode().scroll_in_bounds(),
{
}

/// Cache-key idempotence: once `ensure_log_loaded` wants no reading, or the
/// reading it wanted was done, whatever it gave, `ensure_log_loaded` wants
/// no reading and changes nothing.
pub proof fn law_log_loaded_once(m: AppView, outcome: Result<Seq<char>, Seq<char>>)
    ensures
        ({
            let first = m.ensure_log_loaded();
            let after = if first.1 is Log {
                first.0.log_loaded(outcome)
            } else {
                first.0
            };
            after.ensure_log_loaded() == (after, RequestView::Idle)
        }),
        m.ensure_log_loaded().1 is Log ==> m.ensure_log_loaded().0 == m,
        !(m.ensure_log_loaded().1 is Details),
{
}

/// Once a round of `ensure_job_details` is through, with whatever the
/// lookup and the reading gave, `ensure_job_details` asks for nothing and
/// changes nothing: the output paths of a selection are looked up at most
/// once, and its log is read at most once.
pub proof fn law_details_fetched_once(
    m: AppView,
    details: Option<(Seq<char>, Seq<char>)>,
    outcome: Result<Seq<char>, Seq<char>>,
)
    ensures
        m.settled(details, outcome).ensure_job_details() == (
            m.settled(details, outcome),
            RequestView::Idle,
        ),
        m.selected_job() is Some ==> {
            let job = m.selected_job()->0;
            &&& m.settled(details, outcome).last_detail_job_id == Some(job.job_id)
            &&& m.settled(details, outcome).last_log_key == Some(
                log_key(job.job_id, m.show_stderr),
            )
        },
{
    let end = m.settled(details, outcome);
    match m.selected_job() {
        None => {},
        Some(job) => {
            let first = m.ensure_job_details();
            let second = if first.1 is Details {
                first.0.details_fetched(details)
            } else {
                first
            };
            assert(second.0.selected == m.selected);
            assert(second.0.jobs.len() == m.jobs.len());
            assert(second.0.selected_job() is Some);
            assert(second.0.selected_job()->0.job_id == job.job_id);
            assert(second.0.last_detail_job_id == Some(job.job_id));
            assert(end.selected_job() == second.0.selected_job());
            assert(end.last_detail_job_id == Some(job.job_id));
            assert(end.last_log_key == Some(log_key(job.job_id, m.show_stderr)));
        },
    }
}

/// Switching streams shows the other stream from its top, and its log is
/// read anew where the selected job has a path for it; where it has none,
/// that is said in place of the log.
pub proof fn law_toggle_reloads(m: AppView)
    requires
        m.selected_job() is Some,
    ensures
        m.toggled_log_mode().show_stderr == !m.show_stderr,
        m.toggled_log_mode().log_scroll == 0,
        ({
            let job = m.selected_job()->0;
            let path = if m.show_stderr {
                job.stdout
            } else {
                job.stderr
            };
            let next = m.toggled_log_mode().ensure_log_loaded();
            if path is Some && path->0.len() > 0 {
                next.1 == (RequestView::Log {
                    path: path->0,
                    node: job.nodelist,
                    tail_lines: TAIL_LINES,
                })
            } else {
                next.1 is Idle && next.0.log_error == Some(no_path()) && next.0.log_preview is None
            }
        }),
{
}

/// At the start no log is shown; and whatever is read, no step shows a log
/// together with an error or with a number of lines that is not its own.
pub proof fn law_log_valid(
    config: Config,
    m: AppView,
    snapshot: Seq<JobView>,
    details: Option<(Seq<char>, Seq<char>)>,
    outcome: Result<Seq<char>, Seq<char>>,
    amount: nat,
)
    requires
        m.log_valid(),
    ensures
        AppView::initial(config).log_valid(),
        m.refreshed(snapshot).log_valid(),
        m.ensure_job_details().0.log_valid(),
        m.details_fetched(details).0.log_valid(),
        m.ensure_log_loaded().0.log_valid(),
        m.log_loaded(outcome).log_valid(),
        m.settled(details, outcome).log_valid(),
        m.toggled_log_mode().log_valid(),
        m.scrolled_down(amount).log_valid(),
        m.scrolled_up(amount).log_valid(),
        m.scrolled_top().log_valid(),
        m.scrolled_bottom().log_valid(),
{
}

/// No step of the dashboard changes its settings.
pub proof fn law_settings_kept(
    m: AppView,
    snapshot: Seq<JobView>,
    details: Option<(Seq<char>, Seq<char>)>,
    outcome: Result<Seq<char>, Seq<char>>,
)
    ensures
        m.refreshed(snapshot).config == m.config,
        m.ensure_job_details().0.config == m.config,
        m.details_fetched(details).0.config == m.config,
        m.ensure_log_loaded().0.config == m.config,
        m.log_loaded(outcome).config == m.config,
        m.settled(details, outcome).config == m.config,
{
}

/// Looking up output paths changes no job but the selected one, and of it
/// only the paths, and only where it had none.
pub proof fn law_details_fetched_frame(m: AppView, details: Option<(Seq<char>, Seq<char>)>)
    ensures
        m.details_fetched(details).0.jobs.len() == m.jobs.len(),
        ids(m.details_fetched(details).0.jobs) == ids(m.jobs),
        forall|i: int|
            0 <= i < m.jobs.len() && Some(i as nat) != m.selected ==> #[trigger] m.details_fetched(
                details,
            ).0.jobs[i] == m.jobs[i],
        forall|i: int|
            0 <= i < m.jobs.len() && (#[trigger] m.jobs[i]).both_paths() ==> m.details_fetched(
                details,
            ).0.jobs[i] == m.jobs[i],
        m.selected_job() is Some && !m.selected_job()->0.both_paths() ==> match details {
            Some(found) => {
                &&& m.details_fetched(details).0.selected_job()->0.stderr == Some(found.0)
                &&& m.details_fetched(details).0.selected_job()->0.stdout == Some(found.1)
            },
            None => m.details_fetched(details).0.jobs == m.jobs,
        },
        m.details_fetched(details).0.selected == m.selected,
{
    assert(ids(m.details_fetched(details).0.jobs) =~= ids(m.jobs));
}

} // verus!
