//! The dashboard's state and the operations on it. Each operation does what
//! the transition of the same name in [`crate::model`] says.
use crate::config::Config;
pub use crate::focus::FocusPanel;
use crate::focus::{rect_contains, Rect};
use crate::model::{
    fetched_ids, fetched_position, ids, log_key, merged, position, AppView, RequestView,
    BORDER_ROWS, TAIL_LINES,
};
use crate::slurm::{copy_text, job_views, Job, JobView};
use crate::text::{lemma_find_is, line_spans, outcome_of, pieces, text_of, to_chars, Span};
use vstd::prelude::*;

verus! {

broadcast use vstd::string::group_string_axioms;

/// What the dashboard asks of the outside before it can go on.
#[derive(Debug)]
pub enum Request {
    /// Nothing: the state is settled.
    Idle,
    /// The output paths of the job with this identifier.
    Details { job_id: String },
    /// The last `tail_lines` lines of the file at `path`, which the node
    /// `node` wrote.
    Log { path: String, node: String, tail_lines: usize },
}

impl View for Request {
    type V = RequestView;

    open spec fn view(&self) -> RequestView {
        match self {
            Request::Idle => RequestView::Idle,
            Request::Details { job_id } => RequestView::Details { job_id: job_id@ },
            Request::Log { path, node, tail_lines } => RequestView::Log {
                path: path@,
                node: node@,
                tail_lines: *tail_lines,
            },
        }
    }
}

/// What an optional position stands for.
pub open spec fn place_of(at: Option<usize>) -> Option<nat> {
    match at {
        Some(i) => Some(i as nat),
        None => None,
    }
}

/// What the outcome of a lookup of output paths stands for.
pub open spec fn details_of(details: Option<(String, String)>) -> Option<(Seq<char>, Seq<char>)> {
    match details {
        Some(found) => Some((found.0@, found.1@)),
        None => None,
    }
}

/// The state of the dashboard.
pub struct App {
    config: Config,
    jobs: Vec<Job>,
    selected: Option<usize>,
    should_quit: bool,
    log_preview: Option<String>,
    log_error: Option<String>,
    show_stderr: bool,
    log_scroll: u16,
    log_line_count: usize,
    focus: FocusPanel,
    job_list_area: Rect,
    log_area: Rect,
    last_detail_job_id: Option<String>,
    last_log_key: Option<String>,
}

impl View for App {
    type V = AppView;

    closed spec fn view(&self) -> AppView {
        AppView {
            config: self.config,
            jobs: job_views(self.jobs@),
            selected: place_of(self.selected),
            should_quit: self.should_quit,
            log_preview: text_of(self.log_preview),
            log_error: text_of(self.log_error),
            show_stderr: self.show_stderr,
            log_scroll: self.log_scroll as nat,
            log_line_count: self.log_line_count as nat,
            focus: self.focus,
            job_list_area: self.job_list_area,
            log_area: self.log_area,
            last_detail_job_id: text_of(self.last_detail_job_id),
            last_log_key: text_of(self.last_log_key),
        }
    }
}

/// The position of the first job with the identifier `id`, or the length of
/// the list.
fn id_position(jobs: &Vec<Job>, id: &String) -> (at: usize)
    ensures
        at == position(job_views(jobs@), id@),
{
    let mut at: usize = 0;
    while at < jobs.len() && jobs[at].job_id != *id
        invariant
            at <= jobs@.len(),
            forall|i: int| 0 <= i < at ==> (#[trigger] jobs@[i]).job_id@ != id@,
        decreases jobs@.len() - at,
    {
        at += 1;
    }
    proof {
        let all = ids(job_views(jobs@));
        assert forall|i: int| 0 <= i < at implies #[trigger] all[i] != id@ by {
            assert(all[i] == jobs@[i].job_id@);
        }
        if at < jobs@.len() {
            assert(all[at as int] == jobs@[at as int].job_id@);
        }
        lemma_find_is(all, id@, at as int);
    }
    at
}

/// The position of the first job with the identifier `id` of which an
/// output path is known, or the length of the list.
fn known_position(jobs: &Vec<Job>, id: &String) -> (at: usize)
    ensures
        at == fetched_position(job_views(jobs@), id@),
{
    let mut at: usize = 0;
    while at < jobs.len() && !(jobs[at].has_any_path() && jobs[at].job_id == *id)
        invariant
            at <= jobs@.len(),
            forall|i: int|
                0 <= i < at ==> !((#[trigger] jobs@[i])@.any_path() && jobs@[i].job_id@ == id@),
        decreases jobs@.len() - at,
    {
        at += 1;
    }
    proof {
        let marks = fetched_ids(job_views(jobs@));
        assert forall|i: int| 0 <= i < at implies #[trigger] marks[i] != Some(id@) by {
            assert(job_views(jobs@)[i] == jobs@[i]@);
        }
        if at < jobs@.len() {
            assert(job_views(jobs@)[at as int] == jobs@[at as int]@);
            assert(marks[at as int] == Some(id@));
        }
        lemma_find_is(marks, Some(id@), at as int);
    }
    at
}

/// Whether `stored` holds the text `text`.
fn holds_text(stored: &Option<String>, text: &String) -> (same: bool)
    ensures
        same == (text_of(*stored) == Some(text@)),
{
    match stored {
        Some(s) => *s == *text,
        None => false,
    }
}

/// The key under which the log of one job and stream is remembered.
fn make_log_key(job_id: &String, show_stderr: bool) -> (key: String)
    ensures
        key@ == log_key(job_id@, show_stderr),
{
    let mut key = job_id.clone();
    key.push(':');
    key.append(
        if show_stderr {
            "err"
        } else {
            "out"
        },
    );
    key
}

impl App {
    /// The dashboard as it starts with the settings `config` and the first
    /// reading `snapshot` of the job list.
    pub fn new(config: Config, snapshot: Vec<Job>) -> (app: App)
        ensures
            app@ == AppView::initial(config).refreshed(job_views(snapshot@)),
    {
        let mut app = App {
            config,
            jobs: Vec::new(),
            selected: Some(0),
            should_quit: false,
            log_preview: None,
            log_error: None,
            show_stderr: false,
            log_scroll: 0,
            log_line_count: 0,
            focus: FocusPanel::Jobs,
            job_list_area: Rect::default(),
            log_area: Rect::default(),
            last_detail_job_id: None,
            last_log_key: None,
        };
        assert(app@.jobs =~= Seq::<JobView>::empty());
        app.refresh_jobs(snapshot);
        app
    }

    /// Takes `snapshot` as the job list. Each of its jobs gets both output
    /// paths of the first job with its identifier of which one was known. The job that was selected
    /// stays selected where the snapshot has it; otherwise the selected
    /// position is moved into the new list, and what was remembered of
    /// details and log is forgotten.
    pub fn refresh_jobs(&mut self, snapshot: Vec<Job>)
        ensures
            final(self)@ == old(self)@.refreshed(job_views(snapshot@)),
    {
        let ghost before = self@;
        let ghost fresh = job_views(snapshot@);
        let mut jobs = snapshot;
        let mut i: usize = 0;
        while i < jobs.len()
            invariant
                i <= jobs@.len(),
                self@ == before,
                jobs@.len() == fresh.len(),
                forall|k: int| 0 <= k < i ==> (#[trigger] jobs@[k])@ == merged(before.jobs, fresh)[k],
                forall|k: int| i <= k < jobs@.len() ==> (#[trigger] jobs@[k])@ == fresh[k],
            decreases jobs@.len() - i,
        {
            let at = known_position(&self.jobs, &jobs[i].job_id);
            if at < self.jobs.len() {
                let known = &self.jobs[at];
                proof {
                    assert(job_views(self.jobs@)[at as int] == known@);
                }
                let job = jobs[i].clone().with_paths(
                    copy_text(&known.stderr),
                    copy_text(&known.stdout),
                );
                jobs.set(i, job);
            }
            i += 1;
        }
        proof {
            assert(job_views(jobs@) =~= merged(before.jobs, fresh));
        }
        let kept: usize = match self.selected_job() {
            Some(job) => id_position(&jobs, &job.job_id),
            None => jobs.len(),
        };
        if kept < jobs.len() {
            self.jobs = jobs;
            self.selected = Some(kept);
        } else {
            self.selected = if jobs.len() == 0 {
                None
            } else {
                match self.selected {
                    Some(at) => Some(
                        if at >= jobs.len() {
                            jobs.len() - 1
                        } else {
                            at
                        },
                    ),
                    None => Some(0),
                }
            };
            self.jobs = jobs;
            self.last_detail_job_id = None;
            self.last_log_key = None;
        }
    }

    /// The selected job.
    pub fn selected_job(&self) -> (job: Option<&Job>)
        ensures
            match job {
                Some(job) => self@.selected_job() == Some(job@),
                None => self@.selected_job() is None,
            },
    {
        match self.selected {
            Some(at) => if at < self.jobs.len() {
                proof {
                    assert(job_views(self.jobs@)[at as int] == self.jobs@[at as int]@);
                }
                Some(&self.jobs[at])
            } else {
                None
            },
            None => None,
        }
    }

    /// Makes sure that the output paths of the selected job were looked up
    /// and that its log is the one shown. The paths are looked up once for a
    /// selection, unless the job has both and neither is empty. Returns what
    /// has to be done first:
    /// hand the outcome of a `Details` request to [`App::details_fetched`],
    /// that of a `Log` request to [`App::log_loaded`].
    pub fn ensure_job_details(&mut self) -> (request: Request)
        ensures
            (final(self)@, request@) == old(self)@.ensure_job_details(),
    {
        let (id, missing) = match self.selected_job() {
            Some(job) => (job.job_id.clone(), !job.has_both_paths()),
            None => {
                return Request::Idle;
            },
        };
        if holds_text(&self.last_detail_job_id, &id) {
            return self.ensure_log_loaded();
        }
        if missing {
            return Request::Details { job_id: id };
        }
        self.last_detail_job_id = Some(id);
        self.ensure_log_loaded()
    }

    /// Takes the outcome of a lookup of the selected job's output paths: the
    /// paths of standard error and standard output, or nothing where the
    /// lookup failed. The paths that were found take the place of the job's
    /// own, unless the job has both and neither is empty. Returns what has
    /// to be done next.
    pub fn details_fetched(&mut self, details: Option<(String, String)>) -> (request: Request)
        ensures
            (final(self)@, request@) == old(self)@.details_fetched(details_of(details)),
    {
        let ghost before = self@;
        let (at, id, missing) = match self.selected {
            Some(at) => if at < self.jobs.len() {
                proof {
                    assert(job_views(self.jobs@)[at as int] == self.jobs@[at as int]@);
                }
                (at, self.jobs[at].job_id.clone(), !self.jobs[at].has_both_paths())
            } else {
                return Request::Idle;
            },
            None => {
                return Request::Idle;
            },
        };
        match details {
            Some(found) => {
                if missing {
                    let ghost shown = job_views(self.jobs@);
                    let job = self.jobs[at].clone().with_paths(Some(found.0), Some(found.1));
                    let ghost v = job@;
                    self.jobs.set(at, job);
                    proof {
                        assert(job_views(self.jobs@) =~= shown.update(at as int, v));
                    }
                }
            },
            None => {},
        }
        self.last_detail_job_id = Some(id);
        self.ensure_log_loaded()
    }

    /// Makes sure that the log of the selected job and stream is the one
    /// shown. Returns the reading that has to be done first, if any: hand
    /// its outcome to [`App::log_loaded`].
    pub fn ensure_log_loaded(&mut self) -> (request: Request)
        ensures
            (final(self)@, request@) == old(self)@.ensure_log_loaded(),
    {
        let (key, path, node) = match self.selected_job() {
            Some(job) => (
                make_log_key(&job.job_id, self.show_stderr),
                copy_text(
                    if self.show_stderr {
                        &job.stderr
                    } else {
                        &job.stdout
                    },
                ),
                job.nodelist.clone(),
            ),
            None => {
                return Request::Idle;
            },
        };
        if holds_text(&self.last_log_key, &key) {
            return Request::Idle;
        }
        match path {
            Some(path) => {
                if !path.as_str().is_empty() {
                    return Request::Log { path, node, tail_lines: TAIL_LINES };
                }
            },
            None => {},
        }
        self.log_error = Some("No path available".to_string());
        self.log_preview = None;
        self.last_log_key = Some(key);
        Request::Idle
    }

    /// Takes the outcome of a reading of the selected job's log: the text,
    /// or why there is none. A text is shown at its bottom where the view
    /// was at the bottom or showed no log, and at the same offset
    /// otherwise. An error is shown in place of the log.
    pub fn log_loaded(&mut self, outcome: Result<String, String>)
        ensures
            final(self)@ == old(self)@.log_loaded(outcome_of(outcome)),
    {
        let key = match self.selected_job() {
            Some(job) => make_log_key(&job.job_id, self.show_stderr),
            None => {
                return ;
            },
        };
        let was_at_bottom = self.is_at_bottom() || self.log_preview.is_none();
        match outcome {
            Ok(text) => {
                let chars = to_chars(text.as_str());
                let whole = Span { start: 0, end: chars.len() };
                assert(whole.of(chars@) =~= text@);
                let spans = line_spans(chars.as_slice(), whole, '\n', '\r');
                assert(pieces(chars@, spans@).len() == spans@.len());
                self.log_line_count = spans.len();
                self.log_preview = Some(text);
                self.log_error = None;
                self.last_log_key = Some(key);
                if was_at_bottom {
                    self.scroll_log_bottom();
                }
            },
            Err(error) => {
                self.log_preview = None;
                self.log_error = Some(error);
                self.log_line_count = 0;
                self.log_scroll = 0;
                self.last_log_key = Some(key);
            },
        }
    }

    /// The number of log lines that fit on screen.
    fn viewport_lines(&self) -> (n: u16)
        ensures
            n == self@.viewport(),
    {
        if self.log_area.height >= BORDER_ROWS {
            self.log_area.height - BORDER_ROWS
        } else {
            0
        }
    }

    /// The scroll offset at which the last line of the log stands at the
    /// bottom of the screen.
    fn bottom(&self) -> (n: u16)
        ensures
            n == self@.bottom(),
    {
        let count: u16 = if self.log_line_count > 65535 {
            65535
        } else {
            self.log_line_count as u16
        };
        let viewport = self.viewport_lines();
        if count >= viewport {
            count - viewport
        } else {
            0
        }
    }

    /// Whether the log is scrolled to its bottom.
    pub fn is_at_bottom(&self) -> (at_bottom: bool)
        ensures
            at_bottom == self@.at_bottom(),
    {
        self.log_scroll >= self.bottom()
    }

    /// The numbers of the first and the last line on screen, counted from
    /// one, or nothing where the log has no line.
    pub fn visible_lines(&self) -> (range: Option<(usize, usize)>)
        ensures
            match range {
                Some(r) => self@.visible_lines() == Some((r.0 as nat, r.1 as nat)),
                None => self@.visible_lines() is None,
            },
    {
        if self.log_line_count == 0 {
            return None;
        }
        let first: usize = self.log_scroll as usize + 1;
        let viewport: usize = self.viewport_lines() as usize;
        let scroll: usize = self.log_scroll as usize;
        if viewport <= self.log_line_count && scroll <= self.log_line_count - viewport {
            Some((first, scroll + viewport))
        } else {
            Some((first, self.log_line_count))
        }
    }

    /// The number of lines that do not fit on screen, or nothing where all
    /// do.
    pub fn scroll_range(&self) -> (range: Option<usize>)
        ensures
            match range {
                Some(n) => self@.scroll_range() == Some(n as nat),
                None => self@.scroll_range() is None,
            },
    {
        let viewport: usize = self.viewport_lines() as usize;
        if self.log_line_count > viewport {
            Some(self.log_line_count - viewport)
        } else {
            None
        }
    }

    /// Moves the focus to the other panel.
    pub fn cycle_focus(&mut self)
        ensures
            final(self)@ == old(self)@.cycled_focus(),
    {
        self.focus = match self.focus {
            FocusPanel::Jobs => FocusPanel::Log,
            FocusPanel::Log => FocusPanel::Jobs,
        };
    }

    /// Moves the focus to the job list.
    pub fn focus_jobs(&mut self)
        ensures
            final(self)@ == old(self)@.focused_jobs(),
    {
        self.focus = FocusPanel::Jobs;
    }

    /// Moves the focus to the panel that was drawn at the cell at `col` and
    /// `row`, if one was.
    pub fn click(&mut self, col: u16, row: u16)
        ensures
            final(self)@ == old(self)@.clicked(col as int, row as int),
    {
        if rect_contains(self.log_area, col, row) {
            self.focus = FocusPanel::Log;
        } else if rect_contains(self.job_list_area, col, row) {
            self.focus = FocusPanel::Jobs;
        }
    }

    /// Shows the other stream, from its top.
    pub fn toggle_log_mode(&mut self)
        ensures
            final(self)@ == old(self)@.toggled_log_mode(),
    {
        self.show_stderr = !self.show_stderr;
        self.last_log_key = None;
        self.log_scroll = 0;
    }

    /// Scrolls the log down by `amount` lines, to its bottom at most.
    pub fn scroll_log_down(&mut self, amount: u16)
        ensures
            final(self)@ == old(self)@.scrolled_down(amount as nat),
    {
        let bottom = self.bottom();
        let to: u32 = self.log_scroll as u32 + amount as u32;
        self.log_scroll = if to <= bottom as u32 {
            to as u16
        } else {
            bottom
        };
    }

    /// Scrolls the log up by `amount` lines, to its top at most.
    pub fn scroll_log_up(&mut self, amount: u16)
        ensures
            final(self)@ == old(self)@.scrolled_up(amount as nat),
    {
        self.log_scroll = if self.log_scroll >= amount {
            self.log_scroll - amount
        } else {
            0
        };
    }

    /// Scrolls the log to its top.
    pub fn scroll_log_top(&mut self)
        ensures
            final(self)@ == old(self)@.scrolled_top(),
    {
        self.log_scroll = 0;
    }

    /// Scrolls the log to its bottom.
    pub fn scroll_log_bottom(&mut self)
        ensures
            final(self)@ == old(self)@.scrolled_bottom(),
    {
        self.log_scroll = self.bottom();
    }

    /// Selects the job below the selected one, or the first after the last.
    pub fn next_job(&mut self)
        ensures
            final(self)@ == old(self)@.next_job(),
    {
        if self.jobs.len() == 0 {
            return ;
        }
        let to: usize = match self.selected {
            Some(at) => if at >= self.jobs.len() - 1 {
                0
            } else {
                at + 1
            },
            None => 0,
        };
        self.selected = Some(to);
    }

    /// Selects the job above the selected one, or the last before the
    /// first.
    pub fn previous_job(&mut self)
        ensures
            final(self)@ == old(self)@.previous_job(),
    {
        if self.jobs.len() == 0 {
            return ;
        }
        let to: usize = match self.selected {
            Some(at) => if at == 0 {
                self.jobs.len() - 1
            } else {
                at - 1
            },
            None => 0,
        };
        self.selected = Some(to);
    }

    /// Selects the first job.
    pub fn select_first(&mut self)
        ensures
            final(self)@ == old(self)@.select_first(),
    {
        if self.jobs.len() != 0 {
            self.selected = Some(0);
        }
    }

    /// Selects the last job.
    pub fn select_last(&mut self)
        ensures
            final(self)@ == old(self)@.select_last(),
    {
        if self.jobs.len() != 0 {
            self.selected = Some(self.jobs.len() - 1);
        }
    }

    /// Asks for the dashboard to end.
    pub fn quit(&mut self)
        ensures
            final(self)@ == old(self)@.quitting(),
    {
        self.should_quit = true;
    }

    /// Records where the two panels were drawn.
    pub fn set_areas(&mut self, job_list_area: Rect, log_area: Rect)
        ensures
            final(self)@ == old(self)@.with_areas(job_list_area, log_area),
    {
        self.job_list_area = job_list_area;
        self.log_area = log_area;
    }

    pub fn config(&self) -> (config: &Config)
        ensures
            *config == self@.config,
    {
        &self.config
    }

    pub fn jobs(&self) -> (jobs: &Vec<Job>)
        ensures
            job_views(jobs@) == self@.jobs,
    {
        &self.jobs
    }

    /// The position of the selection in the job list.
    pub fn selected(&self) -> (at: Option<usize>)
        ensures
            place_of(at) == self@.selected,
    {
        self.selected
    }

    pub fn should_quit(&self) -> (quit: bool)
        ensures
            quit == self@.should_quit,
    {
        self.should_quit
    }

    /// The text of the log that is shown.
    pub fn log_preview(&self) -> (text: &Option<String>)
        ensures
            text_of(*text) == self@.log_preview,
    {
        &self.log_preview
    }

    /// Why no log is shown.
    pub fn log_error(&self) -> (error: &Option<String>)
        ensures
            text_of(*error) == self@.log_error,
    {
        &self.log_error
    }

    /// Whether standard error is shown, not standard output.
    pub fn show_stderr(&self) -> (shown: bool)
        ensures
            shown == self@.show_stderr,
    {
        self.show_stderr
    }

    /// The number of lines above the first line on screen.
    pub fn log_scroll(&self) -> (offset: u16)
        ensures
            offset == self@.log_scroll,
    {
        self.log_scroll
    }

    /// The number of lines of the log that is shown.
    pub fn log_line_count(&self) -> (count: usize)
        ensures
            count == self@.log_line_count,
    {
        self.log_line_count
    }

    pub fn focus(&self) -> (panel: FocusPanel)
        ensures
            panel == self@.focus,
    {
        self.focus
    }

    /// Where the job list was drawn last.
    pub fn job_list_area(&self) -> (area: Rect)
        ensures
            area == self@.job_list_area,
    {
        self.job_list_area
    }

    /// Where the log was drawn last.
    pub fn log_area(&self) -> (area: Rect)
        ensures
            area == self@.log_area,
    {
        self.log_area
    }
}

} // verus!
