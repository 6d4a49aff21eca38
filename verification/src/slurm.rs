//! Jobs as the scheduler reports them: the queue listing, the per-job detail
//! record, and the arguments of the commands that produce them.
use crate::config::{Config, PathMappings};
use crate::text::{
    all_fit, decimal, is_whitespace, lemma_find_is, lemma_trim_blank, lemma_trim_idempotent,
    line_spans, lines, name_of, outcome_of,
    pieces, push_decimal, push_span, span_is,
    span_starts_with, span_to_string, split, split_spans, starts_with, text_of, texts, to_chars,
    trim, trim_span, word_spans, words, Span,
};
use vstd::prelude::*;

verus! {

broadcast use vstd::string::group_string_axioms;

/// The lifecycle state of a job.
#[derive(Debug, PartialEq)]
pub enum JobState {
    Running,
    Pending,
    Completing,
    Completed,
    Failed,
    Cancelled,
    Timeout,
    /// A state this library has no name for, with the scheduler's text.
    Unknown(String),
}

/// What a [`JobState`] stands for.
pub enum JobStateView {
    Running,
    Pending,
    Completing,
    Completed,
    Failed,
    Cancelled,
    Timeout,
    Unknown(Seq<char>),
}

impl View for JobState {
    type V = JobStateView;

    open spec fn view(&self) -> JobStateView {
        match self {
            JobState::Running => JobStateView::Running,
            JobState::Pending => JobStateView::Pending,
            JobState::Completing => JobStateView::Completing,
            JobState::Completed => JobStateView::Completed,
            JobState::Failed => JobStateView::Failed,
            JobState::Cancelled => JobStateView::Cancelled,
            JobState::Timeout => JobStateView::Timeout,
            JobState::Unknown(s) => JobStateView::Unknown(s@),
        }
    }
}

impl JobStateView {
    /// The state that the scheduler writes as `code`, in its short or its
    /// long form. Any other text is kept as it is.
    pub open spec fn of_code(code: Seq<char>) -> JobStateView {
        if code == "R"@ || code == "RUNNING"@ {
            JobStateView::Running
        } else if code == "PD"@ || code == "PENDING"@ {
            JobStateView::Pending
        } else if code == "CG"@ || code == "COMPLETING"@ {
            JobStateView::Completing
        } else if code == "CD"@ || code == "COMPLETED"@ {
            JobStateView::Completed
        } else if code == "F"@ || code == "FAILED"@ {
            JobStateView::Failed
        } else if code == "CA"@ || code == "CANCELLED"@ {
            JobStateView::Cancelled
        } else if code == "TO"@ || code == "TIMEOUT"@ {
            JobStateView::Timeout
        } else {
            JobStateView::Unknown(code)
        }
    }

    /// The state that `text` names once the whitespace around it is dropped.
    pub open spec fn parse(text: Seq<char>) -> JobStateView {
        Self::of_code(trim(text))
    }

    /// The short form of the state; for an unknown state, its text.
    pub open spec fn code(self) -> Seq<char> {
        match self {
            JobStateView::Running => "R"@,
            JobStateView::Pending => "PD"@,
            JobStateView::Completing => "CG"@,
            JobStateView::Completed => "CD"@,
            JobStateView::Failed => "F"@,
            JobStateView::Cancelled => "CA"@,
            JobStateView::Timeout => "TO"@,
            JobStateView::Unknown(s) => s,
        }
    }
}

impl JobState {
    /// The state that `s[code]` names, taken as it stands.
    pub fn from_code(s: &[char], code: Span) -> (state: JobState)
        requires
            code.fits(s@.len()),
        ensures
            state@ == JobStateView::of_code(code.of(s@)),
    {
        if span_is(s, code, "R") || span_is(s, code, "RUNNING") {
            JobState::Running
        } else if span_is(s, code, "PD") || span_is(s, code, "PENDING") {
            JobState::Pending
        } else if span_is(s, code, "CG") || span_is(s, code, "COMPLETING") {
            JobState::Completing
        } else if span_is(s, code, "CD") || span_is(s, code, "COMPLETED") {
            JobState::Completed
        } else if span_is(s, code, "F") || span_is(s, code, "FAILED") {
            JobState::Failed
        } else if span_is(s, code, "CA") || span_is(s, code, "CANCELLED") {
            JobState::Cancelled
        } else if span_is(s, code, "TO") || span_is(s, code, "TIMEOUT") {
            JobState::Timeout
        } else {
            JobState::Unknown(span_to_string(s, code))
        }
    }

    /// Reads a state from the scheduler's text. Whitespace around the text
    /// does not count, and a text that names no known state gives
    /// `Unknown` with the trimmed text.
    pub fn from_str(s: &str) -> (state: JobState)
        ensures
            state@ == JobStateView::parse(s@),
    {
        let chars = to_chars(s);
        let whole = Span { start: 0, end: chars.len() };
        assert(whole.of(chars@) =~= s@);
        let code = trim_span(chars.as_slice(), whole);
        JobState::from_code(chars.as_slice(), code)
    }

    /// The short form of the state; for an unknown state, its text.
    pub fn as_str(&self) -> (code: &str)
        ensures
            code@ == self@.code(),
    {
        match self {
            JobState::Running => "R",
            JobState::Pending => "PD",
            JobState::Completing => "CG",
            JobState::Completed => "CD",
            JobState::Failed => "F",
            JobState::Cancelled => "CA",
            JobState::Timeout => "TO",
            JobState::Unknown(s) => s.as_str(),
        }
    }

}

impl Clone for JobState {
    fn clone(&self) -> (copy: JobState)
        ensures
            copy@ == self@,
    {
        match self {
            JobState::Running => JobState::Running,
            JobState::Pending => JobState::Pending,
            JobState::Completing => JobState::Completing,
            JobState::Completed => JobState::Completed,
            JobState::Failed => JobState::Failed,
            JobState::Cancelled => JobState::Cancelled,
            JobState::Timeout => JobState::Timeout,
            JobState::Unknown(s) => JobState::Unknown(s.clone()),
        }
    }
}

/// Reading a state, writing it and reading what was written gives the
/// state that was read first.
pub proof fn law_state_reads_back(text: Seq<char>)
    ensures
        JobStateView::parse(JobStateView::parse(text).code()) == JobStateView::parse(text),
{
    let state = JobStateView::parse(text);
    let code = state.code();
    lemma_trim_idempotent(text);
    reveal_strlit("R");
    reveal_strlit("RUNNING");
    reveal_strlit("PD");
    reveal_strlit("PENDING");
    reveal_strlit("CG");
    reveal_strlit("COMPLETING");
    reveal_strlit("CD");
    reveal_strlit("COMPLETED");
    reveal_strlit("F");
    reveal_strlit("FAILED");
    reveal_strlit("CA");
    reveal_strlit("CANCELLED");
    reveal_strlit("TO");
    reveal_strlit("TIMEOUT");
    if !(state is Unknown) {
        assert(code.len() > 0);
        assert(!is_whitespace(code[0]));
        assert(!is_whitespace(code.last()));
        assert(trim(code) == code);
    }
}

/// One row of the scheduler's queue.
#[derive(Debug)]
pub struct Job {
    pub job_id: String,
    pub partition: String,
    pub name: String,
    pub user: String,
    pub state: JobState,
    pub time: String,
    pub nodes: String,
    pub nodelist: String,
    pub tres: String,
    pub command: String,
    pub work_dir: String,
    /// The path of the job's standard error, once it has been looked up.
    pub stderr: Option<String>,
    /// The path of the job's standard output, once it has been looked up.
    pub stdout: Option<String>,
}

/// What a [`Job`] stands for.
pub struct JobView {
    pub job_id: Seq<char>,
    pub partition: Seq<char>,
    pub name: Seq<char>,
    pub user: Seq<char>,
    pub state: JobStateView,
    pub time: Seq<char>,
    pub nodes: Seq<char>,
    pub nodelist: Seq<char>,
    pub tres: Seq<char>,
    pub command: Seq<char>,
    pub work_dir: Seq<char>,
    pub stderr: Option<Seq<char>>,
    pub stdout: Option<Seq<char>>,
}

impl View for Job {
    type V = JobView;

    open spec fn view(&self) -> JobView {
        JobView {
            job_id: self.job_id@,
            partition: self.partition@,
            name: self.name@,
            user: self.user@,
            state: self.state@,
            time: self.time@,
            nodes: self.nodes@,
            nodelist: self.nodelist@,
            tres: self.tres@,
            command: self.command@,
            work_dir: self.work_dir@,
            stderr: text_of(self.stderr),
            stdout: text_of(self.stdout),
        }
    }
}

impl JobView {
    /// One of the job's output paths is known, be it empty.
    pub open spec fn any_path(self) -> bool {
        self.stderr is Some || self.stdout is Some
    }

    /// Both output paths of the job are known, and neither is empty.
    pub open spec fn both_paths(self) -> bool {
        &&& self.stderr is Some
        &&& self.stderr->0.len() > 0
        &&& self.stdout is Some
        &&& self.stdout->0.len() > 0
    }

    /// The job with the given output paths in place of its own.
    pub open spec fn with_paths(self, stderr: Option<Seq<char>>, stdout: Option<Seq<char>>) -> JobView {
        JobView { stderr, stdout, ..self }
    }
}

/// What a list of jobs stands for.
pub open spec fn job_views(jobs: Seq<Job>) -> Seq<JobView> {
    jobs.map_values(|j: Job| j@)
}

/// A copy of an optional string.
pub fn copy_text(s: &Option<String>) -> (copy: Option<String>)
    ensures
        text_of(copy) == text_of(*s),
{
    match s {
        Some(s) => Some(s.clone()),
        None => None,
    }
}

/// Whether a path is known and not empty.
fn is_path(path: &Option<String>) -> (known: bool)
    ensures
        known == (text_of(*path) is Some && text_of(*path)->0.len() > 0),
{
    match path {
        Some(p) => !p.as_str().is_empty(),
        None => false,
    }
}

impl Job {
    /// Whether one of the job's output paths is known, be it empty.
    pub fn has_any_path(&self) -> (known: bool)
        ensures
            known == self@.any_path(),
    {
        self.stderr.is_some() || self.stdout.is_some()
    }

    /// Whether both output paths of the job are known and neither is empty.
    pub fn has_both_paths(&self) -> (known: bool)
        ensures
            known == self@.both_paths(),
    {
        is_path(&self.stderr) && is_path(&self.stdout)
    }

    /// The job with the given output paths in place of its own.
    pub fn with_paths(self, stderr: Option<String>, stdout: Option<String>) -> (job: Job)
        ensures
            job@ == self@.with_paths(text_of(stderr), text_of(stdout)),
    {
        Job { stderr, stdout, ..self }
    }
}

impl Clone for Job {
    fn clone(&self) -> (copy: Job)
        ensures
            copy@ == self@,
    {
        Job {
            job_id: self.job_id.clone(),
            partition: self.partition.clone(),
            name: self.name.clone(),
            user: self.user.clone(),
            state: self.state.clone(),
            time: self.time.clone(),
            nodes: self.nodes.clone(),
            nodelist: self.nodelist.clone(),
            tres: self.tres.clone(),
            command: self.command.clone(),
            work_dir: self.work_dir.clone(),
            stderr: copy_text(&self.stderr),
            stdout: copy_text(&self.stdout),
        }
    }
}

// ---------------------------------------------------------------------------
// The queue listing
// ---------------------------------------------------------------------------

/// The number of fields in a line of the queue listing.
pub const FIELDS: usize = 11;

/// The job that one line of the queue listing describes. The fields are
/// separated by `|`; whitespace around a field does not count; fields beyond
/// the eleventh are ignored. A line with fewer fields, a blank one among
/// them, describes no job. The output paths are not part of the listing.
pub open spec fn parse_line(line: Seq<char>) -> Option<JobView> {
    let f = split(line, '|');
    if f.len() < FIELDS {
        None
    } else {
        Some(
            JobView {
                job_id: trim(f[0]),
                partition: trim(f[1]),
                name: trim(f[2]),
                user: trim(f[3]),
                state: JobStateView::parse(trim(f[4])),
                time: trim(f[5]),
                nodes: trim(f[6]),
                nodelist: trim(f[7]),
                tres: trim(f[8]),
                command: trim(f[9]),
                work_dir: trim(f[10]),
                stderr: None,
                stdout: None,
            },
        )
    }
}

/// The jobs that the given lines describe, in the order of the lines.
pub open spec fn parse_lines(ls: Seq<Seq<char>>) -> Seq<JobView>
    decreases ls.len(),
{
    if ls.len() == 0 {
        seq![]
    } else {
        match parse_line(ls[0]) {
            Some(job) => seq![job] + parse_lines(ls.drop_first()),
            None => parse_lines(ls.drop_first()),
        }
    }
}

/// The jobs that a queue listing describes.
pub open spec fn parse_listing(output: Seq<char>) -> Seq<JobView> {
    parse_lines(lines(output, '\n', '\r'))
}

/// `s[field]`, trimmed, as a `String`.
fn field_text(s: &[char], field: Span) -> (r: String)
    requires
        field.fits(s@.len()),
    ensures
        r@ == trim(field.of(s@)),
{
    span_to_string(s, trim_span(s, field))
}

/// The job that the line `s[line]` of a queue listing describes.
fn parse_job(s: &[char], line: Span) -> (r: Option<Job>)
    requires
        line.fits(s@.len()),
    ensures
        match r {
            Some(job) => parse_line(line.of(s@)) == Some(job@),
            None => parse_line(line.of(s@)) is None,
        },
{
    let f = split_spans(s, line, '|');
    let ghost fields = split(line.of(s@), '|');
    if f.len() < FIELDS {
        return None;
    }
    proof {
        assert forall|i: int| 0 <= i < f@.len() implies f@[i].fits(s@.len()) && f@[i].of(s@)
            == #[trigger] fields[i] by {
            assert(pieces(s@, f@)[i] == f@[i].of(s@));
        }
    }
    let state = JobState::from_code(s, trim_span(s, trim_span(s, f[4])));
    Some(
        Job {
            job_id: field_text(s, f[0]),
            partition: field_text(s, f[1]),
            name: field_text(s, f[2]),
            user: field_text(s, f[3]),
            state,
            time: field_text(s, f[5]),
            nodes: field_text(s, f[6]),
            nodelist: field_text(s, f[7]),
            tres: field_text(s, f[8]),
            command: field_text(s, f[9]),
            work_dir: field_text(s, f[10]),
            stderr: None,
            stdout: None,
        },
    )
}

/// Reads the jobs from the scheduler's queue listing: one job for each line
/// that has at least eleven `|`-separated fields, in the order of the lines.
pub fn parse_squeue_output(output: &str) -> (jobs: Vec<Job>)
    ensures
        job_views(jobs@) == parse_listing(output@),
{
    let chars = to_chars(output);
    let s = chars.as_slice();
    let whole = Span { start: 0, end: s.len() };
    assert(whole.of(s@) =~= output@);
    let ls = line_spans(s, whole, '\n', '\r');
    let ghost all = pieces(s@, ls@);
    let mut jobs: Vec<Job> = Vec::new();
    let mut i: usize = 0;
    assert(all.skip(0) =~= all);
    assert(job_views(jobs@) =~= Seq::<JobView>::empty());
    while i < ls.len()
        invariant
            0 <= i <= ls@.len(),
            all == pieces(s@, ls@),
            all_fit(ls@, s@.len()),
            job_views(jobs@) + parse_lines(all.skip(i as int)) == parse_lines(all),
        decreases ls@.len() - i,
    {
        let ghost before = job_views(jobs@);
        let ghost rest = all.skip(i as int);
        proof {
            assert(rest[0] == ls@[i as int].of(s@));
            assert(rest.drop_first() =~= all.skip(i + 1));
        }
        match parse_job(s, ls[i]) {
            Some(job) => {
                let ghost v = job@;
                jobs.push(job);
                proof {
                    assert(job_views(jobs@) =~= before.push(v));
                    assert(before.push(v) + parse_lines(all.skip(i + 1)) =~= before + parse_lines(
                        rest,
                    ));
                }
            },
            None => {},
        }
        i += 1;
    }
    proof {
        assert(parse_lines(all.skip(i as int)) =~= Seq::<JobView>::empty());
        assert(job_views(jobs@) + Seq::<JobView>::empty() =~= job_views(jobs@));
    }
    jobs
}

/// The jobs of the queue from what the listing command gave: those that
/// its output describes, and none where the command could not be run.
pub fn jobs_from(listing: Option<&str>) -> (jobs: Vec<Job>)
    ensures
        job_views(jobs@) == match name_of(listing) {
            Some(output) => parse_listing(output),
            None => Seq::empty(),
        },
{
    match listing {
        Some(output) => parse_squeue_output(output),
        None => {
            let jobs: Vec<Job> = Vec::new();
            assert(job_views(jobs@) =~= Seq::<JobView>::empty());
            jobs
        },
    }
}

/// A line that holds nothing but whitespace describes no job.
pub proof fn law_blank_line(line: Seq<char>)
    requires
        trim(line).len() == 0,
    ensures
        parse_line(line) is None,
{
    lemma_trim_blank(line);
    assert forall|i: int| 0 <= i < line.len() implies #[trigger] line[i] != '|' by {
        assert(is_whitespace(line[i]));
    }
    lemma_find_is(line, '|', line.len() as int);
}

// ---------------------------------------------------------------------------
// The detail record
// ---------------------------------------------------------------------------

/// What follows `key` in the last of `ws` that starts with `key`, or
/// nothing where none does.
pub open spec fn last_value(ws: Seq<Seq<char>>, key: Seq<char>) -> Seq<char>
    decreases ws.len(),
{
    if ws.len() == 0 {
        seq![]
    } else if starts_with(ws.last(), key) {
        ws.last().skip(key.len() as int)
    } else {
        last_value(ws.drop_last(), key)
    }
}

/// The paths of standard error and standard output that a job's detail
/// record gives: what follows `StdErr=` and `StdOut=` in the last word that
/// starts so, and nothing where no word does.
pub open spec fn detail_paths(record: Seq<char>) -> (Seq<char>, Seq<char>) {
    (last_value(words(record), "StdErr="@), last_value(words(record), "StdOut="@))
}

/// Reads the paths of a job's standard error and standard output from its
/// detail record.
pub fn parse_job_details(record: &str) -> (paths: (String, String))
    ensures
        (paths.0@, paths.1@) == detail_paths(record@),
{
    let chars = to_chars(record);
    let s = chars.as_slice();
    let whole = Span { start: 0, end: s.len() };
    assert(whole.of(s@) =~= record@);
    let ws = word_spans(s, whole);
    let err_key = to_chars("StdErr=");
    let out_key = to_chars("StdOut=");
    let ghost all = pieces(s@, ws@);
    let mut stderr = String::new();
    let mut stdout = String::new();
    let mut i: usize = 0;
    assert(all.take(0) =~= Seq::<Seq<char>>::empty());
    while i < ws.len()
        invariant
            i <= ws@.len(),
            all == pieces(s@, ws@),
            all_fit(ws@, s@.len()),
            err_key@ == "StdErr="@,
            out_key@ == "StdOut="@,
            stderr@ == last_value(all.take(i as int), err_key@),
            stdout@ == last_value(all.take(i as int), out_key@),
        decreases ws@.len() - i,
    {
        let word = ws[i];
        proof {
            assert(all.take(i + 1).drop_last() =~= all.take(i as int));
            assert(all.take(i + 1).last() == word.of(s@));
        }
        if span_starts_with(s, word, err_key.as_slice()) {
            let value = Span { start: word.start + err_key.len(), end: word.end };
            assert(value.of(s@) =~= word.of(s@).skip(err_key@.len() as int));
            stderr = span_to_string(s, value);
        }
        if span_starts_with(s, word, out_key.as_slice()) {
            let value = Span { start: word.start + out_key.len(), end: word.end };
            assert(value.of(s@) =~= word.of(s@).skip(out_key@.len() as int));
            stdout = span_to_string(s, value);
        }
        i += 1;
    }
    assert(all.take(i as int) =~= all);
    (stderr, stdout)
}

/// The output paths of a job from what the detail command gave: those
/// that its output names, and nothing where the command could not be run.
pub fn details_from(record: Option<&str>) -> (paths: Option<(String, String)>)
    ensures
        match paths {
            Some(found) => name_of(record) is Some && (found.0@, found.1@) == detail_paths(
                name_of(record)->0,
            ),
            None => record is None,
        },
{
    match record {
        Some(output) => Some(parse_job_details(output)),
        None => None,
    }
}

// ---------------------------------------------------------------------------
// Paths
// ---------------------------------------------------------------------------

/// `path` as it is reached on this machine: with the replacement of the
/// first entry of `table` whose prefix it starts with in the place of that
/// prefix, or as it is where it starts with none.
pub open spec fn resolved(path: Seq<char>, table: Seq<(Seq<char>, Seq<char>)>) -> Seq<char>
    decreases table.len(),
{
    if table.len() == 0 {
        path
    } else if starts_with(path, table[0].0) {
        table[0].1 + path.skip(table[0].0.len() as int)
    } else {
        resolved(path, table.drop_first())
    }
}

/// A path that starts with no prefix of the table stays as it is.
pub proof fn law_resolved_without_match(path: Seq<char>, table: Seq<(Seq<char>, Seq<char>)>)
    requires
        forall|i: int| 0 <= i < table.len() ==> !starts_with(path, (#[trigger] table[i]).0),
    ensures
        resolved(path, table) == path,
    decreases table.len(),
{
    if table.len() > 0 {
        let rest = table.drop_first();
        assert forall|i: int| 0 <= i < rest.len() implies !starts_with(
            path,
            (#[trigger] rest[i]).0,
        ) by {
            assert(rest[i] == table[i + 1]);
        }
        law_resolved_without_match(path, rest);
    }
}

/// A path that starts with the prefix of one entry and of no entry before
/// it is rewritten by that entry. Where it starts with the prefix of no
/// other entry at all, the order of the table does not count.
pub proof fn law_resolved_by_first_match(
    path: Seq<char>,
    table: Seq<(Seq<char>, Seq<char>)>,
    at: int,
)
    requires
        0 <= at < table.len(),
        starts_with(path, table[at].0),
        forall|i: int| 0 <= i < at ==> !starts_with(path, (#[trigger] table[i]).0),
    ensures
        resolved(path, table) == table[at].1 + path.skip(table[at].0.len() as int),
    decreases table.len(),
{
    if at > 0 {
        let rest = table.drop_first();
        assert(rest[at - 1] == table[at]);
        assert forall|i: int| 0 <= i < at - 1 implies !starts_with(
            path,
            (#[trigger] rest[i]).0,
        ) by {
            assert(rest[i] == table[i + 1]);
        }
        law_resolved_by_first_match(path, rest, at - 1);
    }
}

/// Rewrites a node-local path to the one under which this machine sees the
/// file.
pub fn resolve_path(path: &str, mappings: &PathMappings) -> (local: String)
    ensures
        local@ == resolved(path@, mappings@),
{
    let chars = to_chars(path);
    let s = chars.as_slice();
    let whole = Span { start: 0, end: s.len() };
    assert(whole.of(s@) =~= path@);
    let mut i: usize = 0;
    assert(mappings@.skip(0) =~= mappings@);
    while i < mappings.len()
        invariant
            i <= mappings@.len(),
            whole.fits(s@.len()),
            whole.of(s@) == path@,
            whole.start == 0,
            whole.end == s@.len(),
            resolved(path@, mappings@) == resolved(path@, mappings@.skip(i as int)),
        decreases mappings@.len() - i,
    {
        let (from, to) = mappings.entry(i);
        let prefix = to_chars(from);
        proof {
            assert(mappings@.skip(i as int)[0] == mappings@[i as int]);
            assert(mappings@.skip(i as int).drop_first() =~= mappings@.skip(i + 1));
        }
        if span_starts_with(s, whole, prefix.as_slice()) {
            let mut local = to.to_string();
            let rest = Span { start: prefix.len(), end: s.len() };
            assert(rest.of(s@) =~= path@.skip(prefix@.len() as int));
            push_span(&mut local, s, rest);
            return local;
        }
        i += 1;
    }
    path.to_string()
}

// ---------------------------------------------------------------------------
// Commands
// ---------------------------------------------------------------------------

/// The line format that the queue listing is asked for: the eleven fields
/// of a job, separated by `|`.
pub const SQUEUE_FORMAT: &'static str = "%i|%P|%j|%u|%T|%M|%D|%R|%b|%o|%Z";

/// The arguments of the command that lists the queue: no header, the line
/// format, the jobs of `user` alone unless those of all users are wanted or
/// no user is known, and then the arguments `extra`.
pub open spec fn squeue_arguments(
    all_users: bool,
    user: Option<Seq<char>>,
    extra: Seq<Seq<char>>,
) -> Seq<Seq<char>> {
    let head = seq!["--noheader"@, "--format"@, SQUEUE_FORMAT@];
    match user {
        Some(user) => if all_users {
            head + extra
        } else {
            head + seq!["--user"@, user] + extra
        },
        None => head + extra,
    }
}

/// The arguments of the command that lists the queue, for the settings
/// `config` and the operator `user`.
pub fn squeue_args(config: &Config, user: Option<&str>) -> (args: Vec<String>)
    ensures
        texts(args@) == squeue_arguments(
            config.general.all_users,
            name_of(user),
            texts(config.general.squeue_args@),
        ),
{
    let mut args: Vec<String> = Vec::new();
    args.push("--noheader".to_string());
    args.push("--format".to_string());
    args.push(SQUEUE_FORMAT.to_string());
    if !config.general.all_users {
        match user {
            Some(user) => {
                args.push("--user".to_string());
                args.push(user.to_string());
            },
            None => {},
        }
    }
    let ghost head = texts(args@);
    let extra = &config.general.squeue_args;
    let mut i: usize = 0;
    assert(texts(extra@).take(0) =~= Seq::<Seq<char>>::empty());
    assert(head + Seq::<Seq<char>>::empty() =~= head);
    while i < extra.len()
        invariant
            i <= extra@.len(),
            texts(args@) == head + texts(extra@).take(i as int),
        decreases extra@.len() - i,
    {
        let ghost before = texts(args@);
        let arg = extra[i].clone();
        args.push(arg);
        assert(texts(args@) =~= before.push(extra@[i as int]@));
        assert(texts(extra@).take(i + 1) =~= texts(extra@).take(i as int).push(extra@[i as int]@));
        assert(texts(args@) =~= head + texts(extra@).take(i + 1));
        i += 1;
    }
    assert(texts(extra@).take(i as int) =~= texts(extra@));
    assert(head =~= squeue_arguments(
        config.general.all_users,
        name_of(user),
        Seq::<Seq<char>>::empty(),
    ));
    assert(texts(args@) =~= squeue_arguments(
        config.general.all_users,
        name_of(user),
        texts(extra@),
    ));
    args
}

/// The arguments of the command that shows the detail record of the job
/// `job_id`.
pub fn scontrol_args(job_id: &str) -> (args: Vec<String>)
    ensures
        texts(args@) == seq!["show"@, "job"@, job_id@],
{
    let mut args: Vec<String> = Vec::new();
    args.push("show".to_string());
    args.push("job".to_string());
    args.push(job_id.to_string());
    assert(texts(args@) =~= seq!["show"@, "job"@, job_id@]);
    args
}

// ---------------------------------------------------------------------------
// Logs on other machines
// ---------------------------------------------------------------------------

/// The name that the scheduler gives where a job has no node.
pub open spec fn no_node() -> Seq<char> {
    "(None)"@
}

/// The command that gives the last `tail_lines` lines of the file at `path`.
pub open spec fn tail_command(path: Seq<char>, tail_lines: nat) -> Seq<char> {
    "tail -n "@ + decimal(tail_lines) + " '"@ + path + "'"@
}

/// The arguments with which the remote shell runs `tail_command` on `node`:
/// a short time to connect, no question about the host's key, no prompt.
pub open spec fn ssh_arguments(node: Seq<char>, path: Seq<char>, tail_lines: nat) -> Seq<
    Seq<char>,
> {
    seq![
        "-o"@,
        "ConnectTimeout=3"@,
        "-o"@,
        "StrictHostKeyChecking=no"@,
        "-o"@,
        "BatchMode=yes"@,
        node,
        tail_command(path, tail_lines),
    ]
}

/// What is said where a log can be read neither here nor on its node.
pub open spec fn unreadable(path: Seq<char>) -> Seq<char> {
    "Cannot read: "@ + path + " (not accessible locally or via SSH)"@
}

/// How the reading of a log goes on once it was tried on this machine.
#[derive(Debug)]
pub enum ReadStep {
    /// The reading is over, with the text of the log or the error to show.
    Done { outcome: Result<String, String> },
    /// Run the remote shell with these arguments, and take what
    /// [`remote_read_outcome`] makes of how it ends.
    Remote { args: Vec<String> },
}

/// What a [`ReadStep`] stands for.
pub enum ReadStepView {
    Done { outcome: Result<Seq<char>, Seq<char>> },
    Remote { args: Seq<Seq<char>> },
}

impl View for ReadStep {
    type V = ReadStepView;

    open spec fn view(&self) -> ReadStepView {
        match self {
            ReadStep::Done { outcome } => ReadStepView::Done { outcome: outcome_of(*outcome) },
            ReadStep::Remote { args } => ReadStepView::Remote { args: texts(args@) },
        }
    }
}

/// How the remote shell ended.
#[derive(Debug)]
pub enum RemoteResult {
    /// It ran: whether it reported success, and what it wrote to its
    /// standard output and standard error.
    Exited { success: bool, stdout: String, stderr: String },
    /// It could not be started, with the reason.
    NotStarted { error: String },
}

/// How the reading of the log at `path`, written on `node`, goes on: it is
/// over with the text that was read on this machine, if any was; else the
/// remote shell is tried where reading on other machines is enabled and the
/// job has a node; else it is over with an error that names the path.
pub open spec fn after_local(
    local: Option<Seq<char>>,
    path: Seq<char>,
    node: Seq<char>,
    ssh_enabled: bool,
    tail_lines: nat,
) -> ReadStepView {
    match local {
        Some(text) => ReadStepView::Done { outcome: Ok(text) },
        None => if ssh_enabled && node.len() > 0 && node != no_node() {
            ReadStepView::Remote { args: ssh_arguments(node, path, tail_lines) }
        } else {
            ReadStepView::Done { outcome: Err(unreadable(path)) }
        },
    }
}

/// Decides how the reading of the log at `path`, written on `node`, goes
/// on, from the text that was read on this machine, or nothing where the
/// file could not be read here. The remote shell is given the path as the
/// job has it, not as this machine would reach it.
pub fn after_local_read(
    local: Option<String>,
    path: &str,
    node: &str,
    config: &Config,
    tail_lines: usize,
) -> (step: ReadStep)
    ensures
        step@ == after_local(
            text_of(local),
            path@,
            node@,
            config.remote.ssh_enabled,
            tail_lines as nat,
        ),
{
    match local {
        Some(text) => {
            return ReadStep::Done { outcome: Ok(text) };
        },
        None => {},
    }
    let name = to_chars(node);
    let whole = Span { start: 0, end: name.len() };
    assert(whole.of(name@) =~= node@);
    if config.remote.ssh_enabled && name.len() > 0 && !span_is(name.as_slice(), whole, "(None)") {
        let mut command = "tail -n ".to_string();
        push_decimal(&mut command, tail_lines);
        command.append(" '");
        command.append(path);
        command.append("'");
        let mut args: Vec<String> = Vec::new();
        args.push("-o".to_string());
        args.push("ConnectTimeout=3".to_string());
        args.push("-o".to_string());
        args.push("StrictHostKeyChecking=no".to_string());
        args.push("-o".to_string());
        args.push("BatchMode=yes".to_string());
        args.push(node.to_string());
        args.push(command);
        assert(texts(args@) =~= ssh_arguments(node@, path@, tail_lines as nat));
        ReadStep::Remote { args }
    } else {
        let mut error = "Cannot read: ".to_string();
        error.append(path);
        error.append(" (not accessible locally or via SSH)");
        ReadStep::Done { outcome: Err(error) }
    }
}

/// What reading a log on `node` gave, for each way the remote shell can
/// end: its output where it reported success, else an error that names the
/// node and holds what it wrote to standard error, trimmed; and an error
/// with the reason where it could not be started.
pub open spec fn remote_outcome(
    node: Seq<char>,
    success: bool,
    stdout: Seq<char>,
    stderr: Seq<char>,
) -> Result<Seq<char>, Seq<char>> {
    if success {
        Ok(stdout)
    } else {
        Err("SSH to "@ + node + ": "@ + trim(stderr))
    }
}

/// What is said where the remote shell could not be started.
pub open spec fn not_started(error: Seq<char>) -> Seq<char> {
    "SSH failed: "@ + error
}

/// What reading a log on `node` gave, from how the remote shell ended.
pub open spec fn remote_result(node: Seq<char>, result: RemoteResult) -> Result<
    Seq<char>,
    Seq<char>,
> {
    match result {
        RemoteResult::Exited { success, stdout, stderr } => remote_outcome(
            node,
            success,
            stdout@,
            stderr@,
        ),
        RemoteResult::NotStarted { error } => Err(not_started(error@)),
    }
}

/// The text of the log, or the error to show, from how the remote shell
/// ended.
pub fn remote_read_outcome(node: &str, result: RemoteResult) -> (outcome: Result<String, String>)
    ensures
        outcome_of(outcome) == remote_result(node@, result),
{
    match result {
        RemoteResult::Exited { success, stdout, stderr } => {
            if success {
                Ok(stdout)
            } else {
                let chars = to_chars(stderr.as_str());
                let whole = Span { start: 0, end: chars.len() };
                assert(whole.of(chars@) =~= stderr@);
                let kept = trim_span(chars.as_slice(), whole);
                let mut error = "SSH to ".to_string();
                error.append(node);
                error.append(": ");
                push_span(&mut error, chars.as_slice(), kept);
                Err(error)
            }
        },
        RemoteResult::NotStarted { error } => {
            let mut message = "SSH failed: ".to_string();
            message.append(error.as_str());
            Err(message)
        },
    }
}

} // verus!
