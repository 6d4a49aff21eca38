use ylurm::app::{App, Request};
use ylurm::config::Config;
use ylurm::focus::{rect_contains, FocusPanel, Rect};
use ylurm::model::TAIL_LINES;
use ylurm::slurm::{Job, JobState};
use ylurm::tail::tail_text;

fn job(id: &str, state: JobState) -> Job {
    Job {
        job_id: id.to_string(),
        partition: "gpu".to_string(),
        name: format!("job-{}", id),
        user: "alice".to_string(),
        state,
        time: "0:10".to_string(),
        nodes: "1".to_string(),
        nodelist: format!("node{}", id),
        tres: "N/A".to_string(),
        command: "/bin/run".to_string(),
        work_dir: "/home/alice".to_string(),
        stderr: None,
        stdout: None,
    }
}

fn running(ids: &[&str]) -> Vec<Job> {
    ids.iter().map(|id| job(id, JobState::Running)).collect()
}

fn app_with(ids: &[&str]) -> App {
    App::new(Config::default(), running(ids))
}

fn paths(err: &str, out: &str) -> Option<(String, String)> {
    Some((err.to_string(), out.to_string()))
}

fn selected_id(app: &App) -> Option<String> {
    app.selected_job().map(|j| j.job_id.clone())
}

fn numbered_text(n: usize) -> String {
    (1..=n).map(|i| format!("line {}", i)).collect::<Vec<_>>().join("\n")
}

fn area(height: u16) -> Rect {
    Rect { x: 40, y: 10, width: 50, height }
}

/// Answers every request of one round: a lookup with `details`, a reading
/// with `outcome`. Returns how many lookups and readings were asked for.
fn settle(app: &mut App, details: Option<(String, String)>, outcome: Result<String, String>) -> (usize, usize) {
    let mut lookups = 0;
    let mut readings = 0;
    let mut request = app.ensure_job_details();
    if let Request::Details { .. } = request {
        lookups += 1;
        request = app.details_fetched(details);
    }
    if let Request::Log { .. } = request {
        readings += 1;
        app.log_loaded(outcome);
    }
    (lookups, readings)
}

/// An app whose selected job has its log loaded, in a panel of the given
/// height.
fn app_showing(lines: usize, height: u16) -> App {
    let mut app = app_with(&["1", "2", "3"]);
    app.set_areas(Rect { x: 0, y: 0, width: 40, height: 30 }, area(height));
    assert_eq!(settle(&mut app, paths("/e", "/o"), Ok(numbered_text(lines))), (1, 1));
    app
}

#[test]
fn new_app_starts_on_first_job() {
    let app = app_with(&["1", "2"]);
    assert_eq!(app.jobs().len(), 2);
    assert_eq!(app.selected(), Some(0));
    assert_eq!(selected_id(&app), Some("1".to_string()));
    assert!(!app.should_quit());
    assert_eq!(*app.log_preview(), None);
    assert_eq!(*app.log_error(), None);
    assert!(!app.show_stderr());
    assert_eq!(app.log_scroll(), 0);
    assert_eq!(app.log_line_count(), 0);
    assert_eq!(app.focus(), FocusPanel::Jobs);
    assert_eq!(app.job_list_area(), Rect::default());
    assert_eq!(app.log_area(), Rect { x: 0, y: 0, width: 0, height: 0 });
    assert_eq!(app.config().general.refresh_interval, 2);
}

#[test]
fn new_app_without_jobs_selects_nothing() {
    let mut app = app_with(&[]);
    assert_eq!(app.selected(), None);
    assert!(app.selected_job().is_none());
    assert!(matches!(app.ensure_job_details(), Request::Idle));
    assert!(matches!(app.ensure_log_loaded(), Request::Idle));
    assert!(matches!(app.details_fetched(paths("/e", "/o")), Request::Idle));
    app.log_loaded(Ok("text".to_string()));
    assert_eq!(*app.log_preview(), None);
    app.next_job();
    app.previous_job();
    app.select_first();
    app.select_last();
    assert_eq!(app.selected(), None);
}

#[test]
fn refresh_keeps_selected_job_wherever_it_moves() {
    let mut app = app_with(&["1", "2", "3"]);
    app.next_job();
    assert_eq!(selected_id(&app), Some("2".to_string()));
    app.refresh_jobs(running(&["9", "8", "7", "2", "1"]));
    assert_eq!(app.selected(), Some(3));
    assert_eq!(selected_id(&app), Some("2".to_string()));
    app.refresh_jobs(running(&["2"]));
    assert_eq!(app.selected(), Some(0));
    assert_eq!(selected_id(&app), Some("2".to_string()));
}

#[test]
fn refresh_keeps_caches_while_selected_job_stays() {
    let mut app = app_with(&["1", "2"]);
    assert_eq!(settle(&mut app, paths("/e", "/o"), Ok("a\nb".to_string())), (1, 1));
    app.refresh_jobs(running(&["2", "1"]));
    assert_eq!(selected_id(&app), Some("1".to_string()));
    assert_eq!(settle(&mut app, None, Err("unused".to_string())), (0, 0));
    assert_eq!(app.log_preview().as_deref(), Some("a\nb"));
}

#[test]
fn refresh_selects_first_of_equal_identifiers() {
    let mut app = app_with(&["1", "2"]);
    app.next_job();
    app.refresh_jobs(running(&["3", "2", "2"]));
    assert_eq!(app.selected(), Some(1));
}

#[test]
fn refresh_clamps_selection_when_job_is_gone() {
    let mut app = app_with(&["1", "2", "3", "4"]);
    app.select_last();
    assert_eq!(app.selected(), Some(3));
    app.refresh_jobs(running(&["1", "2"]));
    assert_eq!(app.selected(), Some(1));
    assert_eq!(selected_id(&app), Some("2".to_string()));
}

#[test]
fn refresh_keeps_position_when_job_is_gone_and_position_fits() {
    let mut app = app_with(&["1", "2", "3", "4"]);
    app.next_job();
    app.refresh_jobs(running(&["1", "5", "6"]));
    assert_eq!(app.selected(), Some(1));
    assert_eq!(selected_id(&app), Some("5".to_string()));
}

#[test]
fn refresh_to_empty_list_selects_nothing() {
    let mut app = app_with(&["1", "2", "3"]);
    app.select_last();
    app.refresh_jobs(Vec::new());
    assert!(app.jobs().is_empty());
    assert_eq!(app.selected(), None);
    assert!(app.selected_job().is_none());
    app.refresh_jobs(running(&["7", "8"]));
    assert_eq!(app.selected(), Some(0));
    assert_eq!(selected_id(&app), Some("7".to_string()));
}

#[test]
fn refresh_forgets_caches_when_selected_job_is_gone() {
    let mut app = app_with(&["1", "2"]);
    assert_eq!(settle(&mut app, paths("/e", "/o"), Ok("old".to_string())), (1, 1));
    app.refresh_jobs(running(&["3", "4"]));
    assert_eq!(selected_id(&app), Some("3".to_string()));
    assert_eq!(settle(&mut app, paths("/e3", "/o3"), Ok("new".to_string())), (1, 1));
    assert_eq!(app.log_preview().as_deref(), Some("new"));
}

#[test]
fn scenario_selected_job_disappears() {
    let mut app = App::new(
        Config::default(),
        vec![job("1", JobState::Pending), job("2", JobState::Running)],
    );
    app.next_job();
    assert_eq!(selected_id(&app), Some("2".to_string()));
    assert_eq!(settle(&mut app, paths("/e2", "/o2"), Ok("two".to_string())), (1, 1));
    assert_eq!(settle(&mut app, None, Err("unused".to_string())), (0, 0));

    app.refresh_jobs(vec![job("1", JobState::Running)]);
    assert_eq!(app.selected(), Some(0));
    assert_eq!(selected_id(&app), Some("1".to_string()));
    assert_eq!(app.selected_job().unwrap().state, JobState::Running);
    // Both caches are forgotten: the details are looked up and the log is
    // read for the job that is selected now.
    match app.ensure_job_details() {
        Request::Details { job_id } => assert_eq!(job_id, "1"),
        other => panic!("{:?}", other),
    }
    match app.details_fetched(paths("/e1", "/o1")) {
        Request::Log { path, node, tail_lines } => {
            assert_eq!(path, "/o1");
            assert_eq!(node, "node1");
            assert_eq!(tail_lines, 500);
        },
        other => panic!("{:?}", other),
    }
}

#[test]
fn refresh_replaces_all_fields_but_paths() {
    let mut app = App::new(Config::default(), vec![job("1", JobState::Pending)]);
    assert_eq!(settle(&mut app, paths("/e", "/o"), Ok(String::new())), (1, 1));
    let mut next = job("1", JobState::Running);
    next.time = "5:00".to_string();
    next.nodelist = "node42".to_string();
    app.refresh_jobs(vec![next]);
    let now = app.selected_job().unwrap();
    assert_eq!(now.state, JobState::Running);
    assert_eq!(now.time, "5:00");
    assert_eq!(now.nodelist, "node42");
    assert_eq!(now.stderr.as_deref(), Some("/e"));
    assert_eq!(now.stdout.as_deref(), Some("/o"));
}

#[test]
fn refresh_carries_paths_through_many_refreshes() {
    let mut app = app_with(&["1", "2", "3"]);
    app.next_job();
    assert_eq!(settle(&mut app, paths("/e2", "/o2"), Ok(String::new())), (1, 1));
    let snapshots: [&[&str]; 5] =
        [&["3", "2", "1"], &["2"], &["5", "6", "2", "7"], &["2", "2"], &["9", "2"]];
    for ids in snapshots {
        app.refresh_jobs(running(ids));
        for j in app.jobs().iter().filter(|j| j.job_id == "2") {
            assert_eq!(j.stderr.as_deref(), Some("/e2"));
            assert_eq!(j.stdout.as_deref(), Some("/o2"));
        }
        for j in app.jobs().iter().filter(|j| j.job_id != "2") {
            assert_eq!(j.stderr, None);
            assert_eq!(j.stdout, None);
        }
    }
}

#[test]
fn refresh_drops_paths_once_identifier_is_gone() {
    let mut app = app_with(&["1", "2"]);
    assert_eq!(settle(&mut app, paths("/e1", "/o1"), Ok(String::new())), (1, 1));
    app.refresh_jobs(running(&["2"]));
    app.refresh_jobs(running(&["1", "2"]));
    assert_eq!(app.jobs()[0].job_id, "1");
    assert_eq!(app.jobs()[0].stderr, None);
}

#[test]
fn refresh_overrides_paths_of_snapshot_with_known_ones() {
    let mut app = app_with(&["1"]);
    assert_eq!(settle(&mut app, paths("/known.err", "/known.out"), Ok(String::new())), (1, 1));
    let fresh = job("1", JobState::Running).with_paths(Some("/fresh.err".to_string()), None);
    let other = job("2", JobState::Running).with_paths(Some("/two.err".to_string()), None);
    app.refresh_jobs(vec![fresh, other]);
    assert_eq!(app.jobs()[0].stderr.as_deref(), Some("/known.err"));
    assert_eq!(app.jobs()[0].stdout.as_deref(), Some("/known.out"));
    assert_eq!(app.jobs()[1].stderr.as_deref(), Some("/two.err"));
    assert_eq!(app.jobs()[1].stdout, None);
}

#[test]
fn details_are_looked_up_once_per_selection() {
    let mut app = app_with(&["1", "2"]);
    assert_eq!(settle(&mut app, paths("/e1", "/o1"), Ok("one".to_string())), (1, 1));
    for _ in 0..3 {
        assert_eq!(settle(&mut app, None, Err("unused".to_string())), (0, 0));
    }
    app.next_job();
    assert_eq!(settle(&mut app, paths("/e2", "/o2"), Ok("two".to_string())), (1, 1));
    assert_eq!(settle(&mut app, None, Err("unused".to_string())), (0, 0));
    // Back on the first job: its paths are known, only the log is read.
    app.previous_job();
    assert_eq!(settle(&mut app, None, Ok("one again".to_string())), (0, 1));
    assert_eq!(app.log_preview().as_deref(), Some("one again"));
}

#[test]
fn failed_lookup_is_not_repeated_until_selection_changes() {
    let mut app = app_with(&["1", "2"]);
    assert_eq!(settle(&mut app, None, Err("unused".to_string())), (1, 0));
    assert_eq!(app.selected_job().unwrap().stderr, None);
    assert_eq!(app.log_error().as_deref(), Some("No path available"));
    assert_eq!(*app.log_preview(), None);
    assert_eq!(settle(&mut app, paths("/e", "/o"), Ok("late".to_string())), (0, 0));
    app.next_job();
    assert_eq!(settle(&mut app, paths("/e2", "/o2"), Ok("two".to_string())), (1, 1));
    app.previous_job();
    assert_eq!(settle(&mut app, paths("/e1", "/o1"), Ok("one".to_string())), (1, 1));
    assert_eq!(app.selected_job().unwrap().stdout.as_deref(), Some("/o1"));
}

#[test]
fn lookup_does_not_replace_known_paths() {
    let mut app = app_with(&["1"]);
    assert_eq!(settle(&mut app, paths("/e", "/o"), Ok(String::new())), (1, 1));
    app.details_fetched(paths("/other.err", "/other.out"));
    assert_eq!(app.selected_job().unwrap().stderr.as_deref(), Some("/e"));
    assert_eq!(app.selected_job().unwrap().stdout.as_deref(), Some("/o"));
}

#[test]
fn empty_path_is_no_path() {
    let mut app = app_with(&["1"]);
    assert_eq!(settle(&mut app, paths("/e", ""), Err("unused".to_string())), (1, 0));
    assert_eq!(app.log_error().as_deref(), Some("No path available"));
    app.toggle_log_mode();
    match app.ensure_job_details() {
        Request::Log { path, .. } => assert_eq!(path, "/e"),
        other => panic!("{:?}", other),
    }
}

#[test]
fn log_request_names_path_of_shown_stream_and_node() {
    let mut app = app_with(&["1"]);
    assert!(matches!(app.ensure_job_details(), Request::Details { .. }));
    match app.details_fetched(paths("/e", "/o")) {
        Request::Log { path, node, tail_lines } => {
            assert_eq!(path, "/o");
            assert_eq!(node, "node1");
            assert_eq!(tail_lines, TAIL_LINES);
        },
        other => panic!("{:?}", other),
    }
    app.log_loaded(Ok("out".to_string()));
    app.toggle_log_mode();
    assert!(app.show_stderr());
    match app.ensure_log_loaded() {
        Request::Log { path, .. } => assert_eq!(path, "/e"),
        other => panic!("{:?}", other),
    }
}

#[test]
fn log_is_read_once_per_job_and_stream() {
    let mut app = app_with(&["1", "2"]);
    assert_eq!(settle(&mut app, paths("/e", "/o"), Ok("out".to_string())), (1, 1));
    assert!(matches!(app.ensure_log_loaded(), Request::Idle));
    assert!(matches!(app.ensure_log_loaded(), Request::Idle));
    assert_eq!(app.log_preview().as_deref(), Some("out"));
    app.toggle_log_mode();
    assert!(matches!(app.ensure_log_loaded(), Request::Log { .. }));
    // Asking again before the reading was handed in asks for it again.
    assert!(matches!(app.ensure_log_loaded(), Request::Log { .. }));
    app.log_loaded(Ok("err".to_string()));
    assert!(matches!(app.ensure_log_loaded(), Request::Idle));
    assert_eq!(app.log_preview().as_deref(), Some("err"));
}

#[test]
fn failed_reading_is_shown_and_not_repeated() {
    let mut app = app_showing(100, 12);
    app.scroll_log_up(5);
    app.toggle_log_mode();
    assert_eq!(settle(&mut app, None, Err("SSH to node1: denied".to_string())), (0, 1));
    assert_eq!(*app.log_preview(), None);
    assert_eq!(app.log_error().as_deref(), Some("SSH to node1: denied"));
    assert_eq!(app.log_line_count(), 0);
    assert_eq!(app.log_scroll(), 0);
    for _ in 0..3 {
        assert_eq!(settle(&mut app, None, Ok("unused".to_string())), (0, 0));
    }
    assert_eq!(app.log_error().as_deref(), Some("SSH to node1: denied"));
    // Only another stream or job is read anew.
    app.toggle_log_mode();
    assert_eq!(settle(&mut app, None, Ok("fine".to_string())), (0, 1));
    assert_eq!(*app.log_error(), None);
    assert_eq!(app.log_preview().as_deref(), Some("fine"));
}

#[test]
fn missing_path_keeps_offset_and_line_count() {
    let mut app = app_showing(100, 12);
    app.scroll_log_up(5);
    assert_eq!(app.log_scroll(), 85);
    app.next_job();
    assert_eq!(settle(&mut app, None, Ok("unused".to_string())), (1, 0));
    assert_eq!(app.log_error().as_deref(), Some("No path available"));
    assert_eq!(*app.log_preview(), None);
    assert_eq!(app.log_scroll(), 85);
    assert_eq!(app.log_line_count(), 100);
}

#[test]
fn loaded_log_counts_lines() {
    let mut app = app_with(&["1"]);
    settle(&mut app, paths("/e", "/o"), Ok("a\nb\r\nc\n".to_string()));
    assert_eq!(app.log_line_count(), 3);
    app.log_loaded(Ok(String::new()));
    assert_eq!(app.log_line_count(), 0);
    app.log_loaded(Ok("\n".to_string()));
    assert_eq!(app.log_line_count(), 1);
    app.log_loaded(Ok("no newline".to_string()));
    assert_eq!(app.log_line_count(), 1);
}

#[test]
fn first_log_is_shown_at_its_bottom() {
    let app = app_showing(100, 12);
    assert_eq!(app.log_line_count(), 100);
    assert_eq!(app.log_scroll(), 90);
    assert!(app.is_at_bottom());
    let short = app_showing(5, 12);
    assert_eq!(short.log_scroll(), 0);
    assert!(short.is_at_bottom());
}

#[test]
fn log_loaded_at_bottom_follows_new_bottom() {
    let mut app = app_showing(100, 12);
    assert!(app.is_at_bottom());
    app.log_loaded(Ok(numbered_text(130)));
    assert_eq!(app.log_scroll(), 120);
    app.log_loaded(Ok(numbered_text(20)));
    assert_eq!(app.log_scroll(), 10);
    app.log_loaded(Ok(numbered_text(3)));
    assert_eq!(app.log_scroll(), 0);
}

#[test]
fn log_loaded_above_bottom_keeps_offset() {
    let mut app = app_showing(100, 12);
    app.scroll_log_up(40);
    assert_eq!(app.log_scroll(), 50);
    assert!(!app.is_at_bottom());
    app.log_loaded(Ok(numbered_text(130)));
    assert_eq!(app.log_scroll(), 50);
    assert_eq!(app.log_line_count(), 130);
    // Even where the new log is shorter than the offset.
    app.log_loaded(Ok(numbered_text(20)));
    assert_eq!(app.log_scroll(), 50);
    // Beyond the bottom of what is shown counts as being at the bottom.
    assert!(app.is_at_bottom());
    app.log_loaded(Ok(numbered_text(30)));
    assert_eq!(app.log_scroll(), 20);
}

#[test]
fn log_loaded_after_no_log_goes_to_bottom() {
    let mut app = app_showing(100, 12);
    app.scroll_log_up(40);
    app.next_job();
    assert_eq!(settle(&mut app, None, Ok("unused".to_string())), (1, 0));
    assert_eq!(app.log_scroll(), 50);
    app.previous_job();
    assert_eq!(settle(&mut app, None, Ok(numbered_text(200))), (0, 1));
    assert_eq!(app.log_scroll(), 190);
}

#[test]
fn scenario_reload_at_bottom_follows() {
    let file: Vec<u8> = (1..=1000).flat_map(|i| format!("line {}\n", i).into_bytes()).collect();
    let mut app = app_with(&["1"]);
    app.set_areas(Rect::default(), area(32));
    let viewport = 30;
    assert_eq!(settle(&mut app, paths("/e", "/o"), Ok(tail_text(&file, TAIL_LINES))), (1, 1));
    assert_eq!(app.log_line_count(), 500);
    assert_eq!(app.log_scroll(), 500 - viewport);
    assert!(app.is_at_bottom());

    // One more line is appended; the same number of lines is read again.
    let mut longer = file.clone();
    longer.extend_from_slice(b"line 1001\n");
    app.log_loaded(Ok(tail_text(&longer, TAIL_LINES)));
    assert_eq!(app.log_line_count(), 500);
    assert_eq!(app.log_scroll(), 500 - viewport);
    assert!(app.log_preview().as_deref().unwrap().ends_with("line 1001"));

    // A reading that gives one line more moves the bottom by one line.
    app.log_loaded(Ok(tail_text(&longer, TAIL_LINES + 1)));
    assert_eq!(app.log_line_count(), 501);
    assert_eq!(app.log_scroll(), 501 - viewport);
    assert!(app.is_at_bottom());
}

#[test]
fn scrolling_stays_between_top_and_bottom() {
    let mut app = app_showing(100, 12);
    assert_eq!(app.log_scroll(), 90);
    app.scroll_log_down(1);
    assert_eq!(app.log_scroll(), 90);
    app.scroll_log_up(15);
    assert_eq!(app.log_scroll(), 75);
    app.scroll_log_down(10);
    assert_eq!(app.log_scroll(), 85);
    app.scroll_log_down(u16::MAX);
    assert_eq!(app.log_scroll(), 90);
    app.scroll_log_up(u16::MAX);
    assert_eq!(app.log_scroll(), 0);
    app.scroll_log_up(1);
    assert_eq!(app.log_scroll(), 0);
    app.scroll_log_bottom();
    assert_eq!(app.log_scroll(), 90);
    app.scroll_log_top();
    assert_eq!(app.log_scroll(), 0);
    app.scroll_log_down(0);
    assert_eq!(app.log_scroll(), 0);
}

#[test]
fn scrolling_short_log_stays_at_top() {
    let mut app = app_showing(5, 12);
    app.scroll_log_down(3);
    assert_eq!(app.log_scroll(), 0);
    app.scroll_log_bottom();
    assert_eq!(app.log_scroll(), 0);
    let mut exact = app_showing(10, 12);
    exact.scroll_log_down(3);
    assert_eq!(exact.log_scroll(), 0);
    let mut one_more = app_showing(11, 12);
    one_more.scroll_log_top();
    one_more.scroll_log_down(3);
    assert_eq!(one_more.log_scroll(), 1);
}

#[test]
fn bottom_depends_on_panel_height() {
    let mut app = app_showing(100, 12);
    app.set_areas(Rect::default(), area(0));
    app.scroll_log_bottom();
    assert_eq!(app.log_scroll(), 100);
    app.set_areas(Rect::default(), area(1));
    app.scroll_log_bottom();
    assert_eq!(app.log_scroll(), 100);
    app.set_areas(Rect::default(), area(2));
    app.scroll_log_bottom();
    assert_eq!(app.log_scroll(), 100);
    app.set_areas(Rect::default(), area(3));
    app.scroll_log_bottom();
    assert_eq!(app.log_scroll(), 99);
    app.set_areas(Rect::default(), area(u16::MAX));
    assert!(app.is_at_bottom());
    app.scroll_log_down(7);
    assert_eq!(app.log_scroll(), 0);
}

#[test]
fn bottom_of_very_long_log_is_the_largest_offset() {
    let mut app = app_with(&["1"]);
    app.set_areas(Rect::default(), area(12));
    let text = "x\n".repeat(70000);
    settle(&mut app, paths("/e", "/o"), Ok(text));
    assert_eq!(app.log_line_count(), 70000);
    assert_eq!(app.log_scroll(), 65535 - 10);
    app.scroll_log_down(100);
    assert_eq!(app.log_scroll(), 65535 - 10);
}

#[test]
fn toggle_shows_other_stream_from_top() {
    let mut app = app_showing(100, 12);
    assert_eq!(app.log_scroll(), 90);
    app.toggle_log_mode();
    assert!(app.show_stderr());
    assert_eq!(app.log_scroll(), 0);
    assert_eq!(app.log_preview().as_deref(), Some(numbered_text(100).as_str()));
    // The view is at the top, not at the bottom, so the offset stays.
    assert_eq!(settle(&mut app, None, Ok(numbered_text(50))), (0, 1));
    assert_eq!(app.log_scroll(), 0);
    app.toggle_log_mode();
    assert!(!app.show_stderr());
}

#[test]
fn selection_moves_and_wraps() {
    let mut app = app_with(&["1", "2", "3"]);
    app.next_job();
    assert_eq!(app.selected(), Some(1));
    app.next_job();
    assert_eq!(app.selected(), Some(2));
    app.next_job();
    assert_eq!(app.selected(), Some(0));
    app.previous_job();
    assert_eq!(app.selected(), Some(2));
    app.previous_job();
    assert_eq!(app.selected(), Some(1));
    app.select_last();
    assert_eq!(app.selected(), Some(2));
    app.select_first();
    assert_eq!(app.selected(), Some(0));
    let mut single = app_with(&["1"]);
    single.next_job();
    assert_eq!(single.selected(), Some(0));
    single.previous_job();
    assert_eq!(single.selected(), Some(0));
}

#[test]
fn focus_cycles_and_returns() {
    let mut app = app_with(&["1"]);
    assert_eq!(app.focus(), FocusPanel::Jobs);
    app.cycle_focus();
    assert_eq!(app.focus(), FocusPanel::Log);
    app.cycle_focus();
    assert_eq!(app.focus(), FocusPanel::Jobs);
    app.focus_jobs();
    assert_eq!(app.focus(), FocusPanel::Jobs);
    app.cycle_focus();
    app.focus_jobs();
    assert_eq!(app.focus(), FocusPanel::Jobs);
}

#[test]
fn click_focuses_panel_under_it() {
    let mut app = app_with(&["1"]);
    let jobs = Rect { x: 0, y: 0, width: 45, height: 20 };
    let log = Rect { x: 45, y: 10, width: 55, height: 10 };
    app.set_areas(jobs, log);
    assert_eq!(app.job_list_area(), jobs);
    assert_eq!(app.log_area(), log);
    app.click(50, 12);
    assert_eq!(app.focus(), FocusPanel::Log);
    app.click(50, 5);
    assert_eq!(app.focus(), FocusPanel::Log);
    app.click(44, 19);
    assert_eq!(app.focus(), FocusPanel::Jobs);
    app.click(100, 12);
    assert_eq!(app.focus(), FocusPanel::Jobs);
    app.click(99, 19);
    assert_eq!(app.focus(), FocusPanel::Log);
    // Where both were drawn, the log wins.
    app.set_areas(log, log);
    app.focus_jobs();
    app.click(45, 10);
    assert_eq!(app.focus(), FocusPanel::Log);
}

#[test]
fn rect_contains_its_cells_only() {
    let rect = Rect { x: 3, y: 5, width: 4, height: 2 };
    assert!(rect_contains(rect, 3, 5));
    assert!(rect_contains(rect, 6, 6));
    assert!(!rect_contains(rect, 7, 5));
    assert!(!rect_contains(rect, 3, 7));
    assert!(!rect_contains(rect, 2, 5));
    assert!(!rect_contains(rect, 3, 4));
    assert!(!rect_contains(Rect::default(), 0, 0));
    let edge = Rect { x: 65530, y: 65530, width: 100, height: 100 };
    assert!(rect_contains(edge, 65535, 65535));
    assert!(!rect_contains(edge, 65529, 65535));
}

#[test]
fn quit_is_remembered() {
    let mut app = app_with(&["1"]);
    app.quit();
    assert!(app.should_quit());
    app.refresh_jobs(Vec::new());
    assert!(app.should_quit());
}

#[test]
fn visible_lines_are_those_on_screen() {
    let mut app = app_showing(100, 12);
    assert_eq!(app.visible_lines(), Some((91, 100)));
    assert_eq!(app.scroll_range(), Some(90));
    app.scroll_log_top();
    assert_eq!(app.visible_lines(), Some((1, 10)));
    app.scroll_log_down(45);
    assert_eq!(app.visible_lines(), Some((46, 55)));
    let short = app_showing(5, 12);
    assert_eq!(short.visible_lines(), Some((1, 5)));
    assert_eq!(short.scroll_range(), None);
    let exact = app_showing(10, 12);
    assert_eq!(exact.visible_lines(), Some((1, 10)));
    assert_eq!(exact.scroll_range(), None);
    let empty = app_showing(0, 12);
    assert_eq!(empty.visible_lines(), None);
    assert_eq!(empty.scroll_range(), None);
    let unseen = app_with(&["1"]);
    assert_eq!(unseen.visible_lines(), None);
}

#[test]
fn visible_lines_end_with_the_log() {
    let mut app = app_showing(100, 12);
    app.log_loaded(Ok(numbered_text(95)));
    app.scroll_log_up(2);
    app.log_loaded(Ok(numbered_text(85)));
    // The offset stayed beyond the new bottom.
    assert_eq!(app.log_scroll(), 83);
    assert_eq!(app.visible_lines(), Some((84, 85)));
    assert_eq!(app.scroll_range(), Some(75));
}

#[test]
fn refresh_keeps_a_lone_stdout_path() {
    let lone = job("1", JobState::Running).with_paths(None, Some("/only.out".to_string()));
    let mut app = App::new(Config::default(), vec![lone, job("2", JobState::Running)]);
    assert_eq!(app.jobs()[0].stdout.as_deref(), Some("/only.out"));
    for ids in [&["2", "1"][..], &["1"][..], &["3", "2", "1"][..]] {
        app.refresh_jobs(running(ids));
        for j in app.jobs().iter() {
            if j.job_id == "1" {
                assert_eq!(j.stderr, None);
                assert_eq!(j.stdout.as_deref(), Some("/only.out"));
            } else {
                assert_eq!(j.stderr, None);
                assert_eq!(j.stdout, None);
            }
        }
    }
}

#[test]
fn refresh_keeps_a_lone_stderr_path() {
    let lone = job("1", JobState::Running).with_paths(Some("/only.err".to_string()), None);
    let mut app = App::new(Config::default(), vec![job("2", JobState::Running), lone]);
    app.refresh_jobs(running(&["1", "2"]));
    assert_eq!(app.jobs()[0].stderr.as_deref(), Some("/only.err"));
    assert_eq!(app.jobs()[0].stdout, None);
    assert_eq!(app.jobs()[1].stderr, None);
}

#[test]
fn refresh_takes_paths_of_first_job_that_has_any() {
    let bare = job("1", JobState::Running);
    let with_out = job("1", JobState::Running).with_paths(None, Some("/first.out".to_string()));
    let with_both = job("1", JobState::Running)
        .with_paths(Some("/second.err".to_string()), Some("/second.out".to_string()));
    let mut app = App::new(Config::default(), vec![bare, with_out, with_both]);
    app.refresh_jobs(running(&["1"]));
    assert_eq!(app.jobs()[0].stderr, None);
    assert_eq!(app.jobs()[0].stdout.as_deref(), Some("/first.out"));
}

#[test]
fn empty_paths_are_looked_up_again_on_the_next_selection() {
    let mut app = app_with(&["1", "2"]);
    // The lookup finds no path: both come back empty.
    assert_eq!(settle(&mut app, paths("", ""), Ok("unused".to_string())), (1, 0));
    assert_eq!(app.selected_job().unwrap().stderr.as_deref(), Some(""));
    assert_eq!(app.log_error().as_deref(), Some("No path available"));
    // Once for a selection.
    assert_eq!(settle(&mut app, paths("/e", "/o"), Ok("unused".to_string())), (0, 0));
    // The empty paths stay with the job through a refresh.
    app.refresh_jobs(running(&["1", "2"]));
    assert_eq!(app.selected_job().unwrap().stdout.as_deref(), Some(""));
    assert_eq!(settle(&mut app, paths("/e", "/o"), Ok("unused".to_string())), (0, 0));
    // On the next selection of the job they are looked up again.
    app.next_job();
    assert_eq!(settle(&mut app, paths("/e2", "/o2"), Ok("two".to_string())), (1, 1));
    app.previous_job();
    assert_eq!(settle(&mut app, paths("/e1", "/o1"), Ok("one".to_string())), (1, 1));
    assert_eq!(app.selected_job().unwrap().stderr.as_deref(), Some("/e1"));
    assert_eq!(app.selected_job().unwrap().stdout.as_deref(), Some("/o1"));
    assert_eq!(app.log_preview().as_deref(), Some("one"));
}

#[test]
fn one_missing_path_is_looked_up() {
    let half = job("1", JobState::Running).with_paths(Some("/e".to_string()), None);
    let empty = job("2", JobState::Running).with_paths(Some("/e".to_string()), Some(String::new()));
    let full = job("3", JobState::Running).with_paths(Some("/e".to_string()), Some("/o".to_string()));
    let mut app = App::new(Config::default(), vec![half, empty, full]);
    match app.ensure_job_details() {
        Request::Details { job_id } => assert_eq!(job_id, "1"),
        other => panic!("{:?}", other),
    }
    // A lookup that fails leaves what the job has.
    assert!(matches!(app.details_fetched(None), Request::Idle));
    assert_eq!(app.selected_job().unwrap().stderr.as_deref(), Some("/e"));
    assert_eq!(app.selected_job().unwrap().stdout, None);
    app.next_job();
    match app.ensure_job_details() {
        Request::Details { job_id } => assert_eq!(job_id, "2"),
        other => panic!("{:?}", other),
    }
    assert!(matches!(app.details_fetched(paths("/e2", "/o2")), Request::Log { .. }));
    assert_eq!(app.selected_job().unwrap().stderr.as_deref(), Some("/e2"));
    assert_eq!(app.selected_job().unwrap().stdout.as_deref(), Some("/o2"));
    app.next_job();
    assert!(matches!(app.ensure_job_details(), Request::Log { .. }));
}
