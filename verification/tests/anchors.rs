use herdr::osc::agent::{AgentOscStateTracker, AnchorRow};
use herdr::osc::color::{
    DefaultColorEvent, DefaultColorEventTracker, DefaultColorQuery,
};
use herdr::osc::cwd::windows_path;
use herdr::osc::scrollback::{
    current_transient_default_color_owner, ForegroundJob, ForegroundProcess,
};

fn shown(row: usize) -> AnchorRow {
    AnchorRow { has_value: true, primary_prompt: true, screen_row: Some(row) }
}

const GONE: AnchorRow = AnchorRow { has_value: false, primary_prompt: false, screen_row: None };

fn announce(tracker: &mut AgentOscStateTracker, id: &str, row: u64, rows: &[AnchorRow]) {
    let marker = format!("\x1b]133;A;aid=omp-response-{id}\x07");
    let mut observation = tracker.observe_on_screen(marker.as_bytes(), false, rows);
    let event = observation.reply_anchor_events.pop().unwrap();
    tracker.register_omp_reply_anchor(event, Some(row), rows);
}

#[test]
fn replies_are_found_on_the_rows_that_they_were_bound_to() {
    let mut tracker = AgentOscStateTracker::default();
    announce(&mut tracker, "run:first", 7, &[]);
    announce(&mut tracker, "run:second", 9, &[shown(2)]);
    assert_eq!(tracker.omp_reply_anchor_count(), 2);
    assert_eq!(
        tracker.omp_reply_anchor_rows(&[shown(2), shown(5)]),
        [(b"run:first".to_vec(), 2), (b"run:second".to_vec(), 5)]
    );
    // A reply that is announced again moves, and none is counted twice.
    announce(&mut tracker, "run:first", 11, &[shown(2), shown(5)]);
    assert_eq!(tracker.omp_reply_anchor_count(), 2);
    // A row that the terminal lost takes its reply with it.
    assert_eq!(
        tracker.omp_reply_anchor_rows(&[GONE, shown(4)]),
        [(b"run:second".to_vec(), 4)]
    );
    assert_eq!(tracker.omp_reply_anchor_count(), 1);
}

#[test]
fn a_reply_without_a_row_is_not_bound() {
    let mut tracker = AgentOscStateTracker::default();
    let mut observation =
        tracker.observe_on_screen(b"\x1b]133;A;aid=omp-response-run:first\x07", false, &[]);
    let event = observation.reply_anchor_events.pop().unwrap();
    tracker.register_omp_reply_anchor(event, None, &[]);
    assert_eq!(tracker.omp_reply_anchor_count(), 0);
}

#[test]
fn a_process_ends_its_replies_once() {
    let mut tracker = AgentOscStateTracker::default();
    let before = tracker.omp_reply_generation();
    announce(&mut tracker, "run:first", 1, &[]);
    let current = tracker.omp_reply_generation();
    assert_ne!(before, current);
    assert!(tracker.reset_omp_reply_state_if_current(current, false));
    assert_eq!(tracker.omp_reply_anchor_count(), 0);
    assert!(!tracker.reset_omp_reply_state_if_current(current, false));
}

#[test]
fn a_newer_marker_of_a_replacement_survives_the_end_of_its_predecessor() {
    let mut tracker = AgentOscStateTracker::default();
    let before = tracker.omp_reply_generation();
    announce(&mut tracker, "run:first", 1, &[]);
    assert!(!tracker.reset_omp_reply_state_if_current(before, true));
    assert_eq!(tracker.omp_reply_anchor_count(), 1);
}

#[test]
fn an_unfinished_color_command_is_known_before_its_end() {
    let mut tracker = DefaultColorEventTracker::default();
    assert_eq!(tracker.in_progress_event(), None);
    tracker.observe(b"\x1b]11;?");
    assert_eq!(
        tracker.in_progress_event(),
        Some(DefaultColorEvent::Query(DefaultColorQuery::Background))
    );
    assert!(tracker.drain_pending().is_empty());
    tracker.observe(b"\x07");
    assert_eq!(tracker.in_progress_event(), None);
    assert_eq!(tracker.drain_pending().len(), 1);
}

#[test]
fn colors_are_set_by_their_own_commands() {
    assert_eq!(DefaultColorQuery::Foreground.osc_number(), 10);
    assert_eq!(DefaultColorQuery::Background.osc_number(), 11);
    assert_eq!(DefaultColorQuery::Cursor.osc_number(), 12);
}

#[test]
fn paths_of_windows_lose_their_leading_slash() {
    assert_eq!(windows_path("/C:/Users/x"), "C:\\Users\\x");
    assert_eq!(windows_path("/srv/share"), "\\srv\\share");
    assert_eq!(windows_path(""), "");
}

#[test]
fn the_shell_owns_no_colors() {
    let job = ForegroundJob {
        process_group_id: 40,
        processes: vec![ForegroundProcess {
            pid: 41,
            name: "vim".into(),
            argv0: None,
            argv: None,
            cmdline: None,
        }],
    };
    assert_eq!(current_transient_default_color_owner(Some(&job), 9), Some(40));
    assert_eq!(current_transient_default_color_owner(Some(&job), 41), None);
    assert_eq!(current_transient_default_color_owner(None, 9), None);
}
