use library::ui::gui_native::{confirms, message_line, MessageKind};
use library::screensavers::cosmos::{advance, UniverseState};
use library::role::application::game::{score_after_tick, best_after_respawn, next_game_state, ObstacleJumpState};
use library::ui::accent_list::list_window;
use library::ui::markdown_viewer::{scroll_down, scroll_up};
use library::ui::tabs::{draws_bar, tab_style, TabStyle};
use library::widgets::{
    tab_layout, text_box_display, toast_icon, toast_rgb, toast_rows, toast_title, wrap_message, ToastKind,
};

fn rows(v: Vec<Vec<char>>) -> Vec<String> {
    v.into_iter().map(|r| r.into_iter().collect()).collect()
}

#[test]
fn toast_words_wrap_to_the_width() {
    assert_eq!(rows(wrap_message("the quick brown fox jumps", 10)), vec!["the quick", "brown fox", "jumps"]);
    assert_eq!(rows(wrap_message("  ", 5)), Vec::<String>::new());
    assert_eq!(rows(wrap_message("supercalifragilistic x", 5)), vec!["supercalifragilistic", "x"]);
    assert_eq!(rows(wrap_message("é é", 4)), vec!["é", "é"]);
    assert_eq!(rows(wrap_message("é é", 5)), vec!["é é"]);
    assert_eq!(rows(toast_rows("one two three four", 5, 2)), vec!["one", "two"]);
    assert_eq!(rows(toast_rows("abcdefgh", 3, 4)), vec!["abc"]);
}

#[test]
fn toast_kinds() {
    assert_eq!(toast_rgb(ToastKind::Success), Some((0, 255, 127)));
    assert_eq!(toast_rgb(ToastKind::Error), Some((255, 85, 85)));
    assert_eq!(toast_rgb(ToastKind::Warning), Some((250, 210, 50)));
    assert_eq!(toast_rgb(ToastKind::Info), None);
    assert_eq!(toast_icon(ToastKind::Error), "❌");
    assert_eq!(toast_title(ToastKind::Info, "Saved"), " ℹ️ Saved ");
}

#[test]
fn text_box_shows_text_or_placeholder_with_cursor() {
    let s = |v: Vec<char>| v.into_iter().collect::<String>();
    assert_eq!(s(text_box_display("abc", "hint", true, 10)), "abc▕");
    assert_eq!(s(text_box_display("abc", "hint", true, 3)), "abc");
    assert_eq!(s(text_box_display("", "hint", true, 3)), "▕hi");
    assert_eq!(s(text_box_display("", "hint", false, 10)), "hint");
    assert_eq!(s(text_box_display("abcdef", "", false, 4)), "abcd");
}

#[test]
fn tabs_that_fit_and_their_styles() {
    assert_eq!(tab_layout(&vec![3, 4, 10], 0, 20), vec![0, 7]);
    assert_eq!(tab_layout(&vec![3], 5, 7), Vec::<u64>::new());
    assert_eq!(tab_layout(&vec![], 0, 80), Vec::<u64>::new());
    assert_eq!(tab_style(1, 1, true), TabStyle::Active);
    assert_eq!(tab_style(1, 1, false), TabStyle::Current);
    assert_eq!(tab_style(0, 1, true), TabStyle::Inactive);
    assert!(draws_bar(TabStyle::Active, 2));
    assert!(!draws_bar(TabStyle::Active, 1));
    assert!(!draws_bar(TabStyle::Current, 2));
}

#[test]
fn list_window_keeps_selection_visible() {
    assert_eq!(list_window(3, 2, 5), (0, 3));
    assert_eq!(list_window(20, 1, 5), (0, 5));
    assert_eq!(list_window(20, 19, 5), (15, 20));
    assert_eq!(list_window(20, 10, 5), (8, 13));
    for sel in 0..30 {
        let (start, end) = list_window(30, sel, 7);
        assert!(start <= sel && sel < end && end - start == 7);
    }
}

#[test]
fn viewer_scroll_is_clamped() {
    assert_eq!(scroll_down(0, 5, 3, 5), 0);
    assert_eq!(scroll_down(0, 5, 20, 5), 5);
    assert_eq!(scroll_down(12, 5, 20, 5), 15);
    assert_eq!(scroll_down(18, 5, 20, 5), 18);
    assert_eq!(scroll_up(3, 5), 0);
    assert_eq!(scroll_up(10, 4), 6);
}

#[test]
fn scene_and_game_states() {
    let mut s = UniverseState::Darkness;
    for _ in 0..6 {
        s = advance(s, true);
    }
    assert_eq!(s, UniverseState::Darkness);
    assert_eq!(advance(UniverseState::Collapse, true), UniverseState::Darkness);
    assert_eq!(advance(UniverseState::Accretion, false), UniverseState::Accretion);
    assert_eq!(next_game_state(ObstacleJumpState::Playing, true, false), ObstacleJumpState::Dead);
    assert_eq!(next_game_state(ObstacleJumpState::Dead, false, true), ObstacleJumpState::Respawning);
    assert_eq!(next_game_state(ObstacleJumpState::Respawning, false, true), ObstacleJumpState::Playing);
    assert_eq!(next_game_state(ObstacleJumpState::Dead, true, false), ObstacleJumpState::Dead);
    assert_eq!(best_after_respawn(3, 7), 7);
    assert_eq!(best_after_respawn(9, 7), 9);
}

#[test]
fn console_dialog_lines_and_answers() {
    assert_eq!(message_line(MessageKind::Info, "Saved", "done"), "[INFO] Saved: done");
    assert_eq!(message_line(MessageKind::Warning, "A", "b"), "[WARNING] A: b");
    assert_eq!(message_line(MessageKind::Error, "A", "b"), "[ERROR] A: b");
    assert!(confirms(" YES\n"));
    assert!(confirms("y"));
    assert!(!confirms("no"));
    assert!(!confirms("ye s"));
}

#[test]
fn game_scores_obstacles_and_jumps() {
    assert_eq!(score_after_tick(5, false, false), Some(5));
    assert_eq!(score_after_tick(5, true, false), Some(6));
    assert_eq!(score_after_tick(5, false, true), Some(7));
    assert_eq!(score_after_tick(5, true, true), Some(8));
    assert_eq!(score_after_tick(usize::MAX - 1, true, false), Some(usize::MAX));
    assert_eq!(score_after_tick(usize::MAX - 1, false, true), None);
}
