use trace_reader::finder::SearchStatus;
use trace_reader::output::OutputToFile;
use trace_reader::tabs::{SearchTab, SearchTabState};
use trace_reader::tui::{focus_index, progress_steps, Channels, ListCursor};

#[test]
fn focus_moves_in_a_ring() {
    assert_eq!(focus_index(3, 1), 1);
    assert_eq!(focus_index(3, 3), 0);
    assert_eq!(focus_index(3, -1), 2);
    assert_eq!(focus_index(13, 13), 0);
    assert_eq!(focus_index(13, -1), 12);
    assert_eq!(focus_index(1, 0), 0);
}

#[test]
fn list_cursor_wraps_at_both_ends() {
    let mut cursor = ListCursor::new(3);
    assert_eq!(cursor.offset(), 0);
    cursor.up();
    assert_eq!(cursor.offset(), 2);
    cursor.down();
    assert_eq!(cursor.offset(), 0);
    cursor.down();
    cursor.down();
    assert_eq!(cursor.offset(), 2);
    assert_eq!(cursor.get_index(), None);
    assert_eq!(cursor.select(), Some(2));
    assert_eq!(cursor.get_index(), Some(2));
    cursor.set(5);
    assert_eq!(cursor.offset(), 0);
    assert_eq!(cursor.get_index(), None);
}

#[test]
fn list_cursor_reports_a_change_once() {
    let mut cursor = ListCursor::new(2);
    assert!(cursor.pop_state_change());
    assert!(!cursor.pop_state_change());
    cursor.down();
    assert!(cursor.pop_state_change());
    assert!(!cursor.pop_state_change());
    assert_eq!(cursor.select(), Some(1));
    assert!(cursor.pop_state_change());
}

#[test]
fn an_empty_list_has_nothing_to_choose() {
    let mut cursor = ListCursor::new(0);
    assert!(cursor.pop_state_change());
    cursor.up();
    cursor.down();
    assert_eq!(cursor.offset(), 0);
    assert_eq!(cursor.select(), None);
    assert!(!cursor.pop_state_change());
}

#[test]
fn channels_are_chosen_in_a_ring() {
    let mut channels = Channels::new();
    assert_eq!(channels.get(), None);
    channels.left();
    channels.right();
    assert_eq!(channels.get(), None);
    channels.set(vec![4, 8, 15]);
    assert_eq!(channels.get(), Some(4));
    channels.left();
    assert_eq!(channels.get(), Some(15));
    channels.right();
    channels.right();
    assert_eq!(channels.get(), Some(8));
    channels.set(vec![16]);
    assert_eq!(channels.get(), Some(16));
    channels.right();
    assert_eq!(channels.get(), Some(16));
}

#[test]
fn progress_follows_the_statuses_of_a_search() {
    let passes = 5;
    assert_eq!(progress_steps(&SearchStatus::Off, passes, 0), 0);
    assert_eq!(progress_steps(&SearchStatus::TraceSearchInProgress(0, 6), passes, 0), 1);
    assert_eq!(progress_steps(&SearchStatus::TraceSearchInProgress(6, 6), passes, 1), 7);
    assert_eq!(progress_steps(&SearchStatus::EventListSearchInProgress(0, 6), passes, 7), 7);
    assert_eq!(progress_steps(&SearchStatus::EventListSearchInProgress(6, 6), passes, 7), 13);
    assert_eq!(progress_steps(&SearchStatus::Successful, passes, 13), 13);
    assert_eq!(progress_steps(&SearchStatus::Halted, passes, 9), 9);
    assert_eq!(progress_steps(&SearchStatus::Text("x".to_string()), passes, 4), 4);
    assert_eq!(
        progress_steps(&SearchStatus::EventListSearchInProgress(u32::MAX, 0), u32::MAX, 0),
        2 * (u32::MAX as u64) + 2
    );
}

#[test]
fn the_search_screen_opens_on_setup() {
    let mut tab = SearchTab::new();
    assert_eq!(tab.stats, SearchTabState::Setup);
    assert_eq!(tab.setup.name, "");
    assert_eq!(tab.results.name, "");
    tab.switch();
    assert_eq!(tab.stats, SearchTabState::Results);
    tab.switch();
    assert_eq!(tab.stats, SearchTabState::Setup);
    assert_eq!(SearchTabState::default(), SearchTabState::Setup);
}

#[test]
fn an_output_keeps_its_path() {
    let output = OutputToFile::new("out/images".to_string());
    assert_eq!(output.path, "out/images");
    OutputToFile::write_image();
}

#[test]
fn the_default_status_is_off() {
    assert_eq!(SearchStatus::default(), SearchStatus::Off);
}
