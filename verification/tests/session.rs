use fm_core::types::ViewMotion;
use fm_core::view::session::{
    backs_up_further, chases_index, col_after, find_backward_step, find_backward_window, find_forward_from,
    find_forward_step, grown_read, line_down_target, next_page_from, render_read, row_count_read, text_move, FindStep,
    TextMove, MAX_RENDER_READ, READ_CHUNK,
};

#[test]
fn a_forward_search_overlaps_its_windows_and_stops_at_the_end() {
    assert_eq!(find_forward_from(100, 2), 102);
    assert_eq!(find_forward_step(10, 100, 1000, 3, Some(7)), FindStep::Found(17));
    // The next window starts three bytes before this one ended.
    assert_eq!(find_forward_step(10, 100, 1000, 3, None), FindStep::Next(107));
    assert_eq!(find_forward_step(900, 100, 1000, 3, None), FindStep::Done);
    assert_eq!(find_forward_step(10, 0, 1000, 3, None), FindStep::Done);
}

#[test]
fn a_backward_search_reads_windows_ending_past_the_last_one() {
    assert_eq!(find_backward_window(10, 2), (0, 12));
    let far = READ_CHUNK as u64 * 3;
    assert_eq!(find_backward_window(far, 4), (far + 4 - READ_CHUNK as u64, READ_CHUNK));
    // A hit before the top of the page is the answer; one at or past it is not.
    assert_eq!(find_backward_step(50, 100, Some(20)), FindStep::Found(70));
    assert_eq!(find_backward_step(50, 100, Some(60)), FindStep::Next(50));
    assert_eq!(find_backward_step(0, 100, Some(150)), FindStep::Done);
    assert_eq!(find_backward_step(0, 100, None), FindStep::Done);
}

#[test]
fn motions_move_the_top_of_a_text_page() {
    assert_eq!(text_move(ViewMotion::LineDown, 5, 50, 100), TextMove::NextLine);
    assert_eq!(text_move(ViewMotion::LineUp, 5, 50, 100), TextMove::PrevLine);
    assert_eq!(text_move(ViewMotion::PageDown, 5, 50, 100), TextMove::To(50));
    assert_eq!(text_move(ViewMotion::PageDown, 5, 100, 100), TextMove::Stay);
    assert_eq!(text_move(ViewMotion::PageUp, 5, 50, 100), TextMove::BackUpFrom(5));
    assert_eq!(text_move(ViewMotion::Home, 5, 50, 100), TextMove::To(0));
    assert_eq!(text_move(ViewMotion::End, 5, 50, 100), TextMove::BackUpFrom(100));
    assert_eq!(text_move(ViewMotion::ColLeft, 5, 50, 100), TextMove::Stay);
    assert_eq!(line_down_target(5, 40, 100), 40);
    assert_eq!(line_down_target(5, 100, 100), 5);
}

#[test]
fn columns_scroll_in_steps_and_only_without_wrap() {
    assert_eq!(col_after(ViewMotion::ColRight, 0, false), 8);
    assert_eq!(col_after(ViewMotion::ColRight, 0, true), 0);
    assert_eq!(col_after(ViewMotion::ColLeft, 12, false), 4);
    assert_eq!(col_after(ViewMotion::ColLeft, 5, false), 0);
    assert_eq!(col_after(ViewMotion::Home, 40, false), 0);
    assert_eq!(col_after(ViewMotion::PageDown, 40, false), 40);
}

#[test]
fn render_reads_grow_to_the_cap() {
    assert_eq!(render_read(24, 80, 0), READ_CHUNK);
    assert_eq!(render_read(200, 200, 0), 200 * 201 * 4);
    assert_eq!(grown_read(READ_CHUNK), Some(READ_CHUNK * 8));
    assert_eq!(grown_read(MAX_RENDER_READ / 2), Some(MAX_RENDER_READ));
    assert_eq!(grown_read(MAX_RENDER_READ), None);
    assert_eq!(row_count_read(10, 30), 20);
    assert_eq!(row_count_read(0, u64::MAX), MAX_RENDER_READ);
    assert_eq!(next_page_from(500, 100, 120), 500);
    assert_eq!(next_page_from(100, 100, 120), 120);
}

#[test]
fn backing_up_and_index_chasing_decisions() {
    assert!(backs_up_further(3, 24, 10));
    assert!(!backs_up_further(24, 24, 10));
    assert!(!backs_up_further(3, 24, 0));
    assert!(chases_index(100, 50));
    assert!(!chases_index(50, 50));
    assert!(!chases_index(50 + (4 << 20) + 1, 50));
}
