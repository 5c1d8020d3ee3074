use kanjitest::program::Program;
use kanjitest::scroll::{scrolled_down, scrolled_up};

#[test]
fn ten_steps_down_three_lines_end_on_the_last_line() {
    let mut program = Program::new("a\nb\nc\n");
    assert_eq!(program.line_count(), 3);
    for _ in 0..10 {
        program.scroll_down(1);
    }
    assert_eq!(program.scroll_offset(), 2);
}

#[test]
fn scroll_up_stops_at_the_first_line() {
    assert_eq!(scrolled_up(7, 3), 4);
    assert_eq!(scrolled_up(3, 3), 0);
    assert_eq!(scrolled_up(2, 3), 0);
    assert_eq!(scrolled_up(0, 1), 0);
    assert_eq!(scrolled_up(0, 0), 0);
    assert_eq!(scrolled_up(65535, 65535), 0);
}

#[test]
fn scroll_down_adds_while_the_text_lasts() {
    assert_eq!(scrolled_down(0, 10, 1), 1);
    assert_eq!(scrolled_down(4, 10, 5), 9);
    assert_eq!(scrolled_down(3, 10, 0), 3);
}

#[test]
fn scroll_down_past_the_text_lands_on_the_last_line() {
    assert_eq!(scrolled_down(9, 10, 5), 9);
    assert_eq!(scrolled_down(8, 10, 5), 9);
    assert_eq!(scrolled_down(0, 3, 5), 2);
    assert_eq!(scrolled_down(10, 10, 1), 9);
}

#[test]
fn scroll_down_onto_the_line_count_is_taken_as_it_is() {
    assert_eq!(scrolled_down(2, 3, 1), 3);
    assert_eq!(scrolled_down(5, 10, 5), 10);
    assert_eq!(scrolled_down(3, 3, 1), 2);
}

#[test]
fn scroll_down_in_an_empty_text_stays_at_the_top() {
    assert_eq!(scrolled_down(0, 0, 1), 0);
    assert_eq!(scrolled_down(0, 0, 5), 0);
    assert_eq!(scrolled_down(0, 0, 0), 0);
    let mut program = Program::new("");
    program.scroll_down(1);
    program.scroll_down(5);
    assert_eq!(program.scroll_offset(), 0);
    program.scroll_up(1);
    assert_eq!(program.scroll_offset(), 0);
}

#[test]
fn scroll_down_near_the_largest_number_does_not_wrap() {
    assert_eq!(scrolled_down(65535, 65535, 1), 65534);
    assert_eq!(scrolled_down(65535, 65535, 65535), 65534);
    assert_eq!(scrolled_down(65534, 65535, 1), 65535);
    assert_eq!(scrolled_down(65535, 10, 5), 9);
}

#[test]
fn offset_stays_on_a_line_when_no_step_ends_on_the_count() {
    let mut program = Program::new("1\n2\n3\n4\n5\n6\n7\n");
    let steps: [(bool, u16); 8] =
        [(true, 5), (true, 5), (false, 1), (true, 3), (false, 5), (false, 5), (true, 2), (true, 9)];
    for (down, amount) in steps {
        if down {
            program.scroll_down(amount);
        } else {
            program.scroll_up(amount);
        }
        assert!(program.scroll_offset() <= program.line_count() - 1);
    }
    assert_eq!(program.scroll_offset(), 6);
}

#[test]
fn scrolling_moves_nothing_but_the_offset() {
    let mut program = Program::new("a:\nb\nc\n");
    program.scroll_down(2);
    program.scroll_up(1);
    assert_eq!(program.scroll_offset(), 1);
    assert!(!program.hidden());
    assert!(!program.reverse());
    assert_eq!(program.space_ratio(), 40);
    assert!(!program.should_exit());
    assert_eq!(program.line_count(), 3);
}
