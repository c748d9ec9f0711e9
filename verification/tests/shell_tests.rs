use turtl::command;
use turtl::shell::{info_graphic, Context, INIT_X_OFFSET};

fn chars(s: &str) -> Vec<char> {
    s.chars().collect()
}

#[test]
fn new_context_is_empty() {
    let ctx = Context::new();
    assert_eq!(ctx.id, 0);
    assert_eq!(ctx.name, "");
    assert!(ctx.history.is_empty());
    assert!(ctx.line_buffer.is_empty());
    assert_eq!(ctx.min_x, INIT_X_OFFSET);
    assert_eq!(ctx.x, INIT_X_OFFSET);
    assert_eq!(ctx.y, 1);
    assert_eq!(ctx.current_pos, 0);
    assert!(ctx.program.is_empty());
}

#[test]
fn typing_appends_and_inserts() {
    let mut ctx = Context::new();
    ctx.input_char('h');
    ctx.input_char('i');
    assert_eq!(ctx.line_buffer, chars("hi"));
    assert_eq!(ctx.x, INIT_X_OFFSET + 2);
    // move the cursor back one column and type: the character is inserted
    ctx.x -= 1;
    ctx.input_char('e');
    assert_eq!(ctx.line_buffer, chars("hei"));
    assert_eq!(ctx.x, INIT_X_OFFSET + 2);
}

#[test]
fn input_pos_tracks_the_cursor() {
    let mut ctx = Context::new();
    assert_eq!(ctx.input_pos(), 0);
    ctx.input_char('a');
    assert_eq!(ctx.input_pos(), 1);
}

#[test]
fn history_navigation() {
    let mut ctx = Context::new();
    ctx.history.push(chars("first"));
    ctx.history.push(chars("second"));
    ctx.current_pos = 2;
    ctx.shift_history_back();
    assert_eq!(ctx.current_pos, 1);
    assert_eq!(ctx.line_buffer, chars("second"));
    assert_eq!(ctx.x, ctx.min_x + 6);
    ctx.shift_history_back();
    assert_eq!(ctx.current_pos, 0);
    assert_eq!(ctx.line_buffer, chars("first"));
    // at the oldest entry a further step changes nothing
    ctx.shift_history_back();
    assert_eq!(ctx.current_pos, 0);
    assert_eq!(ctx.line_buffer, chars("first"));
    ctx.shift_history_forward();
    assert_eq!(ctx.current_pos, 1);
    assert_eq!(ctx.line_buffer, chars("second"));
    // at the newest entry a further step changes nothing
    ctx.shift_history_forward();
    assert_eq!(ctx.current_pos, 1);
}

#[test]
fn prompt_offset_grows_with_the_index_width() {
    let mut ctx = Context::new();
    ctx.current_pos = 5;
    ctx.reset_x();
    assert_eq!(ctx.min_x, INIT_X_OFFSET);
    assert_eq!(ctx.x, ctx.min_x);
    ctx.current_pos = 42;
    ctx.reset_x();
    assert_eq!(ctx.min_x, INIT_X_OFFSET + 1);
    ctx.current_pos = 1234;
    ctx.reset_x();
    assert_eq!(ctx.min_x, INIT_X_OFFSET + 3);
    ctx.current_pos = 0;
    ctx.reset_x();
    assert_eq!(ctx.min_x, INIT_X_OFFSET);
}

#[test]
fn last_input_is_the_newest_entry() {
    let mut ctx = Context::new();
    ctx.history.push(chars("one"));
    ctx.history.push(chars("two"));
    assert_eq!(ctx.last_input(), &chars("two"));
}

#[test]
fn reset_clears_the_session_but_keeps_the_screen_position() {
    let mut ctx = Context::new();
    ctx.id = 7;
    ctx.history.push(chars("x"));
    ctx.input_char('q');
    ctx.y = 9;
    ctx.program = vec![1, 2, 3];
    ctx.reset();
    assert_eq!(ctx.id, 0);
    assert!(ctx.history.is_empty());
    assert!(ctx.line_buffer.is_empty());
    assert_eq!(ctx.min_x, INIT_X_OFFSET);
    assert_eq!(ctx.current_pos, 0);
    assert_eq!(ctx.y, 9);
    assert_eq!(ctx.program, vec![1, 2, 3]);
}

#[test]
fn command_handlers_reset_the_session() {
    let mut ctx = Context::new();
    ctx.id = 3;
    ctx.history.push(chars("old"));
    assert!(command::list(vec!["@list"], &mut ctx).is_ok());
    assert_eq!(ctx.id, 0);
    assert!(ctx.history.is_empty());

    ctx.id = 4;
    assert!(command::reset(vec!["@reset"], &mut ctx).is_ok());
    assert_eq!(ctx.id, 0);

    assert!(command::compile(vec!["@compile"], &mut ctx).is_ok());
    assert!(command::run(vec!["@run"], &mut ctx).is_ok());
    assert!(command::peers(vec!["@peers"], &mut ctx).is_ok());
    assert!(command::save(vec!["@save"], &mut ctx).is_ok());
    assert!(command::name(vec!["@name"], &mut ctx).is_ok());
}

#[test]
fn load_command_replaces_the_program_bytes() {
    let mut ctx = Context::new();
    ctx.program = vec![9, 9];
    assert!(command::load(vec![1, 2, 3, 4], &mut ctx).is_ok());
    assert_eq!(ctx.program, vec![1, 2, 3, 4]);
}

#[test]
fn banner_is_not_empty() {
    assert!(!info_graphic().is_empty());
}
