use istari::{ActionRunner, ActionType, CommandHistory, Istari, Menu, OutputBuffer};

#[derive(Debug)]
struct AppState {
    counter: i32,
}

/// The demo host: handler 1 increments the counter by the parameter (an
/// integer, 1 by default) and reports the new value.
struct DemoRunner;

impl ActionRunner<AppState> for DemoRunner {
    fn run_action(
        &mut self,
        action: &ActionType,
        state: &mut AppState,
        params: Option<&str>,
    ) -> Option<String> {
        match action {
            ActionType::Sync(1) => {
                let amount = params.and_then(|p| p.parse::<i32>().ok()).unwrap_or(1);
                state.counter += amount;
                Some(format!(
                    "Counter incremented by {} to {}",
                    amount, state.counter
                ))
            }
            _ => None,
        }
    }

    fn run_tick(&mut self, _state: &mut AppState, _messages: &mut Vec<String>, _delta_ms: u64) {}
}

fn demo_session() -> Istari<AppState> {
    let mut root = Menu::new("Root".to_string());
    root.add_action(
        "inc".to_string(),
        "Increment Counter (optional amount)".to_string(),
        ActionType::Sync(1),
    );
    root.add_submenu("s".to_string(), "Submenu".to_string(), Menu::new("Submenu".to_string()));
    Istari::new(root, AppState { counter: 0 }).unwrap()
}

fn type_line(app: &mut Istari<AppState>, line: &str) {
    app.clear_input_buffer();
    for c in line.chars() {
        app.add_to_input_buffer(c);
    }
}

#[test]
fn history_suppresses_immediate_duplicates() {
    let mut h = CommandHistory::new(10);
    h.add("a".to_string());
    h.add("a".to_string());
    h.add("b".to_string());
    assert_eq!(h.entries, vec!["a".to_string(), "b".to_string()]);
}

#[test]
fn history_evicts_oldest_beyond_capacity() {
    let mut h = CommandHistory::new(2);
    h.add("a".to_string());
    h.add("b".to_string());
    h.add("c".to_string());
    assert_eq!(h.entries, vec!["b".to_string(), "c".to_string()]);
}

#[test]
fn history_ignores_empty_entries() {
    let mut h = CommandHistory::new(10);
    h.add("".to_string());
    h.add("a".to_string());
    h.add("".to_string());
    assert_eq!(h.entries, vec!["a".to_string()]);
}

#[test]
fn history_browsing_clamps_and_exits() {
    let mut h = CommandHistory::new(10);
    h.add("a".to_string());
    h.add("b".to_string());
    h.add("c".to_string());

    assert_eq!(h.up(), Some("c".to_string()));
    assert_eq!(h.up(), Some("b".to_string()));
    assert_eq!(h.up(), Some("a".to_string()));
    assert_eq!(h.up(), Some("a".to_string()));

    assert_eq!(h.down(), Some("b".to_string()));
    assert_eq!(h.down(), Some("c".to_string()));
    assert_eq!(h.down(), None);
    assert!(!h.is_browsing());
}

#[test]
fn history_down_does_nothing_when_not_browsing() {
    let mut h = CommandHistory::new(10);
    h.add("a".to_string());
    assert_eq!(h.down(), None);
    assert!(!h.is_browsing());
}

#[test]
fn output_dirty_is_edge_triggered() {
    let mut b = OutputBuffer::new();
    assert!(!b.take_dirty());
    b.append("one".to_string());
    b.append("two".to_string());
    assert!(b.take_dirty());
    assert!(!b.take_dirty());
    b.append("three".to_string());
    assert!(b.take_dirty());
    assert!(!b.take_dirty());
    b.clear();
    assert!(b.messages.is_empty());
    assert!(!b.take_dirty());
}

#[test]
fn end_to_end_demo_session() {
    let mut app = demo_session();
    let mut runner = DemoRunner;

    // "inc 5" parses the parameter and reports the new counter.
    type_line(&mut app, "inc 5");
    assert!(app.process_input_buffer(&mut runner));
    assert_eq!(app.state.counter, 5);
    assert_eq!(
        app.output_messages().last().unwrap(),
        "Counter incremented by 5 to 5"
    );

    // "inc" defaults to 1.
    type_line(&mut app, "inc");
    assert!(app.process_input_buffer(&mut runner));
    assert_eq!(app.state.counter, 6);
    assert_eq!(
        app.output_messages().last().unwrap(),
        "Counter incremented by 1 to 6"
    );

    // "s" enters the submenu.
    type_line(&mut app, "s");
    assert!(app.process_input_buffer(&mut runner));
    assert_eq!(app.current_menu().title, "Submenu");

    // "q" inside the submenu continues and advises how to leave.
    type_line(&mut app, "q");
    assert!(app.process_input_buffer(&mut runner));
    assert_eq!(
        app.output_messages().last().unwrap(),
        "Use 'back' to return to previous menu, or navigate to root menu to quit"
    );
    assert_eq!(app.current_menu().title, "Submenu");

    // "b" returns to the root.
    type_line(&mut app, "b");
    assert!(app.process_input_buffer(&mut runner));
    assert_eq!(app.current_menu().title, "Root");

    // Unknown input appends a message and leaves the state alone.
    type_line(&mut app, "zzz");
    assert!(app.process_input_buffer(&mut runner));
    assert_eq!(app.output_messages().last().unwrap(), "Unknown command: zzz");
    assert_eq!(app.state.counter, 6);

    // "q" at the root ends the session.
    type_line(&mut app, "q");
    assert!(!app.process_input_buffer(&mut runner));
}

#[test]
fn dispatch_folds_case_and_trims() {
    let mut app = demo_session();
    let mut runner = DemoRunner;

    type_line(&mut app, "  INC 3  ");
    assert!(app.process_input_buffer(&mut runner));
    assert_eq!(app.state.counter, 3);
    assert_eq!(
        app.output_messages().last().unwrap(),
        "Counter incremented by 3 to 3"
    );

    type_line(&mut app, "S");
    assert!(app.process_input_buffer(&mut runner));
    assert_eq!(app.current_menu().title, "Submenu");

    type_line(&mut app, "BACK");
    assert!(app.process_input_buffer(&mut runner));
    assert_eq!(app.current_menu().title, "Root");

    type_line(&mut app, "QUIT");
    assert!(!app.process_input_buffer(&mut runner));
}

#[test]
fn back_at_root_reports_already_there() {
    let mut app = demo_session();
    let mut runner = DemoRunner;
    type_line(&mut app, "b");
    assert!(app.process_input_buffer(&mut runner));
    assert_eq!(app.output_messages().last().unwrap(), "Already at root menu");
}

#[test]
fn empty_input_is_a_silent_no_op() {
    let mut app = demo_session();
    let mut runner = DemoRunner;
    assert!(app.process_input_buffer(&mut runner));
    assert!(app.output_messages().is_empty());
    assert!(app.history.entries.is_empty());
}

#[test]
fn whitespace_only_input_reports_unknown_command() {
    let mut app = demo_session();
    let mut runner = DemoRunner;
    type_line(&mut app, "   ");
    assert!(app.process_input_buffer(&mut runner));
    assert_eq!(app.output_messages().last().unwrap(), "Unknown command: ");
    assert!(app.history.entries.is_empty());
}

#[test]
fn dispatch_records_history_and_clears_input() {
    let mut app = demo_session();
    let mut runner = DemoRunner;

    type_line(&mut app, "inc 2");
    app.process_input_buffer(&mut runner);
    type_line(&mut app, "s");
    app.process_input_buffer(&mut runner);

    assert_eq!(app.history.entries, vec!["inc 2".to_string(), "s".to_string()]);
    assert!(app.input_buffer().is_empty());

    app.history_up();
    assert_eq!(app.input_buffer(), "s");
    app.history_up();
    assert_eq!(app.input_buffer(), "inc 2");
    app.history_up();
    assert_eq!(app.input_buffer(), "inc 2");
    app.history_down();
    assert_eq!(app.input_buffer(), "s");
    app.history_down();
    assert_eq!(app.input_buffer(), "");

    app.history_up();
    assert_eq!(app.input_buffer(), "s");
    app.exit_history_browsing();
    app.history_down();
    assert_eq!(app.input_buffer(), "s");
}

#[test]
fn handle_key_matches_items_then_reserved_keys() {
    let mut app = demo_session();
    let mut runner = DemoRunner;

    assert!(app.handle_key_with_params("inc", Some("4"), &mut runner));
    assert_eq!(app.state.counter, 4);
    assert_eq!(
        app.output_messages().last().unwrap(),
        "Counter incremented by 4 to 4"
    );

    assert!(app.handle_key("s", &mut runner));
    assert_eq!(app.current_menu().title, "Submenu");

    assert!(app.handle_key("q", &mut runner));
    assert_eq!(
        app.output_messages().last().unwrap(),
        "Use 'b' to return to previous menu, or navigate to root menu to quit"
    );

    assert!(app.handle_key("b", &mut runner));
    assert_eq!(app.current_menu().title, "Root");

    assert!(app.handle_key("b", &mut runner));
    assert_eq!(app.output_messages().last().unwrap(), "Already at root menu");

    assert!(app.handle_key("zzz", &mut runner));
    assert_eq!(app.output_messages().last().unwrap(), "Unknown command: zzz");

    assert!(!app.handle_key("q", &mut runner));
}

#[test]
fn silent_actions_append_nothing() {
    let mut root = Menu::new("Root".to_string());
    root.add_action("noop".to_string(), "Do nothing".to_string(), ActionType::Sync(9));
    let mut app = Istari::new(root, AppState { counter: 0 }).unwrap();
    let mut runner = DemoRunner;

    app.clear_input_buffer();
    for c in "noop".chars() {
        app.add_to_input_buffer(c);
    }
    assert!(app.process_input_buffer(&mut runner));
    assert!(app.output_messages().is_empty());
}
