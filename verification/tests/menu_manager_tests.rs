use istari::{ActionRunner, ActionType, Menu, MenuItem, MenuManager};

#[derive(Debug)]
struct TestState {
    counter: i32,
}

/// Runs every action by bumping the counter and reporting it.
struct CounterRunner;

impl ActionRunner<TestState> for CounterRunner {
    fn run_action(
        &mut self,
        _action: &ActionType,
        state: &mut TestState,
        _params: Option<&str>,
    ) -> Option<String> {
        state.counter += 1;
        Some(format!("Counter: {}", state.counter))
    }

    fn run_tick(&mut self, _state: &mut TestState, _messages: &mut Vec<String>, _delta_ms: u64) {}
}

#[test]
fn menu_manager_test_menu_navigation() {
    let mut root_menu = Menu::new("Root".to_string());
    root_menu.add_item(MenuItem::new_submenu(
        "s".to_string(),
        "Submenu".to_string(),
        Menu::new("Submenu".to_string()),
    ));

    let mut manager = MenuManager::new(root_menu).unwrap();

    assert!(manager.is_at_root());

    assert!(manager.navigate_to_submenu("s"));
    assert!(!manager.is_at_root());

    assert!(manager.navigate_back());
    assert!(manager.is_at_root());

    assert!(!manager.navigate_back());

    assert!(!manager.navigate_to_submenu("x"));
}

#[test]
fn test_action_execution() {
    let mut state = TestState { counter: 0 };

    let mut menu = Menu::new("Test".to_string());
    menu.add_item(MenuItem::new_action(
        "a".to_string(),
        "Increment".to_string(),
        ActionType::Sync(1),
    ));

    let mut manager = MenuManager::new(menu).unwrap();

    assert!(manager.has_action("a"));
    assert!(!manager.has_submenu("a"));

    let mut runner = CounterRunner;
    let result = manager.execute_action("a", &mut state, None, &mut runner);
    assert_eq!(result, Some("Counter: 1".to_string()));
    assert_eq!(state.counter, 1);

    let result = manager.execute_action("a", &mut state, Some("param"), &mut runner);
    assert_eq!(result, Some("Counter: 2".to_string()));
    assert_eq!(state.counter, 2);

    // A key miss runs no handler: the state is untouched.
    let result = manager.execute_action("x", &mut state, None, &mut runner);
    assert_eq!(result, None);
    assert_eq!(state.counter, 2);
}

#[test]
fn navigation_is_case_insensitive() {
    let mut root_menu = Menu::new("Root".to_string());
    root_menu.add_item(MenuItem::new_submenu(
        "Settings".to_string(),
        "Settings".to_string(),
        Menu::new("Settings".to_string()),
    ));

    let mut manager = MenuManager::new(root_menu).unwrap();
    assert!(manager.navigate_to_submenu("SETTINGS"));
    assert_eq!(manager.current_menu().title, "Settings");
}

#[test]
fn navigation_returns_to_the_originating_node() {
    let mut root = Menu::new("Root".to_string());
    let mut mid = Menu::new("Mid".to_string());
    let deep = Menu::new("Deep".to_string());
    mid.add_submenu("d".to_string(), "Deep".to_string(), deep);
    root.add_submenu("m".to_string(), "Mid".to_string(), mid);

    let mut manager = MenuManager::new(root).unwrap();
    assert!(manager.navigate_to_submenu("m"));
    assert!(manager.navigate_to_submenu("d"));
    assert_eq!(manager.current_menu().title, "Deep");
    assert!(!manager.is_at_root());

    assert!(manager.navigate_back());
    assert_eq!(manager.current_menu().title, "Mid");
    assert!(!manager.is_at_root());

    assert!(manager.navigate_back());
    assert_eq!(manager.current_menu().title, "Root");
    assert!(manager.is_at_root());
}

#[test]
fn navigate_to_action_item_fails() {
    let mut root = Menu::new("Root".to_string());
    root.add_action("a".to_string(), "Action".to_string(), ActionType::Sync(1));
    let mut manager = MenuManager::new(root).unwrap();
    assert!(!manager.navigate_to_submenu("a"));
    assert!(manager.is_at_root());
}
