use istari::{ActionType, IstariError, ItemPayload, Menu, MenuItem};

#[test]
fn test_menu_creation() {
    let menu = Menu::new("Test Menu".to_string());
    assert_eq!(menu.title, "Test Menu");
    assert!(menu.items.is_empty());
}

#[test]
fn test_menu_item_creation() {
    let item = MenuItem::new_action(
        "1".to_string(),
        "Test Action".to_string(),
        ActionType::Sync(7),
    );
    assert_eq!(item.key, "1");
    assert_eq!(item.description, "Test Action");
    assert!(matches!(item.payload, ItemPayload::Action(_)));
    assert!(!matches!(item.payload, ItemPayload::Submenu(_)));
}

#[test]
fn test_menu_validation_duplicate_keys() {
    let mut menu = Menu::new("Test Menu".to_string());

    menu.add_action(
        "1".to_string(),
        "First Action".to_string(),
        ActionType::Sync(1),
    );

    menu.add_action(
        "1".to_string(),
        "Duplicate Action".to_string(),
        ActionType::Sync(2),
    );

    let result = Menu::validate_menu(&menu);

    assert!(result.is_err());
    if let Err(IstariError::DuplicateCommand(key, menu_title)) = result {
        assert_eq!(key, "1");
        assert_eq!(menu_title, "Test Menu");
    } else {
        panic!("Expected DuplicateCommand error");
    }
}

#[test]
fn test_menu_validation_reserved_keys() {
    let mut menu = Menu::new("Test Menu".to_string());

    menu.add_action(
        "q".to_string(),
        "Reserved Key Action".to_string(),
        ActionType::Sync(1),
    );

    let result = Menu::validate_menu(&menu);

    assert!(result.is_err());
    if let Err(IstariError::ReservedCommand(key, menu_title)) = result {
        assert_eq!(key, "q");
        assert_eq!(menu_title, "Test Menu");
    } else {
        panic!("Expected ReservedCommand error");
    }
}

#[test]
fn test_menu_validation_nested_duplicate_keys() {
    let mut root_menu = Menu::new("Root Menu".to_string());
    let mut submenu = Menu::new("Submenu".to_string());

    submenu.add_action(
        "1".to_string(),
        "First Action".to_string(),
        ActionType::Sync(1),
    );

    submenu.add_action(
        "1".to_string(),
        "Duplicate Action".to_string(),
        ActionType::Sync(2),
    );

    root_menu.add_submenu("s".to_string(), "Go to Submenu".to_string(), submenu);

    let result = Menu::validate_menu(&root_menu);

    assert!(result.is_err());
    if let Err(IstariError::DuplicateCommand(key, menu_title)) = result {
        assert_eq!(key, "1");
        assert_eq!(menu_title, "Submenu");
    } else {
        panic!("Expected DuplicateCommand error");
    }
}

#[test]
fn test_menu_validation_nested_reserved_keys() {
    let mut root_menu = Menu::new("Root Menu".to_string());
    let mut submenu = Menu::new("Submenu".to_string());

    submenu.add_action(
        "q".to_string(),
        "Reserved Key Action".to_string(),
        ActionType::Sync(1),
    );

    root_menu.add_submenu("s".to_string(), "Go to Submenu".to_string(), submenu);

    let result = Menu::validate_menu(&root_menu);

    assert!(result.is_err());
    if let Err(IstariError::ReservedCommand(key, menu_title)) = result {
        assert_eq!(key, "q");
        assert_eq!(menu_title, "Submenu");
    } else {
        panic!("Expected ReservedCommand error");
    }
}

#[test]
fn menu_test_menu_navigation() {
    let mut root_menu = Menu::new("Root".to_string());
    let mut submenu = Menu::new("Submenu".to_string());

    submenu.add_action(
        "1".to_string(),
        "Submenu Action".to_string(),
        ActionType::Sync(1),
    );

    root_menu.add_submenu("s".to_string(), "Go to Submenu".to_string(), submenu);

    let item = root_menu.get_item("s").unwrap();
    match &item.payload {
        ItemPayload::Submenu(submenu) => {
            assert_eq!(submenu.title, "Submenu");
            assert_eq!(submenu.items.len(), 1);
        }
        ItemPayload::Action(_) => panic!("Expected a submenu item"),
    }
}

#[test]
fn test_menu_item_clone() {
    let item = MenuItem::new_action(
        "1".to_string(),
        "Test Action".to_string(),
        ActionType::Sync(3),
    );

    let cloned = item.clone();
    assert_eq!(cloned.key, item.key);
    assert_eq!(cloned.description, item.description);
    // Handlers are tokens, so a clone keeps the action, unlike a closure.
    assert!(matches!(cloned.payload, ItemPayload::Action(ActionType::Sync(3))));
    assert!(!matches!(cloned.payload, ItemPayload::Submenu(_)));
}

#[test]
fn test_menu_debug() {
    let mut menu = Menu::new("Test Menu".to_string());
    menu.add_action(
        "1".to_string(),
        "Test Action".to_string(),
        ActionType::Sync(1),
    );

    let debug_string = format!("{:?}", menu);
    assert!(debug_string.contains("Test Menu"));
    assert!(debug_string.contains("Test Action"));
}

#[test]
fn default_menu_is_empty() {
    let menu = Menu::default();
    assert_eq!(menu.title, "Menu");
    assert!(menu.items.is_empty());
}

#[test]
fn menu_validation_accepts_valid_tree() {
    let mut root = Menu::new("Root".to_string());
    root.add_action("1".to_string(), "One".to_string(), ActionType::Sync(1));
    let mut sub = Menu::new("Sub".to_string());
    sub.add_action("1".to_string(), "One again".to_string(), ActionType::Sync(2));
    root.add_submenu("s".to_string(), "Sub".to_string(), sub);
    assert!(Menu::validate_menu(&root).is_ok());
}

#[test]
fn menu_validation_duplicates_are_case_insensitive() {
    let mut menu = Menu::new("Test Menu".to_string());
    menu.add_action("a".to_string(), "Lower".to_string(), ActionType::Sync(1));
    menu.add_action("A".to_string(), "Upper".to_string(), ActionType::Sync(2));
    let result = Menu::validate_menu(&menu);
    assert!(result.is_err());
    if let Err(IstariError::DuplicateCommand(key, menu_title)) = result {
        assert_eq!(key, "A");
        assert_eq!(menu_title, "Test Menu");
    } else {
        panic!("Expected DuplicateCommand error");
    }
}

#[test]
fn menu_validation_reserved_is_case_insensitive() {
    let mut menu = Menu::new("Test Menu".to_string());
    menu.add_action("Q".to_string(), "Quit lookalike".to_string(), ActionType::Sync(1));
    let result = Menu::validate_menu(&menu);
    assert!(result.is_err());
    if let Err(IstariError::ReservedCommand(key, menu_title)) = result {
        assert_eq!(key, "Q");
        assert_eq!(menu_title, "Test Menu");
    } else {
        panic!("Expected ReservedCommand error");
    }
}

#[test]
fn validation_reports_the_first_offense_in_item_order() {
    // A duplicate at the second item is reported before a reserved key at the
    // third.
    let mut menu = Menu::new("Test Menu".to_string());
    menu.add_action("x".to_string(), "First".to_string(), ActionType::Sync(1));
    menu.add_action("x".to_string(), "Second".to_string(), ActionType::Sync(2));
    menu.add_action("q".to_string(), "Third".to_string(), ActionType::Sync(3));
    match Menu::validate_menu(&menu) {
        Err(IstariError::DuplicateCommand(key, title)) => {
            assert_eq!(key, "x");
            assert_eq!(title, "Test Menu");
        }
        other => panic!("Expected DuplicateCommand error, got {:?}", other),
    }
}

#[test]
fn validation_descends_into_a_submenu_before_the_next_sibling() {
    // An offense inside the first item's submenu is reported before a
    // duplicate among later siblings.
    let mut sub = Menu::new("Sub".to_string());
    sub.add_action("q".to_string(), "Bad".to_string(), ActionType::Sync(1));
    let mut root = Menu::new("Root".to_string());
    root.add_submenu("s".to_string(), "Sub".to_string(), sub);
    root.add_action("a".to_string(), "First".to_string(), ActionType::Sync(2));
    root.add_action("A".to_string(), "Second".to_string(), ActionType::Sync(3));
    match Menu::validate_menu(&root) {
        Err(IstariError::ReservedCommand(key, title)) => {
            assert_eq!(key, "q");
            assert_eq!(title, "Sub");
        }
        other => panic!("Expected ReservedCommand error, got {:?}", other),
    }
}

#[test]
fn reserved_check_precedes_duplicate_check_for_one_item() {
    // A duplicated reserved key is reported as reserved.
    let mut menu = Menu::new("Test Menu".to_string());
    menu.add_action("q".to_string(), "First".to_string(), ActionType::Sync(1));
    menu.add_action("q".to_string(), "Second".to_string(), ActionType::Sync(2));
    match Menu::validate_menu(&menu) {
        Err(IstariError::ReservedCommand(key, title)) => {
            assert_eq!(key, "q");
            assert_eq!(title, "Test Menu");
        }
        other => panic!("Expected ReservedCommand error, got {:?}", other),
    }
}

#[test]
fn get_item_is_case_insensitive() {
    let mut menu = Menu::new("Root".to_string());
    menu.add_action("Inc".to_string(), "Increment".to_string(), ActionType::Sync(1));
    assert!(menu.get_item("inc").is_some());
    assert!(menu.get_item("INC").is_some());
    assert!(menu.get_item("dec").is_none());
}

#[test]
fn error_messages_name_key_and_menu() {
    let dup = IstariError::DuplicateCommand("1".to_string(), "Test Menu".to_string());
    assert_eq!(
        dup.message(),
        "Duplicate command key '1' in menu 'Test Menu'"
    );
    let res = IstariError::ReservedCommand("q".to_string(), "Main".to_string());
    assert_eq!(res.message(), "Reserved command key 'q' in menu 'Main'");
}
