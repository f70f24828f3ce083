use flow_writer::models::Section;
use flow_writer::models::Variable;
use flow_writer::variable_resolver::build_variable_map;
use flow_writer::variable_resolver::resolve_section_tree;
use flow_writer::variable_resolver::resolve_variables;

#[test]
fn test_build_variable_map() {
    let variables = vec![
        Variable {
            name: "userName".to_string(),
            value: "Jeremy".to_string(),
        },
        Variable {
            name: "goal".to_string(),
            value: "Ship v1".to_string(),
        },
    ];

    let map = build_variable_map(&variables);

    assert_eq!(map.get("userName"), Some(&"Jeremy".to_string()));
    assert_eq!(map.get("goal"), Some(&"Ship v1".to_string()));
    assert_eq!(map.len(), 2);
}

#[test]
fn test_build_variable_map_last_duplicate_wins() {
    let variables = vec![
        Variable {
            name: "goal".to_string(),
            value: "first".to_string(),
        },
        Variable {
            name: "goal".to_string(),
            value: "second".to_string(),
        },
    ];

    let map = build_variable_map(&variables);

    assert_eq!(map.get("goal"), Some(&"second".to_string()));
    assert_eq!(map.len(), 1);
}

#[test]
fn test_resolve_variables_simple() {
    let vars = build_variable_map(&vec![Variable {
        name: "userName".to_string(),
        value: "Jeremy".to_string(),
    }]);

    let content = "Hello ${userName}!";
    let result = resolve_variables(content, &vars);

    assert_eq!(result, "Hello Jeremy!");
}

#[test]
fn test_resolve_variables_multiple() {
    let vars = build_variable_map(&vec![
        Variable {
            name: "goal".to_string(),
            value: "Ship v1".to_string(),
        },
        Variable {
            name: "deadline".to_string(),
            value: "2025-11-01".to_string(),
        },
    ]);

    let content = "We aim to ${goal} by ${deadline}";
    let result = resolve_variables(content, &vars);

    assert_eq!(result, "We aim to Ship v1 by 2025-11-01");
}

#[test]
fn test_resolve_variables_with_markdown() {
    let vars = build_variable_map(&vec![Variable {
        name: "goal".to_string(),
        value: "Ship v1".to_string(),
    }]);

    let content = "# Goal\n\nWe aim to **${goal}**";
    let result = resolve_variables(content, &vars);

    assert_eq!(result, "# Goal\n\nWe aim to **Ship v1**");
}

#[test]
fn test_resolve_variables_missing() {
    let vars = build_variable_map(&vec![]);

    let content = "Hello ${missingVar}!";
    let result = resolve_variables(content, &vars);

    // Should keep original when variable not found
    assert_eq!(result, "Hello ${missingVar}!");
}

#[test]
fn test_resolve_variables_no_variables() {
    let vars = build_variable_map(&vec![]);

    let content = "No variables here";
    let result = resolve_variables(content, &vars);

    assert_eq!(result, "No variables here");
}

#[test]
fn test_resolve_variables_idempotent_once_resolved() {
    let vars = build_variable_map(&vec![Variable {
        name: "goal".to_string(),
        value: "Ship v1".to_string(),
    }]);

    let once = resolve_variables("Do ${goal} and keep ${other}", &vars);
    let twice = resolve_variables(&once, &vars);

    assert_eq!(once, "Do Ship v1 and keep ${other}");
    assert_eq!(twice, once);
}

#[test]
fn test_resolve_section_tree_single() {
    let vars = build_variable_map(&vec![Variable {
        name: "userName".to_string(),
        value: "Jeremy".to_string(),
    }]);

    let mut sections = vec![Section {
        id: "test-1".to_string(),
        section_type: "test".to_string(),
        content: "Hello ${userName}".to_string(),
        ref_target: None,
        children: vec![],
    }];

    resolve_section_tree(&mut sections, &vars);

    assert_eq!(sections[0].content, "Hello Jeremy");
}

#[test]
fn test_resolve_section_tree_with_children() {
    let vars = build_variable_map(&vec![Variable {
        name: "goal".to_string(),
        value: "Ship v1".to_string(),
    }]);

    let mut sections = vec![Section {
        id: "parent-1".to_string(),
        section_type: "process".to_string(),
        content: "Goal: ${goal}".to_string(),
        ref_target: None,
        children: vec![Section {
            id: "child-1".to_string(),
            section_type: "alternatives".to_string(),
            content: "For ${goal}".to_string(),
            ref_target: None,
            children: vec![],
        }],
    }];

    resolve_section_tree(&mut sections, &vars);

    assert_eq!(sections[0].content, "Goal: Ship v1");
    assert_eq!(sections[0].children[0].content, "For Ship v1");
}
