use typestate::compiler::{
    CompileError, PeripheralDecl, StateMethodDecl, TransitionDecl, TransitionTable,
};

fn edge(method: &str, from: &str, to: &str) -> TransitionDecl {
    TransitionDecl {
        method: method.to_string(),
        from: from.to_string(),
        to: to.to_string(),
        params: Vec::new(),
        has_effect: true,
    }
}

fn i2c_decl() -> PeripheralDecl {
    let mut configure = edge("configure", "Idle", "Configured");
    configure.params = vec!["num".to_string()];
    PeripheralDecl {
        name: "I2CBus".to_string(),
        fields: vec!["num".to_string()],
        states: vec![
            "Stop".to_string(),
            "Idle".to_string(),
            "Configured".to_string(),
            "Running".to_string(),
        ],
        initial: "Stop".to_string(),
        transitions: vec![
            edge("start", "Stop", "Idle"),
            configure,
            edge("run", "Configured", "Running"),
            edge("idle", "Running", "Idle"),
            edge("stop", "Idle", "Stop"),
        ],
        methods: vec![StateMethodDecl {
            state: "Configured".to_string(),
            method: "check_num".to_string(),
            params: Vec::new(),
        }],
    }
}

fn i2c_table() -> TransitionTable {
    i2c_decl().compile().expect("the example specification is well-formed")
}

#[test]
fn well_formed_compiles() {
    assert!(i2c_decl().compile().is_ok());
}

#[test]
fn constructor_state_is_declared_initial() {
    let table = i2c_table();
    assert_eq!(table.initial_state(), &"Stop".to_string());
    assert!(table.is_state(&"Stop".to_string()));
}

#[test]
fn declared_edges_resolve_to_their_targets() {
    let table = i2c_table();
    let cases = [
        ("start", "Stop", "Idle"),
        ("configure", "Idle", "Configured"),
        ("run", "Configured", "Running"),
        ("idle", "Running", "Idle"),
        ("stop", "Idle", "Stop"),
    ];
    for (method, from, to) in cases {
        let got = table.resolve(&method.to_string(), &from.to_string());
        assert_eq!(got, Some(&to.to_string()));
    }
}

#[test]
fn undeclared_pairs_resolve_to_nothing() {
    let table = i2c_table();
    // Skipping `start`: configure is not declared from Stop.
    assert_eq!(table.resolve(&"configure".to_string(), &"Stop".to_string()), None);
    assert_eq!(table.resolve(&"run".to_string(), &"Idle".to_string()), None);
    assert_eq!(table.resolve(&"launch".to_string(), &"Stop".to_string()), None);
}

#[test]
fn edge_capability_matches_declaration() {
    let table = i2c_table();
    assert!(table.edge_allowed(&"Stop".to_string(), &"Idle".to_string()));
    assert!(table.edge_allowed(&"Idle".to_string(), &"Stop".to_string()));
    assert!(!table.edge_allowed(&"Stop".to_string(), &"Configured".to_string()));
    // An undeclared self-loop is refused.
    assert!(!table.edge_allowed(&"Idle".to_string(), &"Idle".to_string()));
}

#[test]
fn state_methods_bound_to_their_state() {
    let table = i2c_table();
    assert!(table.state_method_allowed(&"Configured".to_string(), &"check_num".to_string()));
    assert!(!table.state_method_allowed(&"Idle".to_string(), &"check_num".to_string()));
    assert!(!table.state_method_allowed(&"Configured".to_string(), &"reset".to_string()));
}

#[test]
fn declared_self_loop_compiles() {
    let mut decl = i2c_decl();
    decl.transitions.push(edge("reidle", "Idle", "Idle"));
    let table = decl.compile().expect("a declared self-loop is legal");
    assert!(table.edge_allowed(&"Idle".to_string(), &"Idle".to_string()));
}

#[test]
fn unreachable_state_is_allowed() {
    let mut decl = i2c_decl();
    decl.states.push("Spare".to_string());
    assert!(decl.compile().is_ok());
}

#[test]
fn undeclared_initial_rejected() {
    let mut decl = i2c_decl();
    decl.initial = "Nowhere".to_string();
    assert_eq!(decl.compile().err(), Some(CompileError::UndeclaredState));
}

#[test]
fn undeclared_transition_source_rejected() {
    let mut decl = i2c_decl();
    decl.transitions.push(edge("warp", "Limbo", "Idle"));
    assert_eq!(decl.compile().err(), Some(CompileError::UndeclaredState));
}

#[test]
fn undeclared_transition_target_rejected() {
    let mut decl = i2c_decl();
    decl.transitions.push(edge("warp", "Idle", "Limbo"));
    assert_eq!(decl.compile().err(), Some(CompileError::UndeclaredState));
}

#[test]
fn undeclared_method_state_rejected() {
    let mut decl = i2c_decl();
    decl.methods.push(StateMethodDecl {
        state: "Limbo".to_string(),
        method: "poke".to_string(),
        params: Vec::new(),
    });
    assert_eq!(decl.compile().err(), Some(CompileError::UndeclaredState));
}

#[test]
fn duplicate_transition_rejected() {
    let mut decl = i2c_decl();
    // Same method name and source state as the declared `start`, even
    // though the target differs.
    decl.transitions.push(edge("start", "Stop", "Configured"));
    assert_eq!(decl.compile().err(), Some(CompileError::DuplicateTransition));
}

#[test]
fn same_method_name_from_other_state_is_no_duplicate() {
    let mut decl = i2c_decl();
    decl.transitions.push(edge("start", "Running", "Idle"));
    assert!(decl.compile().is_ok());
}

#[test]
fn undeclared_state_reported_before_duplicate() {
    let mut decl = i2c_decl();
    decl.transitions.push(edge("start", "Stop", "Limbo"));
    decl.transitions.push(edge("start", "Stop", "Idle"));
    assert_eq!(decl.compile().err(), Some(CompileError::UndeclaredState));
}
