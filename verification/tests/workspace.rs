use chess_prep::types::{AnalysisWorkspaceError, AnalysisWorkspaceNode};
use chess_prep::workspace::{
    parse_nags, prepare_workspace, require_found, serialize_nags, workspace_name, NodeRow,
};

fn node(id: &str, parent: Option<&str>, fen: &str) -> AnalysisWorkspaceNode {
    AnalysisWorkspaceNode {
        id: id.to_string(),
        parent_id: parent.map(|p| p.to_string()),
        san: None,
        uci: None,
        fen: fen.to_string(),
        comment: String::new(),
        nags: vec![],
        sort_index: 0,
    }
}

fn message(result: Result<chess_prep::workspace::WorkspaceDraft, AnalysisWorkspaceError>) -> String {
    match result {
        Err(AnalysisWorkspaceError::InvalidInput(text)) => text,
        other => panic!("expected invalid input, got {other:?}"),
    }
}

fn two_nodes() -> Vec<AnalysisWorkspaceNode> {
    vec![
        AnalysisWorkspaceNode {
            id: "root".to_string(),
            parent_id: None,
            san: None,
            uci: None,
            fen: "startfen".to_string(),
            comment: "".to_string(),
            nags: vec![],
            sort_index: 0,
        },
        AnalysisWorkspaceNode {
            id: "n1".to_string(),
            parent_id: Some("root".to_string()),
            san: Some("e4".to_string()),
            uci: Some("e2e4".to_string()),
            fen: "fen1".to_string(),
            comment: "good practical move".to_string(),
            nags: vec!["!".to_string()],
            sort_index: 0,
        },
    ]
}

#[test]
fn rejects_empty_nodes_on_save() {
    let err = prepare_workspace("/tmp/source.sqlite", "Empty Nodes", "root", &None, &vec![])
        .expect_err("save should fail");

    assert!(matches!(err, AnalysisWorkspaceError::InvalidInput(_)));
}

#[test]
fn analysis_workspace_rejects_empty_nodes() {
    let err = prepare_workspace("/tmp/source.sqlite", "Empty", "root", &None, &vec![])
        .expect_err("save should fail for empty nodes");
    match err {
        AnalysisWorkspaceError::InvalidInput(text) => {
            assert_eq!(text, "at least one analysis node is required")
        }
        other => panic!("unexpected error: {other:?}"),
    }
}

#[test]
fn workspace_is_stored_trimmed() {
    let mut nodes = two_nodes();
    nodes[0].id = " root ".to_string();
    nodes[1].parent_id = Some("root\n".to_string());
    nodes[1].san = Some("  ".to_string());
    nodes[1].fen = " fen1\t".to_string();
    nodes[1].comment = " keep me ".to_string();
    nodes[1].nags = vec![" ! ".to_string(), "".to_string(), "?!".to_string()];
    nodes[1].sort_index = -4;
    let draft = prepare_workspace(
        " /tmp/source.sqlite ",
        "  Test Workspace",
        "root ",
        &Some(" n1 ".to_string()),
        &nodes,
    )
    .expect("workspace should be accepted");
    assert_eq!(draft.source_db_path, "/tmp/source.sqlite");
    assert_eq!(draft.name, "Test Workspace");
    assert_eq!(draft.root_node_id, "root");
    assert_eq!(draft.current_node_id.as_deref(), Some("n1"));
    assert_eq!(draft.nodes.len(), 2);
    assert_eq!(draft.nodes[0], NodeRow {
        node_id: "root".to_string(),
        parent_node_id: None,
        san: None,
        uci: None,
        fen: "startfen".to_string(),
        comment: String::new(),
        nags: String::new(),
        sort_index: 0,
    });
    assert_eq!(draft.nodes[1], NodeRow {
        node_id: "n1".to_string(),
        parent_node_id: Some("root".to_string()),
        san: None,
        uci: Some("e2e4".to_string()),
        fen: "fen1".to_string(),
        comment: " keep me ".to_string(),
        nags: "!,?!".to_string(),
        sort_index: -4,
    });
}

#[test]
fn blank_current_node_is_no_current_node() {
    let draft = prepare_workspace("src", "name", "root", &Some("  ".to_string()), &two_nodes())
        .expect("workspace should be accepted");
    assert_eq!(draft.current_node_id, None);
    let draft = prepare_workspace("src", "name", "root", &None, &two_nodes())
        .expect("workspace should be accepted");
    assert_eq!(draft.current_node_id, None);
}

#[test]
fn faults_come_in_order() {
    let nodes = two_nodes();
    let none: Vec<AnalysisWorkspaceNode> = vec![];
    assert_eq!(message(prepare_workspace(" ", " ", " ", &None, &none)), "source_db_path is required");
    assert_eq!(message(prepare_workspace("src", " ", " ", &None, &none)), "workspace name is required");
    assert_eq!(message(prepare_workspace("src", "name", "\t", &None, &none)), "root_node_id is required");
    assert_eq!(
        message(prepare_workspace("src", "name", "nowhere", &None, &none)),
        "at least one analysis node is required"
    );
    assert_eq!(
        message(prepare_workspace("src", "name", "nowhere", &Some("gone".to_string()), &nodes)),
        "root node 'nowhere' was not found in node payload"
    );
    assert_eq!(
        message(prepare_workspace("src", "name", " root ", &Some(" gone ".to_string()), &nodes)),
        "current node 'gone' was not found in node payload"
    );
}

#[test]
fn nodes_need_id_and_position() {
    let nodes = vec![node("root", None, "fen"), node(" ", None, " "), node("", None, "fen")];
    assert_eq!(
        message(prepare_workspace("src", "name", "root", &None, &nodes)),
        "node id cannot be empty"
    );
    let nodes = vec![node("root", None, "fen"), node("a", None, " \n"), node("", None, "fen")];
    assert_eq!(
        message(prepare_workspace("src", "name", "root", &None, &nodes)),
        "node fen cannot be empty"
    );
}

#[test]
fn parents_must_be_nodes() {
    let nodes = vec![
        node("root", Some("  "), "fen"),
        node(" a ", Some(" ghost "), "fen"),
        node("b", Some("phantom"), "fen"),
    ];
    assert_eq!(
        message(prepare_workspace("src", "name", "root", &None, &nodes)),
        "parent node 'ghost' for node ' a ' was not found in node payload"
    );
    let nodes = vec![node("root", None, "fen"), node(" a ", Some(" root"), "fen"), node("b", Some("a"), "fen")];
    assert!(prepare_workspace("src", "name", "a", &Some("b".to_string()), &nodes).is_ok());
}

#[test]
fn glyphs_are_joined_by_commas() {
    assert_eq!(serialize_nags(&vec![]), "");
    assert_eq!(serialize_nags(&vec!["!".to_string()]), "!");
    assert_eq!(
        serialize_nags(&vec![" ! ".to_string(), " ".to_string(), "".to_string(), "$14".to_string(), "?".to_string()]),
        "!,$14,?"
    );
    assert_eq!(serialize_nags(&vec![" ".to_string(), "".to_string()]), "");
}

#[test]
fn glyphs_are_read_back() {
    assert!(parse_nags("").is_empty());
    assert!(parse_nags(" , ,,").is_empty());
    assert_eq!(parse_nags("!"), vec!["!"]);
    assert_eq!(parse_nags(" !, $14 ,,?,"), vec!["!", "$14", "?"]);
    assert_eq!(parse_nags(",a b,"), vec!["a b"]);
    let nags = vec!["!".to_string(), "?!".to_string(), "$7".to_string()];
    assert_eq!(parse_nags(&serialize_nags(&nags)), nags);
}

#[test]
fn workspace_names_are_trimmed() {
    assert_eq!(workspace_name(" Renamed Workspace \n").expect("name"), "Renamed Workspace");
    match workspace_name(" \t ") {
        Err(AnalysisWorkspaceError::InvalidInput(text)) => assert_eq!(text, "workspace name is required"),
        other => panic!("unexpected result: {other:?}"),
    }
}

#[test]
fn untouched_workspace_is_not_found() {
    assert!(require_found(1, 5).is_ok());
    assert!(require_found(3, 5).is_ok());
    assert!(matches!(require_found(0, 5), Err(AnalysisWorkspaceError::NotFound(5))));
}
