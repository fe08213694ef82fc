use agent_core::channel::append_stream_text;
use agent_core::channel::build_request_messages;
use agent_core::channel::render_log;
use agent_core::channel::ChatEntry;
use agent_core::messages::ContentPart;
use agent_core::messages::MessageContent;
use agent_core::messages::Role;
use agent_core::remote::spawn_primitives;
use agent_core::remote::AxiomPrimitive;
use agent_core::remote::PrimitiveDecision;
use agent_core::ui_state::build_ingestion_prompt;
use agent_core::ui_state::entry_visible;
use agent_core::ui_state::is_binary_asset_ext;
use agent_core::ui_state::render_binary_entry;
use agent_core::ui_state::render_text_entry;
use agent_core::ui_state::sort_entries;
use agent_core::ui_state::DirEntry;
use agent_core::ui_state::FileTreeState;

fn text_entry(speaker: &str, text: &str) -> ChatEntry {
    ChatEntry { speaker: speaker.to_string(), content: MessageContent::Text(text.to_string()) }
}

#[test]
fn request_messages_map_speakers_to_roles() {
    let history = vec![
        text_entry("Cats2333", "hello"),
        text_entry("System", "internal note"),
        text_entry("General Assistant", "hi back"),
        text_entry("Error", "transient"),
    ];
    let msgs = build_request_messages("be helpful", &history);
    assert_eq!(msgs.len(), 3);
    assert_eq!(msgs[0].role, Role::System);
    assert_eq!(msgs[1].role, Role::User);
    assert_eq!(msgs[2].role, Role::Assistant);
    match msgs[0].content.as_ref().unwrap() {
        MessageContent::Text(t) => assert_eq!(t, "be helpful"),
        _ => panic!("expected text"),
    }
}

#[test]
fn empty_system_prompt_is_omitted() {
    let history = vec![text_entry("Cats2333", "hi")];
    let msgs = build_request_messages("", &history);
    assert_eq!(msgs.len(), 1);
    assert_eq!(msgs[0].role, Role::User);
}

#[test]
fn streamed_text_opens_an_entry_after_the_user() {
    let mut history = vec![text_entry("Cats2333", "question")];
    append_stream_text(&mut history, "General Assistant", "ans");
    append_stream_text(&mut history, "General Assistant", "wer");
    assert_eq!(history.len(), 2);
    assert_eq!(history[1].speaker, "General Assistant");
    match &history[1].content {
        MessageContent::Text(t) => assert_eq!(t, "answer"),
        _ => panic!("expected text"),
    }
}

#[test]
fn streamed_text_starts_fresh_on_empty_history() {
    let mut history: Vec<ChatEntry> = Vec::new();
    append_stream_text(&mut history, "P", "x");
    assert_eq!(history.len(), 1);
    assert_eq!(history[0].speaker, "P");
}

#[test]
fn log_renders_entries_in_brackets() {
    let history = vec![
        text_entry("Cats2333", "hello"),
        ChatEntry {
            speaker: "P".to_string(),
            content: MessageContent::Parts(vec![
                ContentPart::Text("see image".to_string()),
                ContentPart::ImageRef("data:image/png;base64,xyz".to_string()),
            ]),
        },
    ];
    let log = render_log(&history);
    assert_eq!(log, "[Cats2333]: hello\n\n[P]: see image\n\n\n");
}

#[test]
fn hidden_and_build_entries_are_not_shown() {
    assert!(entry_visible("src"));
    assert!(entry_visible("main.rs"));
    assert!(!entry_visible(".git"));
    assert!(!entry_visible("target"));
    assert!(!entry_visible(""));
}

#[test]
fn file_tree_selection_state_behaves_like_sets() {
    let mut s = FileTreeState::new("/work".to_string(), "/work".to_string());
    assert!(!s.is_selected("a.rs"));
    s.select_file("a.rs");
    s.select_file("a.rs");
    assert!(s.is_selected("a.rs"));
    assert!(!s.mode_of("a.rs"), "a new selection starts in reference mode");
    s.toggle_mode("a.rs");
    assert!(s.mode_of("a.rs"));
    s.toggle_expanded("/work/src");
    assert!(s.is_expanded("/work/src"));
    s.toggle_expanded("/work/src");
    assert!(!s.is_expanded("/work/src"));
    s.deselect_file("a.rs");
    assert!(!s.is_selected("a.rs"));
    assert!(!s.mode_of("a.rs"), "deselecting forgets the mode");
}

#[test]
fn changing_root_drops_the_selection() {
    let mut s = FileTreeState::new("/a".to_string(), "/a".to_string());
    s.select_file("x");
    s.toggle_expanded("/a/dir");
    s.set_root("/b".to_string());
    assert_eq!(s.root_path, "/b");
    assert!(!s.is_selected("x"));
    assert!(s.is_expanded("/a/dir"), "typing a new root keeps unfolded folders");
    s.choose_root("/c".to_string());
    assert_eq!(s.root_path, "/c");
    assert_eq!(s.input_path, "/c");
    assert!(!s.is_expanded("/a/dir"), "picking a folder resets the tree");
}

#[test]
fn primitives_hydrate_by_shape_name() {
    let added = vec![
        AxiomPrimitive { primitive_type: "cube".to_string() },
        AxiomPrimitive { primitive_type: "sphere".to_string() },
        AxiomPrimitive { primitive_type: "cone".to_string() },
    ];
    let decisions = spawn_primitives(&added);
    assert_eq!(
        decisions,
        vec![PrimitiveDecision::Cube, PrimitiveDecision::Sphere, PrimitiveDecision::Unknown]
    );
}

#[test]
fn listings_sort_folders_first_then_names() {
    let entries = vec![
        DirEntry { name: "zeta.rs".to_string(), is_dir: false },
        DirEntry { name: "assets".to_string(), is_dir: true },
        DirEntry { name: "alpha.rs".to_string(), is_dir: false },
        DirEntry { name: "src".to_string(), is_dir: true },
    ];
    let sorted = sort_entries(entries);
    let names: Vec<&str> = sorted.iter().map(|e| e.name.as_str()).collect();
    assert_eq!(names, vec!["assets", "src", "alpha.rs", "zeta.rs"]);
    assert!(sorted[0].is_dir && sorted[1].is_dir);
    assert!(!sorted[2].is_dir && !sorted[3].is_dir);
}

#[test]
fn binary_asset_extensions_are_recognized() {
    for ext in ["glb", "gltf", "png", "jpg", "jpeg", "wav", "ogg", "mp3"] {
        assert!(is_binary_asset_ext(ext));
    }
    assert!(!is_binary_asset_ext("rs"));
    assert!(!is_binary_asset_ext("txt"));
    assert!(!is_binary_asset_ext(""));
}

#[test]
fn ingestion_prompt_lists_targets_then_references() {
    let targets = vec![render_text_entry("src/a.rs", "fn a() {}")];
    let references = vec![render_binary_entry("/m/dragon.glb")];
    let prompt = build_ingestion_prompt(&targets, &references);
    let expected = "## \u{1F4C2} Active Context Ingestion\n\n### \u{270F}\u{FE0F} TARGETS (Please Modify these):\n`src/a.rs`:\n```rust\nfn a() {}\n```\n\n### \u{1F4D6} REFERENCES (Read-Only Context):\n`/m/dragon.glb`: [BINARY ASSET AVAILABLE]. To spawn this in Bevy, you MUST use the 'bevy_upload_asset' tool with this 'local_path'.\n\n\n**INSTRUCTION**: Use the Reference files to guide your changes to the Target files.";
    assert_eq!(prompt, expected);
}

#[test]
fn ingestion_prompt_omits_empty_sections() {
    let prompt = build_ingestion_prompt(&Vec::new(), &Vec::new());
    assert!(prompt.starts_with("## \u{1F4C2} Active Context Ingestion"));
    assert!(!prompt.contains("TARGETS"));
    assert!(!prompt.contains("REFERENCES"));
    assert!(prompt.ends_with("**INSTRUCTION**: Use the Reference files to guide your changes to the Target files."));
}
