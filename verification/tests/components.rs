use cat_editor::autocomplete::context::CompletionContext;
use cat_editor::autocomplete::types::SuggestionKind;
use cat_editor::command_input::CommandInput;
use cat_editor::command_palette::CommandPalette;
use cat_editor::file_tree::{populate_children, FileEntry, FileTree};
use cat_editor::icons::{get_file_icon, get_folder_icon, icon_path, icons_base, IconTheme};
use cat_editor::modes::Mode;
use cat_editor::terminal::Terminal;

#[test]
fn command_input_open_clears_previous_input() {
    let mut ci = CommandInput::default();
    ci.input = String::from("stale");
    ci.open(); // named after the `:` key: opens the bar
    assert!(ci.open);
    assert_eq!(ci.input, "");
    ci.close();
    assert!(!ci.open);
}

#[test]
fn process_command_maps_vim_commands() {
    let mut ci = CommandInput::default();
    let cases = [
        ("w", Some("Save File")),
        ("write", Some("Save File")),
        ("q", Some("Quit")),
        ("quit", Some("Quit")),
        ("wq", Some("Save and Quit")),
        ("e", Some("Open File")),
        ("edit", Some("Open File")),
        ("new", Some("New File")),
        ("  w  ", Some("Save File")),
        ("", None),
        ("   ", None),
        ("unknown", None),
    ];
    for (input, expected) in cases {
        ci.input = String::from(input);
        assert_eq!(ci.process_command().as_deref(), expected, "input {input:?}");
    }
}

#[test]
fn palette_default_holds_the_command_table() {
    let p = CommandPalette::default();
    assert!(!p.open);
    assert_eq!(p.filtered_commands.len(), 10);
    assert_eq!(p.filtered_commands[0].name, "Theme");
    assert_eq!(p.filtered_commands[9].name, "Find and Replace");
}

#[test]
fn palette_filter_is_case_insensitive_substring_on_names() {
    let mut p = CommandPalette::default();
    p.toggle();
    assert!(p.open);
    p.input = String::from("FILE");
    p.filter_commands();
    let names: Vec<&str> = p.filtered_commands.iter().map(|c| c.name.as_str()).collect();
    assert_eq!(names, vec!["Open File", "Save File", "New File"]);
    p.input = String::new();
    p.filter_commands();
    assert_eq!(p.filtered_commands.len(), 10);
    p.close();
    assert!(!p.open);
    assert_eq!(p.filtered_commands.len(), 0);
}

fn sample_tree_entries() -> Vec<FileEntry> {
    vec![
        FileEntry::Directory {
            path: String::from("/r/src"),
            name: String::from("src"),
            children: Vec::new(),
        },
        FileEntry::File { path: String::from("/r/readme.md"), name: String::from("readme.md") },
    ]
}

#[test]
fn file_tree_new_is_empty() {
    let tree = FileTree::new(String::from("/r"));
    assert_eq!(tree.root, "/r");
    assert!(tree.entries.is_empty());
    assert!(tree.expanded.is_empty());
    assert!(tree.selected.is_none());
}

#[test]
fn file_tree_toggle_expands_populates_and_collapses() {
    let mut tree = FileTree::new(String::from("/r"));
    tree.refresh(sample_tree_entries());
    let children = vec![FileEntry::File {
        path: String::from("/r/src/main.rs"),
        name: String::from("main.rs"),
    }];
    tree.toggle_folder("/r/src", &children);
    assert!(tree.is_expanded("/r/src"));
    match &tree.entries[0] {
        FileEntry::Directory { children, .. } => {
            assert_eq!(children.len(), 1);
            match &children[0] {
                FileEntry::File { name, .. } => assert_eq!(name, "main.rs"),
                _ => panic!("expected a file"),
            }
        },
        _ => panic!("expected a directory"),
    }
    tree.toggle_folder("/r/src", &Vec::new());
    assert!(!tree.is_expanded("/r/src"));
}

#[test]
fn populate_children_keeps_already_loaded_directories() {
    let mut entries = sample_tree_entries();
    let first = vec![FileEntry::File {
        path: String::from("/r/src/a.rs"),
        name: String::from("a.rs"),
    }];
    populate_children(&mut entries, "/r/src", &first);
    let second = vec![FileEntry::File {
        path: String::from("/r/src/b.rs"),
        name: String::from("b.rs"),
    }];
    populate_children(&mut entries, "/r/src", &second);
    match &entries[0] {
        FileEntry::Directory { children, .. } => match &children[0] {
            FileEntry::File { name, .. } => assert_eq!(name, "a.rs"),
            _ => panic!("expected a file"),
        },
        _ => panic!("expected a directory"),
    }
}

#[test]
fn file_tree_select_remembers_the_path() {
    let mut tree = FileTree::new(String::from("/r"));
    tree.select(String::from("/r/readme.md"));
    assert_eq!(tree.selected.as_deref(), Some("/r/readme.md"));
}

fn sample_theme() -> IconTheme {
    IconTheme {
        file_extensions: vec![
            (String::from("test.js"), String::from("jstest")),
            (String::from("rs"), String::from("rust")),
        ],
        file_names: vec![(String::from("makefile"), String::from("make"))],
        folder_names: vec![(String::from("src"), String::from("folder-src"))],
        folder_names_expanded: vec![(String::from("src"), String::from("folder-src-open"))],
        file: String::from("file-plain"),
        folder: String::from("folder-plain"),
        folder_expanded: String::from("folder-open-plain"),
    }
}

#[test]
fn file_icons_prefer_names_then_compound_extensions() {
    let t = sample_theme();
    assert_eq!(get_file_icon(&t, "/i", "Makefile"), "/i/make.svg");
    assert_eq!(get_file_icon(&t, "/i", "main.rs"), "/i/rust.svg");
    assert_eq!(get_file_icon(&t, "/i", "app.test.js"), "/i/jstest.svg");
    assert_eq!(get_file_icon(&t, "/i", "image.png"), "/i/file-plain.svg");
    assert_eq!(get_file_icon(&t, "/i", "noext"), "/i/file-plain.svg");
}

#[test]
fn folder_icons_follow_the_open_state() {
    let t = sample_theme();
    assert_eq!(get_folder_icon(&t, "/i", "SRC", true), "/i/folder-src-open.svg");
    assert_eq!(get_folder_icon(&t, "/i", "src", false), "/i/folder-src.svg");
    assert_eq!(get_folder_icon(&t, "/i", "docs", true), "/i/folder-open-plain.svg");
    assert_eq!(get_folder_icon(&t, "/i", "docs", false), "/i/folder-plain.svg");
}

#[test]
fn icon_paths_are_joined_with_the_svg_suffix() {
    assert_eq!(icon_path("/base", "rust"), "/base/rust.svg");
    assert!(icons_base("/res").starts_with("/res/extensions/iconpacks/"));
    assert!(icons_base("/res").ends_with("/icons"));
}

#[test]
fn suggestion_kinds_have_distinct_priorities() {
    let kinds = [
        SuggestionKind::Keyword,
        SuggestionKind::Snippet,
        SuggestionKind::Function,
        SuggestionKind::Method,
        SuggestionKind::Type,
        SuggestionKind::Variable,
        SuggestionKind::Constant,
        SuggestionKind::Property,
        SuggestionKind::Module,
        SuggestionKind::Macro,
    ];
    for (i, k) in kinds.iter().enumerate() {
        assert_eq!(k.sort_priority() as usize, i);
    }
    assert_eq!(SuggestionKind::Function.icon(), "\u{192}");
    assert_eq!(SuggestionKind::Macro.icon(), "!");
}

#[test]
fn completion_context_reads_the_cursor_surroundings() {
    let member = CompletionContext::analyze("value.", 6);
    assert!(member.is_member_access);
    assert!(member.should_show_member());
    assert!(!member.should_show_keywords());

    let ns = CompletionContext::analyze("std::", 5);
    assert!(ns.is_namespace_access);
    assert!(ns.should_show_member());

    let call = CompletionContext::analyze("name  (x)", 4);
    assert!(call.is_function_call);

    let typed = CompletionContext::analyze("let x: ", 7);
    assert!(typed.is_type_position);
    assert!(typed.should_boost_types());

    let arrow = CompletionContext::analyze("fn f() -> ", 10);
    assert!(arrow.is_type_position);

    let start = CompletionContext::analyze("anything", 0);
    assert!(!start.is_member_access);
    assert!(!start.is_function_call);
    assert!(!start.is_namespace_access);
    assert!(!start.is_type_position);
}

#[test]
fn terminal_remembers_the_directory() {
    let mut t = Terminal::default();
    assert_eq!(t.toggle(), None);
    t.set_directory(String::from("/work"));
    assert_eq!(t.toggle(), Some(String::from("/work")));
    assert_eq!(t.toggle(), Some(String::from("/work")));
}

#[test]
fn editor_modes_are_distinct() {
    assert_ne!(Mode::Insert, Mode::Normal);
    assert_ne!(Mode::Normal, Mode::Command);
    let m = Mode::Normal;
    assert_eq!(m, Mode::Normal);
}

#[test]
fn highlighter_settings_carry_the_extension() {
    let s = cat_editor::syntax::Settings { extension: String::from("rs") };
    assert_eq!(s.extension, "rs");
    assert_eq!(s.clone().extension, "rs");
}

#[test]
fn finder_entries_carry_path_and_display_name() {
    let e = cat_editor::fuzzy_finder::FileEntry {
        path: String::from("/p/src/main.rs"),
        display_name: String::from("src/main.rs"),
    };
    assert_eq!(e.clone().display_name, "src/main.rs");
    assert_eq!(e.path, "/p/src/main.rs");
}
