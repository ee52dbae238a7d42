use embedded_files::emit::{declaration, element_type, embed_directive, identifier, sanitize};
use embedded_files::path::{file_name, join};
use embedded_files::pretty::{formatted, prettify};
use embedded_files::{ContentKind, EmitError, FileSystem, IndexNode, RegisterError};

fn no_resolution() -> Vec<Option<String>> {
    Vec::new()
}

#[test]
fn functionality() {
    let mut fs = FileSystem::new();
    let mut image_directory = fs.get_base_path();

    image_directory.push_str("assets");
    image_directory.push_str("/");
    image_directory.push_str("imgs");

    let puppy = fs.add_file("puppy.png".to_string(), &image_directory, ContentKind::Text);
    assert_eq!(puppy, Ok(1));

    assert_eq!(
        fs.code(false, &no_resolution(), false),
        Ok("pub mod files {pub const FILE_ASSETS_IMGS_PUPPY_PNG: &str = include_str!(\"puppy.png\");}".to_string())
    );
}

#[test]
fn new_index_is_empty() {
    let fs = FileSystem::new();
    assert_eq!(fs.len(), 0);
    assert!(fs.nodes().is_empty());
    assert_eq!(fs.get_base_path(), "");
    assert_eq!(fs.code(false, &no_resolution(), false), Ok("pub mod files {}".to_string()));
    assert_eq!(fs.code(true, &no_resolution(), false), Ok("pub mod files {}".to_string()));
}

#[test]
fn same_file_twice_is_a_duplicate() {
    let mut fs = FileSystem::new();
    let dir = "assets/imgs".to_string();
    assert_eq!(fs.add_file("puppy.png".to_string(), &dir, ContentKind::Text), Ok(1));
    assert_eq!(
        fs.add_file("puppy.png".to_string(), &dir, ContentKind::Text),
        Err(RegisterError::Duplicate)
    );
    assert_eq!(fs.len(), 1);
    assert_eq!(
        fs.nodes()[0],
        IndexNode::File {
            virtual_path: "assets/imgs/puppy.png".to_string(),
            disk_path: "puppy.png".to_string(),
            kind: ContentKind::Text,
        }
    );
}

#[test]
fn entries_differ_by_any_of_the_three() {
    let mut fs = FileSystem::new();
    let dir = "assets".to_string();
    assert_eq!(fs.add_file("a/logo.png".to_string(), &dir, ContentKind::Text), Ok(1));
    // the same virtual path from another disk path is a new entry
    assert_eq!(fs.add_file("b/logo.png".to_string(), &dir, ContentKind::Text), Ok(2));
    // so is the same file under another kind
    assert_eq!(fs.add_file("a/logo.png".to_string(), &dir, ContentKind::Binary), Ok(3));
    // and in another directory
    assert_eq!(fs.add_file("a/logo.png".to_string(), &"static".to_string(), ContentKind::Text), Ok(4));
    assert_eq!(
        fs.add_file("b/logo.png".to_string(), &dir, ContentKind::Text),
        Err(RegisterError::Duplicate)
    );
    assert_eq!(fs.len(), 4);
}

#[test]
fn leaf_comes_from_the_disk_path() {
    let mut fs = FileSystem::new();
    assert_eq!(
        fs.add_file("photos/2024/puppy.png".to_string(), &"assets/imgs".to_string(), ContentKind::Text),
        Ok(1)
    );
    assert_eq!(
        fs.add_file("/srv/puppy.png".to_string(), &"assets/imgs/".to_string(), ContentKind::Binary),
        Ok(2)
    );
    assert_eq!(fs.add_file("puppy.png".to_string(), &String::new(), ContentKind::Text), Ok(3));
    assert_eq!(
        fs.add_file("puppy.png".to_string(), &"assets/kitten.png".to_string(), ContentKind::Text),
        Ok(4)
    );
    let virtual_paths: Vec<String> = fs
        .nodes()
        .iter()
        .map(|node| match node {
            IndexNode::File { virtual_path, .. } => virtual_path.clone(),
        })
        .collect();
    assert_eq!(
        virtual_paths,
        vec![
            "assets/imgs/puppy.png".to_string(),
            "assets/imgs/puppy.png".to_string(),
            "puppy.png".to_string(),
            "assets/kitten.png/puppy.png".to_string(),
        ]
    );
    for node in fs.nodes() {
        match node {
            IndexNode::File { virtual_path, disk_path, .. } => {
                assert_eq!(file_name(virtual_path), file_name(disk_path));
                assert_eq!(file_name(virtual_path), Some("puppy.png".to_string()));
            }
        }
    }
}

#[test]
fn disk_path_without_file_name_is_refused() {
    let mut fs = FileSystem::new();
    let dir = "assets".to_string();
    for disk_path in ["", "/", "//", ".", "./", "/.", "..", "../", "assets/..", "assets/../."] {
        assert_eq!(
            fs.add_file(disk_path.to_string(), &dir, ContentKind::Text),
            Err(RegisterError::MissingFileName)
        );
        assert_eq!(fs.len(), 0);
    }
    assert_eq!(fs.add_file("...".to_string(), &dir, ContentKind::Text), Ok(1));
    assert_eq!(fs.add_file(".hidden".to_string(), &dir, ContentKind::Text), Ok(2));
}

#[test]
fn separators_and_dots_behind_the_name_are_passed_over() {
    let mut fs = FileSystem::new();
    let dir = "site".to_string();
    assert_eq!(fs.add_file("pages/index.html/".to_string(), &dir, ContentKind::Text), Ok(1));
    assert_eq!(fs.add_file("pages/about.html/.".to_string(), &dir, ContentKind::Text), Ok(2));
    assert_eq!(
        fs.nodes()[0],
        IndexNode::File {
            virtual_path: "site/index.html".to_string(),
            disk_path: "pages/index.html/".to_string(),
            kind: ContentKind::Text,
        }
    );
    assert_eq!(
        fs.nodes()[1],
        IndexNode::File {
            virtual_path: "site/about.html".to_string(),
            disk_path: "pages/about.html/.".to_string(),
            kind: ContentKind::Text,
        }
    );
}

#[test]
fn file_name_is_the_final_segment() {
    assert_eq!(file_name("puppy.png"), Some("puppy.png".to_string()));
    assert_eq!(file_name("a/b/c.txt"), Some("c.txt".to_string()));
    assert_eq!(file_name("/c"), Some("c".to_string()));
    assert_eq!(file_name("dir/é.txt"), Some("é.txt".to_string()));
    assert_eq!(file_name("a//b"), Some("b".to_string()));
    assert_eq!(file_name("a/b/"), Some("b".to_string()));
    assert_eq!(file_name("a/b/.//./"), Some("b".to_string()));
    assert_eq!(file_name("./b"), Some("b".to_string()));
    assert_eq!(file_name("a/b."), Some("b.".to_string()));
    assert_eq!(file_name("a/.b"), Some(".b".to_string()));
    assert_eq!(file_name("a/..."), Some("...".to_string()));
    assert_eq!(file_name(""), None);
    assert_eq!(file_name("/"), None);
    assert_eq!(file_name("a/.."), None);
    assert_eq!(file_name("a/../"), None);
    assert_eq!(file_name("."), None);
    assert_eq!(file_name(".."), None);
}

#[test]
fn join_places_one_separator() {
    assert_eq!(join("assets/imgs", "puppy.png"), "assets/imgs/puppy.png");
    assert_eq!(join("assets/imgs/", "puppy.png"), "assets/imgs/puppy.png");
    assert_eq!(join("", "puppy.png"), "puppy.png");
    assert_eq!(join("/", "puppy.png"), "/puppy.png");
}

#[test]
fn identifier_of_a_virtual_path() {
    assert_eq!(identifier("assets/imgs/puppy.png"), "ASSETS_IMGS_PUPPY_PNG");
    assert_eq!(identifier("readme"), "README");
    assert_eq!(identifier(""), "");
    assert_eq!(sanitize("assets/imgs/puppy.png"), "assets_imgs_puppy_png");
    assert_eq!(sanitize("a-b c"), "a-b c");
}

#[test]
fn distinct_paths_can_share_an_identifier() {
    assert_eq!(identifier("a.b/c"), "A_B_C");
    assert_eq!(identifier("a/b_c"), "A_B_C");
    let mut fs = FileSystem::new();
    assert_eq!(fs.add_file("c".to_string(), &"a.b".to_string(), ContentKind::Text), Ok(1));
    assert_eq!(fs.add_file("b_c".to_string(), &"a".to_string(), ContentKind::Text), Ok(2));
    assert_eq!(
        fs.code(false, &no_resolution(), false),
        Ok("pub mod files {pub const FILE_A_B_C: &str = include_str!(\"c\");pub const FILE_A_B_C: &str = include_str!(\"b_c\");}".to_string())
    );
}

#[test]
fn declaration_matches_the_kind() {
    assert_eq!(element_type(ContentKind::Text), "&str");
    assert_eq!(element_type(ContentKind::Binary), "&[u8]");
    assert_eq!(embed_directive(ContentKind::Text), "include_str!");
    assert_eq!(embed_directive(ContentKind::Binary), "include_bytes!");
    assert_eq!(
        declaration("LOGO_PNG", "art/logo.png", ContentKind::Binary),
        "pub const FILE_LOGO_PNG: &[u8] = include_bytes!(\"art/logo.png\");"
    );
    assert_eq!(
        declaration("NOTES_TXT", "notes.txt", ContentKind::Text),
        "pub const FILE_NOTES_TXT: &str = include_str!(\"notes.txt\");"
    );
}

#[test]
fn declarations_come_in_registration_order() {
    let mut fs = FileSystem::new();
    let dir = "data".to_string();
    assert_eq!(fs.add_file("z.bin".to_string(), &dir, ContentKind::Binary), Ok(1));
    assert_eq!(fs.add_file("a.txt".to_string(), &dir, ContentKind::Text), Ok(2));
    assert_eq!(fs.add_file("src/m.rs".to_string(), &dir, ContentKind::Text), Ok(3));
    let expected = "pub mod files {\
pub const FILE_DATA_Z_BIN: &[u8] = include_bytes!(\"z.bin\");\
pub const FILE_DATA_A_TXT: &str = include_str!(\"a.txt\");\
pub const FILE_DATA_M_RS: &str = include_str!(\"src/m.rs\");\
}";
    assert_eq!(fs.code(false, &no_resolution(), false), Ok(expected.to_string()));
    // emitting reads the index only: a second call gives the same text
    assert_eq!(fs.code(false, &no_resolution(), false), Ok(expected.to_string()));
    assert_eq!(fs.assemble(false, &no_resolution()), Ok(expected.to_string()));
    assert_eq!(fs.len(), 3);
}

#[test]
fn canonicalize_refers_to_the_resolved_path() {
    let mut fs = FileSystem::new();
    let dir = "assets".to_string();
    assert_eq!(fs.add_file("puppy.png".to_string(), &dir, ContentKind::Text), Ok(1));
    assert_eq!(fs.add_file("kitten.png".to_string(), &dir, ContentKind::Binary), Ok(2));
    let resolved = vec![Some("/srv/art/puppy.png".to_string()), Some("/srv/art/kitten.png".to_string())];
    assert_eq!(
        fs.code(true, &resolved, false),
        Ok("pub mod files {\
pub const FILE_ASSETS_PUPPY_PNG: &str = include_str!(\"/srv/art/puppy.png\");\
pub const FILE_ASSETS_KITTEN_PNG: &[u8] = include_bytes!(\"/srv/art/kitten.png\");\
}"
        .to_string())
    );
    // without canonicalization what was resolved is not looked at
    assert_eq!(
        fs.code(false, &resolved, false),
        Ok("pub mod files {\
pub const FILE_ASSETS_PUPPY_PNG: &str = include_str!(\"puppy.png\");\
pub const FILE_ASSETS_KITTEN_PNG: &[u8] = include_bytes!(\"kitten.png\");\
}"
        .to_string())
    );
}

#[test]
fn unresolved_path_is_an_error() {
    let mut fs = FileSystem::new();
    let dir = "assets".to_string();
    assert_eq!(fs.add_file("puppy.png".to_string(), &dir, ContentKind::Text), Ok(1));
    assert_eq!(fs.add_file("kitten.png".to_string(), &dir, ContentKind::Text), Ok(2));
    assert_eq!(fs.add_file("calf.png".to_string(), &dir, ContentKind::Text), Ok(3));
    let all = Some("/x".to_string());
    assert_eq!(
        fs.code(true, &vec![all.clone(), None, None], false),
        Err(EmitError::PathResolution("kitten.png".to_string()))
    );
    assert_eq!(
        fs.code(true, &vec![None, all.clone(), all.clone()], false),
        Err(EmitError::PathResolution("puppy.png".to_string()))
    );
    assert_eq!(
        fs.code(true, &vec![all.clone(), all.clone()], false),
        Err(EmitError::PathResolution("calf.png".to_string()))
    );
    assert_eq!(
        fs.code(true, &no_resolution(), true),
        Err(EmitError::PathResolution("puppy.png".to_string()))
    );
    assert_eq!(
        fs.assemble(true, &vec![all.clone(), all.clone(), None]),
        Err(EmitError::PathResolution("calf.png".to_string()))
    );
    assert_eq!(fs.len(), 3);
}

#[test]
fn formatter_outcome_becomes_the_result() {
    assert_eq!(formatted(Ok("fn main() {}\n".to_string())), Ok("fn main() {}\n".to_string()));
    let failure = rust_format::Error::BadSourceCode("expected item".to_string());
    let details = failure.to_string();
    assert_eq!(details, "An error occurred while formatting the source code: expected item");
    assert_eq!(formatted(Err(failure)), Err(EmitError::Format(details)));
}

#[test]
fn pretty_gives_formatted_text_or_a_format_error() {
    let mut fs = FileSystem::new();
    assert_eq!(fs.add_file("puppy.png".to_string(), &"assets".to_string(), ContentKind::Text), Ok(1));
    match fs.code(false, &no_resolution(), true) {
        Ok(text) => {
            assert!(text.contains("pub mod files {"));
            assert!(text.contains("pub const FILE_ASSETS_PUPPY_PNG: &str = include_str!(\"puppy.png\");"));
        }
        Err(error) => assert!(matches!(error, EmitError::Format(_))),
    }
    match prettify("pub mod files {") {
        Ok(_) => {}
        Err(error) => assert!(matches!(error, EmitError::Format(_))),
    }
    assert_eq!(fs.len(), 1);
}
