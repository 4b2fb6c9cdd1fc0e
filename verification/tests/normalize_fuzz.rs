use trybuild::directory::Directory;
use trybuild::model::{PathDependency, PathDependencyClass};
use trybuild::normalize::{self, Context};

/// Pieces that the normalizer reacts to, glued together into inputs.
const PIECES: [&str; 24] = [
    "error", "warning: ", "[E0277]", ": ", " --> ", "/git/trybuild/test_suite/", "/git/trybuild/target/",
    "/home/user/documents/rust/diesel/diesel/src/lib.rs", "tests/ui/error.rs", ":12:5", "\n", "\r\n", "\r", "  |",
    " = note: ", "$DIR", "^^^", "ü", "\t", "...", "[0m", "/rustc/0123456789abcdef/", "thread 'main' panicked at ", "0x",
];

/// A deterministic stream of inputs of at most 500 bytes.
fn inputs() -> Vec<String> {
    let mut state: u64 = 0x2545_f491_4f6c_dd1d;
    let mut out = Vec::new();
    for _ in 0..400 {
        let mut s = String::new();
        loop {
            state ^= state << 13;
            state ^= state >> 7;
            state ^= state << 17;
            let piece = PIECES[(state % PIECES.len() as u64) as usize];
            if s.len() + piece.len() > 500 || state % 37 == 0 {
                break;
            }
            s.push_str(piece);
        }
        out.push(s);
    }
    out
}

#[test]
fn normalizing_any_output_returns() {
    let source_dir = Directory::new("/git/trybuild/test_suite");
    let workspace = Directory::new("/git/trybuild");
    let target_dir = Directory::new("/git/trybuild/target");
    let deps = vec![PathDependency {
        name: "diesel".to_owned(),
        normalized_path: Directory::new("/home/user/documents/rust/diesel/diesel"),
        class: PathDependencyClass::LegacyTopLevel,
    }];
    let context = Context {
        krate: "trybuild000",
        source_dir: &source_dir,
        workspace: &workspace,
        input_file: "tests/ui/error.rs",
        target_dir: &target_dir,
        path_dependencies: &deps,
    };
    let empty = normalize::diagnostics("", &context);
    for input in inputs() {
        let mut variations = normalize::diagnostics(&input, &context);
        let preferred = variations.preferred().to_owned();
        assert!(variations.any(|candidate| candidate == preferred));
        let before: Vec<String> = (0..variations.len()).map(|i| variations.get(i).to_owned()).collect();
        variations.concat(&empty);
        let after: Vec<String> = (0..variations.len()).map(|i| variations.get(i).to_owned()).collect();
        assert_eq!(before, after);
        for v in &after {
            assert_eq!(&normalize::trim(v), v);
        }
        let _trimmed = normalize::trim(&input);
    }
}
