use uc_cli::comments::strip_cairo_comments;
use uc_cli::errors::ErrorKind;
use uc_cli::hashing::{
    hash_cairo_source_semantic, hash_file_blake3, hash_fingerprint_source_file,
    MAX_CACHEABLE_ARTIFACT_BYTES,
};

fn strip(s: &str) -> String {
    String::from_utf8(strip_cairo_comments(s.as_bytes())).unwrap()
}

#[test]
fn strip_removes_line_comments_but_keeps_their_newline() {
    assert_eq!(strip("let a = 1; // note\nlet b = 2;"), "let a = 1; \nlet b = 2;");
}

#[test]
fn strip_removes_nested_block_comments_keeping_newlines() {
    assert_eq!(strip("a /* x /* y */ z\n w */ b"), "a \n b");
}

#[test]
fn strip_leaves_comment_markers_inside_strings() {
    assert_eq!(strip("let s = \"// not a comment\";"), "let s = \"// not a comment\";");
    assert_eq!(strip("let c = '/';// gone"), "let c = '/';");
}

#[test]
fn strip_keeps_escaped_quotes_inside_strings() {
    assert_eq!(strip("\"a\\\"//b\" // c"), "\"a\\\"//b\" ");
}

#[test]
fn strip_unterminated_block_comment_drops_the_rest() {
    assert_eq!(strip("x /* never closed\nstill\n"), "x \n\n");
}

#[test]
fn strip_keeps_line_count() {
    let src = "fn f() {\n  // one\n  /* two\n three */ let x = 1;\n}\n";
    let out = strip(src);
    assert_eq!(src.matches('\n').count(), out.matches('\n').count());
    assert!(out.len() <= src.len());
}

#[test]
fn strip_without_slash_is_identity() {
    let src = "fn main() { let s = \"quoted\"; let c = 'x'; }\n";
    assert_eq!(strip(src), src);
}

#[test]
fn semantic_hash_ignores_comments_and_trailing_whitespace() {
    let a = hash_cairo_source_semantic(b"fn f() {}\n");
    let b = hash_cairo_source_semantic(b"fn f() {} // comment\n\n  \t\r\n");
    let c = hash_cairo_source_semantic(b"fn g() {}\n");
    assert_eq!(a, b);
    assert_ne!(a, c);
}

#[test]
fn semantic_hash_is_blake3_of_domain_and_normalized_source() {
    let mut data = b"uc-cairo-semantic-hash-v1".to_vec();
    data.extend_from_slice(b"fn f() {}");
    let expected = blake3::hash(&data).to_hex().to_string();
    assert_eq!(hash_cairo_source_semantic(b"fn f() {} // c\n"), expected);
}

#[test]
fn plain_hash_matches_blake3_and_refuses_oversized_files() {
    let contents = b"hello";
    assert_eq!(
        hash_file_blake3(5, contents).unwrap(),
        blake3::hash(contents).to_hex().to_string()
    );
    let err = hash_file_blake3(MAX_CACHEABLE_ARTIFACT_BYTES + 1, contents).unwrap_err();
    assert!(matches!(
        err.kind,
        ErrorKind::HashInputTooLarge { size_bytes, limit_bytes }
            if size_bytes == MAX_CACHEABLE_ARTIFACT_BYTES + 1 && limit_bytes == MAX_CACHEABLE_ARTIFACT_BYTES
    ));
}

#[test]
fn fingerprint_source_hash_dispatches_on_cairo_extension() {
    let contents = b"fn f() {} // c\n";
    let semantic = hash_cairo_source_semantic(contents);
    let plain = blake3::hash(contents).to_hex().to_string();
    assert_eq!(
        hash_fingerprint_source_file(Some("lib.cairo"), 15, contents).unwrap(),
        semantic
    );
    assert_eq!(
        hash_fingerprint_source_file(Some("LIB.CAIRO"), 15, contents).unwrap(),
        semantic
    );
    assert_eq!(
        hash_fingerprint_source_file(Some("Scarb.toml"), 15, contents).unwrap(),
        plain
    );
    assert_eq!(
        hash_fingerprint_source_file(Some(".cairo"), 15, contents).unwrap(),
        plain
    );
    assert_eq!(hash_fingerprint_source_file(None, 15, contents).unwrap(), plain);
}

#[test]
fn semantic_hash_ignores_comment_text_edits_inside_the_file() {
    let a = hash_cairo_source_semantic(b"fn f() {\n  /* old note\n  more */ let x = 1; // tail a\n}\n");
    let b = hash_cairo_source_semantic(b"fn f() {\n  /* new text\n  here */ let x = 1; // tail bb\n}\n  \n");
    assert_eq!(a, b);
    let c = hash_cairo_source_semantic(b"fn f() {\n  /* new text\n  here */ let x = 2; // tail bb\n}\n");
    assert_ne!(a, c);
}

#[test]
fn semantic_hash_sees_newlines_added_to_comments() {
    let a = hash_cairo_source_semantic(b"fn f() {} /* one line */\nfn g() {}\n");
    let b = hash_cairo_source_semantic(b"fn f() {} /* two\nlines */\nfn g() {}\n");
    assert_ne!(a, b);
}
