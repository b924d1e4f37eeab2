// Tests of the supplementary-instructions clipping and prompt composition.

use codex_mcp_rs::supplement::{clip_supplement, compose_prompt};

const MAX_AGENTS: usize = 1024 * 1024;

fn text(v: &[u8]) -> String {
    String::from_utf8_lossy(v).into_owned()
}

#[test]
fn test_supplement_small_file_kept_whole() {
    let content = b"# System Prompt\nYou are a helpful assistant.".to_vec();
    let size = content.len() as u64;
    let r = clip_supplement(&content, size);
    assert_eq!(r.content.unwrap(), content);
    assert!(r.warning.is_none());
}

#[test]
fn test_supplement_blank_file_skipped() {
    let content = b"   \n\t  \n".to_vec();
    let size = content.len() as u64;
    let r = clip_supplement(&content, size);
    assert!(r.content.is_none());
    assert!(r.warning.is_none());
}

#[test]
fn test_supplement_empty_file_skipped() {
    let content = Vec::new();
    let r = clip_supplement(&content, 0);
    assert!(r.content.is_none());
    assert!(r.warning.is_none());
}

#[test]
fn test_supplement_huge_file_skipped_with_warning() {
    let content = vec![b'a'; 1000];
    let r = clip_supplement(&content, 20 * 1024 * 1024);
    assert!(r.content.is_none());
    let w = text(&r.warning.unwrap());
    assert!(w.contains("absolute maximum"));
    assert!(w.contains("will be skipped"));
}

#[test]
fn test_supplement_truncates_large_files() {
    let content = vec![b'a'; MAX_AGENTS + 1000];
    let size = content.len() as u64;
    let r = clip_supplement(&content, size);
    let kept = r.content.unwrap();
    assert_eq!(kept.len(), MAX_AGENTS);
    let w = text(&r.warning.unwrap());
    assert!(w.contains("truncated"));
    assert!(w.contains("1048576"));
}

#[test]
fn test_supplement_invalid_utf8_skipped() {
    let content = vec![0xFF, 0xFE, 0xFD];
    let size = content.len() as u64;
    let r = clip_supplement(&content, size);
    assert!(r.content.is_none());
    assert!(text(&r.warning.unwrap()).contains("invalid UTF-8"));
}

#[test]
fn test_supplement_truncates_on_character_boundary() {
    let base = "\u{4f60}\u{597d}\u{4e16}\u{754c}";
    let mut content = base.repeat(MAX_AGENTS / base.len() + 100).into_bytes();
    content.extend_from_slice(b"final");
    let size = content.len() as u64;
    let r = clip_supplement(&content, size);
    let kept = r.content.unwrap();
    assert!(kept.len() <= MAX_AGENTS);
    let s = String::from_utf8(kept).expect("clipped content must be valid UTF-8");
    assert!(s.chars().count() > 0);
    assert!(r.warning.is_some());
}

#[test]
fn test_compose_prompt_wraps_supplement() {
    let composed = compose_prompt(b"be nice", b"do the task");
    assert_eq!(
        text(&composed),
        "<system_prompt>\nbe nice\n</system_prompt>\n\ndo the task"
    );
}
