use llama_rag::input::InputBuffer;

fn finalize(lines: &[&str]) -> String {
    let mut b = InputBuffer::new();
    for l in lines {
        if b.push_line(l) {
            break;
        }
    }
    b.utterance()
}

#[test]
fn continuation_lines_join_with_line_breaks() {
    assert_eq!(finalize(&["a\\\n", "b\n"]), "a\nb\n");
}

#[test]
fn single_line_keeps_its_line_break() {
    assert_eq!(finalize(&["hello\n"]), "hello\n");
}

#[test]
fn empty_first_line_gives_empty_line_utterance() {
    let mut b = InputBuffer::new();
    assert!(b.push_line("\n"));
    assert_eq!(b.utterance(), "\n");
}

#[test]
fn end_of_input_without_line_break_ends_utterance() {
    let mut b = InputBuffer::new();
    assert!(!b.push_line("first\\\n"));
    assert!(!b.is_finished());
    assert!(b.push_line("partial"));
    assert_eq!(b.utterance(), "first\npartial");
}

#[test]
fn lines_after_completion_are_ignored() {
    let mut b = InputBuffer::new();
    assert!(b.push_line("x\n"));
    assert!(b.push_line("y\n"));
    assert_eq!(b.utterance(), "x\n");
}

#[test]
fn backslash_inside_line_is_kept() {
    assert_eq!(finalize(&["a\\b\n"]), "a\\b\n");
    assert_eq!(finalize(&["\\\n", "\\\n", "end\n"]), "\n\nend\n");
}

#[test]
fn last_line_without_break_is_kept() {
    assert_eq!(finalize(&["a\\\n", "b"]), "a\nb");
}
