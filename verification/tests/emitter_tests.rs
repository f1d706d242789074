use basic_compiler::emitter::Emitter;

#[test]
fn new_emitter_is_empty() {
    let emitter = Emitter::new();
    assert_eq!(emitter.buffer(), "");
}

#[test]
fn text_is_appended_in_order() {
    let mut emitter = Emitter::new();
    emitter.emit_to_buffer("int x");
    emitter.emit_to_buffer("");
    emitter.emit_to_buffer(" = 1;\n");
    emitter.emit_to_buffer("\u{e9}");
    assert_eq!(emitter.buffer(), "int x = 1;\n\u{e9}");
}

#[test]
fn reading_the_buffer_leaves_it_as_it_is() {
    let mut emitter = Emitter::new();
    emitter.emit_to_buffer("a");
    assert_eq!(emitter.buffer(), "a");
    assert_eq!(emitter.buffer(), "a");
    emitter.emit_to_buffer("b");
    assert_eq!(emitter.buffer(), "ab");
}
