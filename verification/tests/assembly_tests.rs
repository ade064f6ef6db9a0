use note_runner::assembler::assemble;
use note_runner::block::CodeBlock;

const PREAMBLE: &str = "#include <stdio.h>\n#include <string.h>\n#include <stdlib.h>\n";

fn asm_block(body: &str, tag: Option<&str>, start_line: usize, end_line: usize) -> CodeBlock {
    CodeBlock {
        body: String::from(body),
        tag: tag.map(String::from),
        start_line,
        end_line,
    }
}

#[test]
fn wrapped_block_without_libraries() {
    let blocks = vec![asm_block("printf(\"hi\\n\");", None, 1, 3)];
    let out = assemble(&blocks, 0);
    assert_eq!(
        out,
        format!(
            "{}\nint main() {{\nprintf(\"hi\\n\");\nreturn 0; }}\n",
            PREAMBLE
        )
    );
}

#[test]
fn wrapped_block_inlines_preceding_libraries_in_order() {
    let blocks = vec![
        asm_block("int one() { return 1; }", Some("lib"), 1, 3),
        asm_block("int two() { return 2; }", Some("lib"), 5, 7),
        asm_block("printf(\"%d\", one() + two());", None, 9, 11),
    ];
    let out = assemble(&blocks, 2);
    assert_eq!(
        out,
        format!(
            "{}\nint one() {{ return 1; }}\n\nint two() {{ return 2; }}\n\nint main() {{\nprintf(\"%d\", one() + two());\nreturn 0; }}\n",
            PREAMBLE
        )
    );
}

#[test]
fn only_library_tagged_blocks_are_inlined() {
    let blocks = vec![
        asm_block("int one() { return 1; }", Some("lib"), 1, 3),
        asm_block("int stray;", None, 5, 7),
        asm_block("int other;", Some("note"), 9, 11),
        asm_block("printf(\"x\");", None, 13, 15),
    ];
    let out = assemble(&blocks, 3);
    assert_eq!(
        out,
        format!(
            "{}\nint one() {{ return 1; }}\n\nint main() {{\nprintf(\"x\");\nreturn 0; }}\n",
            PREAMBLE
        )
    );
}

#[test]
fn library_after_selection_is_never_inlined() {
    let blocks = vec![
        asm_block("printf(\"x\");", None, 1, 3),
        asm_block("int late() { return 9; }", Some("lib"), 5, 7),
    ];
    let out = assemble(&blocks, 0);
    assert_eq!(
        out,
        format!("{}\nint main() {{\nprintf(\"x\");\nreturn 0; }}\n", PREAMBLE)
    );
}

#[test]
fn standalone_block_is_not_wrapped_and_gets_no_libraries() {
    let blocks = vec![
        asm_block("int helper() { return 1; }", Some("lib"), 1, 3),
        asm_block("int main() { return 42; }", Some("standalone"), 5, 7),
    ];
    let out = assemble(&blocks, 1);
    assert_eq!(out, format!("{}int main() {{ return 42; }}", PREAMBLE));
}

#[test]
fn three_block_document_scenario() {
    // Block 1 a library helper, block 2 an ordinary block using it, block 3
    // a standalone program with its own entry point.
    let blocks = vec![
        asm_block("int helper() { return 7; }", Some("lib"), 1, 3),
        asm_block("printf(\"%d\", helper());", None, 5, 7),
        asm_block(
            "int main() { printf(\"self\\n\"); return 0; }",
            Some("standalone"),
            9,
            11,
        ),
    ];
    let second = assemble(&blocks, 1);
    assert_eq!(
        second,
        format!(
            "{}\nint helper() {{ return 7; }}\n\nint main() {{\nprintf(\"%d\", helper());\nreturn 0; }}\n",
            PREAMBLE
        )
    );
    let third = assemble(&blocks, 2);
    assert_eq!(
        third,
        format!(
            "{}int main() {{ printf(\"self\\n\"); return 0; }}",
            PREAMBLE
        )
    );
}
