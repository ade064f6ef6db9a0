use note_runner::errors::RunError;
use note_runner::loader::load_blocks;
use note_runner::pipeline::prepare_source;
use note_runner::selector::SelectionError;

const DOC: &str = "# Title\n\n```c\nint x;\n```\n\n```python\npass\n```\n\n```c lib\nint helper() { return 7; }\n```\n\n```c\nprintf(\"%d\", helper());\n```\n";

#[test]
fn loader_collects_only_host_language_blocks_in_order() {
    let blocks = load_blocks(DOC).unwrap();
    assert_eq!(blocks.len(), 3);
    assert_eq!(blocks[0].body, "int x;");
    assert_eq!(blocks[0].tag, None);
    assert_eq!(blocks[1].body, "int helper() { return 7; }");
    assert_eq!(blocks[1].tag, Some(String::from("lib")));
    assert_eq!(blocks[2].body, "printf(\"%d\", helper());");
    assert_eq!(blocks[2].tag, None);
}

#[test]
fn loader_records_document_line_spans() {
    let blocks = load_blocks(DOC).unwrap();
    // The first fence opens on document line 3 and closes on line 5.
    assert_eq!(blocks[0].start_line, 3);
    assert_eq!(blocks[0].end_line, 5);
    assert_eq!(blocks[1].start_line, 11);
    assert_eq!(blocks[1].end_line, 13);
}

#[test]
fn loader_walks_into_nested_containers() {
    let doc = "> quoted prose\n>\n> ```c\n> int nested;\n> ```\n\n- item\n\n  ```c\n  int listed;\n  ```\n";
    let blocks = load_blocks(doc).unwrap();
    assert_eq!(blocks.len(), 2);
    assert_eq!(blocks[0].body, "int nested;");
    assert_eq!(blocks[1].body, "int listed;");
}

#[test]
fn loader_of_empty_document_finds_nothing() {
    let blocks = load_blocks("").unwrap();
    assert_eq!(blocks.len(), 0);
}

#[test]
fn pipeline_assembles_selected_ordinal() {
    let out = prepare_source(DOC, "3").unwrap();
    assert_eq!(
        out,
        "#include <stdio.h>\n#include <string.h>\n#include <stdlib.h>\n\nint helper() { return 7; }\n\nint main() {\nprintf(\"%d\", helper());\nreturn 0; }\n"
    );
}

#[test]
fn pipeline_assembles_by_line_reference() {
    // Document line 4 is the body of the first block.
    let out = prepare_source(DOC, "l4").unwrap();
    assert_eq!(
        out,
        "#include <stdio.h>\n#include <string.h>\n#include <stdlib.h>\n\nint main() {\nint x;\nreturn 0; }\n"
    );
}

#[test]
fn pipeline_reports_out_of_range_with_count() {
    assert_eq!(
        prepare_source(DOC, "4"),
        Err(RunError::Selection(SelectionError::OutOfRange { count: 3 }))
    );
    assert_eq!(
        prepare_source(DOC, "0"),
        Err(RunError::Selection(SelectionError::OutOfRange { count: 3 }))
    );
}

#[test]
fn pipeline_reports_unmatched_line_and_bad_token() {
    assert_eq!(
        prepare_source(DOC, "l2"),
        Err(RunError::Selection(SelectionError::LineNotFound))
    );
    assert_eq!(
        prepare_source(DOC, "first"),
        Err(RunError::Selection(SelectionError::Malformed))
    );
}

#[test]
fn three_block_scenario_end_to_end() {
    // Block 1 a tagged library helper, block 2 untagged and using it,
    // block 3 a standalone program with its own entry point.
    let doc = "```c lib\nint helper() { return 7; }\n```\n\n```c\nprintf(\"%d\", helper());\n```\n\n```c standalone\nint main() { return 0; }\n```\n";
    assert_eq!(
        prepare_source(doc, "2").unwrap(),
        "#include <stdio.h>\n#include <string.h>\n#include <stdlib.h>\n\nint helper() { return 7; }\n\nint main() {\nprintf(\"%d\", helper());\nreturn 0; }\n"
    );
    assert_eq!(
        prepare_source(doc, "3").unwrap(),
        "#include <stdio.h>\n#include <string.h>\n#include <stdlib.h>\nint main() { return 0; }"
    );
}

#[test]
fn error_messages_are_user_legible() {
    let e = RunError::Selection(SelectionError::OutOfRange { count: 3 });
    assert_eq!(e.message(), "There are only 3 blocks!");
    let big = RunError::Selection(SelectionError::OutOfRange { count: 1204507 });
    assert_eq!(big.message(), "There are only 1204507 blocks!");
    assert_eq!(RunError::Compile.message(), "Failed to compile the program!");
    assert_eq!(
        RunError::Selection(SelectionError::LineNotFound).message(),
        "no block contains that line"
    );
    assert_eq!(
        RunError::Selection(SelectionError::Malformed).message(),
        "not a valid block selector"
    );
}
