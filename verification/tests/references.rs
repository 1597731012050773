use styra::agent::SandboxLayout;
use styra::references::{in_reply, Reference, References};

const ROOT: &str = "/work/tree";

fn root() -> Option<String> {
    Some(ROOT.to_owned())
}

/// The one file of the tree.
fn present() -> Vec<String> {
    vec![format!("{ROOT}/src/monitor.c")]
}

#[test]
fn a_cited_line_and_the_full_path_beside_it_are_one_reference() {
    let text = format!("Fixed the crash in src/monitor.c:484 ({ROOT}/src/monitor.c:484).");

    let references = in_reply(&text, &root(), &present());

    assert_eq!(references.len(), 1);
    assert_eq!(references[0].reported, "src/monitor.c:484");
    assert_eq!(references[0].line, Some(484));
    assert_eq!(references[0].resolved, format!("{ROOT}/src/monitor.c"));
}

#[test]
fn a_markdown_link_to_a_cited_line_is_one_reference() {
    let file = format!("{ROOT}/src/monitor.c");
    let text = format!("At [monitor.c:484]({file}:484), every reply increments `num_wired`.");

    let references = in_reply(&text, &root(), &present());

    assert_eq!(references.len(), 1, "{references:?}");
    assert_eq!(references[0].resolved, file);
    assert_eq!(references[0].line, Some(484));
    assert_eq!(
        references[0].label(),
        format!("{file}:484"),
        "a citation already spelling its host path is not pointed at itself"
    );
}

#[test]
fn a_sandbox_citation_is_re_rooted_and_shown_alongside_its_host_path() {
    let sandboxed = format!("{}/src/monitor.c", SandboxLayout::default().workspace);

    let references = in_reply(&format!("see {sandboxed}:12"), &root(), &present());

    assert_eq!(references.len(), 1);
    assert_eq!(references[0].resolved, format!("{ROOT}/src/monitor.c"));
    assert_eq!(references[0].line, Some(12));
    assert!(
        references[0].label().contains("→"),
        "{}",
        references[0].label()
    );
}

#[test]
fn text_that_names_no_existing_file_yields_no_references() {
    assert!(in_reply(
        "Done. Nothing else needed, e.g. src/absent.c:3",
        &root(),
        &present()
    )
    .is_empty());
}

#[test]
fn a_citation_without_a_line_is_still_a_reference() {
    let references = in_reply("touched src/monitor.c today", &root(), &present());

    assert_eq!(references.len(), 1);
    assert_eq!(references[0].line, None);
    assert_eq!(
        references[0].label(),
        format!("src/monitor.c  →  {ROOT}/src/monitor.c")
    );
}

#[test]
fn the_selection_cannot_leave_the_references_that_exist() {
    let reference = |path: &str| Reference {
        reported: path.into(),
        line: None,
        resolved: path.into(),
    };
    let mut open = References::new(vec![reference("/a"), reference("/b")]).unwrap();

    for _ in 0..5 {
        open.select_next();
    }
    assert_eq!(open.selected().reported, "/b");

    for _ in 0..5 {
        open.select_prev();
    }
    assert_eq!(open.selected().reported, "/a");

    open.select_last();
    assert_eq!(open.selected_index(), 1);
    open.select_first();
    assert_eq!(open.selected_index(), 0);
}

#[test]
fn an_empty_list_opens_no_picker() {
    assert!(References::new(Vec::new()).is_none());
}
