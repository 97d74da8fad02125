use bundler_codegen::init_fragment::{
    render_init_fragments, sort_init_fragments, InitFragmentKey, InitFragmentStage,
    NormalInitFragment,
};
use bundler_codegen::module_graph::Identifier;

fn keyed(name: &str) -> InitFragmentKey {
    InitFragmentKey::AsyncBoundary(Identifier::new(name))
}

fn fragment(
    content: &str,
    stage: InitFragmentStage,
    position: i32,
    key: InitFragmentKey,
    end_content: Option<&str>,
) -> NormalInitFragment {
    NormalInitFragment::new(
        content.to_string(),
        stage,
        position,
        key,
        end_content.map(|text| text.to_string()),
    )
}

#[test]
fn no_fragments_render_the_body_alone() {
    assert_eq!(render_init_fragments("body", &Vec::new()), "body");
    assert_eq!(sort_init_fragments(&Vec::new()), Vec::<usize>::new());
}

#[test]
fn fragments_are_sorted_by_stage_then_position_then_contribution() {
    let fragments = vec![
        fragment("d", InitFragmentStage::StageAsyncBoundary, 0, keyed("d"), None),
        fragment("c", InitFragmentStage::StageHarmonyExports, 5, keyed("c"), None),
        fragment("a", InitFragmentStage::StageConstants, 9, keyed("a"), None),
        fragment("b1", InitFragmentStage::StageHarmonyExports, -1, keyed("b1"), None),
        fragment("b2", InitFragmentStage::StageHarmonyExports, -1, keyed("b2"), None),
        fragment("e", InitFragmentStage::StageAsyncBoundary, 0, keyed("e"), None),
    ];
    assert_eq!(sort_init_fragments(&fragments), vec![2, 3, 4, 1, 0, 5]);
    assert_eq!(render_init_fragments("|", &fragments), "ab1b2cde|");
}

#[test]
fn stages_are_emitted_in_their_declared_order() {
    let fragments = vec![
        fragment("4", InitFragmentStage::StageAsyncBoundary, 0, keyed("4"), None),
        fragment("3", InitFragmentStage::StageHarmonyImports, 0, keyed("3"), None),
        fragment("2", InitFragmentStage::StageHarmonyExports, 0, keyed("2"), None),
        fragment("1", InitFragmentStage::StageConstants, 0, keyed("1"), None),
    ];
    assert_eq!(sort_init_fragments(&fragments), vec![3, 2, 1, 0]);
    assert_eq!(InitFragmentStage::StageConstants.rank(), 0);
    assert_eq!(InitFragmentStage::StageHarmonyExports.rank(), 1);
    assert_eq!(InitFragmentStage::StageHarmonyImports.rank(), 2);
    assert_eq!(InitFragmentStage::StageAsyncBoundary.rank(), 3);
}

#[test]
fn epilogues_close_in_reverse_order_of_opening() {
    let fragments = vec![
        fragment("B{", InitFragmentStage::StageHarmonyImports, 0, keyed("b"), Some("}B")),
        fragment("A{", InitFragmentStage::StageConstants, 0, keyed("a"), Some("}A")),
        fragment("x;", InitFragmentStage::StageHarmonyExports, 0, keyed("x"), None),
        fragment("C{", InitFragmentStage::StageAsyncBoundary, 0, keyed("c"), Some("}C")),
    ];
    let text = render_init_fragments("body", &fragments);
    assert_eq!(text, "A{x;B{C{body}C}B}A");
    let closes_a = text.find("}A").unwrap();
    let closes_b = text.find("}B").unwrap();
    let closes_c = text.find("}C").unwrap();
    assert!(closes_c < closes_b && closes_b < closes_a);
}

#[test]
fn of_fragments_with_one_key_the_first_in_emission_order_is_kept() {
    let fragments = vec![
        fragment("late", InitFragmentStage::StageHarmonyImports, 0, keyed("k"), Some("!late")),
        fragment("other", InitFragmentStage::StageHarmonyExports, 0, keyed("o"), None),
        fragment("early", InitFragmentStage::StageConstants, 0, keyed("k"), Some("!early")),
        fragment("again", InitFragmentStage::StageConstants, 0, keyed("k"), Some("!again")),
    ];
    assert_eq!(render_init_fragments("-", &fragments), "earlyother-!early");
}

#[test]
fn keys_of_different_kinds_do_not_collapse() {
    let fragments = vec![
        fragment("n", InitFragmentStage::StageHarmonyExports, 0, InitFragmentKey::HarmonyCompatibility, None),
        fragment("m", InitFragmentStage::StageHarmonyExports, 0, keyed("m"), None),
        fragment("n2", InitFragmentStage::StageHarmonyExports, 0, InitFragmentKey::HarmonyCompatibility, None),
        fragment("q", InitFragmentStage::StageHarmonyExports, 0, keyed("q"), None),
    ];
    assert_eq!(render_init_fragments("", &fragments), "nmq");
    assert!(InitFragmentKey::HarmonyCompatibility.same(&InitFragmentKey::HarmonyCompatibility));
    assert!(!InitFragmentKey::HarmonyCompatibility.same(&keyed("m")));
    assert!(keyed("m").same(&keyed("m")));
    assert!(!keyed("m").same(&keyed("q")));
}

#[test]
fn ranks_below_compares_stage_before_position() {
    let early = fragment("", InitFragmentStage::StageConstants, 7, keyed("a"), None);
    let late = fragment("", InitFragmentStage::StageHarmonyExports, -7, keyed("b"), None);
    let later = fragment("", InitFragmentStage::StageHarmonyExports, -6, keyed("c"), None);
    assert!(early.ranks_below(&late));
    assert!(!late.ranks_below(&early));
    assert!(late.ranks_below(&later));
    assert!(!later.ranks_below(&late));
    assert!(!late.ranks_below(&late));
}
