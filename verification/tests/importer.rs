use nostd_vec::block_regex::{arr_str_to_vec_string, BlockRegex};
use nostd_vec::error_import::import_error;
use nostd_vec::rules::{
    remove_attr, remove_block, remove_doc_attr, remove_fn, remove_line, remove_stable_attr,
    remove_text, remove_unstable_features, try_remove_attr, try_remove_block, try_remove_doc_attr,
    try_remove_fn, try_remove_line, try_remove_stable_attr, try_remove_text,
    try_remove_unstable_features,
};
use nostd_vec::transformer::{Lines, Transformer};

fn source(lines: &[&str]) -> Lines {
    Lines::new(lines.iter().map(|line| format!("{}\n", line)).collect())
}

fn drain<T: Transformer>(mut t: T) -> Vec<String> {
    let mut all = Vec::new();
    let mut calls = 0;
    while let Some(batch) = t.next_lines() {
        for line in batch {
            all.push(line.trim_end_matches('\n').to_string());
        }
        calls += 1;
        assert!(calls < 10_000);
    }
    all
}

#[test]
fn lines_hands_out_one_line_per_call() {
    let mut lines = Lines::new(vec![String::from("a\n"), String::from("b\n")]);
    assert_eq!(lines.next_lines(), Some(vec![String::from("a\n")]));
    assert_eq!(lines.next_lines(), Some(vec![String::from("b\n")]));
    assert_eq!(lines.next_lines(), None);
    assert_eq!(lines.next_lines(), None);
}

#[test]
fn arr_str_to_vec_string_copies_in_order() {
    assert_eq!(arr_str_to_vec_string(&["a", "", "bc"]), vec!["a", "", "bc"]);
    assert_eq!(arr_str_to_vec_string(&[]), Vec::<String>::new());
}

#[test]
fn try_new_rejects_a_pattern_that_is_no_regular_expression() {
    assert!(BlockRegex::try_new(source(&["x"]), None, "foo(bar", None, &[]).is_err());
    assert!(BlockRegex::try_new(source(&["x"]), Some("a)"), "x", None, &[]).is_err());
    assert!(BlockRegex::try_new(source(&["x"]), None, "x", Some("[a"), &[]).is_err());
    assert!(BlockRegex::try_new(source(&["x"]), Some("a"), "x", Some("b"), &[]).is_ok());
}

#[test]
fn try_new_hands_the_source_back_on_failure() {
    let back = match BlockRegex::try_new(source(&["x", "y"]), None, "(", None, &[]) {
        Ok(_) => panic!("accepted"),
        Err(back) => back,
    };
    assert_eq!(drain(back), vec!["x", "y"]);
}

#[test]
fn a_committed_line_is_replaced_once_for_each_replacement() {
    let f = BlockRegex::new(
        source(&["keep", "key=value", "keep too"]),
        None,
        "^(\\w+)=(\\w+)",
        None,
        &["${2}", "${1}:${2}"],
    );
    assert_eq!(drain(f), vec!["keep", "value", "key:value", "keep too"]);
}

#[test]
fn a_committed_line_without_replacements_is_dropped() {
    let f = remove_line(source(&["a", "drop me", "b", "drop me too"]), "^drop");
    assert_eq!(drain(f), vec!["a", "b"]);
}

#[test]
fn remove_line_matches_anywhere_in_the_line() {
    let f = remove_line(source(&["abc", "xbx", "ac"]), "b");
    assert_eq!(drain(f), vec!["ac"]);
}

#[test]
fn started_lines_are_dropped_by_a_commit() {
    let f = BlockRegex::new(
        source(&["one", "# note", "# more", "target", "two"]),
        Some("^#"),
        "^target",
        None,
        &[],
    );
    assert_eq!(drain(f), vec!["one", "two"]);
}

#[test]
fn started_lines_are_released_by_any_other_line() {
    let f = BlockRegex::new(
        source(&["# note", "# more", "plain", "target"]),
        Some("^#"),
        "^target",
        None,
        &[],
    );
    assert_eq!(drain(f), vec!["# note", "# more", "plain"]);
}

#[test]
fn started_lines_are_released_at_the_end_of_the_text() {
    let f = BlockRegex::new(source(&["a", "# note", "# more"]), Some("^#"), "^target", None, &[]);
    assert_eq!(drain(f), vec!["a", "# note", "# more"]);
}

#[test]
fn a_held_back_batch_is_empty_not_absent() {
    let mut f = BlockRegex::new(source(&["# note", "x"]), Some("^#"), "^target", None, &[]);
    assert_eq!(f.next_lines(), Some(vec![]));
    assert_eq!(f.next_lines(), Some(vec![String::from("# note\n"), String::from("x\n")]));
    assert_eq!(f.next_lines(), None);
}

#[test]
fn transform_takes_a_batch_of_several_lines() {
    let mut f = BlockRegex::new(source(&[]), Some("^#"), "^target", None, &["T"]);
    let batch = vec![
        String::from("a"),
        String::from("# held"),
        String::from("b"),
        String::from("# dropped"),
        String::from("target"),
    ];
    assert_eq!(f.transform(Some(batch)), Some(vec![
        String::from("a"),
        String::from("# held"),
        String::from("b"),
        String::from("T"),
    ]));
    assert_eq!(f.transform(Some(vec![String::from("# last")])), Some(vec![]));
    assert_eq!(f.transform(None), Some(vec![String::from("# last")]));
    assert_eq!(f.transform(None), None);
}

#[test]
fn a_block_ends_at_the_end_pattern_behind_the_captured_prefix() {
    let f = BlockRegex::new(
        source(&[
            "before",
            "    fn gone() {",
            "        if x {",
            "        }",
            "}",
            "    }",
            "after",
        ]),
        None,
        "^(\\s*)fn gone",
        Some("^\\}"),
        &[],
    );
    assert_eq!(drain(f), vec!["before", "after"]);
}

#[test]
fn remove_stable_attr_drops_the_attribute_lines() {
    let f = remove_stable_attr(source(&[
        "#![stable(feature = \"x\", since = \"1.0.0\")]",
        "    #[stable(feature = \"y\", since = \"1.0.0\")]",
        "pub trait Error {}",
        "#[unstable(feature = \"z\")]",
    ]));
    assert_eq!(drain(f), vec!["pub trait Error {}", "#[unstable(feature = \"z\")]"]);
}

#[test]
fn remove_doc_attr_drops_the_attribute_lines() {
    let f = remove_doc_attr(source(&["#[doc = \"text\"]", "#![doc=\"more\"]", "#[doc(hidden)]"]));
    assert_eq!(drain(f), vec!["#[doc(hidden)]"]);
}

#[test]
fn remove_attr_drops_an_attribute_on_one_line() {
    let f = remove_attr(
        source(&["#[rustc_diagnostic_item = \"Error\"]", "pub trait Error {}"]),
        "rustc_diagnostic_item",
    );
    assert_eq!(drain(f), vec!["pub trait Error {}"]);
}

#[test]
fn remove_attr_drops_an_attribute_over_several_lines() {
    let f = remove_attr(
        source(&[
            "    #[unstable(",
            "        feature = \"x\",",
            "        issue = \"1\"",
            "    )]",
            "    fn f();",
            "  #[unstable(feature = \"y\",",
            "  ]",
            "fn g();",
        ]),
        "unstable",
    );
    assert_eq!(drain(f), vec!["    fn f();", "fn g();"]);
}

#[test]
fn remove_unstable_features_drops_the_item_and_what_leads_to_it() {
    let f = remove_unstable_features(source(&[
        "/// Kept.",
        "fn kept() {}",
        "/// Gone.",
        "#[inline]",
        "#[unstable(feature = \"x\", issue = \"1\")]",
        "fn gone() {",
        "    body();",
        "}",
        "fn also_kept() {}",
    ]));
    assert_eq!(drain(f), vec!["/// Kept.", "fn kept() {}", "fn also_kept() {}"]);
}

#[test]
fn remove_fn_drops_the_function_and_its_comments() {
    let f = remove_fn(
        source(&[
            "impl X {",
            "    /// About provide.",
            "    #[allow(unused)]",
            "    fn provide<'a>(&'a self) {",
            "        inner();",
            "    }",
            "    fn other() {}",
            "}",
        ]),
        "provide",
    );
    assert_eq!(drain(f), vec!["impl X {", "    fn other() {}", "}"]);
}

#[test]
fn a_replaced_line_keeps_its_line_end() {
    let mut f = remove_text(source(&["a, b"]), "a, ");
    assert_eq!(f.next_lines(), Some(vec![String::from("b\n")]));
    assert_eq!(f.next_lines(), None);
}

#[test]
fn remove_fn_leaves_other_functions() {
    let f = remove_fn(
        source(&["/// About g.", "fn g() {", "}", "fn h() {}"]),
        "provide",
    );
    assert_eq!(drain(f), vec!["/// About g.", "fn g() {", "}", "fn h() {}"]);
}

#[test]
fn remove_block_drops_the_block_and_its_comments() {
    let f = remove_block(
        source(&[
            "struct A;",
            "/// Gone.",
            "impl Error for crate::char::ParseCharError {",
            "    fn description(&self) -> &str {",
            "        \"\"",
            "    }",
            "}",
            "struct B;",
        ]),
        "impl Error for crate::char::ParseCharError",
    );
    assert_eq!(drain(f), vec!["struct A;", "struct B;"]);
}

#[test]
fn remove_text_takes_the_text_out_of_the_line() {
    let f = remove_text(
        source(&["use crate::any::{Demand, Provider, TypeId};", "use crate::fmt;"]),
        "Demand, Provider, ",
    );
    assert_eq!(drain(f), vec!["use crate::any::{TypeId};", "use crate::fmt;"]);
}

#[test]
fn remove_text_takes_its_text_literally() {
    let f = remove_text(source(&["call f(x) now", "call fxx now", "a.b and axb"]), "f(x)");
    assert_eq!(drain(f), vec!["call  now", "call fxx now", "a.b and axb"]);
    let g = remove_text(source(&["a.b and axb"]), "a.b");
    assert_eq!(drain(g), vec![" and axb"]);
}

#[test]
fn remove_text_takes_out_the_last_occurrence_only() {
    let f = remove_text(source(&["x, x, y"]), "x, ");
    assert_eq!(drain(f), vec!["x, y"]);
}

#[test]
fn the_checked_rules_accept_their_own_patterns() {
    assert!(try_remove_stable_attr(source(&[])).is_ok());
    assert!(try_remove_doc_attr(source(&[])).is_ok());
    assert!(try_remove_unstable_features(source(&[])).is_ok());
    assert!(try_remove_attr(source(&[]), "unstable").is_ok());
    assert!(try_remove_fn(source(&[]), "provide").is_ok());
    assert!(try_remove_block(source(&[]), "impl A for B").is_ok());
    assert!(try_remove_line(source(&[]), "^x").is_ok());
    assert!(try_remove_text(source(&[]), "a(b").is_ok());
}

#[test]
fn the_checked_rules_reject_what_is_no_regular_expression() {
    assert!(try_remove_attr(source(&[]), "(").is_err());
    assert!(try_remove_fn(source(&[]), "f(").is_err());
    assert!(try_remove_block(source(&[]), "impl (").is_err());
    assert!(try_remove_line(source(&[]), "[").is_err());
    let back = match try_remove_line(source(&["kept"]), "[") {
        Ok(_) => panic!("accepted"),
        Err(back) => back,
    };
    assert_eq!(drain(back), vec!["kept"]);
}

#[test]
fn import_error_strips_an_error_module() {
    let module = source(&[
        "#![doc = include_str!(\"error.md\")]",
        "#![stable(feature = \"error_in_core\", since = \"1.81.0\")]",
        "",
        "use crate::any::{Demand, Provider, TypeId};",
        "use crate::fmt::{Debug, Display};",
        "",
        "/// Base trait.",
        "#[stable(feature = \"rust1\", since = \"1.0.0\")]",
        "#[rustc_diagnostic_item = \"Error\"]",
        "#[rustc_has_incoherent_inherent_impls]",
        "pub trait Error: Debug + Display {",
        "    /// The source.",
        "    #[stable(feature = \"error_source\", since = \"1.30.0\")]",
        "    fn source(&self) -> Option<&(dyn Error + 'static)> {",
        "        None",
        "    }",
        "",
        "    /// Gets the type id.",
        "    #[doc(hidden)]",
        "    #[unstable(",
        "        feature = \"error_type_id\",",
        "        reason = \"this is memory-unsafe to override in user code\",",
        "        issue = \"60784\"",
        "    )]",
        "    fn type_id(&self, _: private::Internal) -> TypeId",
        "    where",
        "        Self: 'static,",
        "    {",
        "        TypeId::of::<Self>()",
        "    }",
        "",
        "    /// Provides values.",
        "    #[unstable(feature = \"error_generic_member_access\", issue = \"99301\")]",
        "    #[allow(unused_variables)]",
        "    fn provide<'a>(&'a self, demand: &mut Demand<'a>) {}",
        "}",
        "",
        "#[unstable(feature = \"never_type\", issue = \"35121\")]",
        "impl Error for ! {}",
        "}",
        "",
        "#[stable(feature = \"rust1\", since = \"1.0.0\")]",
        "impl Error for crate::char::ParseCharError {",
        "    fn description(&self) -> &str {",
        "        \"\"",
        "    }",
        "}",
        "",
        "mod private {",
        "}",
    ]);
    let pipeline = match import_error(module) {
        Some(pipeline) => pipeline,
        None => panic!("a pattern was refused"),
    };
    let out = drain(pipeline);
    let text = out.join("\n");
    assert!(!text.contains("stable("));
    assert!(!text.contains("rustc_"));
    assert!(!text.contains("doc ="));
    assert!(!text.contains("Demand"));
    assert!(!text.contains("ParseCharError"));
    assert!(!text.contains("fn provide"));
    assert!(!text.contains("never_type"));
    assert!(text.contains("pub trait Error: Debug + Display {"));
    assert!(text.contains("fn source(&self)"));
    assert!(text.contains("fn type_id(&self, _: private::Internal) -> TypeId"));
    assert!(text.contains("use crate::any::{TypeId};"));
    assert!(text.contains("use crate::fmt::{Debug, Display};"));
    assert!(text.contains("mod private {"));
}
