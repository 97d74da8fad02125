use bundler_codegen::external::{
    find_entry, pattern_decision, resolve_external, resolve_external_from, resume_external,
    ExternalCallbackError, ExternalItem, ExternalItemFnCtx, ExternalItemFnResult, ExternalItemValue,
    ResolveStep,
};
use bundler_codegen::raw_external::{
    checked_pattern, ExternalItemError, RawExternalItem, RawExternalItemFnCtx, RawExternalItemFnResult,
    RawExternalItemValue, RawExternalsPluginOptions, RawExternalsPresets,
    RawHttpExternalsRspackPluginOptions,
};

fn request(text: &str) -> ExternalItemFnCtx {
    ExternalItemFnCtx {
        request: text.to_string(),
        context: "/app/src".to_string(),
        dependency_type: "esm".to_string(),
    }
}

fn text(value: &str) -> ExternalItemValue {
    ExternalItemValue::String(value.to_string())
}

fn pattern(source: &str, flags: &str) -> ExternalItem {
    ExternalItem::Pattern { source: source.to_string(), flags: flags.to_string() }
}

fn mapping(entries: Vec<(&str, ExternalItemValue)>) -> ExternalItem {
    ExternalItem::Mapping(entries.into_iter().map(|(key, value)| (key.to_string(), value)).collect())
}

fn external(external_type: &str, value: ExternalItemValue) -> ExternalItemFnResult {
    ExternalItemFnResult { external_type: Some(external_type.to_string()), result: Some(value) }
}

fn not_external() -> ExternalItemFnResult {
    ExternalItemFnResult { external_type: None, result: None }
}

/// Runs the steps of a resolution to its end, asking `callback` wherever a
/// step asks for one, and counts the calls.
fn resolve_with(
    items: &Vec<ExternalItem>,
    default_type: &str,
    request: &ExternalItemFnCtx,
    callback: &dyn Fn(u32, &ExternalItemFnCtx) -> Result<ExternalItemFnResult, String>,
) -> (Result<ExternalItemFnResult, ExternalCallbackError>, Vec<u32>) {
    let mut asked = Vec::new();
    let mut step = resolve_external(items, default_type, request);
    loop {
        match step {
            ResolveStep::Done(result) => return (Ok(result), asked),
            ResolveStep::Call { index, callback: number } => {
                asked.push(number);
                let reply = callback(number, request);
                match resume_external(items, default_type, request, index, reply) {
                    Ok(next) => step = next,
                    Err(error) => return (Err(error), asked),
                }
            }
        }
    }
}

fn never(_: u32, _: &ExternalItemFnCtx) -> Result<ExternalItemFnResult, String> {
    panic!("no callback is configured")
}

#[test]
fn no_items_leave_the_request_in_the_bundle() {
    let step = resolve_external(&Vec::new(), "var", &request("react"));
    assert_eq!(step, ResolveStep::Done(not_external()));
}

#[test]
fn literal_item_matches_every_request() {
    let items = vec![ExternalItem::Literal("jquery".to_string())];
    for asked in ["jquery", "react", ""] {
        let step = resolve_external(&items, "var", &request(asked));
        assert_eq!(step, ResolveStep::Done(external("var", text("jquery"))));
    }
}

#[test]
fn literal_before_pattern_decides() {
    let items = vec![ExternalItem::Literal("react".to_string()), pattern("^react", "")];
    let (result, asked) = resolve_with(&items, "commonjs", &request("react"), &never);
    assert_eq!(result, Ok(external("commonjs", text("react"))));
    assert!(asked.is_empty());
}

#[test]
fn pattern_item_carries_the_request_as_value() {
    let items = vec![pattern("^react", ""), ExternalItem::Literal("fallback".to_string())];
    let step = resolve_external(&items, "module", &request("react-dom"));
    assert_eq!(step, ResolveStep::Done(external("module", text("react-dom"))));
    let step = resolve_external(&items, "module", &request("preact"));
    assert_eq!(step, ResolveStep::Done(external("module", text("fallback"))));
}

#[test]
fn pattern_flags_are_honoured() {
    let sensitive = vec![pattern("^REACT$", "")];
    let insensitive = vec![pattern("^REACT$", "i")];
    assert_eq!(
        resolve_external(&sensitive, "var", &request("react")),
        ResolveStep::Done(not_external())
    );
    assert_eq!(
        resolve_external(&insensitive, "var", &request("react")),
        ResolveStep::Done(external("var", text("react")))
    );
}

#[test]
fn pattern_that_is_no_regular_expression_matches_nothing() {
    let items = vec![pattern("(", "")];
    assert_eq!(
        resolve_external(&items, "var", &request("(")),
        ResolveStep::Done(not_external())
    );
}

#[test]
fn mapping_resolves_its_keys_and_hands_other_requests_on() {
    let items = vec![mapping(vec![("lodash", text("commonjs lodash"))])];
    let step = resolve_external(&items, "node", &request("lodash"));
    assert_eq!(step, ResolveStep::Done(external("node", text("commonjs lodash"))));
    if let ResolveStep::Done(result) = step {
        assert_eq!(result.result, Some(text("commonjs lodash")));
        assert_eq!(result.external_type, Some("node".to_string()));
    }
    let step = resolve_external(&items, "node", &request("lodash/fp"));
    assert_eq!(step, ResolveStep::Done(not_external()));
}

#[test]
fn mapping_values_keep_their_shape() {
    let table = ExternalItemValue::Object(vec![
        ("commonjs".to_string(), vec!["fs-extra".to_string()]),
        ("root".to_string(), vec!["window".to_string(), "fs".to_string()]),
    ]);
    let list = ExternalItemValue::Array(vec!["./math".to_string(), "subtract".to_string()]);
    let items = vec![mapping(vec![
        ("fs".to_string().as_str(), table.clone()),
        ("math", list.clone()),
        ("off", ExternalItemValue::Bool(false)),
    ])];
    assert_eq!(
        resolve_external(&items, "umd", &request("fs")),
        ResolveStep::Done(external("umd", table.clone()))
    );
    assert_eq!(
        resolve_external(&items, "umd", &request("math")),
        ResolveStep::Done(external("umd", list.clone()))
    );
    assert_eq!(
        resolve_external(&items, "umd", &request("off")),
        ResolveStep::Done(external("umd", ExternalItemValue::Bool(false)))
    );
    assert_eq!(table.duplicate(), table);
    assert_eq!(list.duplicate(), list);
}

#[test]
fn items_behind_a_mapping_without_the_key_are_tried() {
    let items = vec![
        mapping(vec![("a", text("A"))]),
        pattern("^z", ""),
        mapping(vec![("b", text("B"))]),
    ];
    assert_eq!(
        resolve_external(&items, "var", &request("b")),
        ResolveStep::Done(external("var", text("B")))
    );
    assert_eq!(
        resolve_external_from(&items, "var", &request("a"), 1),
        ResolveStep::Done(not_external())
    );
    assert_eq!(
        resolve_external_from(&items, "var", &request("a"), 7),
        ResolveStep::Done(not_external())
    );
}

#[test]
fn dynamic_item_asks_for_its_callback() {
    let items = vec![pattern("^never$", ""), ExternalItem::Dynamic(41), ExternalItem::Dynamic(42)];
    let step = resolve_external(&items, "var", &request("react"));
    assert_eq!(step, ResolveStep::Call { index: 1, callback: 41 });
}

#[test]
fn callback_answer_with_a_value_decides() {
    let items = vec![ExternalItem::Dynamic(7), ExternalItem::Literal("unreached".to_string())];
    let asked = request("react");
    let answer = ExternalItemFnResult {
        external_type: Some("module".to_string()),
        result: Some(text("https://cdn/react.js")),
    };
    assert_eq!(
        resume_external(&items, "var", &asked, 0, Ok(answer)),
        Ok(ResolveStep::Done(external("module", text("https://cdn/react.js"))))
    );
    let untyped = ExternalItemFnResult { external_type: None, result: Some(text("React")) };
    assert_eq!(
        resume_external(&items, "var", &asked, 0, Ok(untyped)),
        Ok(ResolveStep::Done(external("var", text("React"))))
    );
}

#[test]
fn callback_answer_without_fields_continues_with_the_next_item() {
    let items = vec![ExternalItem::Dynamic(1), mapping(vec![("react", text("React"))])];
    let (result, asked) =
        resolve_with(&items, "var", &request("react"), &|_, _| Ok(not_external()));
    assert_eq!(result, Ok(external("var", text("React"))));
    assert_eq!(asked, vec![1]);

    let typed_only = ExternalItemFnResult { external_type: Some("amd".to_string()), result: None };
    assert_eq!(
        resume_external(&items, "var", &request("react"), 0, Ok(typed_only)),
        Ok(ResolveStep::Done(external("var", text("React"))))
    );
}

#[test]
fn callback_answer_without_fields_on_the_last_item_is_no_match() {
    let items = vec![ExternalItem::Dynamic(1)];
    let (result, asked) =
        resolve_with(&items, "var", &request("react"), &|_, _| Ok(not_external()));
    assert_eq!(result, Ok(not_external()));
    assert_eq!(asked, vec![1]);
    assert_eq!(
        resume_external(&items, "var", &request("react"), usize::MAX, Ok(not_external())),
        Ok(ResolveStep::Done(not_external()))
    );
}

#[test]
fn callbacks_are_asked_in_order_until_one_decides() {
    let items = vec![
        ExternalItem::Dynamic(10),
        ExternalItem::Dynamic(20),
        ExternalItem::Dynamic(30),
        ExternalItem::Literal("last".to_string()),
    ];
    let (result, asked) = resolve_with(&items, "var", &request("x"), &|number, ctx| {
        assert_eq!(ctx.request, "x");
        if number == 20 {
            Ok(ExternalItemFnResult { external_type: None, result: Some(text("twenty")) })
        } else {
            Ok(not_external())
        }
    });
    assert_eq!(result, Ok(external("var", text("twenty"))));
    assert_eq!(asked, vec![10, 20]);
}

#[test]
fn failed_callback_fails_the_request_with_its_message() {
    let items = vec![ExternalItem::Dynamic(3), ExternalItem::Literal("unreached".to_string())];
    let asked = request("left-pad");
    let outcome = resume_external(&items, "var", &asked, 0, Err("boom: no network".to_string()));
    let error = outcome.unwrap_err();
    assert_eq!(error.message, "Failed to call external function: boom: no network");
    assert!(error.message.contains("boom: no network"));
    assert_eq!(error.request, "left-pad");
    assert_eq!(error.context, "/app/src");
    assert_eq!(error.dependency_type, "esm");
}

#[test]
fn failed_callback_leaves_other_requests_alone() {
    let items = vec![mapping(vec![("react", text("React"))]), ExternalItem::Dynamic(3)];
    let failing = |_: u32, ctx: &ExternalItemFnCtx| -> Result<ExternalItemFnResult, String> {
        Err(format!("cannot decide {}", ctx.request))
    };
    let (failed, _) = resolve_with(&items, "var", &request("vue"), &failing);
    let (resolved, asked) = resolve_with(&items, "var", &request("react"), &failing);
    assert_eq!(
        failed.unwrap_err().message,
        "Failed to call external function: cannot decide vue"
    );
    assert_eq!(resolved, Ok(external("var", text("React"))));
    assert!(asked.is_empty());
}

#[test]
fn find_entry_returns_the_first_entry_of_the_key() {
    let entries = vec![
        ("a".to_string(), text("1")),
        ("b".to_string(), text("2")),
        ("a".to_string(), text("3")),
    ];
    assert_eq!(find_entry(&entries, &"a".to_string()), Some(&text("1")));
    assert_eq!(find_entry(&entries, &"b".to_string()), Some(&text("2")));
    assert_eq!(find_entry(&entries, &"c".to_string()), None);
}

#[test]
fn copies_equal_what_was_copied() {
    let list = vec!["a".to_string(), "".to_string(), "c".to_string()];
    let table = vec![("k".to_string(), list.clone()), ("l".to_string(), Vec::new())];
    for value in [
        text("specifier"),
        ExternalItemValue::Bool(true),
        ExternalItemValue::Array(list),
        ExternalItemValue::Array(Vec::new()),
        ExternalItemValue::Object(table),
        ExternalItemValue::Object(Vec::new()),
    ] {
        assert_eq!(value.duplicate(), value);
    }
}

#[test]
fn raw_values_convert_shape_by_shape() {
    assert_eq!(
        ExternalItemValue::from(RawExternalItemValue::String("s".to_string())),
        text("s")
    );
    assert_eq!(
        ExternalItemValue::from(RawExternalItemValue::Bool(true)),
        ExternalItemValue::Bool(true)
    );
    assert_eq!(
        ExternalItemValue::from(RawExternalItemValue::Array(vec!["a".to_string(), "b".to_string()])),
        ExternalItemValue::Array(vec!["a".to_string(), "b".to_string()])
    );
    assert_eq!(
        ExternalItemValue::from(RawExternalItemValue::Object(vec![(
            "amd".to_string(),
            vec!["x".to_string()]
        )])),
        ExternalItemValue::Object(vec![("amd".to_string(), vec!["x".to_string()])])
    );
}

#[test]
fn raw_callback_results_convert_field_by_field() {
    let raw = RawExternalItemFnResult {
        external_type: Some("module".to_string()),
        result: Some(RawExternalItemValue::Bool(false)),
    };
    assert_eq!(
        ExternalItemFnResult::from(raw),
        external("module", ExternalItemValue::Bool(false))
    );
    let empty = RawExternalItemFnResult { external_type: None, result: None };
    assert_eq!(ExternalItemFnResult::from(empty), not_external());
}

#[test]
fn requests_convert_field_by_field() {
    let raw = RawExternalItemFnCtx::from(ExternalItemFnCtx {
        request: "r".to_string(),
        context: "c".to_string(),
        dependency_type: "d".to_string(),
    });
    assert_eq!(raw.request, "r");
    assert_eq!(raw.context, "c");
    assert_eq!(raw.dependency_type, "d");
}

#[test]
fn raw_items_convert_by_shape() {
    assert_eq!(
        ExternalItem::try_from(RawExternalItem::String("react".to_string())),
        Ok(ExternalItem::Literal("react".to_string()))
    );
    assert_eq!(
        ExternalItem::try_from(RawExternalItem::RegExp {
            source: "^@scope/".to_string(),
            flags: "i".to_string()
        }),
        Ok(pattern("^@scope/", "i"))
    );
    assert_eq!(ExternalItem::try_from(RawExternalItem::Function(9)), Ok(ExternalItem::Dynamic(9)));
    let raw = RawExternalItem::Object(vec![
        ("b".to_string(), RawExternalItemValue::String("B".to_string())),
        ("a".to_string(), RawExternalItemValue::Bool(true)),
        ("c".to_string(), RawExternalItemValue::Array(vec!["x".to_string()])),
    ]);
    assert_eq!(
        ExternalItem::try_from(raw),
        Ok(mapping(vec![
            ("b", text("B")),
            ("a", ExternalItemValue::Bool(true)),
            ("c", ExternalItemValue::Array(vec!["x".to_string()])),
        ]))
    );
    assert_eq!(ExternalItem::try_from(RawExternalItem::Object(Vec::new())), Ok(mapping(Vec::new())));
}

#[test]
fn invalid_pattern_is_refused() {
    let refused = ExternalItem::try_from(RawExternalItem::RegExp {
        source: "(unclosed".to_string(),
        flags: "".to_string(),
    });
    assert_eq!(
        refused,
        Err(ExternalItemError::InvalidPattern {
            source: "(unclosed".to_string(),
            flags: "".to_string()
        })
    );
}

#[test]
fn repeated_key_is_refused() {
    let raw = RawExternalItem::Object(vec![
        ("a".to_string(), RawExternalItemValue::Bool(true)),
        ("b".to_string(), RawExternalItemValue::Bool(true)),
        ("c".to_string(), RawExternalItemValue::Bool(true)),
        ("b".to_string(), RawExternalItemValue::Bool(false)),
        ("a".to_string(), RawExternalItemValue::Bool(false)),
    ]);
    assert_eq!(
        ExternalItem::try_from(raw),
        Err(ExternalItemError::DuplicateKey("b".to_string()))
    );
}

#[test]
fn plugin_options_hold_what_was_configured() {
    let options = RawExternalsPluginOptions {
        externals_type: "node-commonjs".to_string(),
        externals: vec![RawExternalItem::String("fs".to_string()), RawExternalItem::Function(0)],
    };
    assert_eq!(options.externals.len(), 2);
    assert_eq!(options.externals_type, "node-commonjs");
    let presets = RawExternalsPresets {
        node: true,
        web: false,
        electron: false,
        electron_main: false,
        electron_preload: false,
        electron_renderer: false,
    };
    assert!(presets.node && !presets.web);
    let http = RawHttpExternalsRspackPluginOptions { css: true, web_async: false };
    assert!(http.css && !http.web_async);
}

#[test]
fn configured_options_resolve_a_request_end_to_end() {
    let options = RawExternalsPluginOptions {
        externals_type: "node".to_string(),
        externals: vec![RawExternalItem::Object(vec![(
            "lodash".to_string(),
            RawExternalItemValue::String("commonjs lodash".to_string()),
        )])],
    };
    let mut items = Vec::new();
    for raw in options.externals {
        items.push(ExternalItem::try_from(raw).unwrap());
    }
    let (result, _) = resolve_with(&items, &options.externals_type, &request("lodash"), &never);
    let result = result.unwrap();
    assert_eq!(result.result, Some(text("commonjs lodash")));
    assert_eq!(result.external_type, Some("node".to_string()));
}

#[test]
fn pattern_decides_only_where_the_engine_found_a_match() {
    let asked = request("react-dom");
    assert_eq!(
        pattern_decision(Some(true), "module", &asked),
        Some(external("module", text("react-dom")))
    );
    assert_eq!(pattern_decision(Some(false), "module", &asked), None);
    assert_eq!(pattern_decision(None, "module", &asked), None);
}

#[test]
fn pattern_is_taken_over_where_the_engine_could_read_it() {
    for outcome in [Some(true), Some(false)] {
        assert_eq!(
            checked_pattern("^a".to_string(), "m".to_string(), outcome),
            Ok(pattern("^a", "m"))
        );
    }
    assert_eq!(
        checked_pattern("^a".to_string(), "m".to_string(), None),
        Err(ExternalItemError::InvalidPattern { source: "^a".to_string(), flags: "m".to_string() })
    );
}
