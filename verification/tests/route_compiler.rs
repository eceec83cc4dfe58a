use axum_routing_htmx::compilation::{CompiledRoute, HandlerArg, NumberedParameter};
use axum_routing_htmx::param_type::{GenericArg, LastSegment, ParamType};
use axum_routing_htmx::parsing::{MalformedReason, PathParam, Route, RouteError, RouteParser};

fn ty(text: &str) -> ParamType {
    ParamType { text: text.to_string(), last_segment: None }
}

fn state_ty(inner: &str) -> ParamType {
    ParamType {
        text: format!("State<{}>", inner),
        last_segment: Some(LastSegment {
            name: "State".to_string(),
            args: Some(vec![GenericArg::TypeArg(inner.to_string())]),
        }),
    }
}

fn arg(name: &str, t: ParamType) -> HandlerArg {
    HandlerArg { name: Some(name.to_string()), ty: t }
}

fn compile(
    route: &str,
    state: Option<&str>,
    args: Vec<HandlerArg>,
) -> Result<CompiledRoute, RouteError> {
    let parser = RouteParser::new(route)?;
    let route = Route {
        path_params: parser.path_params,
        query_params: parser.query_params,
        state: state.map(|s| s.to_string()),
        route_lit: route.to_string(),
    };
    CompiledRoute::from_route(route, &args)
}

#[test]
fn root_route_compiles_to_root_strings() {
    let compiled = compile("/", None, vec![]).unwrap();
    assert_eq!(compiled.to_axum_path_string(), "/");
    assert_eq!(compiled.to_format_path_string(false), "/");
    assert_eq!(compiled.to_format_path_string(true), "/");
    assert!(compiled.extracted_idents().is_empty());
}

#[test]
fn static_route_leaves_pool_untouched() {
    let args = vec![arg("a", ty("u32")), arg("b", ty("String"))];
    let compiled = compile("/foo-bar", None, args.clone()).unwrap();
    assert_eq!(compiled.to_axum_path_string(), "/foo-bar");
    assert_eq!(compiled.to_format_path_string(true), "/foo-bar");
    assert!(compiled.extracted_idents().is_empty());
    let remaining = compiled.remaining_pattypes_numbered(&args);
    assert_eq!(
        remaining,
        vec![
            NumberedParameter { index: 0, ty: ty("u32") },
            NumberedParameter { index: 1, ty: ty("String") },
        ]
    );
}

#[test]
fn unbound_path_parameter_is_reported() {
    let err = compile("/item/:id", None, vec![]).unwrap_err();
    assert_eq!(err, RouteError::UnboundPathParameter { name: "id".to_string() });
    assert_eq!(
        err.message(),
        "path parameter `id` not found in function arguments"
    );
}

#[test]
fn unbound_query_parameter_is_reported() {
    let err = compile("/a?x", None, vec![]).unwrap_err();
    assert_eq!(err, RouteError::UnboundQueryParameter { name: "x".to_string() });
    assert_eq!(
        err.message(),
        "query parameter `x` not found in function arguments"
    );
}

#[test]
fn extracted_idents_keep_path_then_query_order() {
    let args = vec![
        arg("offset", ty("Option<u32>")),
        arg("id", ty("u32")),
        arg("amount", ty("Option<u32>")),
    ];
    let compiled = compile("/item/:id?amount&offset", None, args).unwrap();
    assert_eq!(compiled.extracted_idents(), vec!["id", "amount", "offset"]);
}

#[test]
fn format_path_places_placeholders() {
    let args = vec![
        arg("id", ty("u32")),
        arg("amount", ty("Option<u32>")),
        arg("offset", ty("Option<u32>")),
    ];
    let compiled = compile("/item/:id?amount&offset", None, args).unwrap();
    assert_eq!(compiled.to_format_path_string(false), "/item/{}");
    assert_eq!(
        compiled.to_format_path_string(true),
        "/item/{}?amount={}&offset={}"
    );
}

#[test]
fn placeholder_count_matches_dynamic_segments_and_queries() {
    let args = vec![
        arg("id", ty("u32")),
        arg("rest", ty("String")),
        arg("amount", ty("Option<u32>")),
    ];
    let compiled = compile("/item/:id/*rest?amount", None, args).unwrap();
    let with_queries = compiled.to_format_path_string(true);
    assert_eq!(with_queries.matches("{}").count(), 3);
    let without_queries = compiled.to_format_path_string(false);
    assert_eq!(without_queries.matches("{}").count(), 2);
}

#[test]
fn state_is_inferred_from_the_pool() {
    let compiled = compile("/one", None, vec![arg("h", state_ty("String"))]).unwrap();
    assert_eq!(compiled.state, "String");
}

#[test]
fn explicit_state_wins_over_inference() {
    let compiled = compile("/one", Some("String"), vec![arg("h", state_ty("u32"))]).unwrap();
    assert_eq!(compiled.state, "String");
}

#[test]
fn state_defaults_to_unit() {
    let compiled = compile("/one", None, vec![arg("h", ty("u32"))]).unwrap();
    assert_eq!(compiled.state, "()");
}

#[test]
fn state_inference_takes_the_first_state_wrapper() {
    let args = vec![
        arg("a", ty("Foo<u32>")),
        arg("b", state_ty("u32")),
        arg("c", state_ty("String")),
    ];
    let compiled = compile("/one", None, args).unwrap();
    assert_eq!(compiled.state, "u32");
}

#[test]
fn state_wrapper_needs_exactly_one_type_argument() {
    let bare = ParamType {
        text: "State".to_string(),
        last_segment: Some(LastSegment { name: "State".to_string(), args: None }),
    };
    let two = ParamType {
        text: "State<u32, u64>".to_string(),
        last_segment: Some(LastSegment {
            name: "State".to_string(),
            args: Some(vec![
                GenericArg::TypeArg("u32".to_string()),
                GenericArg::TypeArg("u64".to_string()),
            ]),
        }),
    };
    let lifetime = ParamType {
        text: "State<'a>".to_string(),
        last_segment: Some(LastSegment {
            name: "State".to_string(),
            args: Some(vec![GenericArg::OtherArg]),
        }),
    };
    let compiled = compile(
        "/one",
        None,
        vec![arg("a", bare), arg("b", two), arg("c", lifetime)],
    )
    .unwrap();
    assert_eq!(compiled.state, "()");
}

#[test]
fn wildcard_must_be_last() {
    let err = compile("/*rest/x", None, vec![arg("rest", ty("String"))]).unwrap_err();
    assert_eq!(err, RouteError::InvalidWildcardPosition);
    assert_eq!(err.message(), "wildcard path param must be the last path param");
}

#[test]
fn bare_star_is_static_but_must_still_be_last() {
    let err = compile("/*/x", None, vec![]).unwrap_err();
    assert_eq!(err, RouteError::InvalidWildcardPosition);

    let compiled = compile("/x/*", None, vec![]).unwrap();
    assert_eq!(compiled.to_axum_path_string(), "/x/*");
    assert_eq!(compiled.to_format_path_string(true), "/x/*");
    assert!(compiled.extracted_idents().is_empty());
}

#[test]
fn trailing_wildcard_compiles() {
    let compiled = compile("/x/*rest", None, vec![arg("rest", ty("String"))]).unwrap();
    assert_eq!(compiled.to_axum_path_string(), "/x/*rest");
    assert_eq!(compiled.to_format_path_string(true), "/x/{}");
    assert_eq!(compiled.extracted_idents(), vec!["rest"]);
}

#[test]
fn wildcard_capture_route_strings() {
    let compiled = compile("/*capture", None, vec![arg("capture", ty("String"))]).unwrap();
    assert_eq!(compiled.to_axum_path_string(), "/*capture");
    assert_eq!(compiled.to_format_path_string(true), "/{}");
}

#[test]
fn axum_path_of_mixed_route() {
    let args = vec![
        arg("id", ty("u32")),
        arg("user_id", ty("String")),
        arg("name", ty("String")),
        arg("state", state_ty("String")),
    ];
    let compiled = compile("/hello/:id?user_id&name", None, args).unwrap();
    assert_eq!(compiled.to_axum_path_string(), "/hello/:id");
    assert_eq!(compiled.state, "String");
    assert_eq!(compiled.extracted_idents(), vec!["id", "user_id", "name"]);
}

#[test]
fn missing_leading_slash_is_malformed() {
    let err = compile("a/b", None, vec![]).unwrap_err();
    assert_eq!(
        err,
        RouteError::MalformedRoute { reason: MalformedReason::MissingLeadingSlash }
    );
    assert_eq!(err.message(), "expected path to start with '/'");
}

#[test]
fn second_query_separator_is_malformed() {
    let err = compile("/a?b?c", None, vec![arg("b", ty("u32"))]).unwrap_err();
    assert_eq!(
        err,
        RouteError::MalformedRoute { reason: MalformedReason::TooManyQuerySeparators }
    );
    assert_eq!(err.message(), "expected at most one '?'");
}

#[test]
fn empty_query_part_yields_one_empty_name() {
    let err = compile("/x?", None, vec![]).unwrap_err();
    assert_eq!(err, RouteError::UnboundQueryParameter { name: String::new() });
}

#[test]
fn duplicate_route_name_consumes_the_pool_entry() {
    let err = compile("/a/:x?x", None, vec![arg("x", ty("u32"))]).unwrap_err();
    assert_eq!(err, RouteError::UnboundQueryParameter { name: "x".to_string() });
}

#[test]
fn binding_consumes_matched_entries_only() {
    let args = vec![
        arg("before", ty("u8")),
        arg("id", ty("u32")),
        HandlerArg { name: None, ty: ty("Json<u32>") },
        arg("after", ty("u16")),
    ];
    let compiled = compile("/item/:id", None, args.clone()).unwrap();
    assert_eq!(
        compiled.path_params,
        vec![
            PathParam::Static { text: "item".to_string() },
            PathParam::Capture {
                name: "id".to_string(),
                ident: "id".to_string(),
                ty: ty("u32"),
            },
        ]
    );
    let remaining = compiled.remaining_pattypes_numbered(&args);
    assert_eq!(
        remaining,
        vec![
            NumberedParameter { index: 0, ty: ty("u8") },
            NumberedParameter { index: 2, ty: ty("Json<u32>") },
            NumberedParameter { index: 3, ty: ty("u16") },
        ]
    );
}

#[test]
fn doc_comment_text_names_path_and_state() {
    let compiled = compile("/one", Some("String"), vec![]).unwrap();
    assert_eq!(
        compiled.doc_comment_text(),
        "# Handler information\n- Path: `/one`\n- State: `String`"
    );
}
