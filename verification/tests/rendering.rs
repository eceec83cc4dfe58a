use axum_routing_htmx::metadata::{Responses, Security, StrArray};
use axum_routing_htmx::param_type::{LastSegment, ParamType};
use axum_routing_htmx::HtmxMethod;

#[test]
fn str_array_renders_quoted_and_bracketed() {
    let arr = StrArray(vec!["read".to_string(), "write".to_string()]);
    assert_eq!(arr.render(), "[\"read\", \"write\"]");
    assert_eq!(StrArray(vec![]).render(), "[]");
}

#[test]
fn security_renders_schemes_with_scopes() {
    let sec = Security(vec![
        (
            "token".to_string(),
            StrArray(vec!["read".to_string(), "write".to_string()]),
        ),
        ("basic".to_string(), StrArray(vec![])),
    ]);
    assert_eq!(sec.render(), "{token: [\"read\", \"write\"], basic: []}");
    assert_eq!(Security(vec![]).render(), "{}");
}

#[test]
fn responses_render_status_and_type() {
    let responses = Responses(vec![
        (
            "200".to_string(),
            ParamType { text: "String".to_string(), last_segment: None },
        ),
        (
            "404".to_string(),
            ParamType {
                text: "NotFound".to_string(),
                last_segment: Some(LastSegment {
                    name: "NotFound".to_string(),
                    args: None,
                }),
            },
        ),
    ]);
    assert_eq!(responses.render(), "{200: String, 404: NotFound}");
    assert_eq!(Responses(vec![]).render(), "{}");
}

#[test]
fn htmx_methods_name_their_attributes() {
    assert_eq!(HtmxMethod::Get.attribute_name(), "hx-get");
    assert_eq!(HtmxMethod::Post.attribute_name(), "hx-post");
    assert_eq!(HtmxMethod::Delete.attribute_name(), "hx-delete");
    assert_eq!(HtmxMethod::Patch.attribute_name(), "hx-patch");
    assert_eq!(HtmxMethod::Put.attribute_name(), "hx-put");
}
