use config_crap::openrouter::wire::{response_result, ResponseFailure};
use config_crap::openrouter::config::OpenRouterBaseConfig;
use config_crap::openrouter::models::{
    generation_path, model_endpoints_path, models_path, Count, Parameter,
};
use config_crap::openrouter::request::{
    is_auto, skip_content_if_empty, Content, ContentPart, FunctionDescription, ImageUrl,
    Prediction, ResponseFormat, Tool, ToolChoice,
};
use config_crap::openrouter::wire::WireError;

#[test]
fn config_builders() {
    let c = OpenRouterBaseConfig::new("key".to_string());
    assert_eq!(c.site_url, "https://openrouter.ai/");
    assert_eq!(c.api_key, "key");
    assert_eq!(c.site_title, None);
    let c = c
        .with_site_url("https://example.com/".to_string())
        .with_site_title("title".to_string())
        .with_site_referer("ref".to_string());
    assert_eq!(c.site_url, "https://example.com/");
    assert_eq!(c.site_title.as_deref(), Some("title"));
    assert_eq!(c.site_referer.as_deref(), Some("ref"));
    assert_eq!(c.api_key, "key");
}

#[test]
fn content_emptiness() {
    assert!(skip_content_if_empty(&None));
    assert!(skip_content_if_empty(&Some(Content::Plain(String::new()))));
    assert!(!skip_content_if_empty(&Some(Content::Plain("x".to_string()))));
    assert!(skip_content_if_empty(&Some(Content::Parts(vec![]))));
    let empty_image = ContentPart::ImageUrl { image_url: ImageUrl { url: String::new(), detail: Some(String::new()) } };
    let empty_file = ContentPart::File { filename: String::new(), file_data: String::new() };
    let empty_text = ContentPart::Text { text: String::new() };
    assert!(skip_content_if_empty(&Some(Content::Parts(vec![empty_image, empty_file, empty_text.clone()]))));
    let detailed = ContentPart::ImageUrl { image_url: ImageUrl { url: String::new(), detail: Some("low".to_string()) } };
    assert!(!skip_content_if_empty(&Some(Content::Parts(vec![empty_text, detailed]))));
}

#[test]
fn image_detail_auto() {
    assert!(is_auto(&None));
    assert!(is_auto(&Some("auto".to_string())));
    assert!(!is_auto(&Some("high".to_string())));
}

#[test]
fn tool_choice_keywords() {
    assert_eq!(ToolChoice::from_keyword("none"), Ok(ToolChoice::NoTool));
    assert_eq!(ToolChoice::from_keyword("auto"), Ok(ToolChoice::Auto));
    assert_eq!(ToolChoice::from_keyword("required"), Ok(ToolChoice::Required));
    assert_eq!(ToolChoice::from_keyword("always"), Err(WireError::UnknownVariant("always".to_string())));
    assert_eq!(ToolChoice::Auto.keyword(), Some("auto"));
    assert_eq!(ToolChoice::Function("f".to_string()).keyword(), None);
}

#[test]
fn tool_choice_maps() {
    let function = Some("function".to_string());
    assert_eq!(
        ToolChoice::from_fields(&function, Some("get_weather".to_string())),
        Ok(ToolChoice::Function("get_weather".to_string()))
    );
    assert_eq!(ToolChoice::from_fields(&function, None), Err(WireError::MissingField("function".to_string())));
    assert_eq!(
        ToolChoice::from_fields(&Some("other".to_string()), Some("x".to_string())),
        Err(WireError::UnexpectedType("function".to_string()))
    );
    assert_eq!(ToolChoice::from_fields(&None, None), Err(WireError::UnexpectedType("function".to_string())));
}

#[test]
fn prediction_tool_and_format_maps() {
    assert_eq!(
        Prediction::from_fields(&Some("content".to_string()), Some("c".to_string())),
        Ok(Prediction { content: "c".to_string() })
    );
    assert_eq!(Prediction::from_fields(&Some("content".to_string()), None), Err(WireError::MissingField("content".to_string())));
    assert_eq!(Prediction::from_fields(&None, Some("c".to_string())), Err(WireError::UnexpectedType("content".to_string())));
    let f = FunctionDescription { name: "f".to_string(), description: None, parameters: "{}".to_string() };
    assert_eq!(Tool::from_fields(&Some("function".to_string()), Some(f.clone())), Ok(Tool { function: f.clone() }));
    assert_eq!(Tool::from_fields(&Some("fn".to_string()), Some(f)), Err(WireError::UnexpectedType("function".to_string())));
    assert_eq!(ResponseFormat::from_type_field(&Some("json_object".to_string())), Ok(ResponseFormat::JsonObject));
    assert!(ResponseFormat::from_type_field(&None).is_err());
    assert_eq!(ResponseFormat::JsonObject.type_tag(), "json_object");
}

#[test]
fn parameter_names_round_trip() {
    for p in [Parameter::FrequencyPenalty, Parameter::LogProbs, Parameter::TopK, Parameter::WebSearchOptions] {
        let name = p.name().to_string();
        assert_eq!(Parameter::from_name(&name), p);
    }
    assert_eq!(Parameter::LogProbs.name(), "logprobs");
    assert_eq!(Parameter::from_name("new_thing"), Parameter::Unknown("new_thing".to_string()));
    assert_eq!(Parameter::Unknown("x".to_string()).name(), "x");
}

#[test]
fn listing_paths() {
    assert_eq!(models_path(&[]), "api/v1/models");
    assert_eq!(models_path(&[Parameter::Tools]), "api/v1/models?supported_parameters=tools");
    assert_eq!(
        models_path(&[Parameter::Tools, Parameter::TopP, Parameter::Unknown("z".to_string())]),
        "api/v1/models?supported_parameters=tools,top_p,z"
    );
    assert_eq!(model_endpoints_path("openai/gpt-4o"), "api/v1/models/openai/gpt-4o/endpoints");
    assert_eq!(generation_path("gen-1"), "api/v1/generation?id=gen-1");
}

#[test]
fn count_reads_its_field() {
    assert_eq!(Count { count: 316 }.count(), 316);
}

#[test]
fn request_headers_follow_the_configuration() {
    let c = OpenRouterBaseConfig::new("k".to_string());
    assert_eq!(
        c.request_headers(),
        vec![
            ("accept".to_string(), "application/json".to_string()),
            ("authorization".to_string(), "Bearer k".to_string()),
        ]
    );
    let c = c.with_site_referer("r".to_string()).with_site_title("t".to_string());
    let h = c.request_headers();
    assert_eq!(h.len(), 4);
    assert_eq!(h[2], ("x-title".to_string(), "t".to_string()));
    assert_eq!(h[3], ("http-referer".to_string(), "r".to_string()));
}

#[test]
fn response_results() {
    assert_eq!(response_result::<u8, u16, &str>(true, Ok(1), Err("x")), Ok(1));
    assert_eq!(response_result::<u8, u16, &str>(true, Err("v"), Ok(401)), Err(ResponseFailure::Api(401)));
    assert_eq!(response_result::<u8, u16, &str>(true, Err("v"), Err("e")), Err(ResponseFailure::Parse("v")));
    assert_eq!(response_result::<u8, u16, &str>(false, Ok(1), Ok(500)), Err(ResponseFailure::Api(500)));
    assert_eq!(response_result::<u8, u16, &str>(false, Ok(1), Err("e")), Err(ResponseFailure::Parse("e")));
}
