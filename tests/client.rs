use sql_codegen::generator::Generator;
use sql_codegen::model::{OAICompletion, OAIResponse};
use sql_codegen::openai::{
    GenerateError, OpenAI, StatusAction, Step, ENDPOINT, MAX_TOKENS, PROMPT_PREFIX, TIMEOUT_SECS,
};
use sql_codegen::sql_formatter::SqlFormatter;

fn client() -> OpenAI {
    OpenAI::new(Some("SECRET-REDACTED".to_string())).unwrap()
}

fn response_with(texts: &[&str]) -> OAIResponse {
    OAIResponse {
        id: None,
        object: None,
        created: None,
        model: None,
        choices: texts
            .iter()
            .enumerate()
            .map(|(i, t)| OAICompletion {
                text: t.to_string(),
                index: i as u8,
                logprobs: None,
                finish_reason: "stop".to_string(),
            })
            .collect(),
    }
}

#[test]
fn find_all_users_sends_one_request_then_hits_the_cache() {
    let mut openai = client();
    let prompt = "find all users";
    let request = match openai.start_generation(prompt) {
        Ok(Step::Send(request)) => request,
        other => panic!("expected a request, got {:?}", other),
    };
    assert_eq!(request.prompt, format!("{}{}", PROMPT_PREFIX, prompt));
    assert_eq!(request.max_tokens, 1000);
    assert_eq!(OpenAI::classify_status(200), StatusAction::ReadBody);
    let result = openai.finish_generation(prompt, Ok(response_with(&["SELECT * FROM users;"])));
    assert_eq!(result, Ok("SELECT * FROM users;".to_string()));
    assert_eq!(
        openai.start_generation(prompt),
        Ok(Step::Cached("SELECT * FROM users;".to_string()))
    );
}

#[test]
fn server_rate_limit_is_reported_and_not_cached() {
    let mut openai = client();
    let prompt = "find all users";
    assert!(matches!(openai.start_generation(prompt), Ok(Step::Send(_))));
    assert_eq!(
        OpenAI::classify_status(429),
        StatusAction::Fail(GenerateError::RateLimitExceeded)
    );
    assert_eq!(openai.cache.get(prompt), None);
    assert!(matches!(openai.start_generation(prompt), Ok(Step::Send(_))));
}

#[test]
fn unparsable_body_is_a_decode_error_and_not_cached() {
    let mut openai = client();
    let prompt = "find all users";
    assert!(matches!(openai.start_generation(prompt), Ok(Step::Send(_))));
    let result = openai.finish_generation(prompt, Err("expected value at line 1".to_string()));
    assert_eq!(result, Err(GenerateError::DecodeError("expected value at line 1".to_string())));
    assert_eq!(openai.cache.get(prompt), None);
}

#[test]
fn missing_credential_is_reported() {
    assert!(matches!(OpenAI::new(None), Err(GenerateError::MissingCredential)));
    assert!(matches!(
        Generator::new(SqlFormatter, None),
        Err(GenerateError::MissingCredential)
    ));
}

#[test]
fn empty_choice_list_is_an_error_and_not_cached() {
    let mut openai = client();
    let result = openai.finish_generation("p", Ok(response_with(&[])));
    assert_eq!(result, Err(GenerateError::EmptyChoices));
    assert_eq!(openai.cache.get("p"), None);
}

#[test]
fn first_choice_is_the_answer() {
    let mut openai = client();
    let result = openai.finish_generation("p", Ok(response_with(&["first", "second"])));
    assert_eq!(result, Ok("first".to_string()));
    assert_eq!(openai.cache.get("p"), Some("first".to_string()));
}

#[test]
fn other_statuses_are_unexpected() {
    assert_eq!(
        OpenAI::classify_status(500),
        StatusAction::Fail(GenerateError::UnexpectedStatus(500))
    );
    assert_eq!(
        OpenAI::classify_status(404),
        StatusAction::Fail(GenerateError::UnexpectedStatus(404))
    );
}

#[test]
fn cache_hit_bypasses_the_rate_limiter() {
    let mut openai = client();
    openai.cache.put("cached".to_string(), "SELECT 1;".to_string());
    while openai.rate_limiter.check() {}
    assert_eq!(openai.start_generation("fresh"), Err(GenerateError::RateLimitExceeded));
    assert_eq!(openai.cache.get("fresh"), None);
    assert_eq!(openai.start_generation("cached"), Ok(Step::Cached("SELECT 1;".to_string())));
}

#[test]
fn refused_check_gives_rate_limit_error() {
    assert_eq!(OpenAI::after_rate_check("p", false), Err(GenerateError::RateLimitExceeded));
    match OpenAI::after_rate_check("p", true) {
        Ok(Step::Send(request)) => {
            assert_eq!(request.prompt, format!("{}p", PROMPT_PREFIX));
            assert_eq!(request.max_tokens, MAX_TOKENS);
        }
        other => panic!("expected a request, got {:?}", other),
    }
}

#[test]
fn authorization_is_a_bearer_token() {
    let openai = client();
    assert_eq!(openai.authorization(), "Bearer SECRET-REDACTED");
    assert_eq!(openai.api_key, "SECRET-REDACTED");
}

#[test]
fn request_constants() {
    assert_eq!(OpenAI::request_for("x").prompt, "Generate code for the given statement. x");
    assert_eq!(TIMEOUT_SECS, 10);
    assert!(ENDPOINT.starts_with("https://"));
}

#[test]
fn generator_holds_a_fresh_client() {
    let mut generator = Generator::new(SqlFormatter, Some("k".to_string())).unwrap();
    assert_eq!(generator.openai.cache.get("anything"), None);
    assert_eq!(generator.openai.rate_limiter.rate_per_second(), 1000);
    assert_eq!(
        generator.present("SELECT count(*),Column1 FROM Table1;"),
        "SELECT\n    count(*),\n    Column1\nFROM\n    Table1;"
    );
}
