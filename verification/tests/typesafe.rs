use std::collections::BTreeMap;
use std::time::Duration;

use jev_ncr_demo::double::Double;
use jev_ncr_demo::json::{parse, read, Json};
use jev_ncr_demo::text_map::TextMap;
use jev_ncr_demo::time::whole_millis;
use jev_ncr_demo::typesafe::answer::{answer_kind, AnswerKind};
use jev_ncr_demo::typesafe::client::{
    checked_base_url, env_value, normalize_base_url, Call, Method,
};
use jev_ncr_demo::typesafe::error::{
    check_response, error_message, extract_message, is_delay, transport_error,
};
use jev_ncr_demo::typesafe::question::validate_description;
use jev_ncr_demo::typesafe::retry::{default_retry_statuses, random_draw, Delay, Step};
use jev_ncr_demo::typesafe::{
    Answer, ApiError, ApiErrorKind, ChoiceAnswer, ClientBuilder, Environment, Error, NoulAnswer,
    Question, RetryPolicy, ScoreAnswer, SystemOneRequest, SystemOneResult, TypeSafeClient, Usage,
    DEFAULT_BASE_URL, DEFAULT_MODEL, DEFAULT_TIMEOUT_SECS, ENV_API_KEY, VERSION,
};
use reqwest::header::{HeaderMap, HeaderName, HeaderValue};
use reqwest::StatusCode;
use serde_json::Value;

// ---- helpers ----------------------------------------------------------------

fn value(text: &str) -> Value {
    serde_json::from_str(text).unwrap()
}

fn json(text: &str) -> Json {
    read(value(text))
}

fn text(text: &str) -> Json {
    Json::text(text)
}

/// The `serde_json` value that says what `json` says.
fn to_value(json: &Json) -> Value {
    match json {
        Json::Null => Value::Null,
        Json::Bool(b) => Value::Bool(*b),
        Json::Number(number) => serde_json::from_str(number).unwrap(),
        Json::Text(text) => Value::String(text.clone()),
        Json::Array(items) => Value::Array(items.iter().map(to_value).collect()),
        Json::Object(fields) => Value::Object(
            fields.iter().map(|(name, value)| (name.clone(), to_value(value))).collect(),
        ),
    }
}

fn double(number: f64) -> Double {
    Double { bits: number.to_bits() }
}

fn described(options: &[(&str, &str)]) -> Vec<(String, Json)> {
    options.iter().map(|(name, description)| (name.to_string(), text(description))).collect()
}

fn env(api_key: Option<&str>, base_url: Option<&str>, default_model: Option<&str>) -> Environment {
    Environment {
        api_key: api_key.map(str::to_owned),
        base_url: base_url.map(str::to_owned),
        default_model: default_model.map(str::to_owned),
    }
}

fn no_env() -> Environment {
    env(None, None, None)
}

fn message(error: &Error) -> String {
    match error {
        Error::InvalidRequest(message) => message.clone(),
        other => panic!("expected Error::InvalidRequest, got {:?}", other),
    }
}

fn config_message(error: &Error) -> String {
    match error {
        Error::Config(message) => message.clone(),
        other => panic!("expected Error::Config, got {:?}", other),
    }
}

fn api_error_with_headers(status: u16, headers: &[(&str, &str)]) -> ApiError {
    let mut map = HeaderMap::new();
    for (name, value) in headers {
        map.insert(
            HeaderName::from_bytes(name.as_bytes()).unwrap(),
            HeaderValue::from_str(value).unwrap(),
        );
    }
    ApiError {
        status: StatusCode::from_u16(status).unwrap(),
        message: "m".to_owned(),
        body: None,
        headers: map,
        request_id: None,
    }
}

fn check(status: u16, headers: HeaderMap, bytes: &[u8]) -> Result<(), Error> {
    check_response(StatusCode::from_u16(status).unwrap(), headers, bytes)
}

/// The duration that the `Retry-After` header of a response says.
fn seconds_of(error: &ApiError) -> Option<Duration> {
    let seconds = error.retry_after_text()?.parse::<f64>().ok()?;
    if is_delay(double(seconds)) {
        Some(Duration::from_secs_f64(seconds))
    } else {
        None
    }
}

fn retry_after(error: &ApiError) -> Option<Duration> {
    error.retry_after(seconds_of(error))
}

fn length(delay: Delay) -> Duration {
    match delay {
        Delay::Requested(delay) => delay,
        Delay::Backoff(delay) => delay,
    }
}

/// The delay before a retry, jitter left out.
fn delay_for(policy: &RetryPolicy, retry: u32, error: &Error) -> Duration {
    let seconds = match error {
        Error::Api(error) => seconds_of(error),
        _ => None,
    };
    length(policy.delay_for(retry, error, seconds))
}

fn number(value: &Value) -> Double {
    double(value.as_f64().unwrap())
}

/// A result, read field by field from its JSON text.
fn system_one_result(text: &str) -> Result<SystemOneResult, String> {
    let value = value(text);
    let mut answers = TextMap::new();
    for (id, answer) in value["answers"].as_object().unwrap() {
        let read = match answer_kind(&read(answer.clone()))? {
            AnswerKind::Noul => Answer::Noul(NoulAnswer { noul: number(&answer["noul"]) }),
            AnswerKind::Choice => {
                let mut probabilities = TextMap::new();
                for (option, probability) in answer["probabilities"].as_object().unwrap() {
                    probabilities.insert(option.clone(), number(probability));
                }
                Answer::Choice(ChoiceAnswer {
                    choice: answer["choice"].as_str().unwrap().to_owned(),
                    probabilities,
                    confidence: number(&answer["confidence"]),
                })
            }
            AnswerKind::Score => {
                let mut legend = BTreeMap::new();
                for (level, description) in answer["legend"].as_object().unwrap() {
                    legend.insert(level.parse().unwrap(), read_json(description));
                }
                let mut probabilities = BTreeMap::new();
                for (level, probability) in answer["probabilities"].as_object().unwrap() {
                    probabilities.insert(level.parse().unwrap(), number(probability));
                }
                Answer::Score(ScoreAnswer {
                    score: number(&answer["score"]),
                    legend,
                    probabilities,
                    confidence: number(&answer["confidence"]),
                })
            }
        };
        answers.insert(id.clone(), read);
    }
    Ok(SystemOneResult {
        model: value["model"].as_str().unwrap().to_owned(),
        answers,
        usage: Usage {
            input_tokens: value["usage"]["input_tokens"].as_u64().unwrap(),
            output_tokens: value["usage"]["output_tokens"].as_u64().unwrap(),
        },
    })
}

fn read_json(value: &Value) -> Json {
    read(value.clone())
}

fn request() -> SystemOneRequest {
    SystemOneRequest::new(
        text("state under test"),
        vec![("q".to_owned(), Question::noul(text("yes?")).unwrap())],
    )
    .unwrap()
}

fn test_client() -> TypeSafeClient {
    TypeSafeClient::builder()
        .api_key("test-key".to_owned())
        .base_url("http://127.0.0.1:8080".to_owned())
        .build(no_env())
        .unwrap()
}

fn header<'a>(call: &'a Call, name: &str) -> Option<&'a str> {
    call.headers.get(name).map(|value| value.to_str().unwrap())
}

fn body(call: &Call) -> Value {
    to_value(call.payload.as_ref().unwrap())
}

// ---- question construction and serialization --------------------------------

#[test]
fn noul_question_serializes() {
    let question = Question::noul(text("Does this convey urgency?")).unwrap();
    assert_eq!(
        to_value(&question.into_json()),
        value(r#"{"type": "noul", "instructions": "Does this convey urgency?"}"#)
    );
}

#[test]
fn noul_criteria_is_omitted_without_descriptions() {
    let question = Question::noul(text("Is it urgent?")).unwrap();
    let value = to_value(&question.into_json());
    assert!(value.get("criteria").is_none());
}

#[test]
fn noul_criteria_descriptions_rename_to_true_and_false() {
    let question = Question::noul(text("Is it urgent?"))
        .unwrap()
        .criteria_true(text("Explicitly time-sensitive"))
        .unwrap()
        .criteria_false(text("No urgency expressed"))
        .unwrap();
    assert_eq!(
        to_value(&question.into_json()),
        value(
            r#"{
                "type": "noul",
                "instructions": "Is it urgent?",
                "criteria": {
                    "true": "Explicitly time-sensitive",
                    "false": "No urgency expressed"
                }
            }"#
        )
    );
}

#[test]
fn noul_criteria_can_be_partial() {
    let question = Question::noul(text("q")).unwrap().criteria_true(text("yes")).unwrap();
    assert_eq!(
        to_value(&question.into_json()),
        value(r#"{"type": "noul", "instructions": "q", "criteria": {"true": "yes"}}"#)
    );
}

#[test]
fn choice_question_serializes() {
    let question = Question::choice(
        text("Which team should handle this?"),
        described(&[
            ("billing", "Payments, invoicing, refunds"),
            ("technical", "Bugs, outages, integrations"),
            ("sales", "Pricing, upgrades, new accounts"),
        ]),
    )
    .unwrap();
    assert_eq!(
        to_value(&question.into_json()),
        value(
            r#"{
                "type": "choice",
                "instructions": "Which team should handle this?",
                "criteria": {
                    "billing": "Payments, invoicing, refunds",
                    "technical": "Bugs, outages, integrations",
                    "sales": "Pricing, upgrades, new accounts"
                }
            }"#
        )
    );
}

#[test]
fn choice_options_can_have_null_descriptions() {
    let question = Question::choice_with_criteria(
        text("What is the customer's tone?"),
        vec![
            ("calm".to_owned(), None),
            ("angry".to_owned(), Some(text("strong language"))),
        ],
    )
    .unwrap();
    assert_eq!(
        to_value(&question.into_json()),
        value(
            r#"{
                "type": "choice",
                "instructions": "What is the customer's tone?",
                "criteria": {"calm": null, "angry": "strong language"}
            }"#
        )
    );
}

#[test]
fn score_question_serializes() {
    let question = Question::score(
        text("How frustrated?"),
        vec![text("Calm"), text("Frustrated"), text("Very angry")],
    )
    .unwrap();
    assert_eq!(
        to_value(&question.into_json()),
        value(
            r#"{
                "type": "score",
                "instructions": "How frustrated?",
                "criteria": ["Calm", "Frustrated", "Very angry"]
            }"#
        )
    );
}

#[test]
fn structured_descriptions_pass_through() {
    let question = Question::score(
        text("How severe is the reported issue?"),
        vec![
            json(r#"{"what": "Cosmetic", "examples": ["typo in a label"]}"#),
            json(r#"{"what": "Blocking", "examples": ["data loss"]}"#),
        ],
    )
    .unwrap();
    let sent = to_value(&question.into_json());
    assert_eq!(
        sent["criteria"],
        value(
            r#"[
                {"what": "Cosmetic", "examples": ["typo in a label"]},
                {"what": "Blocking", "examples": ["data loss"]}
            ]"#
        )
    );
}

#[test]
fn rejects_invalid_questions() {
    // Instructions must be a non-empty string, object, or array.
    assert!(Question::noul(text("   ")).is_err());
    assert!(Question::noul(json("null")).is_err());
    assert!(Question::noul(json("42")).is_err());
    assert!(Question::noul(json(r#"{"question": "Is it urgent?"}"#)).is_ok());

    // Score: between 2 and 10 levels.
    assert!(Question::score(text("q"), vec![text("only-one")]).is_err());
    assert!(Question::score(text("q"), Vec::new()).is_err());
    let eleven: Vec<Json> = (0..11).map(|i: i32| text(&i.to_string())).collect();
    assert!(Question::score(text("q"), eleven).is_err());

    // Choice: at least one, at most 255, uniquely named options.
    assert!(Question::choice(text("q"), Vec::new()).is_err());
    assert!(Question::choice(text("q"), described(&[("", "described")])).is_err());
    assert!(
        Question::choice(text("q"), described(&[("a", "1"), ("a", "2")])).is_err(),
        "duplicate option names are rejected"
    );
    let many: Vec<(String, Json)> = (0..256).map(|i: i32| (i.to_string(), text("d"))).collect();
    assert!(Question::choice(text("q"), many).is_err());

    // Noul criteria setters are only valid on noul questions.
    let choice = Question::choice(text("q"), described(&[("a", "b")])).unwrap();
    assert!(choice.criteria_true(text("x")).is_err());
}

#[test]
fn invalid_questions_say_what_is_wrong() {
    let fault = |question: Result<Question, Error>| message(&question.unwrap_err());
    assert_eq!(fault(Question::noul(text(" \n"))), "instructions must not be empty");
    assert_eq!(fault(Question::noul(json("null"))), "instructions must not be null");
    assert_eq!(
        fault(Question::noul(json("42"))),
        "instructions must be a string, object, or array, got 42"
    );
    assert_eq!(
        fault(Question::noul(json("-1.5"))),
        "instructions must be a string, object, or array, got -1.5"
    );
    assert_eq!(
        fault(Question::noul(json("true"))),
        "instructions must be a string, object, or array, got true"
    );
    assert_eq!(
        fault(Question::noul(json("false"))),
        "instructions must be a string, object, or array, got false"
    );
    assert_eq!(
        fault(Question::noul(text("q")).and_then(|q| q.criteria_true(text("")))),
        "criteria description must not be empty"
    );
    assert_eq!(
        fault(Question::noul(text("q")).and_then(|q| q.criteria_false(json("null")))),
        "criteria description must not be null"
    );
    let score = || Question::score(text("q"), vec![text("a"), text("b")]).unwrap();
    assert_eq!(
        fault(score().criteria_true(text("x"))),
        "criteria_true is only valid on noul questions"
    );
    assert_eq!(
        fault(score().criteria_false(text("x"))),
        "criteria_false is only valid on noul questions"
    );
    assert_eq!(
        fault(Question::choice(text("q"), described(&[("a", "1"), (" ", "2"), ("b", "")]))),
        "option names must not be empty"
    );
    assert_eq!(
        fault(Question::choice(text("q"), described(&[("a", "1"), ("b", ""), ("", "2")]))),
        "option descriptions must not be empty"
    );
    assert_eq!(
        fault(Question::choice(text("q"), Vec::new())),
        "a choice question needs at least one option"
    );
    assert_eq!(
        fault(Question::choice(text("q"), described(&[("a", "1"), ("a", "2")]))),
        "duplicate option name in criteria"
    );
    let options = |n: i32| (0..n).map(|i| (i.to_string(), text("d"))).collect::<Vec<_>>();
    assert_eq!(
        fault(Question::choice(text("q"), options(256))),
        "a choice question accepts at most 255 options"
    );
    assert!(Question::choice(text("q"), options(255)).is_ok());
    assert_eq!(
        fault(Question::score(text("q"), vec![text("a"), text("b"), json("7")])),
        "score level 2 must be a string, object, or array, got 7"
    );
    assert_eq!(
        fault(Question::score(text("q"), vec![text("a")])),
        "a score question needs between 2 and 10 levels, got 1"
    );
    let levels = |n: usize| vec![text("l"); n];
    assert_eq!(
        fault(Question::score(text("q"), levels(11))),
        "a score question needs between 2 and 10 levels, got 11"
    );
    assert!(Question::score(text("q"), levels(2)).is_ok());
    assert!(Question::score(text("q"), levels(10)).is_ok());
}

#[test]
fn null_is_a_description_only_where_allowed() {
    assert!(validate_description(&Json::Null, true, "x").is_ok());
    assert!(validate_description(&Json::Null, false, "x").is_err());
    assert!(validate_description(&json("[]"), false, "x").is_ok());
    assert!(validate_description(&json("{}"), false, "x").is_ok());
}

#[test]
fn criteria_are_independent_and_the_last_counts() {
    let noul = || Question::noul(text("q")).unwrap();
    let one = noul().criteria_true(text("yes")).unwrap().criteria_false(text("no")).unwrap();
    let other = noul().criteria_false(text("no")).unwrap().criteria_true(text("yes")).unwrap();
    assert_eq!(one.into_json(), other.into_json());
    let again = noul().criteria_true(text("maybe")).unwrap().criteria_true(text("yes")).unwrap();
    let once = noul().criteria_true(text("yes")).unwrap();
    assert_eq!(again.into_json(), once.into_json());
}

#[test]
fn options_are_sent_in_the_order_of_their_names() {
    let names = |json: &Json| match json.get("criteria") {
        Some(Json::Object(fields)) => {
            fields.iter().map(|(name, _)| name.clone()).collect::<Vec<_>>()
        }
        other => panic!("unexpected criteria {:?}", other),
    };
    let one = Question::choice(text("q"), described(&[("b", "2"), ("é", "3"), ("B", "1")]));
    let other = Question::choice(text("q"), described(&[("é", "3"), ("B", "1"), ("b", "2")]));
    let one = one.unwrap().into_json();
    assert_eq!(names(&one), vec!["B", "b", "é"]);
    assert_eq!(one, other.unwrap().into_json());
}

#[test]
fn rejects_invalid_requests() {
    assert!(SystemOneRequest::new(text("state"), Vec::new()).is_err());
    let question = Question::noul(text("q")).unwrap();
    assert!(SystemOneRequest::new(
        text("state"),
        vec![("a".to_owned(), question.clone()), ("a".to_owned(), question.clone())]
    )
    .is_err());
    assert!(SystemOneRequest::new(text("state"), vec![("".to_owned(), question.clone())]).is_err());

    // State may be null.
    let request = SystemOneRequest::new(Json::Null, vec![("a".to_owned(), question)]).unwrap();
    assert!(request.state.is_null());
}

#[test]
fn invalid_requests_say_what_is_wrong() {
    let question = || Question::noul(text("q")).unwrap();
    let fault = |ids: &[&str]| {
        let questions = ids.iter().map(|id| (id.to_string(), question())).collect();
        message(&SystemOneRequest::new(text("s"), questions).unwrap_err())
    };
    assert_eq!(fault(&[]), "a request needs at least one question");
    assert_eq!(fault(&["a", "a"]), "duplicate question id");
    assert_eq!(fault(&["a", "a", "\t"]), "question ids must not be empty");
}

#[test]
fn requests_hold_every_question_under_its_id() {
    let questions = vec![
        ("b".to_owned(), Question::noul(text("second")).unwrap()),
        ("a".to_owned(), Question::noul(text("first")).unwrap()),
    ];
    let request = SystemOneRequest::new(text("s"), questions).unwrap();
    assert_eq!(request.questions.len(), 2);
    assert_eq!(
        to_value(&request.questions.get("a").unwrap().clone().into_json())["instructions"],
        "first"
    );
    assert!(request.questions.get("c").is_none());
    assert_eq!(request.model, None);
    let sent = request.model("jev-1.13.0".to_owned()).into_json("m".to_owned());
    match sent {
        Json::Object(fields) => {
            let names: Vec<&str> = fields.iter().map(|(name, _)| name.as_str()).collect();
            assert_eq!(names, vec!["state", "model", "questions"]);
        }
        other => panic!("unexpected body {:?}", other),
    }
}

// ---- response parsing -------------------------------------------------------

const NOUL_RESPONSE: &str = r#"{
    "model": "jev-latest",
    "answers": {"is_urgent": {"type": "noul", "noul": 0.92}},
    "usage": {"input_tokens": 312, "output_tokens": 48}
}"#;

const FULL_RESPONSE: &str = r#"{
    "model": "jev-latest",
    "answers": {
        "is_urgent": {"type": "noul", "noul": 0.92},
        "department": {
            "type": "choice",
            "choice": "technical",
            "probabilities": {"billing": 0.08, "technical": 0.85, "sales": 0.07},
            "confidence": 0.82
        },
        "frustration": {
            "type": "score",
            "score": 1.6,
            "legend": {"0": "Calm", "1": "Frustrated", "2": "Very angry"},
            "probabilities": {"0": 0.05, "1": 0.3, "2": 0.65},
            "confidence": 0.78
        }
    },
    "usage": {"input_tokens": 312, "output_tokens": 48}
}"#;

#[test]
fn parses_noul_response() {
    let result = system_one_result(NOUL_RESPONSE).unwrap();
    assert_eq!(result.model, "jev-latest");
    assert_eq!(
        result.usage,
        Usage {
            input_tokens: 312,
            output_tokens: 48
        }
    );
    assert_eq!(result.noul("is_urgent"), Some(double(0.92)));
    assert_eq!(result.choice("is_urgent"), None);
    assert!(matches!(result.answer("is_urgent"), Some(Answer::Noul(_))));
}

#[test]
fn parses_choice_response() {
    let result = system_one_result(FULL_RESPONSE).unwrap();
    let answer = result.choice("department").unwrap();
    assert_eq!(answer.choice, "technical");
    assert_eq!(answer.confidence, double(0.82));
    assert_eq!(answer.probability("billing"), Some(double(0.08)));
    assert_eq!(answer.probability("nonexistent"), None);
    assert!(matches!(result.answer("department"), Some(Answer::Choice(_))));
}

#[test]
fn parses_score_response_keyed_by_level() {
    let result = system_one_result(FULL_RESPONSE).unwrap();
    let answer = result.score("frustration").unwrap();
    assert_eq!(answer.score, double(1.6));
    assert_eq!(answer.confidence, double(0.78));
    assert_eq!(
        answer.legend,
        BTreeMap::from([(0, text("Calm")), (1, text("Frustrated")), (2, text("Very angry"))])
    );
    assert_eq!(
        answer.probabilities,
        BTreeMap::from([(0, double(0.05)), (1, double(0.3)), (2, double(0.65))])
    );
    assert!(matches!(result.answer("frustration"), Some(Answer::Score(_))));
}

#[test]
fn parses_structured_score_legend() {
    let text = r#"{
        "model": "jev-latest",
        "answers": {"q": {
            "type": "score",
            "score": 1.06,
            "confidence": 0.91,
            "legend": {
                "0": {"what": "Cosmetic", "examples": ["typo in a label"]},
                "1": {"what": "Broken", "examples": ["export fails in one browser"]}
            },
            "probabilities": {"0": 0.06, "1": 0.94}
        }},
        "usage": {"input_tokens": 379, "output_tokens": 18}
    }"#;
    let result = system_one_result(text).unwrap();
    let answer = result.score("q").unwrap();
    assert_eq!(to_value(&answer.legend[&1])["what"], "Broken");
    assert_eq!(answer.probabilities[&1], double(0.94));
}

#[test]
fn rejects_unknown_answer_type() {
    let text = r#"{
        "model": "jev-latest",
        "answers": {"q": {"type": "weird"}},
        "usage": {"input_tokens": 1, "output_tokens": 1}
    }"#;
    assert!(system_one_result(text).is_err());
}

#[test]
fn answers_say_their_type() {
    assert_eq!(answer_kind(&json(r#"{"type": "noul"}"#)), Ok(AnswerKind::Noul));
    assert_eq!(answer_kind(&json(r#"{"a": 1, "type": "choice"}"#)), Ok(AnswerKind::Choice));
    assert_eq!(answer_kind(&json(r#"{"type": "score"}"#)), Ok(AnswerKind::Score));
    assert_eq!(
        answer_kind(&json(r#"{"type": "weird"}"#)),
        Err("unknown answer type `weird`".to_owned())
    );
    for missing in ["{}", r#"{"type": 1}"#, r#"["type"]"#, "null"] {
        assert_eq!(
            answer_kind(&json(missing)),
            Err("answer is missing a string `type` field".to_owned()),
            "{missing}"
        );
    }
    let question = Question::score(text("q"), vec![text("a"), text("b")]).unwrap();
    assert_eq!(answer_kind(&question.into_json()), Ok(AnswerKind::Score));
}

#[test]
fn answers_are_found_by_id_and_type() {
    let result = system_one_result(FULL_RESPONSE).unwrap();
    assert_eq!(result.noul("department"), None);
    assert_eq!(result.noul("nobody"), None);
    assert!(result.score("department").is_none());
    assert!(result.choice("nobody").is_none());
    assert!(result.answer("nobody").is_none());
    let answer = result.answer("is_urgent").unwrap();
    assert_eq!(answer.as_noul(), Some(double(0.92)));
    assert!(answer.as_choice().is_none());
    assert!(answer.as_score().is_none());
}

// ---- retry policy -----------------------------------------------------------

fn without_jitter() -> RetryPolicy {
    RetryPolicy {
        backoff_jitter: double(0.0),
        ..RetryPolicy::default()
    }
}

#[test]
fn backoff_doubles_and_caps() {
    let policy = without_jitter();
    assert_eq!(policy.backoff(0), Duration::from_millis(500));
    assert_eq!(policy.backoff(1), Duration::from_millis(1000));
    assert_eq!(policy.backoff(2), Duration::from_millis(2000));
    assert_eq!(policy.backoff(3), Duration::from_millis(4000));
    assert_eq!(policy.backoff(4), Duration::from_millis(5000));
    assert_eq!(policy.backoff(10), Duration::from_millis(5000));
}

#[test]
fn backoff_reaches_its_bounds() {
    let policy = RetryPolicy {
        backoff_initial: Duration::from_secs(20),
        backoff_max: Duration::from_secs(5),
        ..RetryPolicy::default()
    };
    assert_eq!(policy.backoff(0), Duration::from_secs(5));
    assert_eq!(policy.backoff(1), Duration::from_secs(5));
    let equal = RetryPolicy { backoff_initial: Duration::from_secs(5), ..policy };
    assert_eq!(equal.backoff(0), Duration::from_secs(5));
    let longest = RetryPolicy {
        backoff_initial: Duration::from_secs(u64::MAX / 2 + 1),
        backoff_max: Duration::MAX,
        ..RetryPolicy::default()
    };
    assert_eq!(longest.backoff(1), Duration::new(u64::MAX, 999_000_000));
    let fraction = RetryPolicy {
        backoff_initial: Duration::from_micros(1500),
        backoff_max: Duration::from_micros(5999),
        ..RetryPolicy::default()
    };
    assert_eq!(fraction.backoff(0), Duration::from_millis(1));
    assert_eq!(fraction.backoff(1), Duration::from_millis(3));
    assert_eq!(fraction.backoff(2), Duration::from_millis(5));
    let zero = RetryPolicy {
        backoff_initial: Duration::ZERO,
        ..RetryPolicy::default()
    };
    assert_eq!(zero.backoff(3), Duration::ZERO);
}

#[test]
fn delays_are_cut_to_whole_milliseconds() {
    assert_eq!(whole_millis(Duration::from_nanos(1_999_999)), 1);
    assert_eq!(whole_millis(Duration::from_micros(999)), 0);
    assert_eq!(whole_millis(Duration::MAX), Duration::MAX.as_millis());
}

#[test]
fn delays_are_durations() {
    for (seconds, delay) in [
        (0.0, true),
        (-0.0, true),
        (1.5, true),
        (18446744073709549568.0, true),
        (18446744073709551616.0, false),
        (-5e-324, false),
        (f64::INFINITY, false),
        (f64::NAN, false),
    ] {
        assert_eq!(is_delay(double(seconds)), delay, "{seconds}");
        assert_eq!(Duration::try_from_secs_f64(seconds).is_ok(), delay, "{seconds}");
    }
}

#[test]
fn jitter_is_a_fraction() {
    let jitter = |number: f64| {
        RetryPolicy { backoff_jitter: double(number), ..RetryPolicy::default() }.jitter()
    };
    assert_eq!(RetryPolicy::default().jitter(), double(0.25));
    assert_eq!(jitter(-0.5), double(0.0));
    assert_eq!(jitter(1.5), double(1.0));
    assert_eq!(jitter(f64::INFINITY), double(1.0));
    assert_eq!(jitter(1.0), double(1.0));
    assert!(jitter(f64::NAN).nan());
}

#[test]
fn draws_lie_below_one() {
    // One step of xorshift64* from the seed 1.
    assert_eq!(random_draw(Some(0)), 2_529_537_253_518_747);
    assert_eq!(random_draw(Some(1)), 2_529_537_253_518_747);
    assert_eq!(random_draw(Some(12345)), 5_360_116_607_565_302);
    for seed in [0, 1, 2, 12345, u64::MAX] {
        assert!(random_draw(Some(seed)) < 1 << 53);
        let x = seed | 1;
        let x = x ^ (x >> 12);
        let x = x ^ (x << 25);
        let x = x ^ (x >> 27);
        assert_eq!(random_draw(Some(seed)), x.wrapping_mul(0x2545_F491_4F6C_DD1D) >> 11);
    }
    assert_eq!(random_draw(None), random_draw(Some(0x2545_F491_4F6C_DD1D)));
}

#[test]
fn parses_retry_after_headers() {
    assert_eq!(
        retry_after(&api_error_with_headers(429, &[("retry-after-ms", "120")])),
        Some(Duration::from_millis(120))
    );
    assert_eq!(
        retry_after(&api_error_with_headers(429, &[("Retry-After", "2")])),
        Some(Duration::from_secs(2))
    );
    assert_eq!(
        retry_after(&api_error_with_headers(429, &[("retry-after", "1.5")])),
        Some(Duration::from_millis(1500))
    );
    // HTTP-date Retry-After values are not parsed; fall back to backoff.
    assert_eq!(
        retry_after(&api_error_with_headers(
            429,
            &[("retry-after", "Wed, 21 Oct 2015 07:28:00 GMT")]
        )),
        None
    );
    assert_eq!(retry_after(&api_error_with_headers(429, &[])), None);
}

#[test]
fn milliseconds_count_before_seconds() {
    let both = &[("retry-after-ms", " 7\t"), ("retry-after", "2")];
    assert_eq!(
        retry_after(&api_error_with_headers(429, both)),
        Some(Duration::from_millis(7))
    );
    for unreadable in ["", "1.5", "-1", "18446744073709551616", "7ms"] {
        let headers = &[("retry-after-ms", unreadable), ("retry-after", " 2 ")];
        assert_eq!(
            retry_after(&api_error_with_headers(429, headers)),
            Some(Duration::from_secs(2)),
            "{unreadable}"
        );
    }
    assert_eq!(
        retry_after(&api_error_with_headers(429, &[("retry-after-ms", "+5")])),
        Some(Duration::from_millis(5))
    );
    for no_delay in ["-1", "inf", "NaN", "1e20", "18446744073709551616"] {
        let error = api_error_with_headers(429, &[("retry-after", no_delay)]);
        assert_eq!(retry_after(&error), None, "{no_delay}");
    }
    // A value that is not ASCII is not read.
    assert_eq!(api_error_with_headers(429, &[("retry-after", "é")]).retry_after_text(), None);
}

#[test]
fn retry_delay_prefers_retry_after_header() {
    let policy = without_jitter();
    let error = Error::Api(Box::new(api_error_with_headers(
        429,
        &[("retry-after-ms", "25")],
    )));
    assert_eq!(delay_for(&policy, 3, &error), Duration::from_millis(25));

    // Server delays beyond max_retry_after fall back to backoff.
    let long = Error::Api(Box::new(api_error_with_headers(
        429,
        &[("retry-after", "3600")],
    )));
    assert_eq!(delay_for(&policy, 0, &long), Duration::from_millis(500));

    // Non-API errors fall back to backoff.
    assert_eq!(
        delay_for(&policy, 0, &Error::InvalidRequest("x".to_owned())),
        Duration::from_millis(500)
    );
}

#[test]
fn requested_delays_can_be_ignored() {
    let error =
        Error::Api(Box::new(api_error_with_headers(429, &[("retry-after-ms", "25")])));
    let policy = RetryPolicy { respect_retry_after: false, ..RetryPolicy::default() };
    assert!(matches!(policy.delay_for(0, &error, None), Delay::Backoff(_)));
    let policy = RetryPolicy {
        max_retry_after: Duration::from_millis(25),
        ..RetryPolicy::default()
    };
    assert!(matches!(policy.delay_for(0, &error, None), Delay::Requested(_)));
    let policy = RetryPolicy {
        max_retry_after: Duration::from_millis(24),
        ..RetryPolicy::default()
    };
    assert!(matches!(policy.delay_for(0, &error, None), Delay::Backoff(_)));
}

#[test]
fn status_retryability() {
    let policy = RetryPolicy::default();
    for status in [408u16, 429, 500, 503, 529, 599] {
        assert!(policy.status_is_retryable(status), "{status} should retry");
    }
    for status in [400u16, 401, 403, 404, 422] {
        assert!(
            !policy.status_is_retryable(status),
            "{status} should not retry"
        );
    }
}

#[test]
fn default_statuses_are_listed() {
    let mut expected = vec![408, 429];
    expected.extend(500..=599);
    assert_eq!(default_retry_statuses(), expected);
}

#[test]
fn failures_are_retried_until_the_last_retry() {
    let policy = RetryPolicy::default();
    let unavailable = Error::Api(Box::new(api_error_with_headers(503, &[])));
    let mut retry = 0;
    let mut attempts = 1;
    while let Step::Retry { delay, retry: next } = policy.after_failure(retry, &unavailable, None) {
        assert_eq!(length(delay), policy.backoff(retry));
        assert_eq!(next, retry + 1);
        retry = next;
        attempts += 1;
    }
    assert_eq!(attempts, 3, "initial attempt + 2 retries");

    let unauthorized = Error::Api(Box::new(api_error_with_headers(401, &[])));
    for error in [
        unauthorized,
        Error::Config("c".to_owned()),
        Error::InvalidRequest("i".to_owned()),
        Error::Json("j".to_owned()),
    ] {
        assert!(!policy.should_retry(&error));
        assert!(matches!(policy.after_failure(0, &error, None), Step::GiveUp));
    }
    let none = RetryPolicy::default().with_max_retries(0);
    assert!(matches!(none.after_failure(0, &unavailable, None), Step::GiveUp));
}

#[test]
fn transport_failures_are_retried_by_choice() {
    let timeout = transport_error("slow".to_owned(), true, Duration::from_secs(1));
    let connection = transport_error("refused".to_owned(), false, Duration::from_secs(1));
    assert!(matches!(&timeout, Error::Timeout { source, .. } if source == "slow"));
    assert!(matches!(&connection, Error::Connection(source) if source == "refused"));
    let policy = RetryPolicy::default();
    assert!(policy.should_retry(&timeout));
    assert!(policy.should_retry(&connection));
    let policy = RetryPolicy {
        retry_timeout_errors: false,
        retry_connection_errors: false,
        ..RetryPolicy::default()
    };
    assert!(!policy.should_retry(&timeout));
    assert!(!policy.should_retry(&connection));
}

// ---- errors -----------------------------------------------------------------

#[test]
fn error_kinds() {
    let kind = |status: u16| api_error_with_headers(status, &[]).kind();
    assert_eq!(kind(400), ApiErrorKind::BadRequest);
    assert_eq!(kind(401), ApiErrorKind::Authentication);
    assert_eq!(kind(403), ApiErrorKind::PermissionDenied);
    assert_eq!(kind(404), ApiErrorKind::NotFound);
    assert_eq!(kind(422), ApiErrorKind::UnprocessableEntity);
    assert_eq!(kind(429), ApiErrorKind::RateLimit);
    assert_eq!(kind(500), ApiErrorKind::InternalServer);
    assert_eq!(kind(529), ApiErrorKind::Overloaded);
    assert_eq!(kind(418), ApiErrorKind::Other);
}

#[test]
fn extracts_error_messages() {
    assert_eq!(
        error_message(&Some(json(r#"{"message": "state is required"}"#)), ""),
        "state is required"
    );
    assert_eq!(
        error_message(&Some(json(r#"{"detail": [{"msg": "bad field"}]}"#)), ""),
        "bad field"
    );
    assert_eq!(
        error_message(&Some(json(r#"{"error": {"message": "nested"}}"#)), ""),
        "nested"
    );
    assert_eq!(
        error_message(&None, "  "),
        "the API returned an error with no details"
    );
    let long = "x".repeat(600);
    assert_eq!(error_message(&None, &long).chars().count(), 501); // 500 + ellipsis
}

#[test]
fn the_first_message_field_counts() {
    let found = |text: &str| extract_message(&json(text));
    assert_eq!(found(r#"{"msg": "d", "detail": "c", "error": "b"}"#), Some("b".to_owned()));
    assert_eq!(found(r#"{"message": 1, "error": "b"}"#), None);
    assert_eq!(found(r#"[1, {"other": "x"}, {"detail": "c"}, "d"]"#), Some("c".to_owned()));
    assert_eq!(found(r#""text""#), Some("text".to_owned()));
    assert_eq!(found("[]"), None);
    assert_eq!(found("true"), None);
}

#[test]
fn raw_bodies_are_shortened() {
    assert_eq!(error_message(&None, " plain \n"), "plain");
    assert_eq!(error_message(&Some(json("{}")), "{}"), "{}");
    let exact = "é".repeat(500);
    assert_eq!(error_message(&None, &exact), exact);
    let long = "é".repeat(501);
    assert_eq!(error_message(&None, &long), exact + "…");
}

#[test]
fn unsuccessful_responses_become_errors() {
    for status in [200u16, 204, 299] {
        assert!(check(status, HeaderMap::new(), b"").is_ok());
    }
    let mut headers = HeaderMap::new();
    headers.insert("x-typesafe-request-id", HeaderValue::from_static("req-123"));
    let body = br#"{"detail": [{"msg": "state is required"}]}"#;
    let error = match check(422, headers, body) {
        Err(Error::Api(error)) => error,
        other => panic!("expected Error::Api, got {:?}", other),
    };
    assert_eq!(error.status, StatusCode::UNPROCESSABLE_ENTITY);
    assert_eq!(error.kind(), ApiErrorKind::UnprocessableEntity);
    assert_eq!(error.message, "state is required");
    assert_eq!(error.request_id.as_deref(), Some("req-123"));
    assert_eq!(error.body, Some(json(r#"{"detail": [{"msg": "state is required"}]}"#)));
    assert_eq!(
        error.to_string(),
        "TypeSafe API error (422 Unprocessable Entity): state is required (request id: req-123)"
    );

    // The body is not UTF-8, and no JSON.
    let error = match check(300, HeaderMap::new(), b"bad \xff byte") {
        Err(Error::Api(error)) => error,
        other => panic!("expected Error::Api, got {:?}", other),
    };
    assert_eq!(error.body, None);
    assert_eq!(error.message, "bad \u{fffd} byte");
    assert_eq!(error.request_id, None);
    assert!(check(199, HeaderMap::new(), b"").is_err());
}

#[test]
fn errors_read_as_sentences() {
    let read = |error: &Error| (error.to_string(), error.source());
    assert_eq!(
        read(&Error::Config("c".to_owned())),
        ("invalid client configuration: c".to_owned(), None)
    );
    assert_eq!(
        read(&Error::InvalidRequest("i".to_owned())),
        ("invalid request: i".to_owned(), None)
    );
    assert_eq!(
        read(&Error::Json("j".to_owned())),
        ("failed to process a TypeSafe API payload: j".to_owned(), Some("j".to_owned()))
    );
    assert_eq!(
        read(&Error::Connection("s".to_owned())),
        ("connection to the TypeSafe API failed: s".to_owned(), Some("s".to_owned()))
    );
    let timeout = Error::Timeout {
        timeout: Duration::from_millis(1500),
        source: "s".to_owned(),
    };
    assert_eq!(
        read(&timeout),
        ("request to the TypeSafe API timed out after 1.5s".to_owned(), Some("s".to_owned()))
    );
    let error = Error::from(api_error_with_headers(599, &[]));
    let text = "TypeSafe API error (599 <unknown status code>): m".to_owned();
    assert_eq!(read(&error), (text.clone(), Some(text)));
}

#[test]
fn json_is_read_as_it_is() {
    let parsed = parse(br#"{"b": [1, -2.5, 1e3, "x", null, true], "a": {}}"#).unwrap();
    assert_eq!(
        to_value(&parsed),
        value(r#"{"b": [1, -2.5, 1e3, "x", null, true], "a": {}}"#)
    );
    assert_eq!(parsed.get("a"), Some(&Json::Object(Vec::new())));
    assert_eq!(parsed.get("c"), None);
    assert_eq!(parsed.clone(), parsed);
    assert!(parse(b"nope").is_none());
    assert!(parse(b"{} {}").is_none());
}

// ---- configuration ----------------------------------------------------------

#[test]
fn missing_api_key_is_a_config_error() {
    match TypeSafeClient::builder().build(no_env()) {
        Err(Error::Config(message)) => {
            assert!(
                message.contains(ENV_API_KEY),
                "message should name the env var: {message}"
            );
        }
        other => panic!("expected Error::Config, got {other:?}"),
    }
}

#[test]
fn env_configuration_is_read() {
    let client =
        TypeSafeClient::from_env(env(Some("env-key"), None, Some("jev-preview"))).unwrap();
    assert_eq!(client.default_model(), "jev-preview");
    assert!(TypeSafeClient::from_env(no_env()).is_err());
}

#[test]
fn explicit_options_count_before_the_environment() {
    let all = || env(Some("env-key"), Some("https://env.example/"), Some("env-model"));
    let client = TypeSafeClient::from_env(all()).unwrap();
    assert_eq!(client.base_url(), "https://env.example");
    assert_eq!(client.default_model(), "env-model");
    assert_eq!(
        header(&client.list_models().unwrap(), "authorization"),
        Some("Bearer env-key")
    );
    let client = TypeSafeClient::builder()
        .api_key("key".to_owned())
        .base_url("https://set.example".to_owned())
        .default_model("set-model".to_owned())
        .build(all())
        .unwrap();
    assert_eq!(client.base_url(), "https://set.example");
    assert_eq!(client.default_model(), "set-model");
    assert_eq!(header(&client.list_models().unwrap(), "authorization"), Some("Bearer key"));
}

#[test]
fn blank_environment_values_are_ignored() {
    assert_eq!(env_value(Some(" \t".to_owned())), None);
    assert_eq!(env_value(Some(" k\n".to_owned())), Some("k".to_owned()));
    assert_eq!(env_value(None), None);
    let client = TypeSafeClient::from_env(env(Some(" k "), Some(""), Some("  "))).unwrap();
    assert_eq!(client.base_url(), DEFAULT_BASE_URL);
    assert_eq!(client.default_model(), DEFAULT_MODEL);
    let error = TypeSafeClient::from_env(env(Some("  "), None, None)).unwrap_err();
    assert_eq!(
        config_message(&error),
        "missing API key: set the TYPESAFE_API_KEY environment variable or pass ClientBuilder::api_key"
    );
}

#[test]
fn keys_must_fit_a_header() {
    let build = |key: &str| ClientBuilder::new().api_key(key.to_owned()).build(no_env());
    assert!(build("test-key").is_ok());
    assert!(build("clé").is_ok());
    for key in ["a\nb", "a\u{7f}"] {
        assert_eq!(
            config_message(&build(key).unwrap_err()),
            "the API key contains characters that are not valid in an HTTP header"
        );
    }
}

#[test]
fn invalid_base_url_is_rejected() {
    let error = TypeSafeClient::builder()
        .api_key("k".to_owned())
        .base_url("not a url".to_owned())
        .build(no_env())
        .unwrap_err();
    assert!(matches!(error, Error::Config(_)));

    let error = TypeSafeClient::builder()
        .api_key("k".to_owned())
        .base_url("ftp://example.com".to_owned())
        .build(no_env())
        .unwrap_err();
    assert!(matches!(error, Error::Config(_)));
}

#[test]
fn base_urls_say_what_is_wrong() {
    assert_eq!(
        config_message(&normalize_base_url("ftp://example.com").unwrap_err()),
        "invalid base URL \"ftp://example.com\": the scheme must be http or https"
    );
    assert_eq!(
        config_message(&normalize_base_url("not a \"url\"").unwrap_err()),
        "invalid base URL \"not a \\\"url\\\"\": relative URL without a base"
    );
    assert_eq!(normalize_base_url(" HTTP://x/ ").unwrap(), "HTTP://x");
    let scheme = |text: &str| Ok(text.to_owned());
    assert_eq!(checked_base_url(" a// ", scheme("http")).unwrap(), "a");
    assert_eq!(checked_base_url("//", scheme("https")).unwrap(), "");
    assert!(checked_base_url("a", scheme("HTTP")).is_err());
    assert_eq!(
        config_message(&checked_base_url("a/", Err("why".to_owned())).unwrap_err()),
        "invalid base URL \"a/\": why"
    );
}

#[test]
fn base_url_trailing_slash_is_trimmed() {
    let client = TypeSafeClient::builder()
        .api_key("k".to_owned())
        .base_url("https://proxy.example/api/".to_owned())
        .build(no_env())
        .unwrap();
    assert_eq!(client.base_url(), "https://proxy.example/api");
    assert_eq!(client.default_model(), DEFAULT_MODEL);
    assert_eq!(client.timeout(), Duration::from_secs(DEFAULT_TIMEOUT_SECS));
}

#[test]
fn options_reach_the_client() {
    let mut headers = HeaderMap::new();
    headers.insert("x-team", HeaderValue::from_static("qa"));
    let client = TypeSafeClient::builder()
        .api_key("k".to_owned())
        .timeout(Duration::from_millis(50))
        .retry(RetryPolicy::default().with_max_retries(7))
        .default_headers(headers)
        .http_client(reqwest::Client::new())
        .build(no_env())
        .unwrap();
    assert_eq!(client.timeout(), Duration::from_millis(50));
    assert_eq!(client.retry().max_retries, 7);
    assert_eq!(client.default_headers().len(), 1);
    let copy = client.clone();
    assert_eq!(copy.base_url(), client.base_url());
    assert_eq!(copy.default_headers(), client.default_headers());
    let _: &reqwest::Client = copy.http();
    assert_eq!(format!("{:?}", copy.http()), format!("{:?}", client.http()));
}

#[test]
fn http_client_failures_are_reported() {
    let builder = || ClientBuilder::new().api_key("k".to_owned());
    let error = builder().build_with(no_env(), Err("no TLS".to_owned())).unwrap_err();
    assert_eq!(config_message(&error), "could not build the HTTP client: no TLS");
    let given = builder().http_client(reqwest::Client::new());
    assert!(given.build_with(no_env(), Err("no TLS".to_owned())).is_ok());
    assert!(builder().build_with(no_env(), Ok(reqwest::Client::new())).is_ok());
}

// ---- what is sent -----------------------------------------------------------

#[test]
fn system_one_is_prepared() {
    let client = test_client();
    let request = SystemOneRequest::new(
        text("Help! My payouts have been failing for 3 days."),
        vec![
            (
                "is_urgent".to_owned(),
                Question::noul(text("Does this convey urgency?")).unwrap(),
            ),
            (
                "department".to_owned(),
                Question::choice(
                    text("Which team should handle this?"),
                    described(&[("technical", "Bugs")]),
                )
                .unwrap(),
            ),
        ],
    )
    .unwrap();
    let call = client.system_one(request).unwrap().unwrap();
    assert_eq!(call.method, Method::Post);
    assert_eq!(call.url, "http://127.0.0.1:8080/v1/systemone");
    assert_eq!(header(&call, "authorization"), Some("Bearer test-key"));
    assert_eq!(header(&call, "user-agent"), Some(format!("typesafe-rust/{VERSION}").as_str()));
    assert_eq!(header(&call, "accept"), Some("application/json"));
    assert_eq!(header(&call, "content-type"), Some("application/json"));
    assert_eq!(call.headers.len(), 4);
    let body = body(&call);
    assert_eq!(body["state"], "Help! My payouts have been failing for 3 days.");
    assert_eq!(body["model"], "jev-latest"); // the client default
    assert_eq!(body["questions"]["is_urgent"]["type"], "noul");
    assert_eq!(body["questions"]["department"]["criteria"]["technical"], "Bugs");
}

#[test]
fn the_model_of_the_request_is_asked() {
    let call = test_client()
        .system_one(request().model("jev-1.13.0".to_owned()))
        .unwrap()
        .unwrap();
    assert_eq!(body(&call)["model"], "jev-1.13.0");
}

#[test]
fn a_null_state_is_sent() {
    let questions = vec![("q".to_owned(), Question::noul(text("q")).unwrap())];
    let request = SystemOneRequest::new(Json::Null, questions).unwrap();
    let call = test_client().system_one(request).unwrap().unwrap();
    assert_eq!(body(&call)["state"], Value::Null);
}

#[test]
fn requests_without_questions_are_not_sent() {
    let request = SystemOneRequest {
        state: text("state"),
        model: None,
        questions: TextMap::new(),
    };
    let error = test_client().system_one(request).unwrap_err();
    assert_eq!(message(&error), "a request needs at least one question");
}

#[test]
fn models_are_listed_without_a_body() {
    let call = test_client().list_models().unwrap();
    assert_eq!(call.method, Method::Get);
    assert_eq!(call.url, "http://127.0.0.1:8080/v1/models");
    assert_eq!(header(&call, "authorization"), Some("Bearer test-key"));
    assert_eq!(header(&call, "content-type"), None);
    assert!(call.payload.is_none());
}

#[test]
fn additional_headers_override_the_built_in_ones() {
    let mut headers = HeaderMap::new();
    headers.insert("user-agent", HeaderValue::from_static("mine"));
    headers.append("x-team", HeaderValue::from_static("first"));
    headers.append("x-team", HeaderValue::from_static("last"));
    let client = TypeSafeClient::builder()
        .api_key("k".to_owned())
        .default_headers(headers)
        .build(no_env())
        .unwrap();
    let call = client.list_models().unwrap();
    assert_eq!(header(&call, "user-agent"), Some("mine"));
    assert_eq!(header(&call, "authorization"), Some("Bearer k"));
    let team: Vec<&HeaderValue> = call.headers.get_all("x-team").iter().collect();
    assert_eq!(team, vec!["first", "last"]);
    assert_eq!(call.headers.get_all("user-agent").iter().count(), 1);
    assert_eq!(header(&call, "accept"), Some("application/json"));
}

#[test]
fn headers_fit_as_long_as_there_is_room() {
    let mut headers = HeaderMap::new();
    for n in 0..6550 {
        let name = HeaderName::from_bytes(format!("x-{n}").as_bytes()).unwrap();
        headers.insert(name, HeaderValue::from_static("v"));
    }
    let client = TypeSafeClient::builder()
        .api_key("k".to_owned())
        .default_headers(headers)
        .build(no_env())
        .unwrap();
    assert_eq!(client.list_models().unwrap().headers.len(), 6553);
}

#[test]
fn nothing_is_added_where_every_name_is_there() {
    let mut headers = HeaderMap::new();
    for name in ["authorization", "user-agent", "accept", "content-type"] {
        headers.insert(name, HeaderValue::from_static("mine"));
    }
    for n in 0..10_000 {
        let name = HeaderName::from_bytes(format!("x-{n}").as_bytes()).unwrap();
        headers.insert(name, HeaderValue::from_static("v"));
    }
    let client = TypeSafeClient::builder()
        .api_key("k".to_owned())
        .default_headers(headers.clone())
        .build(no_env())
        .unwrap();
    let call = client.system_one(request()).unwrap().unwrap();
    assert_eq!(call.headers, headers);
}
