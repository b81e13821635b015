use std::collections::BTreeSet;

use jev_ncr_demo::catalog::defect_codes;
use jev_ncr_demo::double::Double;
use jev_ncr_demo::json::Json;
use jev_ncr_demo::ncr::{
    parse_defect_codes, parse_result, question_for, suggest_defect_codes, suggest_with,
    suggest_with_codes, suggestion_request, DefectCode, Plan, AUTO_SELECT_THRESHOLD,
};
use jev_ncr_demo::text_map::TextMap;
use jev_ncr_demo::typesafe::client::Method;
use jev_ncr_demo::typesafe::{
    Answer, ChoiceAnswer, Environment, Error, NoulAnswer, SystemOneRequest, SystemOneResult,
    TypeSafeClient, Usage,
};
use serde_json::Value;

fn double(number: f64) -> Double {
    Double { bits: number.to_bits() }
}

fn no_env() -> Environment {
    Environment { api_key: None, base_url: None, default_model: None }
}

fn client() -> TypeSafeClient {
    TypeSafeClient::builder()
        .api_key("test-key".to_owned())
        .base_url("http://127.0.0.1:9".to_owned())
        .build(no_env())
        .unwrap()
}

/// A catalog, read field by field from its JSON text.
fn read_catalog(text: &str) -> Result<Vec<DefectCode>, String> {
    let value: Value = serde_json::from_str(text).map_err(|error| error.to_string())?;
    let items = value.as_array().ok_or("expected a sequence")?;
    items
        .iter()
        .map(|item| {
            let field = |name: &str| {
                item.get(name)
                    .and_then(Value::as_str)
                    .map(str::to_owned)
                    .ok_or(format!("missing field `{name}`"))
            };
            Ok(DefectCode {
                id: field("id")?,
                title: field("title")?,
                description: field("description")?,
            })
        })
        .collect()
}

fn parse_catalog(text: &str) -> Result<Vec<DefectCode>, String> {
    parse_defect_codes(read_catalog(text))
}

fn result(answers: &[(&str, f64)]) -> SystemOneResult {
    let mut map = TextMap::new();
    for (id, noul) in answers {
        map.insert(id.to_string(), Answer::Noul(NoulAnswer { noul: double(*noul) }));
    }
    SystemOneResult {
        model: "jev-latest".to_owned(),
        answers: map,
        usage: Usage { input_tokens: 1, output_tokens: 1 },
    }
}

fn text_of(json: Option<&Json>) -> &str {
    json.unwrap().as_str().unwrap()
}

// ---- defect code catalog ----------------------------------------------------

#[test]
fn defect_codes_load_from_the_catalog() {
    let codes = defect_codes();
    assert_eq!(codes.len(), 50);
    assert!(codes.iter().all(|code| {
        !code.id.trim().is_empty()
            && !code.title.trim().is_empty()
            && !code.description.trim().is_empty()
    }));
    let unique: BTreeSet<&str> = codes.iter().map(|code| code.id.as_str()).collect();
    assert_eq!(unique.len(), codes.len());
    assert!(codes.iter().any(|code| code.id == "D-002"));
}

#[test]
fn catalog_validation_rejects_bad_files() {
    let valid = r#"[{"id":"D-1","title":"t","description":"d"}]"#;
    assert!(parse_catalog(valid).is_ok());
    assert!(parse_catalog("[]").is_err(), "empty catalog");
    assert!(parse_catalog("nope").is_err(), "not JSON");
    assert!(
        parse_catalog(r#"[{"id":"D-1","title":"t"}]"#).is_err(),
        "missing description field"
    );
    assert!(
        parse_catalog(r#"[{"id":"","title":"t","description":"d"}]"#).is_err(),
        "empty id"
    );
    assert!(
        parse_catalog(&format!("{valid},{valid}")).is_err(),
        "duplicate ids"
    );
}

#[test]
fn bad_catalogs_say_what_is_wrong() {
    let fault = |text: &str| parse_catalog(text).unwrap_err();
    assert_eq!(fault("[]"), "the catalog needs at least one defect code");
    assert_eq!(
        fault(
            r#"[{"id":"a","title":"t","description":"d"},
                {"id":"b\"","title":" ","description":"d"},
                {"id":"a","title":"t","description":"d"}]"#
        ),
        "defect code \"b\\\"\" has an empty id, title, or description"
    );
    assert_eq!(
        fault(
            r#"[{"id":"a","title":"t","description":"d"},
                {"id":"a","title":"u","description":"e"},
                {"id":"","title":"t","description":"d"}]"#
        ),
        "duplicate defect code id \"a\""
    );
    assert_eq!(parse_defect_codes(Err("why".to_owned())), Err("why".to_owned()));
    assert_eq!(parse_defect_codes(Ok(defect_codes())), Ok(defect_codes()));
}

#[test]
fn the_catalog_is_in_order() {
    for (i, code) in defect_codes().iter().enumerate() {
        assert_eq!(code.id, format!("D-{:03}", i + 1));
    }
}

// ---- question building ------------------------------------------------------

#[test]
fn builds_one_noul_question_per_defect_code() {
    let codes = defect_codes();
    let questions = codes
        .iter()
        .map(|code| question_for(code).map(|question| (code.id.clone(), question)))
        .collect::<Result<Vec<_>, Error>>()
        .unwrap();
    // A duplicate id would make the request builder fail.
    let request = SystemOneRequest::new(Json::text("state under test"), questions).unwrap();
    assert_eq!(request.questions.len(), codes.len());

    for code in &codes {
        let question = request.questions.get(code.id.as_str()).unwrap().clone().into_json();
        assert_eq!(text_of(question.get("type")), "noul", "{}", code.id);
        let instructions = text_of(question.get("instructions"));
        assert!(instructions.contains(&code.id), "{instructions}");
        assert!(instructions.contains(&code.title), "{instructions}");
        let criteria = question.get("criteria").unwrap();
        assert_eq!(text_of(criteria.get("true")), code.description);
        assert!(criteria.get("false").unwrap().as_str().is_some());
    }
}

#[test]
fn questions_name_the_code() {
    let code = DefectCode {
        id: "D-1".to_owned(),
        title: "Dent".to_owned(),
        description: "A dent.".to_owned(),
    };
    let question = question_for(&code).unwrap().into_json();
    assert_eq!(
        text_of(question.get("instructions")),
        "Is the described non-conformance an instance of defect code D-1 — Dent?"
    );
    assert_eq!(
        text_of(question.get("criteria").unwrap().get("false")),
        "Description points to another defect code, is too vague or unclear to assign this defect code."
    );
    let bare = DefectCode { description: " ".to_owned(), ..code };
    match question_for(&bare) {
        Err(Error::InvalidRequest(message)) => {
            assert_eq!(message, "criteria description must not be empty")
        }
        other => panic!("expected Error::InvalidRequest, got {:?}", other),
    }
}

#[test]
fn one_request_asks_about_every_code() {
    let codes = defect_codes();
    assert!(suggestion_request(" \n", &codes).unwrap().is_none());
    let request = suggestion_request("a scratch", &codes).unwrap().unwrap();
    assert_eq!(request.state, Json::text("a scratch"));
    assert_eq!(request.model, None);
    assert_eq!(request.questions.len(), 50);
    let twice = vec![codes[0].clone(), codes[0].clone()];
    assert!(suggestion_request("a scratch", &twice).is_err());
    assert!(suggestion_request("a scratch", &Vec::new()).is_err());
    assert!(suggestion_request("", &Vec::new()).unwrap().is_none());
}

// ---- response parsing -------------------------------------------------------

#[test]
fn ranks_and_selects_suggestions() {
    // Answers for three codes; the rest of the catalog is left unanswered.
    let result = result(&[("D-002", 0.95), ("D-001", 0.8), ("D-047", 0.79)]);
    let suggestion = parse_result(&result, &defect_codes());

    assert_eq!(suggestion.defect_codes.len(), 50);

    // Sorted most probable first; ties keep catalog order.
    for pair in suggestion.defect_codes.windows(2) {
        assert!(
            pair[0].confidence.ge(&pair[1].confidence),
            "{} sorted before {}",
            pair[0].defect_code.id,
            pair[1].defect_code.id
        );
    }

    let top = &suggestion.defect_codes[0];
    assert_eq!(top.defect_code.id, "D-002");
    assert_eq!(top.confidence, double(0.95));
    assert!(top.selected);

    // 0.8 is at the threshold and is selected.
    let second = &suggestion.defect_codes[1];
    assert_eq!(second.defect_code.id, "D-001");
    assert_eq!(second.confidence, double(0.8));
    assert!(second.selected);

    let third = &suggestion.defect_codes[2];
    assert_eq!(third.defect_code.id, "D-047");
    assert_eq!(third.confidence, double(0.79));
    assert!(!third.selected);

    // Unanswered codes fall back to zero confidence; D-050 is last.
    let last = suggestion.defect_codes.last().unwrap();
    assert_eq!(last.defect_code.id, "D-050");
    assert_eq!(last.confidence, double(0.0));
    assert!(!last.selected);
}

#[test]
fn equal_confidences_keep_the_order_of_the_catalog() {
    assert_eq!(f64::from_bits(AUTO_SELECT_THRESHOLD), 0.8);
    let answers: Vec<(String, f64)> = defect_codes()
        .iter()
        .enumerate()
        .map(|(i, code)| (code.id.clone(), [0.5, 0.9, 0.1][i % 3]))
        .collect();
    let answers: Vec<(&str, f64)> =
        answers.iter().map(|(id, noul)| (id.as_str(), *noul)).collect();
    let suggestion = parse_result(&result(&answers), &defect_codes());
    let ids: Vec<&str> =
        suggestion.defect_codes.iter().map(|item| item.defect_code.id.as_str()).collect();
    let mut expected: Vec<String> = Vec::new();
    for remainder in [2, 1, 0] {
        expected.extend((1..=50).filter(|n| n % 3 == remainder).map(|n| format!("D-{n:03}")));
    }
    assert_eq!(ids, expected);
    let zeros = parse_result(&result(&[("D-001", -0.0)]), &defect_codes());
    assert_eq!(zeros.defect_codes[0].defect_code.id, "D-001");
    let selected = suggestion.defect_codes.iter().filter(|item| item.selected).count();
    assert_eq!(selected, 17);
    assert!(suggestion.defect_codes[..17].iter().all(|item| item.selected));
}

#[test]
fn other_answers_count_as_no_confidence() {
    let mut result = result(&[("D-003", 0.4)]);
    result.answers.insert(
        "D-001".to_owned(),
        Answer::Choice(ChoiceAnswer {
            choice: "x".to_owned(),
            probabilities: TextMap::new(),
            confidence: double(1.0),
        }),
    );
    let suggestion = parse_result(&result, &defect_codes());
    assert_eq!(suggestion.defect_codes[0].defect_code.id, "D-003");
    assert_eq!(suggestion.defect_codes[1].defect_code.id, "D-001");
    assert_eq!(suggestion.defect_codes[1].confidence, double(0.0));
}

#[test]
fn doubles_compare_as_numbers() {
    let numbers = [
        f64::NEG_INFINITY,
        -1.5,
        -f64::MIN_POSITIVE,
        -5e-324,
        -0.0,
        0.0,
        5e-324,
        f64::MIN_POSITIVE,
        0.79,
        0.8,
        1.0,
        1.5,
        f64::MAX,
        f64::INFINITY,
        f64::NAN,
        -f64::NAN,
    ];
    for a in numbers {
        for b in numbers {
            assert_eq!(double(a).ge(&double(b)), a >= b, "{a} >= {b}");
            assert_eq!(double(a) == double(b), a == b, "{a} == {b}");
            let zeros = a == 0.0 && b == 0.0;
            let before = a.total_cmp(&b).is_lt() && !zeros;
            assert_eq!(double(a).before(&double(b)), before, "{a} before {b}");
        }
        let clamped = f64::from_bits(double(a).clamp_to_unit().bits);
        assert_eq!(clamped.to_bits(), a.clamp(0.0, 1.0).to_bits(), "{a}");
        assert_eq!(double(a).nan(), a.is_nan(), "{a}");
    }
}

// ---- suggesting -------------------------------------------------------------

#[test]
fn blank_descriptions_need_no_request() {
    match suggest_with(&client(), "  \n\t ").unwrap() {
        Plan::Done(suggestion) => assert!(suggestion.defect_codes.is_empty()),
        other => panic!("expected an empty suggestion, got {:?}", other),
    }
}

#[test]
fn descriptions_are_asked_about_in_one_request() {
    let description =
        "During final inspection, found a scratch on the outer surface of the metal housing.";
    let call = match suggest_with(&client(), description).unwrap() {
        Plan::Ask(call) => call,
        other => panic!("expected a request, got {:?}", other),
    };
    assert_eq!(call.method, Method::Post);
    assert_eq!(call.url, "http://127.0.0.1:9/v1/systemone");
    assert_eq!(call.headers["authorization"], "Bearer test-key");
    let body = call.payload.unwrap();
    assert_eq!(text_of(body.get("state")), description);
    assert_eq!(text_of(body.get("model")), "jev-latest");
    let questions = match body.get("questions").unwrap() {
        Json::Object(fields) => fields,
        other => panic!("unexpected questions {:?}", other),
    };
    let ids: Vec<String> = questions.iter().map(|(id, _)| id.clone()).collect();
    let expected: Vec<String> = defect_codes().into_iter().map(|code| code.id).collect();
    assert_eq!(ids, expected);
}

#[test]
fn codes_of_ones_own_are_asked_about() {
    let own = parse_catalog(r#"[{"id":"X-1","title":"t","description":"d"}]"#).unwrap();
    let call = match suggest_with_codes(&client(), "a dent", &own).unwrap() {
        Plan::Ask(call) => call,
        other => panic!("expected a request, got {:?}", other),
    };
    match call.payload.unwrap().get("questions").unwrap() {
        Json::Object(fields) => {
            assert_eq!(fields.len(), 1);
            assert_eq!(fields[0].0, "X-1");
        }
        other => panic!("unexpected questions {:?}", other),
    }
    assert!(matches!(suggest_with_codes(&client(), " ", &own), Ok(Plan::Done(_))));
    assert!(matches!(
        suggest_with_codes(&client(), "a dent", &Vec::new()),
        Err(Error::InvalidRequest(_))
    ));
}

#[test]
fn suggesting_needs_a_key() {
    assert!(matches!(suggest_defect_codes(no_env(), ""), Err(Error::Config(_))));
    let env = Environment { api_key: Some("k".to_owned()), ..no_env() };
    let (client, plan) = suggest_defect_codes(env, "a dent").unwrap();
    assert_eq!(client.default_model(), "jev-latest");
    assert!(matches!(plan, Plan::Ask(_)));
}
