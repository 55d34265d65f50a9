use lingua_core::cache::{
    after_far_read, after_near_read, after_produce, delete_writes, marker, not_found_writes, set_writes,
    CacheError, FarRead, FetchNext, Produced, TierWrite,
};
use lingua_core::error::ApiError;
use lingua_core::handler::user_lookup_error;
use lingua_core::lesson::{select_lesson, Language, LessonQuery, LessonRow, Level, UserLessonRow};
use lingua_core::llm::LanguageLearningRequest;
use lingua_core::model::{User, UserRecord};
use lingua_core::response::{ApiData, ApiResponse};
use lingua_core::sync_user::{needs_update, sync_decision, SyncAction};
use std::collections::HashMap;

/// Performs tier writes on in-memory maps, as the server does on its tiers.
fn apply(near: &mut HashMap<String, String>, far: &mut HashMap<String, String>, key: &str, ws: Vec<TierWrite>) {
    for w in ws {
        match w {
            TierWrite::Near(s) => {
                near.insert(key.to_string(), s);
            }
            TierWrite::Far(s) => {
                far.insert(key.to_string(), s);
            }
            TierWrite::InvalidateNear => {
                near.remove(key);
            }
            TierWrite::DeleteFar => {
                far.remove(key);
            }
        }
    }
}

/// A read-through over in-memory tiers; counts producer runs.
fn read_through(
    near: &mut HashMap<String, String>,
    far: &mut HashMap<String, String>,
    key: &str,
    source: Option<&str>,
    runs: &mut u32,
) -> Result<String, &'static str> {
    let cached = near.get(key).cloned();
    let step = after_near_read(cached, true);
    apply(near, far, key, step.writes);
    let step = match step.next {
        FetchNext::Return(s) => return Ok(s),
        FetchNext::NotFound => return Err("not found"),
        FetchNext::ReadFar => after_far_read(FarRead::Read(far.get(key).cloned(), true)),
        _ => panic!("unexpected"),
    };
    apply(near, far, key, step.writes);
    let step = match step.next {
        FetchNext::Return(s) => return Ok(s),
        FetchNext::NotFound => return Err("not found"),
        FetchNext::Produce => {
            *runs += 1;
            match source {
                Some(v) => after_produce(Produced::Present(Some(v.to_string()))),
                None => after_produce(Produced::Absent),
            }
        }
        _ => panic!("unexpected"),
    };
    apply(near, far, key, step.writes);
    match step.next {
        FetchNext::ReturnProduced => Ok(source.unwrap().to_string()),
        FetchNext::NotFound => Err("not found"),
        _ => panic!("unexpected"),
    }
}

#[test]
fn cold_read_fills_both_tiers_then_near_hit() {
    let (mut near, mut far) = (HashMap::new(), HashMap::new());
    let mut runs = 0;
    let body = "{\"id\":7,\"name\":\"Ada\"}";
    assert_eq!(read_through(&mut near, &mut far, "user:7", Some(body), &mut runs), Ok(body.to_string()));
    assert_eq!(runs, 1);
    assert_eq!(near.get("user:7").map(|s| s.as_str()), Some(body));
    assert_eq!(far.get("user:7").map(|s| s.as_str()), Some(body));
    assert_eq!(read_through(&mut near, &mut far, "user:7", Some(body), &mut runs), Ok(body.to_string()));
    assert_eq!(runs, 1);
}

#[test]
fn absent_entity_is_cached_negatively() {
    let (mut near, mut far) = (HashMap::new(), HashMap::new());
    let mut runs = 0;
    assert_eq!(read_through(&mut near, &mut far, "user:9", None, &mut runs), Err("not found"));
    assert_eq!(read_through(&mut near, &mut far, "user:9", None, &mut runs), Err("not found"));
    assert_eq!(runs, 1);
    near.clear();
    assert_eq!(read_through(&mut near, &mut far, "user:9", None, &mut runs), Err("not found"));
    assert_eq!(runs, 1);
    assert_eq!(near.get("user:9"), Some(&"__not_found__".to_string()));
}

#[test]
fn set_then_read_skips_the_producer() {
    let (mut near, mut far) = (HashMap::new(), HashMap::new());
    let mut runs = 0;
    apply(&mut near, &mut far, "k", set_writes("\"v\"".to_string(), None));
    assert_eq!(read_through(&mut near, &mut far, "k", Some("\"other\""), &mut runs), Ok("\"v\"".to_string()));
    assert_eq!(runs, 0);
    assert!(set_writes("\"v\"".to_string(), Some("\"v\"".to_string())).is_empty());
    assert_eq!(set_writes("\"w\"".to_string(), Some("\"v\"".to_string())).len(), 2);
}

#[test]
fn not_found_marker_then_read_skips_the_producer() {
    let (mut near, mut far) = (HashMap::new(), HashMap::new());
    let mut runs = 0;
    apply(&mut near, &mut far, "k", not_found_writes());
    assert_eq!(read_through(&mut near, &mut far, "k", Some("\"v\""), &mut runs), Err("not found"));
    assert_eq!(runs, 0);
    assert_eq!(marker(), "__not_found__");
}

#[test]
fn delete_clears_both_tiers() {
    let (mut near, mut far) = (HashMap::new(), HashMap::new());
    apply(&mut near, &mut far, "k", set_writes("1".to_string(), None));
    apply(&mut near, &mut far, "k", delete_writes());
    assert!(near.is_empty() && far.is_empty());
}

#[test]
fn unparsable_entries_are_misses_and_errors_pass_through() {
    assert!(matches!(after_near_read(Some("garbage".to_string()), false).next, FetchNext::ReadFar));
    assert!(matches!(after_far_read(FarRead::Read(Some("garbage".to_string()), false)).next, FetchNext::Produce));
    let step = after_far_read(FarRead::Unavailable("refused".to_string()));
    assert!(step.writes.is_empty());
    match step.next {
        FetchNext::Fail(CacheError::Redis(m)) => assert_eq!(m, "refused"),
        _ => panic!("expected a far-tier error"),
    }
    let step = after_produce(Produced::Failed("timeout".to_string()));
    assert!(step.writes.is_empty());
    assert!(matches!(step.next, FetchNext::Fail(CacheError::Reqwest(_))));
    let step = after_produce(Produced::Present(None));
    assert!(step.writes.is_empty());
    assert!(matches!(step.next, FetchNext::ReturnProduced));
}

#[test]
fn cache_errors_map_to_api_errors() {
    let e = CacheError::NotFound.into_api_error();
    assert_eq!(e.status_code(), 404);
    assert_eq!(e.message(), "Resource not found");
    let e = CacheError::Redis("down".to_string()).into_api_error();
    assert_eq!(e.status_code(), 500);
    assert_eq!(e.message(), "internal error");
    assert_eq!(e.upstream_detail().map(|m| m.as_str()), Some("down"));
    let (_, body) = e.to_response();
    assert!(!body.message.contains("down"));
}

#[test]
fn api_errors_have_status_and_message() {
    assert_eq!(ApiError::BadRequest.status_code(), 400);
    assert_eq!(ApiError::Unauthorized.message(), "unauthorised");
    assert_eq!(ApiError::Forbidden.status_code(), 403);
    assert_eq!(ApiError::NotFound(String::new()).message(), "not found");
    assert_eq!(ApiError::NotFound("User does not exist".to_string()).message(), "User does not exist");
    assert_eq!(ApiError::Conflict(String::new()).status_code(), 409);
    assert_eq!(ApiError::Timeout.status_code(), 504);
    assert_eq!(ApiError::Custom(418, "teapot".to_string()).status_code(), 418);
    let (status, body) = ApiError::NotFound("User does not exist".to_string()).to_response();
    assert_eq!(status, 404);
    assert_eq!(body.status, "error");
    assert_eq!(body.message, "User does not exist");
    assert_eq!(body.code, Some(404));
}

#[test]
fn envelopes() {
    let r = ApiResponse::success(5u8);
    assert_eq!(r.status, "success");
    assert_eq!(r.message, "");
    assert!(matches!(r.data, ApiData::Data(5)));
    assert_eq!(r.code, None);
    let r: ApiResponse<()> = ApiResponse::message_only("Hello");
    assert_eq!(r.message, "Hello");
    assert!(matches!(r.data, ApiData::Empty));
    let r: ApiResponse<()> = ApiResponse::error("bad", 400);
    assert_eq!(r.status, "error");
    assert_eq!(r.code, Some(400));
}

fn init_user() -> User {
    User {
        id: 1,
        first_name: "Ada".to_string(),
        last_name: "Lovelace".to_string(),
        username: "ada".to_string(),
        language_code: "en".to_string(),
        allows_write_to_pm: true,
        photo_url: String::new(),
    }
}

fn record() -> UserRecord {
    UserRecord {
        id: 1,
        first_name: "Ada".to_string(),
        last_name: "Lovelace".to_string(),
        username: "ada".to_string(),
        language_code: "en".to_string(),
        allows_write_to_pm: true,
        photo_url: String::new(),
    }
}

#[test]
fn user_sync_decisions() {
    let u = init_user();
    assert!(!needs_update(&u, &record()));
    assert!(matches!(sync_decision(Ok(record()), &u), SyncAction::Keep));
    let mut changed = record();
    changed.language_code = "de".to_string();
    assert!(needs_update(&u, &changed));
    match sync_decision(Ok(changed), &u) {
        SyncAction::Update(r) => assert_eq!(r.language_code, "en"),
        _ => panic!("expected an update"),
    }
    match sync_decision(Err(CacheError::NotFound), &u) {
        SyncAction::Create(r) => assert_eq!((r.id, r.first_name.as_str()), (1, "Ada")),
        _ => panic!("expected a create"),
    }
    assert!(matches!(sync_decision(Err(CacheError::Redis("x".to_string())), &u), SyncAction::Fail(ApiError::Redis(_))));
}

fn lesson(id: &str, studied: Language, taught_in: Language, level: Level) -> LessonRow {
    LessonRow { id: id.to_string(), studied_lang: studied, lesson_lang: taught_in, level }
}

fn query() -> LessonQuery {
    LessonQuery { level: Level::A1, source_language: Language::EN, target_language: Language::DE }
}

#[test]
fn lesson_pick_among_candidates_then_remaining() {
    let lessons = vec![
        lesson("l1", Language::DE, Language::EN, Level::A1),
        lesson("x", Language::FR, Language::EN, Level::A1),
        lesson("l2", Language::DE, Language::EN, Level::A1),
        lesson("y", Language::DE, Language::EN, Level::B1),
        lesson("l3", Language::DE, Language::EN, Level::A1),
    ];
    let mut assignments: Vec<UserLessonRow> = Vec::new();
    let first = select_lesson(&lessons, &assignments, 1, &query(), 100, 7).unwrap();
    assert!(["l1", "l2", "l3"].contains(&lessons[first].id.as_str()));
    assert_eq!(lessons[first].id, "l2");
    assignments.push(UserLessonRow {
        id: "ul1".to_string(),
        user_id: 1,
        lesson_id: lessons[first].id.clone(),
        next_available: None,
    });
    for draw in 0..10 {
        let next = select_lesson(&lessons, &assignments, 1, &query(), 100, draw).unwrap();
        assert!(["l1", "l3"].contains(&lessons[next].id.as_str()));
    }
    let other_user = select_lesson(&lessons, &assignments, 2, &query(), 100, 1).unwrap();
    assert_eq!(lessons[other_user].id, "l2");
}

#[test]
fn cooling_down_lessons_are_never_picked() {
    let lessons = vec![lesson("a", Language::DE, Language::EN, Level::A1), lesson("b", Language::DE, Language::EN, Level::A1)];
    let assignments = vec![
        UserLessonRow { id: "1".to_string(), user_id: 1, lesson_id: "a".to_string(), next_available: Some(100) },
        UserLessonRow { id: "2".to_string(), user_id: 1, lesson_id: "b".to_string(), next_available: Some(99) },
    ];
    for draw in 0..5 {
        let i = select_lesson(&lessons, &assignments, 1, &query(), 100, draw).unwrap();
        assert_eq!(lessons[i].id, "b");
    }
    let all_cooling = vec![
        UserLessonRow { id: "1".to_string(), user_id: 1, lesson_id: "a".to_string(), next_available: Some(100) },
        UserLessonRow { id: "2".to_string(), user_id: 1, lesson_id: "b".to_string(), next_available: Some(500) },
    ];
    assert_eq!(select_lesson(&lessons, &all_cooling, 1, &query(), 100, 3), None);
}

#[test]
fn single_candidate_is_always_picked() {
    let lessons = vec![lesson("only", Language::DE, Language::EN, Level::A1)];
    for draw in [0u64, 1, 2, u64::MAX] {
        assert_eq!(select_lesson(&lessons, &Vec::new(), 1, &query(), 0, draw), Some(0));
    }
    assert_eq!(select_lesson(&Vec::new(), &Vec::new(), 1, &query(), 0, 0), None);
}

#[test]
fn levels_and_languages_parse() {
    assert_eq!(Level::from_name("B2"), Ok(Level::B2));
    assert_eq!(Level::from_name("b2"), Err(()));
    assert_eq!("C1".parse::<Level>(), Ok(Level::C1));
    assert_eq!(Language::from_code("de"), Ok(Language::DE));
    assert_eq!(Language::from_code("DE"), Ok(Language::DE));
    assert_eq!(Language::from_code("Cz"), Ok(Language::CZ));
    assert_eq!(Language::from_code("xx"), Err(()));
    assert_eq!("uk".parse::<Language>(), Ok(Language::UK));
    assert_eq!(Language::JP.as_name(), "Japanese");
    assert_eq!(Language::UK.code(), "UK");
    assert_eq!(Level::A2.as_str(), "A2");
}

#[test]
fn test_request_creation() {
    let request = LanguageLearningRequest::new("A1", "en", "fr");
    assert_eq!(request.level, "A1");
    assert_eq!(request.source_language, "en");
    assert_eq!(request.target_language, "fr");
}

#[test]
fn request_for_query_uses_codes() {
    let request = LanguageLearningRequest::for_query(&query());
    assert_eq!(request.level, "A1");
    assert_eq!(request.source_language, "EN");
    assert_eq!(request.target_language, "DE");
}

#[test]
fn missing_user_is_reported_twice_with_one_query() {
    let (mut near, mut far) = (HashMap::new(), HashMap::new());
    let mut runs = 0;
    for _ in 0..2 {
        assert_eq!(read_through(&mut near, &mut far, "user:42", None, &mut runs), Err("not found"));
        let e = user_lookup_error(CacheError::NotFound);
        assert_eq!(e.status_code(), 404);
        assert_eq!(e.message(), "User does not exist");
    }
    assert_eq!(runs, 1);
    assert!(matches!(user_lookup_error(CacheError::Redis("x".to_string())), ApiError::Redis(_)));
}
