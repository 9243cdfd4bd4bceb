use heroes_service::handler::{handle, map_outcome, normalize_filter, GetHeroFilter};
use heroes_service::hero::Hero;
use heroes_service::repository::{DataAccessError, HeroesRepositoryTrait};

/// A scripted repository: checks that the handler hands it exactly the
/// expected filter, then returns the canned outcome.
struct ScriptedRepository {
    expected_filter: &'static str,
    outcome: ScriptedOutcome,
}

enum ScriptedOutcome {
    DefaultHeroes(usize),
    Fail(DataAccessError),
}

impl HeroesRepositoryTrait for ScriptedRepository {
    fn get_by_name(&self, name: &str) -> Result<Vec<Hero>, DataAccessError> {
        assert_eq!(name, self.expected_filter);
        match self.outcome {
            ScriptedOutcome::DefaultHeroes(n) => {
                let mut heroes = Vec::new();
                for _ in 0..n {
                    heroes.push(Hero::default());
                }
                Ok(heroes)
            }
            ScriptedOutcome::Fail(e) => Err(e),
        }
    }
}

fn filter_of(name: Option<&str>) -> GetHeroFilter {
    GetHeroFilter {
        name: name.map(|s| s.to_string()),
    }
}

#[test]
fn get_by_name_success() {
    let cases: [(Option<&str>, &'static str); 3] = [
        (Some("Wonder"), "Wonder%"),  // % is appended to the filter
        (Some("Wonder%"), "Wonder%"), // % is not appended if already present
        (None, "%"),                  // % is the default filter
    ];
    for (raw_name, expected_filter) in cases {
        let repo = ScriptedRepository {
            expected_filter,
            outcome: ScriptedOutcome::DefaultHeroes(1),
        };
        let response = handle(&repo, &filter_of(raw_name));
        assert_eq!(response.status, 200);
        let body: serde_json::Value = serde_json::from_str(&response.body).unwrap();
        assert!(matches!(body, serde_json::Value::Array { .. }));
    }
}

#[test]
fn get_by_name_failure() {
    let cases = [
        (DataAccessError::NotFound, 404),
        (DataAccessError::TechnicalError, 500),
    ];
    for (db_result, expected_status) in cases {
        let repo = ScriptedRepository {
            expected_filter: "Spider%",
            outcome: ScriptedOutcome::Fail(db_result),
        };
        let response = handle(&repo, &filter_of(Some("Spider")));
        assert_eq!(response.status, expected_status);
        assert!(response.body.is_empty());
    }
}

#[test]
fn other_error_maps_to_500() {
    let repo = ScriptedRepository {
        expected_filter: "Spider%",
        outcome: ScriptedOutcome::Fail(DataAccessError::OtherError),
    };
    let response = handle(&repo, &filter_of(Some("Spider")));
    assert_eq!(response.status, 500);
    assert!(response.body.is_empty());
}

#[test]
fn reference_lookup_end_to_end() {
    let repo = heroes_service::repository::HeroesRepository();
    let response = handle(&repo, &filter_of(Some("Wonder")));
    assert_eq!(response.status, 200);
    assert_eq!(response.body, "[{\"id\":\"1\",\"name\":\"Wonder Woman\"}]");

    let response = handle(&repo, &filter_of(None));
    assert_eq!(response.status, 200);
    assert_eq!(
        response.body,
        "[{\"id\":\"1\",\"name\":\"Wonder Woman\"},{\"id\":\"2\",\"name\":\"Deadpool\"}]"
    );

    let response = handle(&repo, &filter_of(Some("Spider")));
    assert_eq!(response.status, 404);
    assert!(response.body.is_empty());
}

#[test]
fn normalize_appends_marker() {
    let filter = normalize_filter(&filter_of(Some("Wonder")));
    assert_eq!(filter, "Wonder%");
}

#[test]
fn normalize_keeps_trailing_marker() {
    let filter = normalize_filter(&filter_of(Some("Wonder%")));
    assert_eq!(filter, "Wonder%");
}

#[test]
fn normalize_absent_name_is_marker_alone() {
    let filter = normalize_filter(&filter_of(None));
    assert_eq!(filter, "%");
}

#[test]
fn normalize_empty_name_gets_marker() {
    let filter = normalize_filter(&filter_of(Some("")));
    assert_eq!(filter, "%");
}

#[test]
fn map_outcome_not_found() {
    let response = map_outcome(Err(DataAccessError::NotFound));
    assert_eq!(response.status, 404);
    assert!(response.body.is_empty());
}

#[test]
fn map_outcome_technical_error() {
    let response = map_outcome(Err(DataAccessError::TechnicalError));
    assert_eq!(response.status, 500);
    assert!(response.body.is_empty());
}

#[test]
fn map_outcome_other_error() {
    let response = map_outcome(Err(DataAccessError::OtherError));
    assert_eq!(response.status, 500);
    assert!(response.body.is_empty());
}

#[test]
fn map_outcome_success_is_json_array() {
    let heroes = vec![Hero::new("1", "Wonder Woman")];
    let response = map_outcome(Ok(heroes));
    assert_eq!(response.status, 200);
    let body: serde_json::Value = serde_json::from_str(&response.body).unwrap();
    let entries = body.as_array().unwrap();
    assert_eq!(entries.len(), 1);
    let entry = entries[0].as_object().unwrap();
    assert_eq!(entry.len(), 2);
    assert_eq!(entry["id"], "1");
    assert_eq!(entry["name"], "Wonder Woman");
}
