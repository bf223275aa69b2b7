use std::str::FromStr;

use stratum::{Actor, Error, GitError, MinedActor, UtcTime};

fn actor_factory() -> Actor {
    Actor::new(
        Some("test".to_string()),
        Some("test@example.com".to_string()),
        1_600_000_000,
        -60,
    )
}

#[test]
fn actor_test_name() {
    let actor = actor_factory();
    assert_eq!(actor.name(), Some("test"));
}

#[test]
fn actor_test_email() {
    let actor = actor_factory();
    assert_eq!(actor.email(), Some("test@example.com"));
}

#[test]
fn test_time() {
    let actor = actor_factory();
    assert_eq!(actor.timestamp().unwrap().timestamp(), 1_600_000_000);
}

#[test]
fn test_offset() {
    let actor = actor_factory();
    assert_eq!(actor.offset(), -60);
}

#[test]
fn test_actor() {
    let actor = Actor::new(
        Some("test".to_string()),
        Some("test@example.com".to_string()),
        1_600_000_000,
        0,
    );

    assert_eq!(actor.name(), Some("test"));
    assert_eq!(actor.email(), Some("test@example.com"));
    assert_eq!(actor.timestamp().unwrap().timestamp(), 1_600_000_000);
}

#[test]
fn test_timestamp() {
    let now = chrono::Utc::now().timestamp();
    let actor = Actor::new(Some("john".to_string()), None, now, 0);

    assert_eq!(
        MinedActor::timestamp(&actor),
        UtcTime::from_timestamp_secs(now)
    );
    assert_eq!(MinedActor::timestamp(&actor).unwrap().timestamp(), now);
}

#[test]
fn mined_actor_name_and_email() {
    let actor = Actor::new(
        Some("john".to_string()),
        Some("john@example.com".to_string()),
        0,
        0,
    );

    assert_eq!(MinedActor::name(&actor), Some("john".to_string()));
    assert_eq!(
        MinedActor::email(&actor),
        Some("john@example.com".to_string())
    );
}

#[test]
fn test_from_str() {
    let actor = Actor::from_str("test <test@example.com>").unwrap();

    assert_eq!(actor.name(), Some("test"));
    assert_eq!(actor.email(), Some("test@example.com"));
    assert_eq!(actor.timestamp().unwrap().timestamp(), 0);
    assert_eq!(actor.offset(), 0);
}

#[test]
fn test_malformed_from_str() {
    let result = Actor::from_str("some nonsense <>");

    assert!(result.is_err())
}

#[test]
fn test_from_str_no_brackets() {
    let result = Actor::from_str("anything with no angled brackets");

    assert!(result.is_err());
}

#[test]
fn test_from_str_missing_close_bracket() {
    let result = Actor::from_str("name <email");

    assert!(result.is_err());
}

#[test]
fn test_from_str_missing_open_bracket() {
    let result = Actor::from_str("name email>");

    assert!(result.is_err());
}

#[test]
fn test_from_str_reversed_brackets() {
    let result = Actor::from_str("name > <email");

    assert!(result.is_err());
}

#[test]
fn test_extended_from_str() {
    let actor = Actor::from_str("test <test@example.com> nonsense").unwrap();

    assert_eq!(actor.name(), Some("test"));
    assert_eq!(actor.email(), Some("test@example.com"));
}

#[test]
fn test_surname() {
    let actor = Actor::from_str("test surname <email>").unwrap();

    assert_eq!(actor.name(), Some("test surname"));
}

#[test]
fn from_str_through_the_trait() {
    let actor: Actor = "Jane Doe <jane@example.com>".parse().unwrap();

    assert_eq!(actor.name(), Some("Jane Doe"));
    assert_eq!(actor.email(), Some("jane@example.com"));
}

#[test]
fn malformed_actor_error_value() {
    let expected = Error::Git(GitError {
        code: -1,
        class: 0,
        message: "malformed actor: expected 'name <email>'".to_string(),
    });

    assert_eq!(Actor::from_str("no brackets").unwrap_err(), expected);
    assert_eq!(Actor::from_str("a > <b").unwrap_err(), expected);
}

#[test]
fn from_str_trims_crud_from_both_parts() {
    // git trims spaces and punctuation such as quotes and commas from both ends
    let actor = Actor::from_str("  \"Jane\", <  jane@example.com ;>").unwrap();

    assert_eq!(actor.name(), Some("Jane"));
    assert_eq!(actor.email(), Some("jane@example.com"));
}

#[test]
fn from_str_refuses_what_git_refuses() {
    // a second '<' ends up inside the email, which git refuses
    assert!(matches!(Actor::from_str("a <<b>"), Err(Error::Git(_))));
    // a name that is empty once trimmed
    assert!(matches!(Actor::from_str(" , <b>"), Err(Error::Git(_))));
    // a NUL byte cannot be handed to git
    assert!(matches!(Actor::from_str("a\0 <b>"), Err(Error::Git(_))));
}

#[test]
fn from_str_round_trip() {
    let actor = Actor::from_str("Ada Lovelace <ada@example.org>").unwrap();
    let rendered = format!(
        "{} <{}>",
        actor.name().unwrap(),
        actor.email().unwrap()
    );
    let again = Actor::from_str(&rendered).unwrap();

    assert_eq!(again.name(), actor.name());
    assert_eq!(again.email(), actor.email());
    assert_eq!(again.timestamp(), actor.timestamp());
}

#[test]
fn timestamp_out_of_range() {
    let actor = Actor::new(None, None, i64::MAX, 0);

    assert_eq!(actor.timestamp(), None);
    assert_eq!(actor.name(), None);
    assert_eq!(actor.email(), None);
}

#[test]
fn timestamp_range_is_that_of_chrono() {
    let min = chrono::DateTime::<chrono::Utc>::MIN_UTC.timestamp();
    let max = chrono::DateTime::<chrono::Utc>::MAX_UTC.timestamp();
    assert_eq!(min, -8_334_601_228_800);
    assert_eq!(max, 8_210_266_876_799);

    for secs in [min, max, 0, -1, 1_600_000_000] {
        let t = UtcTime::from_timestamp_secs(secs).unwrap();
        assert_eq!(t.timestamp(), secs);
    }
    assert_eq!(UtcTime::from_timestamp_secs(min - 1), None);
    assert_eq!(UtcTime::from_timestamp_secs(max + 1), None);
    assert_eq!(UtcTime::from_timestamp_secs(i64::MIN), None);
}

#[test]
fn parsed_actor_is_dated_at_the_epoch() {
    let actor = Actor::from_str("test <test@example.com>").unwrap();

    assert_eq!(actor.seconds(), 0);
    assert_eq!(actor.timestamp().map(|t| t.timestamp()), Some(0));
}

fn git_err(class: i32, message: &str) -> Error {
    Error::Git(GitError {
        code: -1,
        class,
        message: message.to_string(),
    })
}

#[test]
fn git_refusals_carry_git_errors() {
    assert_eq!(
        Actor::from_str("a <<b>").unwrap_err(),
        git_err(
            3,
            "failed to parse signature - Neither `name` nor `email` should contain angle brackets chars."
        )
    );
    assert_eq!(
        Actor::from_str(" , <b>").unwrap_err(),
        git_err(
            3,
            "failed to parse signature - Signature cannot have an empty name or email"
        )
    );
    assert_eq!(
        Actor::from_str("a\0 <b>").unwrap_err(),
        git_err(
            0,
            "data contained a nul byte that could not be represented as a string"
        )
    );
}
