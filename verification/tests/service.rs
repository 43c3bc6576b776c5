use code_hunt::handlers::{day_one, hello_world, zero_day_error};
use code_hunt::json::contest_response_to_json;
use code_hunt::reindeer::{day_four_contest, day_four_strength, ContestReindeer, StrengthReindeer};
use code_hunt::HttpError;

fn contest_fixture() -> Vec<ContestReindeer> {
    vec![
        ContestReindeer {
            name: "Dasher".to_string(),
            strength: 5,
            height: 80,
            antler_width: 36,
            snow_magic_power: 9001,
            favorite_food: "hay".to_string(),
            candies: 2,
        },
        ContestReindeer {
            name: "Dancer".to_string(),
            strength: 6,
            height: 65,
            antler_width: 37,
            snow_magic_power: 4004,
            favorite_food: "grass".to_string(),
            candies: 5,
        },
    ]
}

#[test]
fn test_day_four_contest() {
    let response = day_four_contest(&contest_fixture());
    assert_eq!(
        "Speeding past the finish line with a strength of 5 is Dasher",
        response.fastest
    );
    assert_eq!(
        "Dasher is standing tall with his 36 cm wide antlers",
        response.tallest
    );
    assert_eq!(
        "Dasher could blast you away with a snow magic power of 9001",
        response.magician
    );
    assert_eq!(
        "Dancer ate lots of candies, but also some grass",
        response.consumer
    );
    let expected_result = "{\"fastest\":\"Speeding past the finish line with a strength of 5 is Dasher\",\"tallest\":\"Dasher is standing tall with his 36 cm wide antlers\",\"magician\":\"Dasher could blast you away with a snow magic power of 9001\",\"consumer\":\"Dancer ate lots of candies, but also some grass\"}";
    assert_eq!(expected_result, contest_response_to_json(&response));
}

#[test]
fn test_day_four_strength() {
    let payload = vec![
        StrengthReindeer {
            name: "Dasher".to_string(),
            strength: 5,
        },
        StrengthReindeer {
            name: "Dancer".to_string(),
            strength: 6,
        },
        StrengthReindeer {
            name: "Prancer".to_string(),
            strength: 4,
        },
        StrengthReindeer {
            name: "Vixen".to_string(),
            strength: 7,
        },
    ];
    assert_eq!("22", day_four_strength(&payload));
}

#[test]
fn test_day_one() {
    assert_eq!(Ok("1000".to_string()), day_one("10"));
    assert_eq!(Ok("27".to_string()), day_one("4/5/8/10"));
    let twenty_ones = "1/1/1/1/1/1/1/1/1/1/1/1/1/1/1/1/1/1/1/1";
    assert_eq!(Ok("0".to_string()), day_one(twenty_ones));
    let twenty_one_ones = "1/1/1/1/1/1/1/1/1/1/1/1/1/1/1/1/1/1/1/1/1";
    assert_eq!(Err(HttpError::BadRequest), day_one(twenty_one_ones));
}

#[test]
fn test_hello_world() {
    assert_eq!("Hello, world!", hello_world());
}

#[test]
fn test_zero_day_error() {
    assert_eq!(Err(HttpError::InternalServerError), zero_day_error());
}

#[test]
fn day_one_is_order_invariant() {
    assert_eq!(day_one("4/5/8/10"), day_one("10/8/5/4"));
    assert_eq!(day_one("4/5/8/10"), day_one("8/10/4/5"));
}

#[test]
fn day_one_rejects_malformed_segments() {
    assert_eq!(Err(HttpError::BadRequest), day_one("abc"));
    assert_eq!(Err(HttpError::BadRequest), day_one(""));
    assert_eq!(Err(HttpError::BadRequest), day_one("1//2"));
    assert_eq!(Err(HttpError::BadRequest), day_one("-1"));
    assert_eq!(Err(HttpError::BadRequest), day_one("+"));
    assert_eq!(Err(HttpError::BadRequest), day_one("4294967296"));
    assert_eq!(Err(HttpError::BadRequest), day_one("1/2/x"));
}

#[test]
fn day_one_accepts_the_largest_number() {
    let expected = 4294967295u128.pow(3).to_string();
    assert_eq!(Ok(expected), day_one("4294967295"));
}

#[test]
fn day_one_accepts_plus_signs_and_leading_zeros() {
    assert_eq!(Ok("1000".to_string()), day_one("+10"));
    assert_eq!(Ok("1000".to_string()), day_one("0010"));
    assert_eq!(Ok("0".to_string()), day_one("0"));
}

#[test]
fn strength_sum_of_no_reindeer_is_zero() {
    assert_eq!("0", day_four_strength(&Vec::new()));
}

#[test]
fn strength_sum_handles_negative_strengths() {
    let payload = vec![
        StrengthReindeer {
            name: "Blitzen".to_string(),
            strength: -5,
        },
        StrengthReindeer {
            name: "Comet".to_string(),
            strength: 3,
        },
    ];
    assert_eq!("-2", day_four_strength(&payload));
}

fn plain_contestant(name: &str, strength: i32, antler_width: i32, magic: u64, candies: u32) -> ContestReindeer {
    ContestReindeer {
        name: name.to_string(),
        strength,
        height: 100,
        antler_width,
        snow_magic_power: magic,
        favorite_food: "carrots".to_string(),
        candies,
    }
}

#[test]
fn contest_first_record_wins_exact_ties() {
    let payload = vec![
        plain_contestant("First", 7, 40, 500, 9),
        plain_contestant("Second", 7, 40, 500, 9),
    ];
    let response = day_four_contest(&payload);
    assert_eq!(
        "Speeding past the finish line with a strength of 7 is First",
        response.fastest
    );
    assert_eq!(
        "First is standing tall with his 40 cm wide antlers",
        response.tallest
    );
    assert_eq!(
        "First could blast you away with a snow magic power of 500",
        response.magician
    );
    assert_eq!(
        "First ate lots of candies, but also some grass",
        response.consumer
    );
}

#[test]
fn contest_of_no_reindeer_keeps_the_sentinels() {
    let response = day_four_contest(&Vec::new());
    assert_eq!(
        "Speeding past the finish line with a strength of 2147483647 is ",
        response.fastest
    );
    assert_eq!(" is standing tall with his 2147483647 cm wide antlers", response.tallest);
    assert_eq!(" could blast you away with a snow magic power of 0", response.magician);
    assert_eq!(" ate lots of candies, but also some grass", response.consumer);
}

#[test]
fn contest_json_escapes_special_characters() {
    let payload = vec![plain_contestant("Da\"sher\\", 1, 1, 1, 1)];
    let response = day_four_contest(&payload);
    let json = contest_response_to_json(&response);
    assert!(json.contains("Da\\\"sher\\\\ is standing tall"));
    let control = vec![plain_contestant("Tab\there\u{1}", 1, 1, 1, 1)];
    let json = contest_response_to_json(&day_four_contest(&control));
    assert!(json.contains("Tab\\there\\u0001 is standing tall"));
}
