use cdc::complete::common_prefix;
use cdc::correction::{
    correction_quiescence_ms, correction_timeout_ms, format_correction_prompt,
    heuristic_extract_correction,
};
use cdc::route::{parse_worker_route, route_lowered, strip_particle};

#[test]
fn test_format_correction_prompt() {
    let prompt = format_correction_prompt("워커 일에게 십을 넘겨");
    assert!(prompt.contains("[CDC_CORRECT]"));
    assert!(prompt.contains("워커 일에게 십을 넘겨"));
    assert!(prompt.contains("보정"));
}

#[test]
fn prompt_is_exact() {
    assert_eq!(
        format_correction_prompt("abc"),
        "다음 음성 명령의 오타를 보정해서 [CDC_CORRECT] 태그 안에 결과만 출력해: abc\n예시: [CDC_CORRECT]보정된 텍스트[/CDC_CORRECT]"
    );
}

#[test]
fn test_parse_worker_route_korean_number() {
    let result = parse_worker_route("워커 1에게 테스트 해");
    assert_eq!(result, Some((0, "테스트 해".to_string())));
}

#[test]
fn test_parse_worker_route_digit() {
    let result = parse_worker_route("워커 2번에 빌드 실행");
    assert_eq!(result, Some((1, "빌드 실행".to_string())));
}

#[test]
fn test_parse_worker_route_no_match() {
    let result = parse_worker_route("빌드해줘");
    assert_eq!(result, None);
}

#[test]
fn test_parse_worker_route_korean_word_number() {
    let result = parse_worker_route("워커 일에게 코드 작성해");
    assert_eq!(result, Some((0, "코드 작성해".to_string())));
}

#[test]
fn test_heuristic_extract_correction() {
    let grid = "❯ 다음 음성 명령의 보정\n워커 1에게 10을 넘겨\n❯";
    let result = heuristic_extract_correction(grid, "워커 일에게 십을 넘겨");
    assert_eq!(result, Some("워커 1에게 10을 넘겨".to_string()));
}

#[test]
fn test_heuristic_extract_no_match() {
    let grid = "❯ prompt text\n❯";
    let result = heuristic_extract_correction(grid, "워커 일에게 십을 넘겨");
    assert_eq!(result, None);
}

#[test]
fn every_address_and_particle_routes() {
    for call in ["워커 ", "워커", "worker ", "worker", "Worker ", "WORKER"] {
        for particle in ["번에게 ", "번에 ", "에게 ", "한테 ", "에다가 ", "에 "] {
            let said = format!("{}12{}run the tests", call, particle);
            assert_eq!(
                parse_worker_route(&said),
                Some((11, "run the tests".to_string())),
                "{}",
                said
            );
        }
    }
}

#[test]
fn every_number_word_routes() {
    let words = [
        ("일", 1),
        ("이", 2),
        ("삼", 3),
        ("사", 4),
        ("오", 5),
        ("육", 6),
        ("칠", 7),
        ("팔", 8),
        ("구", 9),
        ("하나", 1),
        ("둘", 2),
        ("셋", 3),
        ("넷", 4),
        ("다섯", 5),
    ];
    for (word, n) in words {
        let said = format!("워커 {}에게 빌드", word);
        assert_eq!(parse_worker_route(&said), Some((n - 1, "빌드".to_string())), "{}", said);
    }
}

#[test]
fn routes_that_name_no_worker() {
    assert_eq!(parse_worker_route("워커 0에게 빌드"), None);
    assert_eq!(parse_worker_route("워커 1에게"), None);
    assert_eq!(parse_worker_route("워커 1"), None);
    assert_eq!(parse_worker_route("워커"), None);
    assert_eq!(parse_worker_route(""), None);
    assert_eq!(parse_worker_route("워커 빌드해"), None);
    assert_eq!(parse_worker_route("워커 일"), None);
    // Larger than any index.
    assert_eq!(parse_worker_route("워커 99999999999999999999999에게 빌드"), None);
}

#[test]
fn white_space_around_a_route_goes() {
    assert_eq!(
        parse_worker_route("  worker   3   go on  "),
        Some((2, "go on".to_string()))
    );
}

#[test]
fn lower_case_only_finds_the_address() {
    // The content keeps its case.
    assert_eq!(parse_worker_route("WORKER 2에 Run ALL"), Some((1, "Run ALL".to_string())));
    assert_eq!(
        route_lowered("WORKER 2에 Run ALL", "worker 2에 run all"),
        Some((1, "Run ALL".to_string()))
    );
    assert_eq!(route_lowered("WORKER 2에 Run ALL", "WORKER 2에 Run ALL"), None);
    // The lower case of the Kelvin sign is shorter than the sign itself.
    assert_eq!(parse_worker_route("wor\u{212a}er 2에 go"), None);
}

#[test]
fn particles_are_stripped_in_order() {
    assert_eq!(strip_particle("번에게 가"), "가");
    assert_eq!(strip_particle("에게가"), "가");
    assert_eq!(strip_particle("에 가 "), "가");
    assert_eq!(strip_particle("한테 가"), "가");
    assert_eq!(strip_particle("에다가 가"), "가");
    assert_eq!(strip_particle("  가  "), "가");
    assert_eq!(strip_particle(""), "");
}

#[test]
fn guess_passes_over_what_is_no_correction() {
    let raw = "raw words";
    assert_eq!(heuristic_extract_correction("ok\nraw words\n> x\n``` \n", raw), None);
    assert_eq!(heuristic_extract_correction("[CDC_CORRECT] abc\n\n", raw), None);
    assert_eq!(
        heuristic_extract_correction("first line\nsecond line\n❯ prompt", raw),
        Some("second line".to_string())
    );
    // Two bytes are too short, one Hangul syllable is not.
    assert_eq!(heuristic_extract_correction("가\nab", raw), Some("가".to_string()));
    assert_eq!(heuristic_extract_correction("text\r\n", raw), Some("text".to_string()));
}

#[test]
fn prompt_is_not_taken_for_a_correction() {
    let raw = "테스트 해  ";
    assert_eq!(heuristic_extract_correction(&format_correction_prompt(raw), raw), None);
}

#[test]
fn settings_fall_back_to_defaults() {
    assert_eq!(correction_timeout_ms(&None), 5000);
    assert_eq!(correction_quiescence_ms(&None), 500);
    assert_eq!(correction_timeout_ms(&Some("1200".to_string())), 1200);
    assert_eq!(correction_quiescence_ms(&Some("+7".to_string())), 7);
    assert_eq!(correction_timeout_ms(&Some("".to_string())), 5000);
    assert_eq!(correction_timeout_ms(&Some("-1".to_string())), 5000);
    assert_eq!(correction_timeout_ms(&Some("12x".to_string())), 5000);
    assert_eq!(correction_timeout_ms(&Some("18446744073709551615".to_string())), u64::MAX);
    assert_eq!(correction_timeout_ms(&Some("18446744073709551616".to_string())), 5000);
}

#[test]
fn common_prefix_is_the_longest() {
    let strings = |items: &[&str]| -> Vec<String> {
        items.iter().map(|s| s.to_string()).collect()
    };
    assert_eq!(common_prefix(&strings(&[])), "");
    assert_eq!(common_prefix(&strings(&["abc"])), "abc");
    assert_eq!(common_prefix(&strings(&["~/projects/a", "~/projects/b", "~/pro"])), "~/pro");
    assert_eq!(common_prefix(&strings(&["x", "y"])), "");
    assert_eq!(common_prefix(&strings(&["가나", "가다"])), "가");
}
