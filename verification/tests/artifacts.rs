use serde_json::Value;
use transducer_agent::artifacts::{
    can_be_logged, commit_artifact, custom_artifact, has_short_form, log_artifact, pull_request_artifact, short_hash_of,
    test_results_artifact, Artifact, ArtifactCollector, ArtifactData, ArtifactType, LogArtifact,
    TestResultsArtifact,
};
use transducer_agent::json::{encode_value, JsonMember, JsonValue};

fn parsed(collector: &ArtifactCollector) -> Vec<Value> {
    serde_json::from_slice(&collector.to_json_bytes()).unwrap()
}

#[test]
fn test_commit_artifact() {
    let mut collector = ArtifactCollector::new();
    collector.add_commit(
        "abc1234def5678",
        "Fix bug in login",
        "user@example.com",
        Some("main"),
    );

    assert_eq!(collector.len(), 1);

    let artifacts = parsed(&collector);
    assert_eq!(artifacts.len(), 1);
    assert_eq!(artifacts[0]["type"].as_str().unwrap(), ArtifactType::Commit.name());
    assert_eq!(artifacts[0]["type"], "commit");
}

#[test]
fn test_pull_request_artifact() {
    let mut collector = ArtifactCollector::new();
    collector.add_pull_request(
        123,
        "Fix authentication bug",
        "https://github.com/org/repo/pull/123",
        "fix-auth",
        "main",
    );

    let artifacts = parsed(&collector);
    assert_eq!(artifacts[0]["type"], "pr");
    let pr = &artifacts[0]["data"];
    assert_eq!(pr["number"], 123);
    assert_eq!(pr["title"], "Fix authentication bug");
}

#[test]
fn test_test_results_artifact() {
    let mut collector = ArtifactCollector::new();
    collector.add_test_results(10, 8, 2, 0, vec!["test_login".to_string()]);

    let artifacts = parsed(&collector);
    assert_eq!(artifacts[0]["type"], "test_results");
    let results = &artifacts[0]["data"];
    assert_eq!(results["total"], 10);
    assert_eq!(results["passed"], 8);
    assert_eq!(results["failed"], 2);
    assert_eq!(results["failures"].as_array().unwrap().len(), 1);
}

#[test]
fn test_log_truncation() {
    let mut collector = ArtifactCollector::new();
    let long_content = "x".repeat(20000);
    collector.add_log("execution", "info", &long_content);

    let artifacts = parsed(&collector);
    assert_eq!(artifacts[0]["type"], "log");
    let log = &artifacts[0]["data"];
    assert_eq!(log["content"].as_str().unwrap().len(), 10000);
    assert!(log["total_lines"].is_number());
}

#[test]
fn collector_starts_empty() {
    let collector = ArtifactCollector::default();
    assert!(collector.is_empty());
    assert_eq!(collector.len(), 0);
    assert_eq!(collector.to_json_bytes(), b"[]");
}

#[test]
fn collector_keeps_order_and_counts() {
    let mut collector = ArtifactCollector::new();
    collector.add_log("one", "info", "a");
    collector.add_commit("0123456789", "m", "a", None);
    collector.add_custom("three", vec![]);
    assert!(!collector.is_empty());
    assert_eq!(collector.len(), 3);
    let artifacts = parsed(&collector);
    assert_eq!(artifacts[0]["name"], "one");
    assert_eq!(artifacts[1]["name"], "Commit 0123456");
    assert_eq!(artifacts[2]["name"], "three");
}

#[test]
fn artifacts_are_stamped_with_the_time_in_utc() {
    let mut collector = ArtifactCollector::new();
    collector.add_log("one", "info", "a");
    let artifacts = parsed(&collector);
    let created = artifacts[0]["created_at"].as_str().unwrap().to_string();
    assert!(created.len() >= 25);
    assert!(created.ends_with("+00:00"));
    let bytes = created.as_bytes();
    assert_eq!((bytes[4], bytes[7], bytes[10]), (b'-', b'-', b'T'));
    assert_eq!((bytes[13], bytes[16]), (b':', b':'));
    let fraction = created.len() - 25;
    assert!(matches!(fraction, 0 | 4 | 7 | 10));
    for (i, byte) in bytes[..19 + fraction].iter().enumerate() {
        let mark = matches!(i, 4 | 7 | 10 | 13 | 16 | 19);
        assert_eq!(byte.is_ascii_digit(), !mark);
    }
}

#[test]
fn commit_json_is_exact() {
    let artifact = commit_artifact(
        "abc1234def5678",
        "Fix \"bug\"",
        "user@example.com",
        Some("main"),
        "T".to_string(),
    );
    assert_eq!(artifact.name, "Commit abc1234");
    assert_eq!(
        encode_value(&artifact.to_json()),
        "{\"type\":\"commit\",\"name\":\"Commit abc1234\",\"data\":{\"hash\":\"abc1234def5678\",\
         \"short_hash\":\"abc1234\",\"message\":\"Fix \\\"bug\\\"\",\
         \"author\":\"user@example.com\",\"branch\":\"main\"},\"created_at\":\"T\"}"
    );
}

#[test]
fn commit_without_branch_has_no_branch_member() {
    let artifact = commit_artifact("abc", "m", "a", None, "T".to_string());
    assert_eq!(artifact.name, "Commit abc");
    assert_eq!(
        encode_value(&artifact.to_json()),
        "{\"type\":\"commit\",\"name\":\"Commit abc\",\"data\":{\"hash\":\"abc\",\
         \"short_hash\":\"abc\",\"message\":\"m\",\"author\":\"a\"},\"created_at\":\"T\"}"
    );
}

#[test]
fn cuts_within_a_character_are_noticed() {
    assert!(has_short_form("123456"));
    assert!(has_short_form("1234567\u{e9}"));
    assert!(!has_short_form("123456\u{e9}"));
    assert!(can_be_logged(&"x".repeat(20_000)));
    assert!(can_be_logged(&"\u{e9}".repeat(5_001)));
    assert!(!can_be_logged(&("x".to_string() + &"\u{e9}".repeat(5_000))));
}

#[test]
fn short_hash_has_at_most_seven_bytes() {
    assert_eq!(short_hash_of(""), "");
    assert_eq!(short_hash_of("1234567"), "1234567");
    assert_eq!(short_hash_of("12345678"), "1234567");
}

#[test]
fn pull_request_json_is_exact() {
    let artifact = pull_request_artifact(123, "t", "u", "h", "b", "T".to_string());
    assert_eq!(
        encode_value(&artifact.to_json()),
        "{\"type\":\"pr\",\"name\":\"PR #123\",\"data\":{\"number\":123,\
         \"title\":\"t\",\"url\":\"u\",\"head_branch\":\"h\",\"base_branch\":\"b\",\
         \"state\":\"open\"},\"created_at\":\"T\"}"
    );
}

#[test]
fn test_results_json_is_exact() {
    let artifact =
        test_results_artifact(10, 8, 2, 0, vec!["a".to_string(), "b".to_string()], "T".to_string());
    assert_eq!(
        encode_value(&artifact.to_json()),
        "{\"type\":\"test_results\",\"name\":\"Test Results (8/10 passed)\",\"data\":{\
         \"total\":10,\"passed\":8,\"failed\":2,\"skipped\":0,\"failures\":[\"a\",\"b\"]},\
         \"created_at\":\"T\"}"
    );
    let artifact = test_results_artifact(4, 4, 0, 0, vec![], "T".to_string());
    assert_eq!(
        encode_value(&artifact.to_json()),
        "{\"type\":\"test_results\",\"name\":\"Test Results (4/4 passed)\",\"data\":{\
         \"total\":4,\"passed\":4,\"failed\":0,\"skipped\":0},\"created_at\":\"T\"}"
    );
}

#[test]
fn test_results_may_have_a_duration() {
    let artifact = Artifact {
        artifact_type: ArtifactType::TestResults,
        name: "run".to_string(),
        data: ArtifactData::TestResults(TestResultsArtifact {
            total: 1,
            passed: 1,
            failed: 0,
            skipped: 0,
            duration_secs: Some("1.5".to_string()),
            failures: vec![],
        }),
        created_at: None,
    };
    assert_eq!(
        encode_value(&artifact.to_json()),
        "{\"type\":\"test_results\",\"name\":\"run\",\"data\":{\"total\":1,\"passed\":1,\
         \"failed\":0,\"skipped\":0,\"duration_secs\":1.5}}"
    );
}

#[test]
fn short_log_is_kept_whole() {
    let content = "x".repeat(10000);
    let artifact = log_artifact("n", "info", &content, "T".to_string());
    match &artifact.data {
        ArtifactData::Log(log) => {
            assert_eq!(log.content, content);
            assert_eq!(log.total_lines, None);
        }
        _ => panic!("Expected Log artifact"),
    }
}

#[test]
fn long_log_tells_how_many_lines_it_had() {
    let content = "line\n".repeat(3000);
    let artifact = log_artifact("n", "info", &content, "T".to_string());
    match &artifact.data {
        ArtifactData::Log(log) => {
            assert_eq!(log.content.len(), 10000);
            assert!(content.starts_with(&log.content));
            assert_eq!(log.total_lines, Some(3000));
        }
        _ => panic!("Expected Log artifact"),
    }
    let artifact = log_artifact("n", "info", &(content + "tail"), "T".to_string());
    match &artifact.data {
        ArtifactData::Log(log) => assert_eq!(log.total_lines, Some(3001)),
        _ => panic!("Expected Log artifact"),
    }
}

#[test]
fn log_json_is_exact() {
    let artifact = Artifact {
        artifact_type: ArtifactType::Log,
        name: "n".to_string(),
        data: ArtifactData::Log(LogArtifact {
            level: "info".to_string(),
            content: "a\nb".to_string(),
            total_lines: Some(2),
        }),
        created_at: None,
    };
    assert_eq!(
        encode_value(&artifact.to_json()),
        "{\"type\":\"log\",\"name\":\"n\",\"data\":{\"level\":\"info\",\"content\":\"a\\nb\",\
         \"total_lines\":2}}"
    );
}

#[test]
fn custom_json_holds_the_members_in_order() {
    let data = vec![
        JsonMember { key: "a".to_string(), value: JsonValue::Null },
        JsonMember { key: "b".to_string(), value: JsonValue::Bool(true) },
        JsonMember { key: "c".to_string(), value: JsonValue::Bool(false) },
        JsonMember { key: "d".to_string(), value: JsonValue::Number("-1.5e3".to_string()) },
        JsonMember {
            key: "e".to_string(),
            value: JsonValue::Array(vec![
                JsonValue::Text("x\u{1}".to_string()),
                JsonValue::Object(vec![JsonMember {
                    key: "f".to_string(),
                    value: JsonValue::Array(vec![]),
                }]),
            ]),
        },
    ];
    let artifact = custom_artifact("n", data, "T".to_string());
    assert_eq!(
        encode_value(&artifact.to_json()),
        "{\"type\":\"custom\",\"name\":\"n\",\"data\":{\"a\":null,\"b\":true,\"c\":false,\
         \"d\":-1.5e3,\"e\":[\"x\\u0001\",{\"f\":[]}]},\"created_at\":\"T\"}"
    );
}

#[test]
fn different_artifacts_have_different_bytes() {
    let bytes = |artifacts: Vec<Artifact>| {
        let mut collector = ArtifactCollector::new();
        for artifact in artifacts {
            collector.add_artifact(artifact);
        }
        collector.to_json_bytes()
    };
    let commit = |hash: &str, branch: Option<&str>| {
        commit_artifact(hash, "m", "a", branch, "T".to_string())
    };
    let all = [
        bytes(vec![]),
        bytes(vec![commit("a", None)]),
        bytes(vec![commit("b", None)]),
        bytes(vec![commit("a", Some(""))]),
        bytes(vec![commit("a", None), commit("b", None)]),
        bytes(vec![commit("b", None), commit("a", None)]),
        bytes(vec![custom_artifact("Commit a", vec![], "T".to_string())]),
    ];
    for i in 0..all.len() {
        for j in 0..all.len() {
            assert_eq!(i == j, all[i] == all[j]);
        }
    }
}

#[test]
fn artifacts_can_be_cloned() {
    let artifact = log_artifact("n", "info", "c", "T".to_string());
    assert_eq!(encode_value(&artifact.clone().to_json()), encode_value(&artifact.to_json()));
}

#[test]
fn types_have_their_names() {
    let names = [
        (ArtifactType::Commit, "commit"),
        (ArtifactType::PullRequest, "pr"),
        (ArtifactType::TestResults, "test_results"),
        (ArtifactType::Build, "build"),
        (ArtifactType::Log, "log"),
        (ArtifactType::Coverage, "coverage"),
        (ArtifactType::Benchmark, "benchmark"),
        (ArtifactType::Diff, "diff"),
        (ArtifactType::Screenshot, "screenshot"),
        (ArtifactType::Custom, "custom"),
    ];
    for (artifact_type, name) in names {
        assert_eq!(artifact_type.name(), name);
    }
}
