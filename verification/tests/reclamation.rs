use perch::app::reclamation::{
    decode_hex, encode_hex, reclamation_error, valid_record_paths, Record, State,
};
use perch::error::{IoError, IoKind};

#[test]
fn records_round_trip_without_exposing_paths_to_config_syntax() {
    for state in [State::Staged, State::Ready] {
        let record = Record {
            state,
            original: "/tmp/worktrees/a:b".to_string(),
            trash: "/tmp/worktrees/.perch-trash.a:b.1".to_string(),
        };
        assert_eq!(Record::decode(&record.encode().unwrap()), Some(record));
    }
}

#[test]
fn reclamation_accepts_only_absolute_hidden_siblings() {
    assert!(valid_record_paths(
        "/tmp/worktrees/repo/feature",
        "/tmp/worktrees/repo/.perch-trash.feature.1"
    ));
    assert!(!valid_record_paths("feature", ".perch-trash.feature.1"));
    assert!(!valid_record_paths(
        "/tmp/worktrees/repo/feature",
        "/tmp/other/.perch-trash.feature.1"
    ));
    assert!(!valid_record_paths(
        "/tmp/worktrees/repo/feature",
        "/tmp/worktrees/repo/feature"
    ));
}

#[test]
fn filesystem_failures_are_reported_as_reclamation_errors() {
    let error = reclamation_error(
        "move worktree",
        "/tmp/worktrees/repo/feature",
        &IoError {
            kind: IoKind::Other,
            message: std::io::Error::from(std::io::ErrorKind::PermissionDenied).to_string(),
        },
    );

    assert_eq!(
        error.to_string(),
        "worktree reclamation: could not move worktree: permission denied; files remain at /tmp/worktrees/repo/feature"
    );
}

#[test]
fn records_encode_to_a_state_and_two_paths_in_hexadecimal() {
    let record = Record::staged("/a", "/.perch-trash.é");
    assert_eq!(
        record.encode().unwrap(),
        "staged:2f61:2f2e70657263682d74726173682ec3a9"
    );
    assert_eq!(
        Record::decode("ready:2F61:2f2e70657263682d74726173682ec3a9"),
        Some(Record::ready("/a", "/.perch-trash.é"))
    );
}

#[test]
fn values_that_are_no_record_do_not_decode() {
    for value in [
        "",
        "staged",
        "staged:2f61",
        "gone:2f61:2f2e70657263682d74726173682e31",
        "staged:2f6:2f2e70657263682d74726173682e31",
        "staged:2f6g:2f2e70657263682d74726173682e31",
        "staged:2fff:2f2e70657263682d74726173682e31",
        "staged:2f61:2f62",
        "staged:2f61:2f2e70657263682d74726173682e",
        "staged:2f61:2f2e70657263682d74726173682e31:",
    ] {
        assert_eq!(Record::decode(value), None, "{value}");
    }
    assert!(Record::decode("staged:2f61:2f2e70657263682d74726173682e31").is_some());
}

#[test]
fn hexadecimal_reads_back_in_either_case() {
    assert_eq!(encode_hex(&[0, 15, 16, 255]), "000f10ff");
    assert_eq!(decode_hex("000f10ff"), Some(vec![0, 15, 16, 255]));
    assert_eq!(decode_hex("000F10FF"), Some(vec![0, 15, 16, 255]));
    assert_eq!(decode_hex("0"), None);
    assert_eq!(decode_hex("é"), None);
    assert_eq!(decode_hex(""), Some(vec![]));
}

#[test]
fn a_record_that_may_not_be_reclaimed_does_not_read_back() {
    for (original, trash) in [
        ("feature", ".perch-trash.feature.1"),
        ("/tmp/feature", "/other/.perch-trash.feature.1"),
        ("/tmp/feature", "/tmp/feature"),
    ] {
        let value = Record::ready(original, trash).encode().unwrap();
        assert_eq!(Record::decode(&value), None, "{value}");
    }
}
