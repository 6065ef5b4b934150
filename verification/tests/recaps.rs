use ansible_operator::callback_output::{
    parse_callback_output, recap_from_entries, HostStats, COMPRESSED_PREFIX,
    MAX_INFLATED_RECAP_BYTES,
};
use base64::Engine as _;
use std::io::Write as _;

#[test]
fn parses_bare_host_array_map_positionally() {
    let msg = r#"{"host-1":[2,1,0,0,0,0,0,1],"host-2":[2,0,0,1,0,0,0,0]}"#;

    let parsed = parse_callback_output(msg).unwrap();
    assert_eq!(parsed.processed.len(), 2);

    // [ok, changed, unreachable, failed, skipped, rescued, ignored, completed]
    let h1 = parsed.processed.get("host-1").unwrap();
    assert_eq!((h1.ok, h1.changed), (2, 1));
    assert!(!h1.is_failure());
    assert!(h1.completed);

    let h2 = parsed.processed.get("host-2").unwrap();
    assert_eq!(h2.failed, 1);
    assert!(h2.is_failure());
    assert!(!h2.completed);
}

#[test]
fn empty_message_returns_none() {
    assert!(parse_callback_output("").is_none());
    assert!(parse_callback_output("   ").is_none());
}

#[test]
fn malformed_or_truncated_message_returns_none_not_panic() {
    // A truncated object is not valid JSON.
    assert!(parse_callback_output(r#"{"host-1":[2,0,0,1,0,0"#).is_none());
    assert!(parse_callback_output("not json").is_none());
}

fn compressed(json: &str) -> String {
    let mut encoder = flate2::write::ZlibEncoder::new(Vec::new(), flate2::Compression::best());
    encoder.write_all(json.as_bytes()).unwrap();
    format!(
        "{COMPRESSED_PREFIX}{}",
        base64::engine::general_purpose::STANDARD.encode(encoder.finish().unwrap())
    )
}

#[test]
fn a_compressed_recap_parses_to_the_same_thing_as_the_plain_one() {
    let json = r#"{"host-1":[2,1,0,0,0,0,0,1],"host-2":[2,0,0,1,0,0,0,0]}"#;

    let from_plain = parse_callback_output(json).unwrap();
    let from_compressed = parse_callback_output(&compressed(json)).unwrap();

    assert_eq!(from_compressed.processed.len(), from_plain.processed.len());
    let h1 = from_compressed.processed.get("host-1").unwrap();
    assert_eq!((h1.ok, h1.changed), (2, 1));
    assert!(h1.completed);
    assert!(from_compressed.processed.get("host-2").unwrap().is_failure());
}

#[test]
fn a_recap_far_larger_than_the_kubelet_cap_round_trips_compressed() {
    let hosts: Vec<String> = (0..200)
        .map(|i| {
            format!(
                r#""ip-10-0-{}-{}.eu-central-1.compute.internal":[12,3,0,0,7,0,0,1]"#,
                i / 250,
                i % 250
            )
        })
        .collect();
    let json = format!("{{{}}}", hosts.join(","));
    assert!(json.len() > 4096, "the plain form must exceed the cap");

    let wire = compressed(&json);
    assert!(
        wire.len() <= 4096,
        "the compressed form must fit: {} bytes",
        wire.len()
    );
    assert_eq!(parse_callback_output(&wire).unwrap().processed.len(), 200);
}

#[test]
fn a_decompression_bomb_is_refused_rather_than_inflated() {
    let mut encoder = flate2::write::ZlibEncoder::new(Vec::new(), flate2::Compression::best());
    encoder
        .write_all(&vec![b'a'; MAX_INFLATED_RECAP_BYTES as usize * 2])
        .unwrap();
    let bomb = {
        format!(
            "{COMPRESSED_PREFIX}{}",
            base64::engine::general_purpose::STANDARD.encode(encoder.finish().unwrap())
        )
    };
    assert!(bomb.len() < 4096, "a bomb fits the cap; that is the point");

    assert!(parse_callback_output(&bomb).is_none());
}

#[test]
fn a_corrupt_compressed_message_returns_none_not_panic() {
    assert!(parse_callback_output("z:not-base64!!").is_none());
    assert!(
        parse_callback_output("z:aGVsbG8=").is_none(),
        "valid base64, not a zlib stream"
    );
    assert!(parse_callback_output("z:").is_none());
}

#[test]
fn wrong_length_array_returns_none() {
    // Seven counters are not eight with the last one defaulted.
    assert!(parse_callback_output(r#"{"host-1":[2,0,0,1,0,0]}"#).is_none());
    assert!(parse_callback_output(r#"{"host-1":[2,0,0,1,0,0,0]}"#).is_none());
}

#[test]
fn completion_is_read_independently_of_the_counters() {
    let msg = r#"{"cut-short":[1,1,0,0,1,0,0,0],"ignored-unreachable":[2,0,1,0,0,0,0,1]}"#;
    let parsed = parse_callback_output(msg).unwrap();

    let cut_short = parsed.processed.get("cut-short").unwrap();
    assert!(!cut_short.is_failure());
    assert!(!cut_short.completed);

    let ignored = parsed.processed.get("ignored-unreachable").unwrap();
    assert!(ignored.is_failure());
    assert!(ignored.completed);
}

#[test]
fn failed_and_unreachable_both_count_as_failure() {
    let failed = HostStats {
        failed: 1,
        ..Default::default()
    };
    let unreachable = HostStats {
        unreachable: 1,
        ..Default::default()
    };
    let ok = HostStats {
        ok: 3,
        rescued: 1,
        ..Default::default()
    };

    assert!(failed.is_failure());
    assert!(unreachable.is_failure());
    assert!(
        !ok.is_failure(),
        "a rescued host with no failed/unreachable counts is a success"
    );
}

#[test]
fn counters_are_read_in_their_wire_order() {
    let recap = recap_from_entries(vec![("host-1".to_string(), [1, 2, 3, 4, 5, 6, 7, 8])]);
    assert_eq!(
        recap.processed.get("host-1"),
        Some(&HostStats {
            ok: 1,
            changed: 2,
            unreachable: 3,
            failed: 4,
            skipped: 5,
            rescued: 6,
            ignored: 7,
            completed: true,
        })
    );
    assert_eq!(HostStats::from([0; 8]), HostStats::default());
}

#[test]
fn a_message_is_trimmed_before_it_is_read() {
    let json = r#"{"host-1":[2,1,0,0,0,0,0,1]}"#;
    let plain = parse_callback_output(json).unwrap();
    assert_eq!(parse_callback_output(&format!(" {json}\n")).unwrap(), plain);
    assert_eq!(
        parse_callback_output(&format!("\t{}\n", compressed(json))).unwrap(),
        plain
    );
}

#[test]
fn white_space_around_what_was_compressed_changes_nothing() {
    let json = r#"{"host-1":[2,1,0,0,0,0,0,1]}"#;
    let plain = parse_callback_output(json).unwrap();
    for padded in [
        format!("{json}\n"),
        format!("\r\n {json}"),
        format!("\t{json} \n\n"),
    ] {
        assert_eq!(parse_callback_output(&padded).unwrap(), plain);
        assert_eq!(parse_callback_output(&compressed(&padded)).unwrap(), plain);
    }
    assert_eq!(parse_callback_output(&compressed(" \n")), None);
}

#[test]
fn only_the_white_space_of_json_may_stand_around_what_was_compressed() {
    let json = r#"{"host-1":[2,1,0,0,0,0,0,1]}"#;
    let padded = format!("{json}\u{a0}");
    assert!(parse_callback_output(&padded).is_some());
    assert!(parse_callback_output(&compressed(&padded)).is_none());
}
