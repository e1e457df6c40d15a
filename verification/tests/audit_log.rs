use vavlt::audit::{entry_line, escape, field, parse_entry, split_lines, Audit, Entry};

fn link_hash(prev: &str, kind: &str, title: &str, detail: &str, at: u64) -> String {
    let mut h = blake3::Hasher::new();
    h.update(prev.as_bytes());
    h.update(kind.as_bytes());
    h.update(title.as_bytes());
    h.update(detail.as_bytes());
    h.update(&at.to_le_bytes());
    h.finalize().to_hex()[..24].to_string()
}

#[test]
fn each_entry_commits_to_the_one_before_it() {
    let mut audit = Audit::open("/tmp/vavlt-audit/audit.jsonl".to_string(), None);
    audit.record("grant", "first".to_string(), String::new());
    let first = audit.entries[0].hash.clone();
    audit.record("run", "second".to_string(), String::new());
    let second = audit.entries[1].hash.clone();

    let mut fresh = Audit::open("/tmp/vavlt-audit/elsewhere/audit.jsonl".to_string(), None);
    fresh.record("run", "second".to_string(), String::new());

    assert_ne!(first, second, "two entries must not share a hash");
    assert_ne!(
        fresh.entries[0].hash, second,
        "the same entry after a different history must hash differently"
    );
}

#[test]
fn a_corrupt_line_does_not_cost_the_rest_of_the_log() {
    let text = "{\"at\":1,\"kind\":\"run\",\"title\":\"kept\",\"detail\":\"\",\"hash\":\"aa\"}\n\
                {\"at\":2,\"kind\":\"run\",\"tit\n";
    let audit = Audit::open("audit.jsonl".to_string(), Some(text));
    assert_eq!(audit.entries.len(), 1, "the good line survives");
    assert_eq!(audit.entries[0].title, "kept");
}

#[test]
fn the_chain_starts_from_genesis_and_hashes_as_blake3() {
    let mut audit = Audit::open("audit.jsonl".to_string(), None);
    audit.record_at("grant", "Transform granted".to_string(), "12 files".to_string(), 1_700_000_000);
    audit.record_at("skip", "RAW".to_string(), "never re-encoded".to_string(), 1_700_000_060);
    assert_eq!(
        audit.entries[0].hash,
        link_hash("genesis", "grant", "Transform granted", "12 files", 1_700_000_000)
    );
    assert_eq!(
        audit.entries[1].hash,
        link_hash(&audit.entries[0].hash, "skip", "RAW", "never re-encoded", 1_700_000_060)
    );
    assert_eq!(audit.entries[1].hash.len(), 24);
    assert_eq!(audit.path(), "audit.jsonl");
}

#[test]
fn a_written_log_reads_back_whole() {
    let mut audit = Audit::open("a.jsonl".to_string(), None);
    audit.record_at("grant", "say \"hi\"".to_string(), "a\\b".to_string(), 5);
    audit.record_at("fail", "x".to_string(), "two\nlines".to_string(), 6);
    audit.record_at("restore", "y".to_string(), String::new(), 7);
    let mut text = String::new();
    for e in &audit.entries {
        text.push_str(&entry_line(e));
    }
    let back = Audit::open("a.jsonl".to_string(), Some(&text));
    assert_eq!(back.entries.len(), 3);
    assert_eq!(back.entries[0].kind, "grant");
    assert_eq!(back.entries[0].at, 5);
    assert_eq!(back.entries[2].hash, audit.entries[2].hash);
    assert_eq!(back.entries[2].kind, "restore");
}

#[test]
fn a_line_reads_back_as_written() {
    let e = Entry {
        at: 1_755_388_800,
        kind: "skip",
        title: "IMG_0001.DNG".to_string(),
        detail: "RAW is never re-encoded, in any tier".to_string(),
        hash: "0123456789abcdef01234567".to_string(),
    };
    let line = entry_line(&e);
    assert_eq!(
        line,
        "{\"at\":1755388800,\"kind\":\"skip\",\"title\":\"IMG_0001.DNG\",\
         \"detail\":\"RAW is never re-encoded, in any tier\",\"hash\":\"0123456789abcdef01234567\"}\n"
    );
    let back = parse_entry(line.trim_end()).expect("parses");
    assert_eq!(back.at, e.at);
    assert_eq!(back.kind, e.kind);
    assert_eq!(back.title, e.title);
    assert_eq!(back.detail, e.detail);
    assert_eq!(back.hash, e.hash);
}

#[test]
fn escaping_doubles_backslashes_and_flattens_newlines() {
    assert_eq!(escape("plain"), "plain");
    assert_eq!(escape("a\\b"), "a\\\\b");
    assert_eq!(escape("say \"x\""), "say \\\"x\\\"");
    assert_eq!(escape("one\ntwo"), "one two");
}

#[test]
fn fields_are_found_by_key() {
    let line = "{\"at\":3,\"kind\":\"run\",\"title\":\"t\",\"hash\":\"h1\"}";
    assert_eq!(field(line, "kind"), Some("run"));
    assert_eq!(field(line, "title"), Some("t"));
    assert_eq!(field(line, "hash"), Some("h1"));
    assert_eq!(field(line, "detail"), None);
}

#[test]
fn a_tolerant_reader_fills_what_is_missing() {
    let e = parse_entry("{\"kind\":\"mystery\",\"title\":\"t\"}").expect("parses");
    assert_eq!(e.at, 0);
    assert_eq!(e.kind, "run");
    assert_eq!(e.detail, "");
    assert_eq!(e.hash, "");
    assert!(parse_entry("{\"at\":1,\"title\":\"t\"}").is_none());
    assert!(parse_entry("{\"at\":1,\"kind\":\"run\"}").is_none());
    let big = parse_entry("{\"at\":99999999999999999999,\"kind\":\"grant\",\"title\":\"t\"}").expect("parses");
    assert_eq!(big.at, 0);
}

#[test]
fn lines_split_as_str_lines_does() {
    for text in ["", "a", "a\n", "a\r\nb", "a\n\nb\n", "\n", "x\r\n\r\n"] {
        let got: Vec<String> = split_lines(text).into_iter().map(|l| l.into_iter().collect()).collect();
        let want: Vec<String> = text.lines().map(str::to_string).collect();
        assert_eq!(got, want, "{text:?}");
    }
}

#[test]
fn a_reopened_log_chains_from_its_last_entry() {
    let mut audit = Audit::open("a.jsonl".to_string(), None);
    audit.record_at("grant", "one".to_string(), String::new(), 1);
    audit.record_at("run", "two".to_string(), String::new(), 2);
    let text: String = audit.entries.iter().map(entry_line).collect();
    let mut back = Audit::open("a.jsonl".to_string(), Some(&text));
    back.record_at("run", "three".to_string(), String::new(), 3);
    audit.record_at("run", "three".to_string(), String::new(), 3);
    assert_eq!(back.entries[2].hash, audit.entries[2].hash);
    assert_eq!(back.entries[2].hash, link_hash(&audit.entries[1].hash, "run", "three", "", 3));
}

#[test]
fn a_bad_line_in_the_middle_costs_only_itself() {
    let good1 = "{\"at\":1,\"kind\":\"grant\",\"title\":\"a\",\"detail\":\"\",\"hash\":\"h1\"}";
    let bad = "{\"at\":2,\"kind\":\"run\"";
    let good2 = "{\"at\":3,\"kind\":\"fail\",\"title\":\"b\",\"detail\":\"d\",\"hash\":\"h3\"}";
    let with = Audit::open("x".to_string(), Some(&format!("{good1}\n{bad}\n{good2}\n")));
    let without = Audit::open("x".to_string(), Some(&format!("{good1}\n{good2}\n")));
    assert_eq!(with.entries.len(), 2);
    assert_eq!(without.entries.len(), 2);
    for (a, b) in with.entries.iter().zip(&without.entries) {
        assert_eq!((a.at, a.kind, &a.title, &a.detail, &a.hash), (b.at, b.kind, &b.title, &b.detail, &b.hash));
    }
    assert_eq!(with.entries[1].kind, "fail");
}

#[test]
fn a_log_stays_chained_as_it_grows() {
    let mut audit = Audit::open("a.jsonl".to_string(), None);
    assert!(audit.is_chained());
    audit.record_at("grant", "one".to_string(), String::new(), 1);
    assert!(audit.is_chained());
    let reopened = Audit::open("a.jsonl".to_string(), Some(&entry_line(&audit.entries[0])));
    assert!(reopened.is_chained());
    audit.prev = "tampered".to_string();
    assert!(!audit.is_chained());
}
