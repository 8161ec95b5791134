use combo_queue::batch::{split_batches, BatchCommit};
use combo_queue::statement::{insert_statement, sanitize};
use combo_queue::store::{generate_id, select_keyspace, Combo, Keyspace};
use combo_queue::BATCH_LIMIT;

fn combo(email: &str, password: &str) -> Combo {
    Combo { email: email.to_string(), password: password.to_string() }
}

/// Reads a quoted literal body back the way the store does: `''` is one quote.
fn unquote(s: &str) -> String {
    s.replace("''", "'")
}

#[test]
fn sanitize_doubles_quotes() {
    assert_eq!(sanitize("it's"), "it''s");
    assert_eq!(sanitize("''"), "''''");
    assert_eq!(sanitize("plain"), "plain");
    assert_eq!(sanitize(""), "");
}

#[test]
fn escaped_values_read_back_verbatim() {
    for value in ["o'brien@x.com", "pa''ss'", "'", "no quotes"] {
        assert_eq!(unquote(&sanitize(value)), value);
    }
}

#[test]
fn keyspace_names_fall_back_to_email() {
    assert_eq!(Keyspace::starting_at("discord", 10, 0).name_str(), "discord");
    assert_eq!(Keyspace::starting_at("valid", 10, 0).name_str(), "valid");
    assert_eq!(Keyspace::starting_at("email", 10, 0).name_str(), "email");
    assert_eq!(Keyspace::starting_at("other", 10, 0).name_str(), "email");
    assert_eq!(Keyspace::starting_at("", 10, 0).name_str(), "email");
}

#[test]
fn get_table_advances_the_cursor() {
    let mut ks = Keyspace::starting_at("email", 10, 0);
    assert_eq!(ks.get_table(), ("email.t1".to_string(), 1));
    assert_eq!(ks.get_table(), ("email.t2".to_string(), 2));
}

#[test]
fn cursor_wraps_after_the_last_table() {
    // The cursor never names table N: after N - 1 it goes back to 0.
    let mut ks = Keyspace::starting_at("discord", 10, 8);
    assert_eq!(ks.get_table(), ("discord.t9".to_string(), 9));
    assert_eq!(ks.get_table(), ("discord.t0".to_string(), 0));
}

#[test]
fn every_shard_used_is_below_the_table_count() {
    for start in 0..3 {
        let mut ks = Keyspace::starting_at("email", 3, start);
        for step in 1..=20usize {
            let (_, i) = ks.get_table();
            assert!(i < 3);
            assert_eq!(i, (start + step) % 3);
        }
    }
    let mut ks = Keyspace::from("valid", 4);
    for _ in 0..10 {
        assert!(ks.get_table().1 < 4);
    }
}

#[test]
fn single_table_keyspace_stays_on_table_zero() {
    let mut ks = Keyspace::starting_at("email", 1, 0);
    assert_eq!(ks.get_table(), ("email.t0".to_string(), 0));
    assert_eq!(ks.get_table(), ("email.t0".to_string(), 0));
}

#[test]
fn ids_carry_their_shard() {
    assert_eq!(generate_id(7, "deadbeef"), "7-deadbeef");
    assert_eq!(generate_id(0, "0000abcd"), "0-0000abcd");
    assert_eq!(generate_id(12, "ffffffff"), "12-ffffffff");
}

#[test]
fn id_routes_back_to_its_table() {
    let mut ks = Keyspace::starting_at("email", 10, 4);
    for _ in 0..12 {
        let (table, i) = ks.get_table();
        let id = generate_id(i, "a1b2c3d4");
        assert_eq!(ks.get_table_by_uuid(&id), table);
    }
}

#[test]
fn table_by_uuid_takes_the_text_before_the_first_dash() {
    let ks = Keyspace::starting_at("valid", 10, 0);
    assert_eq!(ks.get_table_by_uuid("3-abcdef12"), "valid.t3");
    assert_eq!(ks.get_table_by_uuid("3-ab-cd"), "valid.t3");
    assert_eq!(ks.get_table_by_uuid("nodash"), "valid.tnodash");
    assert_eq!(ks.get_table_by_uuid(""), "valid.t");
}

#[test]
fn schema_statements() {
    let ks = Keyspace::starting_at("email", 3, 0);
    assert_eq!(
        ks.create_keyspace_statement(),
        "CREATE KEYSPACE IF NOT EXISTS email WITH REPLICATION = { 'class' : 'SimpleStrategy', 'replication_factor' : 1 }"
    );
    let tables = ks.create_table_statements();
    assert_eq!(tables.len(), 3);
    for (i, t) in tables.iter().enumerate() {
        assert_eq!(
            t,
            &format!(
                "CREATE TABLE IF NOT EXISTS email.t{i} (id text PRIMARY KEY, email text, passw text, lastcheck timestamp, p text)"
            )
        );
    }
}

#[test]
fn insert_statement_escapes_every_value() {
    assert_eq!(
        insert_statement("email.t1", "a'b@c.com", "p'w", "src|o'k\n", "1-0a0b0c0d"),
        "INSERT INTO email.t1 (email, passw, lastcheck, p, id) VALUES ('a''b@c.com', 'p''w', 0, 'src|o''k\n', '1-0a0b0c0d')\n"
    );
}

#[test]
fn plan_writes_each_item_to_the_next_shard() {
    let mut ks = Keyspace::starting_at("email", 10, 0);
    let combos = vec![combo("a@b.com", "pw-one"), combo("c@d.com", "pw-two")];
    let suffixes = vec!["00000001".to_string(), "00000002".to_string()];
    let batches = ks.plan_combos_with(&combos, "src=x", &suffixes);
    assert_eq!(batches.len(), 1);
    assert_eq!(batches[0].count, 2);
    assert_eq!(
        batches[0].statement,
        "BEGIN BATCH\n\
         INSERT INTO email.t1 (email, passw, lastcheck, p, id) VALUES ('a@b.com', 'pw-one', 0, 'src=x', '1-00000001')\n\
         INSERT INTO email.t2 (email, passw, lastcheck, p, id) VALUES ('c@d.com', 'pw-two', 0, 'src=x', '2-00000002')\n\
         APPLY BATCH;\n"
    );
    assert_eq!(ks.get_table().1, 3);
}

#[test]
fn plan_of_nothing_has_no_batch() {
    let mut ks = Keyspace::starting_at("email", 10, 5);
    let batches = ks.plan_combos(&Vec::new(), "");
    assert!(batches.is_empty());
    assert_eq!(ks.get_table().1, 6);
}

#[test]
fn plan_draws_hex_suffixes() {
    let mut ks = Keyspace::starting_at("valid", 10, 9);
    let batches = ks.plan_combos(&vec![combo("x", "y")], "");
    assert_eq!(batches.len(), 1);
    let s = &batches[0].statement;
    let start = s.find("'0-").expect("id of shard 0") + 3;
    let suffix = &s[start..start + 8];
    assert!(suffix.chars().all(|c| c.is_ascii_digit() || ('a'..='f').contains(&c)));
    assert_eq!(&s[start + 8..start + 11], "')\n");
}

#[test]
fn large_adds_are_split_into_several_batches() {
    let mut ks = Keyspace::starting_at("email", 10, 0);
    let long = "x".repeat(1000);
    let combos: Vec<Combo> = (0..120).map(|i| combo(&format!("{i}@{long}"), "pw")).collect();
    let suffixes: Vec<String> = (0..120).map(|i| format!("{i:08x}")).collect();
    let batches = ks.plan_combos_with(&combos, "", &suffixes);
    assert!(batches.len() > 1);
    assert_eq!(batches.iter().map(|b| b.count).sum::<usize>(), 120);
    let mut seen = 0;
    for (k, b) in batches.iter().enumerate() {
        assert!(b.count > 0);
        assert!(b.statement.starts_with("BEGIN BATCH\n"));
        assert!(b.statement.ends_with("APPLY BATCH;\n"));
        let body_len = b.statement.chars().count() - "APPLY BATCH;\n".len();
        if k + 1 < batches.len() {
            assert!(body_len > BATCH_LIMIT);
        }
        let inserts = b.statement.matches("INSERT INTO").count();
        assert_eq!(inserts, b.count);
        seen += b.count;
    }
    assert_eq!(seen, 120);
}

#[test]
fn split_flushes_as_soon_as_the_limit_is_passed() {
    let row = "r".repeat(20000);
    let rows = vec![row.clone(), row.clone(), row.clone(), row.clone()];
    let batches = split_batches(&rows);
    let counts: Vec<usize> = batches.iter().map(|b| b.count).collect();
    assert_eq!(counts, vec![3, 1]);
    assert_eq!(batches[1].statement, format!("BEGIN BATCH\n{row}APPLY BATCH;\n"));
}

#[test]
fn split_keeps_a_buffer_exactly_at_the_limit() {
    let header = "BEGIN BATCH\n".len();
    let exact = "e".repeat(BATCH_LIMIT - header);
    let batches = split_batches(&vec![exact.clone(), "z".to_string()]);
    let counts: Vec<usize> = batches.iter().map(|b| b.count).collect();
    assert_eq!(counts, vec![2]);
    let over = "e".repeat(BATCH_LIMIT - header + 1);
    let batches = split_batches(&vec![over, "z".to_string()]);
    let counts: Vec<usize> = batches.iter().map(|b| b.count).collect();
    assert_eq!(counts, vec![1, 1]);
}

#[test]
fn split_of_no_rows_is_empty() {
    assert!(split_batches(&Vec::new()).is_empty());
}

#[test]
fn a_failed_batch_does_not_stop_the_rest() {
    let rows = vec!["a".repeat(49600), "b".to_string(), "c".repeat(49600)];
    let batches = split_batches(&rows);
    assert_eq!(batches.len(), 2);
    let mut commit = BatchCommit::new("email", batches);
    let mut sent = Vec::new();
    let mut outcomes = vec![Some("timeout".to_string()), None].into_iter();
    while let Some(statement) = commit.next_statement() {
        sent.push(statement);
        commit.record(outcomes.next().unwrap());
    }
    assert_eq!(sent.len(), 2);
    assert_eq!(
        commit.finish(),
        Some(vec!["failed to add 1 combos into email: timeout".to_string()])
    );
}

#[test]
fn every_failure_is_reported_in_order() {
    let rows = vec!["a".repeat(49600), "b".repeat(49600), "c".to_string(), "d".to_string()];
    let batches = split_batches(&rows);
    let counts: Vec<usize> = batches.iter().map(|b| b.count).collect();
    assert_eq!(counts, vec![1, 1, 2]);
    let mut commit = BatchCommit::new("discord", batches);
    commit.record(Some("e1".to_string()));
    commit.record(None);
    commit.record(Some("e3".to_string()));
    assert_eq!(commit.next_statement(), None);
    assert_eq!(
        commit.finish(),
        Some(vec![
            "failed to add 1 combos into discord: e1".to_string(),
            "failed to add 2 combos into discord: e3".to_string(),
        ])
    );
}

#[test]
fn a_clean_commit_reports_nothing() {
    let batches = split_batches(&vec!["x".to_string()]);
    let mut commit = BatchCommit::new("valid", batches);
    assert!(commit.next_statement().unwrap().starts_with("BEGIN BATCH\n"));
    commit.record(None);
    assert_eq!(commit.next_statement(), None);
    assert_eq!(commit.finish(), None);
}

#[test]
fn fetch_query_reads_the_next_table() {
    let mut ks = Keyspace::starting_at("email", 10, 9);
    assert_eq!(ks.fetch_query(1000), "SELECT * FROM email.t0 LIMIT 1000 ALLOW FILTERING");
    assert_eq!(ks.fetch_query(1), "SELECT * FROM email.t1 LIMIT 1 ALLOW FILTERING");
}

#[test]
fn invalidate_deletes_from_the_ids_table() {
    let ks = Keyspace::starting_at("email", 10, 0);
    assert_eq!(
        ks.invalidate_statement("3-ab'c"),
        Some("DELETE FROM email.t3 WHERE id = '3-ab''c'".to_string())
    );
    assert_eq!(
        ks.invalidate_statement("12"),
        Some("DELETE FROM email.t12 WHERE id = '12'".to_string())
    );
}

#[test]
fn invalidate_of_a_malformed_id_is_a_no_op() {
    let ks = Keyspace::starting_at("email", 10, 0);
    assert_eq!(ks.invalidate_statement("x-1"), None);
    assert_eq!(ks.invalidate_statement("-1"), None);
    assert_eq!(ks.invalidate_statement(""), None);
    assert_eq!(ks.invalidate_statement("1 WHERE id = ''-x"), None);
}

#[test]
fn path_segments_select_a_keyspace() {
    assert_eq!(select_keyspace("discord"), "discord");
    assert_eq!(select_keyspace("valid"), "valid");
    assert_eq!(select_keyspace("email"), "email");
    assert_eq!(select_keyspace("Discord"), "email");
}
