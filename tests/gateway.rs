use combo_queue::body::parse_combos;
use combo_queue::fetch::{fetch_outcome, read_rows, FetchStatus, FullCombo, RawRow};
use combo_queue::gateway::{
    decide_event, is_authorized, Authenticated, Event, EventAction, EventFields, Params,
};
use combo_queue::store::{generate_id, Combo, Keyspace};

const KEYS: &[&str] = &["ABCDEFGHIJKLMNBOPQRSTUVWXYZ", "amazonspotinstance997152"];

fn ok(s: &str) -> Result<String, String> {
    Ok(s.to_string())
}

fn row(email: &str, password: &str, params: &str, id: &str) -> RawRow {
    RawRow { email: ok(email), password: ok(password), params: ok(params), id: ok(id) }
}

fn item(email: &str, password: &str, params: &str, id: &str) -> FullCombo {
    FullCombo {
        email: email.to_string(),
        password: password.to_string(),
        params: params.to_string(),
        id: id.to_string(),
    }
}

fn pairs(combos: &[Combo]) -> Vec<(String, String)> {
    combos.iter().map(|c| (c.email.clone(), c.password.clone())).collect()
}

fn fields(auth: Option<&str>) -> EventFields {
    EventFields {
        parsed: true,
        auth: auth.map(|s| s.to_string()),
        keyspace: Some("discord".to_string()),
        uuid: Some("4-0badf00d".to_string()),
        id: Some("4-0badf00d".to_string()),
        has_account: true,
    }
}

const EVENTS: [Event; 6] = [
    Event::Fetch,
    Event::Invalid,
    Event::Validate,
    Event::Settings,
    Event::Connect,
    Event::Disconnect,
];

#[test]
fn read_rows_keeps_decoded_items_and_collects_errors() {
    let rows = vec![
        row("a@b.com", "pw-one", "src=x", "1-00000001"),
        RawRow { email: ok("bad"), password: Err("no passw".to_string()), params: ok(""), id: ok("1-2") },
        RawRow {
            email: Err("no email".to_string()),
            password: Err("no passw".to_string()),
            params: ok(""),
            id: ok("1-3"),
        },
        row("c@d.com", "pw-two", "", "1-00000004"),
    ];
    let (data, errors) = read_rows(&rows, 1000);
    assert_eq!(data.len(), 2);
    assert_eq!(data[0].email, "a@b.com");
    assert_eq!(data[0].password, "pw-one");
    assert_eq!(data[0].params, "src=x");
    assert_eq!(data[0].id, "1-00000001");
    assert_eq!(data[1].email, "c@d.com");
    assert_eq!(errors, vec!["no passw".to_string(), "no email".to_string()]);
}

#[test]
fn read_rows_stops_at_the_limit() {
    let rows = vec![row("a", "1", "", "0-1"), row("b", "2", "", "0-2"), row("c", "3", "", "0-3")];
    let (data, errors) = read_rows(&rows, 2);
    assert_eq!(data.iter().map(|c| c.email.as_str()).collect::<Vec<_>>(), vec!["a", "b"]);
    assert!(errors.is_empty());
    let (data, _) = read_rows(&rows, 0);
    assert!(data.is_empty());
}

#[test]
fn fetch_outcome_with_nothing_is_the_sentinel() {
    let (status, payload) = fetch_outcome(Vec::new(), Vec::new());
    assert!(matches!(status, FetchStatus::NothingToReport));
    assert!(payload.data.is_none());
    assert!(payload.errors.is_none());
}

#[test]
fn fetch_outcome_with_data_only_is_success() {
    let (status, payload) = fetch_outcome(vec![item("a", "b", "", "0-1")], Vec::new());
    assert!(matches!(status, FetchStatus::Success));
    assert_eq!(payload.data.unwrap().len(), 1);
    assert!(payload.errors.is_none());
}

#[test]
fn fetch_outcome_with_errors_only_is_failure() {
    let (status, payload) = fetch_outcome(Vec::new(), vec!["broken".to_string()]);
    assert!(matches!(status, FetchStatus::Failure));
    assert!(payload.data.is_none());
    assert_eq!(payload.errors, Some(vec!["broken".to_string()]));
}

#[test]
fn fetch_outcome_with_both_is_partial_success() {
    let (status, payload) =
        fetch_outcome(vec![item("a", "b", "", "0-1")], vec!["broken".to_string()]);
    assert!(matches!(status, FetchStatus::Success));
    assert_eq!(payload.data.unwrap()[0].id, "0-1");
    assert_eq!(payload.errors, Some(vec!["broken".to_string()]));
}

#[test]
fn fetched_items_are_deleted_from_their_tables() {
    let ks = Keyspace::starting_at("email", 10, 0);
    let data = vec![item("a", "b", "", "3-0000000a"), item("c", "d", "", "x"), item("e", "f", "", "7-o'k")];
    assert_eq!(
        ks.deletions(&data),
        vec![
            "DELETE FROM email.t3 WHERE id = '3-0000000a'".to_string(),
            "DELETE FROM email.t7 WHERE id = '7-o''k'".to_string(),
        ]
    );
}

#[test]
fn added_item_is_fetched_once_then_deleted() {
    // Ten tables, keyspace `email`: add one item, read it back from the
    // table it went to, and delete it from that same table.
    let mut ks = Keyspace::starting_at("email", 10, 9);
    let combos = vec![Combo { email: "a@b.com".to_string(), password: "pw-one".to_string() }];
    let batches = ks.plan_combos_with(&combos, "src=x", &vec!["0a1b2c3d".to_string()]);
    assert_eq!(batches.len(), 1);
    let id = generate_id(0, "0a1b2c3d");
    assert!(batches[0].statement.contains("INSERT INTO email.t0 "));
    assert!(batches[0].statement.contains("'a@b.com', 'pw-one', 0, 'src=x', '0-0a1b2c3d'"));

    let mut reader = Keyspace::starting_at("email", 10, 9);
    assert_eq!(reader.fetch_query(1), "SELECT * FROM email.t0 LIMIT 1 ALLOW FILTERING");
    let (data, errors) = read_rows(&vec![row("a@b.com", "pw-one", "src=x", &id)], 1);
    assert!(errors.is_empty());
    assert_eq!(data.len(), 1);
    assert_eq!(data[0].email, "a@b.com");
    assert_eq!(data[0].password, "pw-one");
    assert_eq!(data[0].params, "src=x");
    assert_eq!(data[0].id, id);
    assert_eq!(reader.deletions(&data), vec!["DELETE FROM email.t0 WHERE id = '0-0a1b2c3d'".to_string()]);
}

#[test]
fn parse_combos_splits_lines_at_the_first_colon() {
    let body = "a@b.com:pw-one\r\n\n  c@d.com : p:2  \nnocolon\n\t\n:\nx:";
    let combos = parse_combos(body);
    assert_eq!(
        pairs(&combos),
        vec![
            ("a@b.com".to_string(), "pw-one".to_string()),
            ("c@d.com ".to_string(), " p:2".to_string()),
            ("".to_string(), "".to_string()),
            ("x".to_string(), "".to_string()),
        ]
    );
}

#[test]
fn parse_combos_of_an_empty_body_is_empty() {
    assert!(parse_combos("").is_empty());
    assert!(parse_combos("\n\r\n  \n").is_empty());
}

#[test]
fn parse_combos_drops_carriage_returns_inside_lines() {
    assert_eq!(pairs(&parse_combos("a\rb:c\rd")), vec![("ab".to_string(), "cd".to_string())]);
}

#[test]
fn params_come_from_p_headers_lowercased() {
    let headers = vec![
        ("p-Src".to_string(), "X".to_string()),
        ("Authorization".to_string(), "k".to_string()),
        ("P-Proxy".to_string(), "HTTP://A:1".to_string()),
        ("px".to_string(), "no".to_string()),
    ];
    assert_eq!(Params::from_headers(&headers).0, "src|x\nproxy|http://a:1\n");
    assert_eq!(Params::from_headers(&Vec::new()).0, "");
}

#[test]
fn tokens_must_be_on_the_allow_list() {
    assert!(is_authorized(KEYS, "amazonspotinstance997152"));
    assert!(!is_authorized(KEYS, "amazonspotinstance99715"));
    assert!(!is_authorized(KEYS, ""));
    assert!(!is_authorized(&[], "anything"));
}

#[test]
fn any_allowed_authorization_value_authenticates() {
    let values = vec!["nope".to_string(), "ABCDEFGHIJKLMNBOPQRSTUVWXYZ".to_string()];
    assert!(Authenticated::from_headers(KEYS, &values).0);
    assert!(!Authenticated::from_headers(KEYS, &vec!["nope".to_string()]).0);
    assert!(!Authenticated::from_headers(KEYS, &Vec::new()).0);
}

#[test]
fn authorized_events_reach_their_actions() {
    let f = fields(Some("ABCDEFGHIJKLMNBOPQRSTUVWXYZ"));
    assert!(matches!(decide_event(Event::Fetch, &f, KEYS), EventAction::Fetch(ks) if ks == "discord"));
    assert!(matches!(
        decide_event(Event::Invalid, &f, KEYS),
        EventAction::Invalidate(ks, id) if ks == "discord" && id == "4-0badf00d"
    ));
    assert!(matches!(decide_event(Event::Validate, &f, KEYS), EventAction::Notify(id) if id == "4-0badf00d"));
    assert!(matches!(decide_event(Event::Settings, &f, KEYS), EventAction::SendSettings));
    assert!(matches!(decide_event(Event::Connect, &f, KEYS), EventAction::SendAuthenticated));
    assert!(matches!(decide_event(Event::Disconnect, &f, KEYS), EventAction::Drop));
}

#[test]
fn unauthorized_events_change_nothing() {
    for auth in [Some("wrong"), None] {
        let f = fields(auth);
        for event in EVENTS {
            let action = decide_event(event, &f, KEYS);
            assert!(matches!(
                action,
                EventAction::Drop | EventAction::ReportMalformed | EventAction::ReportMissing(_)
            ));
        }
    }
}

#[test]
fn missing_fields_are_reported_for_data_events_only() {
    let mut f = fields(Some("ABCDEFGHIJKLMNBOPQRSTUVWXYZ"));
    f.keyspace = None;
    assert!(matches!(decide_event(Event::Fetch, &f, KEYS), EventAction::ReportMissing(k) if k == "keyspace"));
    assert!(matches!(decide_event(Event::Invalid, &f, KEYS), EventAction::ReportMissing(k) if k == "keyspace"));
    f.uuid = None;
    assert!(matches!(decide_event(Event::Invalid, &f, KEYS), EventAction::ReportMissing(k) if k == "uuid"));
    let mut g = fields(Some("ABCDEFGHIJKLMNBOPQRSTUVWXYZ"));
    g.has_account = false;
    assert!(matches!(decide_event(Event::Validate, &g, KEYS), EventAction::ReportMissing(k) if k == "acc"));
    g.has_account = true;
    g.id = None;
    assert!(matches!(decide_event(Event::Validate, &g, KEYS), EventAction::ReportMissing(k) if k == "id"));
    let h = fields(None);
    assert!(matches!(decide_event(Event::Fetch, &h, KEYS), EventAction::ReportMissing(k) if k == "auth"));
    assert!(matches!(decide_event(Event::Settings, &h, KEYS), EventAction::Drop));
    assert!(matches!(decide_event(Event::Connect, &h, KEYS), EventAction::Drop));
}

#[test]
fn malformed_payloads_are_reported_for_data_events_only() {
    let mut f = fields(Some("ABCDEFGHIJKLMNBOPQRSTUVWXYZ"));
    f.parsed = false;
    assert!(matches!(decide_event(Event::Fetch, &f, KEYS), EventAction::ReportMalformed));
    assert!(matches!(decide_event(Event::Invalid, &f, KEYS), EventAction::ReportMalformed));
    assert!(matches!(decide_event(Event::Validate, &f, KEYS), EventAction::ReportMalformed));
    assert!(matches!(decide_event(Event::Settings, &f, KEYS), EventAction::Drop));
    assert!(matches!(decide_event(Event::Connect, &f, KEYS), EventAction::Drop));
}
