//! The checks and decisions of the two ingress surfaces: who may call, what
//! the params of an add are, and what each pub/sub event leads to.
use vstd::prelude::*;
use crate::text::{chars_of, push_char, same_text, string_of};

verus! {

broadcast use vstd::string::group_string_axioms;

/// Whether `token` is one of `keys`.
pub open spec fn authorized(keys: Seq<&str>, token: Seq<char>) -> bool {
    exists|k: int| 0 <= k < keys.len() && #[trigger] keys[k]@ == token
}

/// Whether `token` is on the allow-list `keys`.
pub fn is_authorized(keys: &[&str], token: &str) -> (r: bool)
    ensures
        r == authorized(keys@, token@),
{
    let mut i: usize = 0;
    while i < keys.len()
        invariant
            i <= keys@.len(),
            forall|k: int| 0 <= k < i ==> #[trigger] keys@[k]@ != token@,
        decreases keys.len() - i,
    {
        if same_text(keys[i], token) {
            return true;
        }
        i = i + 1;
    }
    false
}

/// Whether a request/response call supplied a token on the allow-list.
pub struct Authenticated(pub bool);

impl Authenticated {
    /// Authenticated where any of the `Authorization` values is on the
    /// allow-list `keys`.
    pub fn from_headers(keys: &[&str], values: &Vec<String>) -> (r: Authenticated)
        ensures
            r.0 == exists|v: int| 0 <= v < values@.len() && authorized(keys@, #[trigger] values@[v]@),
    {
        let mut i: usize = 0;
        while i < values.len()
            invariant
                i <= values@.len(),
                forall|v: int| 0 <= v < i ==> !authorized(keys@, #[trigger] values@[v]@),
            decreases values.len() - i,
        {
            if is_authorized(keys, values[i].as_str()) {
                return Authenticated(true);
            }
            i = i + 1;
        }
        Authenticated(false)
    }
}

/// What `str::to_lowercase` makes of a text.
pub uninterp spec fn lower_of(s: Seq<char>) -> Seq<char>;

/// Relies on `str::to_lowercase`: the result depends on the characters alone.
#[verifier::external_body]
fn lowercase(s: &str) -> (r: String)
    ensures
        r@ == lower_of(s@),
{
    s.to_lowercase()
}

/// A header whose name starts with `p-`, in either case, carries a param.
pub open spec fn is_param_header(name: Seq<char>) -> bool {
    name.len() >= 2 && (name[0] == 'p' || name[0] == 'P') && name[1] == '-'
}

/// The param headers among `headers`, each as `{name without p-}|{value}`
/// and a newline, in order.
pub open spec fn params_text(headers: Seq<(Seq<char>, Seq<char>)>) -> Seq<char>
    decreases headers.len(),
{
    if headers.len() == 0 {
        Seq::empty()
    } else {
        let before = params_text(headers.drop_last());
        let (name, value) = headers.last();
        if is_param_header(name) {
            before + name.subrange(2, name.len() as int) + seq!['|'] + value + seq!['\n']
        } else {
            before
        }
    }
}

/// The names and values of headers.
pub open spec fn header_texts(headers: Seq<(String, String)>) -> Seq<(Seq<char>, Seq<char>)> {
    headers.map_values(|h: (String, String)| (h.0@, h.1@))
}

/// The params of an add: the opaque text attached to every item it writes.
pub struct Params(pub String);

impl Params {
    /// The params that the `p-` headers among `headers` (name, value) carry,
    /// lowercased.
    pub fn from_headers(headers: &Vec<(String, String)>) -> (r: Params)
        ensures
            r.0@ == lower_of(params_text(header_texts(headers@))),
    {
        let ghost hs = header_texts(headers@);
        let mut text = String::new();
        let mut i: usize = 0;
        while i < headers.len()
            invariant
                hs == header_texts(headers@),
                i <= headers@.len(),
                text@ == params_text(hs.subrange(0, i as int)),
            decreases headers.len() - i,
        {
            assert(hs.subrange(0, i + 1).drop_last() =~= hs.subrange(0, i as int));
            let name = chars_of(headers[i].0.as_str());
            if name.len() >= 2 && (name[0] == 'p' || name[0] == 'P') && name[1] == '-' {
                let rest = string_of(&name, 2, name.len());
                text.append(rest.as_str());
                push_char(&mut text, '|');
                text.append(headers[i].1.as_str());
                push_char(&mut text, '\n');
            }
            i = i + 1;
            assert(text@ =~= params_text(hs.subrange(0, i as int)));
        }
        assert(hs.subrange(0, i as int) =~= hs);
        Params(lowercase(text.as_str()))
    }
}

/// The commands a peer of the pub/sub surface can send.
#[derive(PartialEq, Eq, Structural, Clone, Copy)]
pub enum Event {
    Fetch,
    Invalid,
    Validate,
    Settings,
    Connect,
    Disconnect,
}

/// The fields of an event's payload that the decisions read: whether the
/// payload parsed at all, and each text field that was present.
pub struct EventFields {
    pub parsed: bool,
    pub auth: Option<String>,
    pub keyspace: Option<String>,
    pub uuid: Option<String>,
    pub id: Option<String>,
    pub has_account: bool,
}

/// What the gateway does with an event.
pub enum EventAction {
    /// Send the peer the error of its unparseable payload.
    ReportMalformed,
    /// Send the peer an error naming the missing field.
    ReportMissing(String),
    /// Answer nothing.
    Drop,
    /// Fetch from the keyspace and send the peer the result.
    Fetch(String),
    /// Remove an item (keyspace, id).
    Invalidate(String, String),
    /// Hand the item id and the payload's account info to the notification sink.
    Notify(String),
    /// Send the peer the operational settings.
    SendSettings,
    /// Tell the peer that its token was accepted.
    SendAuthenticated,
}

/// The kind of an [`EventAction`], without its data.
pub enum ActionKind {
    ReportMalformed,
    ReportMissing,
    Drop,
    Fetch,
    Invalidate,
    Notify,
    SendSettings,
    SendAuthenticated,
}

impl EventAction {
    pub open spec fn kind(&self) -> ActionKind {
        match self {
            EventAction::ReportMalformed => ActionKind::ReportMalformed,
            EventAction::ReportMissing(_) => ActionKind::ReportMissing,
            EventAction::Drop => ActionKind::Drop,
            EventAction::Fetch(_) => ActionKind::Fetch,
            EventAction::Invalidate(_, _) => ActionKind::Invalidate,
            EventAction::Notify(_) => ActionKind::Notify,
            EventAction::SendSettings => ActionKind::SendSettings,
            EventAction::SendAuthenticated => ActionKind::SendAuthenticated,
        }
    }
}

/// Whether the event names a keyspace.
pub open spec fn needs_keyspace(event: Event) -> bool {
    event == Event::Fetch || event == Event::Invalid
}

/// Whether the event names an item to remove, under `uuid`.
pub open spec fn needs_uuid(event: Event) -> bool {
    event == Event::Invalid
}

/// Whether the event names a validated item, under `id`.
pub open spec fn needs_id(event: Event) -> bool {
    event == Event::Validate
}

/// Whether the event carries account info, under `acc`.
pub open spec fn needs_account(event: Event) -> bool {
    event == Event::Validate
}

/// Whether an event carries its own token and reports malformed payloads
/// back to the peer; `connect` and `settings` stay silent on any failure,
/// so that guessing tokens learns nothing.
pub open spec fn reports_errors(event: Event) -> bool {
    event == Event::Fetch || event == Event::Invalid || event == Event::Validate
}

/// Whether the payload lacks a field the event needs (token included).
pub open spec fn lacks_field(event: Event, f: EventFields) -> bool {
    ||| (needs_account(event) && !f.has_account)
    ||| (needs_id(event) && f.id is None)
    ||| (needs_uuid(event) && f.uuid is None)
    ||| (needs_keyspace(event) && f.keyspace is None)
    ||| f.auth is None
}

/// The kind of action an event leads to, given the allow-list `keys`.
pub open spec fn event_kind(event: Event, f: EventFields, keys: Seq<&str>) -> ActionKind {
    if event == Event::Disconnect {
        ActionKind::Drop
    } else if !f.parsed {
        if reports_errors(event) {
            ActionKind::ReportMalformed
        } else {
            ActionKind::Drop
        }
    } else if lacks_field(event, f) {
        if reports_errors(event) {
            ActionKind::ReportMissing
        } else {
            ActionKind::Drop
        }
    } else if !authorized(keys, f.auth->0@) {
        ActionKind::Drop
    } else {
        match event {
            Event::Fetch => ActionKind::Fetch,
            Event::Invalid => ActionKind::Invalidate,
            Event::Validate => ActionKind::Notify,
            Event::Settings => ActionKind::SendSettings,
            _ => ActionKind::SendAuthenticated,
        }
    }
}

/// The name of the first field the event needs that the payload lacks, in
/// the order the fields are checked.
pub open spec fn missing_field(event: Event, f: EventFields) -> Seq<char> {
    if needs_account(event) && !f.has_account {
        "acc"@
    } else if needs_id(event) && f.id is None {
        "id"@
    } else if needs_uuid(event) && f.uuid is None {
        "uuid"@
    } else if needs_keyspace(event) && f.keyspace is None {
        "keyspace"@
    } else {
        "auth"@
    }
}

/// Authorization gate: an event whose token is missing or not on the
/// allow-list never reaches the store, the notification sink, or the
/// settings, and is never acknowledged.
pub proof fn lemma_unauthorized_event_changes_nothing(event: Event, f: EventFields, keys: Seq<&str>)
    requires
        f.auth is None || !authorized(keys, f.auth->0@),
    ensures
        ({
            let k = event_kind(event, f, keys);
            k is Drop || k is ReportMalformed || k is ReportMissing
        }),
{
}

fn copy_text(s: &Option<String>) -> (r: String)
    requires
        s is Some,
    ensures
        r@ == s->0@,
{
    match s {
        Some(t) => t.clone(),
        None => String::new(),
    }
}

/// What the gateway does with `event` carrying `f`, given the allow-list
/// `keys`: the action's kind is [`event_kind`], and it carries the payload's
/// own fields.
pub fn decide_event(event: Event, f: &EventFields, keys: &[&str]) -> (r: EventAction)
    ensures
        r.kind() == event_kind(event, *f, keys@),
        r matches EventAction::ReportMissing(name) ==> name@ == missing_field(event, *f),
        r matches EventAction::Fetch(ks) ==> ks@ == f.keyspace->0@,
        r matches EventAction::Invalidate(ks, id) ==> ks@ == f.keyspace->0@ && id@ == f.uuid->0@,
        r matches EventAction::Notify(id) ==> id@ == f.id->0@,
{
    let reports = event == Event::Fetch || event == Event::Invalid || event == Event::Validate;
    if event == Event::Disconnect {
        return EventAction::Drop;
    }
    if !f.parsed {
        return if reports {
            EventAction::ReportMalformed
        } else {
            EventAction::Drop
        };
    }
    let missing = if event == Event::Validate && !f.has_account {
        Some("acc")
    } else if event == Event::Validate && f.id.is_none() {
        Some("id")
    } else if event == Event::Invalid && f.uuid.is_none() {
        Some("uuid")
    } else if (event == Event::Fetch || event == Event::Invalid) && f.keyspace.is_none() {
        Some("keyspace")
    } else if f.auth.is_none() {
        Some("auth")
    } else {
        None
    };
    match missing {
        Some(name) => {
            return if reports {
                EventAction::ReportMissing(String::from_str(name))
            } else {
                EventAction::Drop
            };
        },
        None => {},
    }
    let token = copy_text(&f.auth);
    if !is_authorized(keys, token.as_str()) {
        return EventAction::Drop;
    }
    match event {
        Event::Fetch => EventAction::Fetch(copy_text(&f.keyspace)),
        Event::Invalid => EventAction::Invalidate(copy_text(&f.keyspace), copy_text(&f.uuid)),
        Event::Validate => EventAction::Notify(copy_text(&f.id)),
        Event::Settings => EventAction::SendSettings,
        _ => EventAction::SendAuthenticated,
    }
}

} // verus!
