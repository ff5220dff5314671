use loom::checkpoint::{
    complete_checkpoint, consume_resume_value, get_checkpoint, get_tuple, list_checkpoints,
    load_resumes, make_checkpoint, make_checkpoint_scoped, put_writes, thread_positions, Checkpoint,
    CheckpointConfig, CheckpointMetadata,
};
use loom::clock::Timestamp;
use loom::json::codec::read_json;
use loom::json::Json;
use loom::llm::{ChatMessage, Role};
use loom::orchestration::WorkflowContext;
use loom::scope::{scope_place, MemoryScope};
use loom::session::{
    derive_title, list_sessions, load_messages, make_record, make_title_message,
    session_namespace, SessionRecord,
};

fn json(text: &str) -> Json {
    read_json(text).unwrap()
}

fn at(secs: i64) -> Timestamp {
    Timestamp { secs, nanos: 0 }
}

/// A store of checkpoints by namespace.
struct Store {
    stored: Vec<(String, Vec<Checkpoint>)>,
    resumes: Vec<(String, Vec<(String, Json)>)>,
}

impl Store {
    fn new() -> Self {
        Store { stored: Vec::new(), resumes: Vec::new() }
    }

    fn checkpoints(&mut self, namespace: String) -> &mut Vec<Checkpoint> {
        if let Some(i) = self.stored.iter().position(|(n, _)| *n == namespace) {
            return &mut self.stored[i].1;
        }
        self.stored.push((namespace, Vec::new()));
        &mut self.stored.last_mut().unwrap().1
    }

    fn answers(&mut self, config: &CheckpointConfig) -> &mut Vec<(String, Json)> {
        let namespace = config.resume_namespace();
        if let Some(i) = self.resumes.iter().position(|(n, _)| *n == namespace) {
            return &mut self.resumes[i].1;
        }
        self.resumes.push((namespace, Vec::new()));
        &mut self.resumes.last_mut().unwrap().1
    }

    fn put(&mut self, cp: Checkpoint, now: Timestamp) -> Checkpoint {
        let cp = complete_checkpoint(cp, now);
        let kept = cp.clone();
        self.checkpoints(cp.namespace()).push(cp);
        kept
    }

    fn get(&mut self, config: &CheckpointConfig) -> Option<Checkpoint> {
        get_checkpoint(self.checkpoints(config.namespace()), config)
    }

    fn list(&mut self, config: &CheckpointConfig) -> Vec<Checkpoint> {
        list_checkpoints(self.checkpoints(config.namespace()), config)
    }

    fn delete_thread(&mut self, config: &CheckpointConfig) {
        let stored = self.checkpoints(config.namespace());
        let mut positions = thread_positions(stored, config);
        positions.reverse();
        for i in positions {
            stored.remove(i);
        }
    }
}

fn thread(id: &str) -> CheckpointConfig {
    CheckpointConfig::new(id.to_string())
}

#[test]
fn test_put_and_get_checkpoint() {
    let mut saver = Store::new();
    let cp = make_checkpoint(
        "thread-1".to_string(),
        None,
        json(r#"{"messages": [], "iterations": 1}"#),
        CheckpointMetadata { step: 1, source: "step".to_string(), extra: Vec::new() },
        at(1),
    );
    let saved = saver.put(cp.clone(), at(1));
    assert_eq!(saved.thread_id, "thread-1");

    let config = thread("thread-1");
    let fetched = saver.get(&config);
    assert!(fetched.is_some());
    assert_eq!(fetched.unwrap().id, saved.id);
}

#[test]
fn test_get_specific_checkpoint() {
    let mut saver = Store::new();
    let cp1 = make_checkpoint(
        "thread-1".to_string(),
        None,
        json(r#"{"iterations": 1}"#),
        CheckpointMetadata::default(),
        at(1),
    );
    let saved1 = saver.put(cp1, at(1));

    let cp2 = make_checkpoint(
        "thread-1".to_string(),
        Some(saved1.id.clone()),
        json(r#"{"iterations": 2}"#),
        CheckpointMetadata::default(),
        at(2),
    );
    let saved2 = saver.put(cp2, at(2));

    let config = thread("thread-1").with_checkpoint(saved1.id.clone());
    let fetched = saver.get(&config);
    assert_eq!(fetched.unwrap().id, saved1.id);

    let config = thread("thread-1");
    let latest = saver.get(&config);
    assert_eq!(latest.unwrap().id, saved2.id);
}

#[test]
fn test_put_writes_and_get_tuple() {
    let mut saver = Store::new();
    let cp = make_checkpoint(
        "thread-1".to_string(),
        None,
        json(r#"{"iterations": 1}"#),
        CheckpointMetadata::default(),
        at(1),
    );
    let saved = saver.put(cp, at(1));

    let config = thread("thread-1").with_checkpoint(saved.id.clone());
    let stored = saver.checkpoints(config.namespace()).clone();
    let after = put_writes(&stored, saver.answers(&config).clone(), &config, json(r#"{"approved": true}"#));
    *saver.answers(&config) = after.unwrap().unwrap();

    let tuple = get_tuple(&stored, saver.answers(&config), &config).unwrap();
    assert_eq!(tuple.pending_resume, Some(json(r#"{"approved": true}"#)));
}

#[test]
fn an_answer_is_taken_once() {
    let cp = make_checkpoint(
        "thread-1".to_string(),
        None,
        json("{}"),
        CheckpointMetadata::default(),
        at(1),
    );
    let stored = vec![cp.clone()];
    let config = thread("thread-1");
    let answers = put_writes(&stored, Vec::new(), &config, json("\"yes\"")).unwrap().unwrap();
    let (value, left) = consume_resume_value(&stored, &answers, &config).unwrap();
    assert_eq!(value, json("\"yes\""));
    assert!(consume_resume_value(&stored, &left, &config).is_none());
}

#[test]
fn an_answer_needs_a_checkpoint() {
    let named = thread("thread-1").with_checkpoint("none".to_string());
    let refused = put_writes(&[], Vec::new(), &named, Json::Null);
    assert_eq!(
        refused.unwrap_err().to_text(),
        "checkpoint none not found in current scope (thread=thread-1, tenant=None, user=None)"
    );
    assert_eq!(put_writes(&[], Vec::new(), &thread("thread-1"), Json::Null), Ok(None));
}

#[test]
fn test_list_checkpoints() {
    let mut saver = Store::new();
    for i in 1..=3 {
        let cp = make_checkpoint(
            "thread-1".to_string(),
            None,
            json(&format!("{{\"iterations\": {i}}}")),
            CheckpointMetadata::default(),
            at(i),
        );
        saver.put(cp, at(i));
    }

    let config = thread("thread-1");
    let list = saver.list(&config);
    assert_eq!(list.len(), 3);
    assert!(list[0].created_at.after(&list[1].created_at));
    assert!(list[1].created_at.after(&list[2].created_at));
}

#[test]
fn test_delete_thread() {
    let mut saver = Store::new();
    let cp = make_checkpoint(
        "thread-1".to_string(),
        None,
        json(r#"{"iterations": 1}"#),
        CheckpointMetadata::default(),
        at(1),
    );
    saver.put(cp, at(1));

    let config = thread("thread-1");
    saver.delete_thread(&config);

    let fetched = saver.get(&config);
    assert!(fetched.is_none());
}

#[test]
fn test_nonexistent_thread() {
    let mut saver = Store::new();
    let config = thread("no-such-thread");
    let fetched = saver.get(&config);
    assert!(fetched.is_none());

    let list = saver.list(&config);
    assert!(list.is_empty());
}

#[test]
fn checkpoint_test_tenant_isolation() {
    let mut saver = Store::new();
    let cp_a = make_checkpoint_scoped(
        "thread-1".to_string(),
        None,
        json(r#"{"iterations": 1}"#),
        CheckpointMetadata::default(),
        at(1),
        Some("tenant-a".to_string()),
        Some("user-1".to_string()),
    );
    saver.put(cp_a, at(1));

    let cp_b = make_checkpoint_scoped(
        "thread-1".to_string(),
        None,
        json(r#"{"iterations": 2}"#),
        CheckpointMetadata::default(),
        at(2),
        Some("tenant-b".to_string()),
        Some("user-2".to_string()),
    );
    saver.put(cp_b, at(2));

    let config_a =
        thread("thread-1").with_tenant(Some("tenant-a".to_string()), Some("user-1".to_string()));
    let list_a = saver.list(&config_a);
    assert_eq!(list_a.len(), 1);
    assert_eq!(list_a[0].tenant_id.as_deref(), Some("tenant-a"));

    let config_b =
        thread("thread-1").with_tenant(Some("tenant-b".to_string()), Some("user-2".to_string()));
    let list_b = saver.list(&config_b);
    assert_eq!(list_b.len(), 1);
    assert_eq!(list_b[0].tenant_id.as_deref(), Some("tenant-b"));

    let config_global = thread("thread-1");
    let list_global = saver.list(&config_global);
    assert!(list_global.is_empty());
}

// ---------- conversations ----------

/// A store of conversations by namespace and name.
struct Sessions {
    stored: Vec<(String, String, SessionRecord)>,
}

impl Sessions {
    fn new() -> Self {
        Sessions { stored: Vec::new() }
    }

    fn position(&self, scope: &MemoryScope, id: &str) -> Option<usize> {
        let namespace = session_namespace(scope);
        self.stored.iter().position(|(n, i, _)| *n == namespace && i == id)
    }

    fn save(&mut self, scope: &MemoryScope, id: &str, msgs: &[ChatMessage]) {
        let record = make_record(scope, msgs, 1);
        if let Some(i) = self.position(scope, id) {
            self.stored.remove(i);
        }
        self.stored.push((session_namespace(scope), id.to_string(), record));
    }

    fn get(&self, scope: &MemoryScope, id: &str) -> Option<Vec<ChatMessage>> {
        load_messages(&self.stored[self.position(scope, id)?].2, scope)
    }

    fn delete(&mut self, scope: &MemoryScope, id: &str) -> bool {
        match self.position(scope, id) {
            Some(i) => {
                self.stored.remove(i);
                true
            }
            None => false,
        }
    }

    fn list(&self, scope: &MemoryScope) -> usize {
        let namespace = session_namespace(scope);
        let here: Vec<(String, SessionRecord)> = self
            .stored
            .iter()
            .filter(|(n, _, _)| *n == namespace)
            .map(|(_, i, r)| (i.clone(), r.clone()))
            .collect();
        list_sessions(&here, scope).len()
    }
}

fn said(text: &str) -> Vec<ChatMessage> {
    vec![ChatMessage {
        role: Role::User,
        content: Some(text.to_string()),
        tool_calls: None,
        tool_call_id: None,
    }]
}

#[test]
fn test_save_and_get() {
    let mut store = Sessions::new();
    let scope = MemoryScope::default();
    let msgs = said("hello");
    store.save(&scope, "s1", &msgs);
    let fetched = store.get(&scope, "s1").unwrap();
    assert_eq!(fetched.len(), 1);
    assert_eq!(fetched[0].content, Some("hello".to_string()));
}

#[test]
fn test_delete() {
    let mut store = Sessions::new();
    let scope = MemoryScope::default();
    let msgs = said("hi");
    store.save(&scope, "s1", &msgs);
    assert!(store.delete(&scope, "s1"));
    assert!(!store.delete(&scope, "s1"));
    assert!(store.get(&scope, "s1").is_none());
}

#[test]
fn test_list() {
    let mut store = Sessions::new();
    let scope = MemoryScope::default();
    let msgs = said("hi");
    store.save(&scope, "s1", &msgs);
    store.save(&scope, "s2", &msgs);

    assert_eq!(store.list(&scope), 2);
}

#[test]
fn session_store_test_tenant_isolation() {
    let mut store = Sessions::new();
    let scope_a = MemoryScope::new(Some("tenant-a".to_string()), Some("user-1".to_string()));
    let scope_b = MemoryScope::new(Some("tenant-b".to_string()), Some("user-2".to_string()));

    let msgs = said("hello from A");
    store.save(&scope_a, "s1", &msgs);

    assert!(store.get(&scope_b, "s1").is_none());
    assert_eq!(store.list(&scope_b), 0);

    assert!(store.get(&scope_a, "s1").is_some());
    assert_eq!(store.list(&scope_a), 1);
}

#[test]
fn a_record_of_another_is_not_read() {
    let tenant = MemoryScope::tenant("a".to_string());
    let user = MemoryScope::user("a".to_string());
    assert_ne!(session_namespace(&tenant), session_namespace(&user));
    let record = make_record(&tenant, &said("x"), 1);
    assert!(load_messages(&record, &user).is_none());
    assert!(load_messages(&record, &tenant).is_some());
}

#[test]
fn sessions_are_listed_newest_first() {
    let scope = MemoryScope::default();
    let stored = vec![
        ("old".to_string(), make_record(&scope, &said("a"), 1)),
        ("new".to_string(), make_record(&scope, &said("b"), 2)),
    ];
    let list = list_sessions(&stored, &scope);
    assert_eq!(list[0].session_id, "new");
    assert_eq!(list[1].session_id, "old");
    assert_eq!(list[0].message_count, 1);
    assert_eq!(list[0].title, "b");
}

#[test]
fn test_derive_title_from_user_message() {
    let msgs = said("帮我写一个 Rust 程序");
    assert_eq!(derive_title(&msgs), "帮我写一个 Rust 程序");
}

#[test]
fn test_derive_title_from_system_tag() {
    let mut msgs = vec![ChatMessage {
        role: Role::System,
        content: Some("[session-title] 我的会话".to_string()),
        tool_calls: None,
        tool_call_id: None,
    }];
    msgs.extend(said("hello"));
    assert_eq!(derive_title(&msgs), "我的会话");
}

#[test]
fn a_given_title_is_the_title() {
    let msgs = vec![make_title_message("  my title "), ChatMessage::user("hello".to_string())];
    assert_eq!(derive_title(&msgs), "my title");
}

#[test]
fn namespaces_name_their_scope() {
    assert_eq!(MemoryScope::tenant_user("t".into(), "u".into()).namespace(), "memory:t:u");
    assert_eq!(MemoryScope::tenant("acme".into()).namespace(), "memory:acme");
    assert_eq!(MemoryScope::user("alice".into()).namespace(), "memory:alice");
    assert_eq!(MemoryScope::default().namespace(), "memory:global");
}

#[test]
fn scopes_are_stored_apart() {
    let name = |s: &str| Some(s.to_string());
    assert_eq!(scope_place("session", &name("t"), &name("u:v")), "session:t:u:v");
    assert_eq!(scope_place("session", &None, &None), "session:global");
    let scopes = [
        (name("x"), None),
        (None, name("x")),
        (name("x"), name("")),
        (name(""), name("x")),
        (name("global"), None),
        (None, name("global")),
        (None, None),
        (name("a:b"), name("c")),
        (name("a"), name("b:c")),
        (name("a:b:c"), None),
        (None, name("a:b:c")),
        (name("1:a"), name("b")),
    ];
    for (i, (t, u)) in scopes.iter().enumerate() {
        for (t2, u2) in &scopes[i + 1..] {
            assert_ne!(scope_place("p", t, u), scope_place("p", t2, u2));
            let a = CheckpointConfig::new("t".into()).with_tenant(t.clone(), u.clone());
            let b = CheckpointConfig::new("t".into()).with_tenant(t2.clone(), u2.clone());
            assert_ne!(a.namespace(), b.namespace());
            assert_ne!(a.resume_namespace(), b.resume_namespace());
        }
    }
}

#[test]
fn values_of_a_workflow_are_read_back() {
    let mut ctx = WorkflowContext { outputs: Vec::new(), last_output: None };
    ctx.set("a", json("1"));
    ctx.set("b", json("2"));
    ctx.set("a", json("3"));
    assert_eq!(ctx.get("a"), Some(&json("3")));
    assert_eq!(ctx.get("b"), Some(&json("2")));
    assert_eq!(ctx.get("c"), None);
}

#[test]
fn answers_are_read_from_what_is_stored() {
    let stored = json(r#"{"cp-1": "yes", "cp-2": 2}"#);
    let resumes = load_resumes(Some(&stored));
    assert_eq!(resumes.len(), 2);
    assert_eq!(resumes[0], ("cp-1".to_string(), json(r#""yes""#)));
    assert!(load_resumes(Some(&json("[1]"))).is_empty());
    assert!(load_resumes(None).is_empty());
}
