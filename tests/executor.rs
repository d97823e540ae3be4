use whitematter::query::value::{render_result, RenderError, ScriptValue};
use std::cell::RefCell;
use std::collections::HashMap;

use whitematter::auth::manager::AuthManager;
use whitematter::gate::PoolKind;
use whitematter::namespace::{MetricKind, NamespaceManager, ScalarKind};
use whitematter::query::executor::{parse_metric, parse_scalar, BridgeError, HostFunction, QueryExecutor, StoreOp, StoreRequest};
use whitematter::query::parser::ParseError;

type Store = RefCell<HashMap<String, String>>;
type Exec = QueryExecutor<Store, ()>;

fn open_store(_: &str, _: usize, _: MetricKind, _: ScalarKind) -> Result<(Store, ()), String> {
    Ok((RefCell::new(HashMap::new()), ()))
}

fn executor_with(users: &[(&str, &[&str])], namespaces: &[&str], llm: usize, embedding: usize) -> Exec {
    let mut auth = AuthManager::new();
    for (user, caps) in users {
        auth.add_user(user, caps.iter().map(|c| c.to_string()).collect());
    }
    let mut registry = NamespaceManager::new();
    for name in namespaces {
        registry.create_namespace(name, 4, MetricKind::L2sq, ScalarKind::F32, open_store).unwrap();
    }
    QueryExecutor::new(registry, auth, llm, embedding)
}

/// Plans a statement and carries it out on the in-memory store of its namespace.
fn run(exec: &Exec, query: &str, user: &str) -> Result<Option<String>, BridgeError> {
    let req = exec.plan_statement(query, user)?;
    let ns = exec.namespace(&req.namespace)?;
    let mut store = ns.db.borrow_mut();
    Ok(match req.op {
        StoreOp::Get { key } => store.get(&key).cloned(),
        StoreOp::Put { key, value } => {
            store.insert(key, value);
            None
        }
        StoreOp::Remove { key } => {
            store.remove(&key);
            None
        }
    })
}

#[test]
fn insert_then_select_for_admin_and_unauthorized_for_anonymous() {
    let exec = executor_with(&[("admin", &["select", "insert"])], &["ns1"], 5, 10);
    assert_eq!(run(&exec, "insert ns1 k1 v1", "admin"), Ok(None));
    assert_eq!(run(&exec, "select ns1 k1", "admin"), Ok(Some("v1".to_string())));
    assert_eq!(run(&exec, "select ns1 k1", "anonymous"), Err(BridgeError::Unauthorized));
}

#[test]
fn plan_statement_builds_the_store_request() {
    let exec = executor_with(&[("u", &["update", "delete"])], &["ns1"], 1, 1);
    assert_eq!(
        exec.plan_statement("UPDATE ns1 k v2", "u"),
        Ok(StoreRequest { namespace: "ns1".to_string(), op: StoreOp::Put { key: "k".to_string(), value: "v2".to_string() } })
    );
    assert_eq!(
        exec.plan_statement("delete ns1 k", "u"),
        Ok(StoreRequest { namespace: "ns1".to_string(), op: StoreOp::Remove { key: "k".to_string() } })
    );
}

#[test]
fn plan_statement_errors_in_order() {
    let exec = executor_with(&[("u", &["select"])], &["ns1"], 1, 1);
    assert_eq!(exec.plan_statement("", "u"), Err(BridgeError::Syntax(ParseError::EmptyQuery)));
    assert_eq!(exec.plan_statement("frobnicate x", "u"), Err(BridgeError::Syntax(ParseError::UnknownQueryType)));
    assert_eq!(exec.plan_statement("join a b", "u"), Err(BridgeError::Unsupported));
    // Unauthorized comes before a missing namespace and a wrong argument count.
    assert_eq!(exec.plan_statement("insert nowhere k v", "u"), Err(BridgeError::Unauthorized));
    assert_eq!(exec.plan_statement("insert ns1 k", "u"), Err(BridgeError::Unauthorized));
    assert_eq!(exec.plan_statement("select ns1", "u"), Err(BridgeError::InvalidArgument));
    assert_eq!(exec.plan_statement("select nowhere k", "u"), Err(BridgeError::NotFound));
}

#[test]
fn create_twice_is_already_exists_and_delete_unknown_is_not_found() {
    let mut exec = executor_with(&[("admin", &["create_namespace", "delete_namespace", "list_namespaces"])], &[], 1, 1);
    assert_eq!(exec.create_namespace("admin", "orders", 128, "cosine", "f32", open_store), Ok(()));
    assert_eq!(exec.create_namespace("admin", "orders", 128, "cosine", "f32", open_store), Err(BridgeError::AlreadyExists));
    assert_eq!(exec.delete_namespace("admin", "never_created"), Err(BridgeError::NotFound));
    let ns = exec.namespace("orders").unwrap();
    assert_eq!(ns.dimensions, 128);
    assert_eq!(ns.metric, MetricKind::Cos);
    assert_eq!(exec.list_namespaces("admin"), Ok(vec!["orders".to_string()]));
    assert_eq!(exec.delete_namespace("admin", "orders"), Ok(()));
    assert_eq!(exec.namespace("orders").err(), Some(BridgeError::NotFound));
}

#[test]
fn namespace_admin_checks_capability_first() {
    let mut exec = executor_with(&[("reader", &["select"])], &["ns1"], 1, 1);
    assert_eq!(exec.create_namespace("reader", "ns1", 8, "bogus", "f64", open_store), Err(BridgeError::Unauthorized));
    assert_eq!(exec.delete_namespace("reader", "missing"), Err(BridgeError::Unauthorized));
    assert_eq!(exec.list_namespaces("reader"), Err(BridgeError::Unauthorized));
    assert!(exec.namespace("ns1").is_ok());
}

#[test]
fn create_rejects_unknown_metric_or_scalar() {
    let mut exec = executor_with(&[("admin", &["create_namespace"])], &[], 1, 1);
    assert_eq!(exec.create_namespace("admin", "a", 8, "manhattan", "f32", open_store), Err(BridgeError::InvalidArgument));
    assert_eq!(exec.create_namespace("admin", "a", 8, "euclidean", "i8", open_store), Err(BridgeError::InvalidArgument));
    assert_eq!(exec.create_namespace("admin", "a", 8, "euclidean", "f16", open_store), Ok(()));
    assert_eq!(exec.namespace("a").unwrap().scalar, ScalarKind::F16);
}

#[test]
fn metric_and_scalar_names() {
    assert_eq!(parse_metric("cosine"), Ok(MetricKind::Cos));
    assert_eq!(parse_metric("euclidean"), Ok(MetricKind::L2sq));
    assert_eq!(parse_metric("Cosine"), Err(BridgeError::InvalidArgument));
    assert_eq!(parse_scalar("f32"), Ok(ScalarKind::F32));
    assert_eq!(parse_scalar("f16"), Ok(ScalarKind::F16));
    assert_eq!(parse_scalar(""), Err(BridgeError::InvalidArgument));
}

#[test]
fn second_concurrent_llm_query_is_refused_until_the_first_ends() {
    let mut exec = executor_with(&[("admin", &["llm_query"])], &[], 1, 10);
    let first = exec.begin_call("admin", HostFunction::LlmQuery, "").unwrap();
    assert_eq!(first.pool(), Some(PoolKind::Inference));
    assert_eq!(exec.begin_call("admin", HostFunction::LlmQuery, "").err(), Some(BridgeError::ResourceExhausted));
    assert_eq!(exec.in_flight(PoolKind::Inference), 1);
    exec.end_call(first);
    assert_eq!(exec.in_flight(PoolKind::Inference), 0);
    let again = exec.begin_call("admin", HostFunction::LlmQuery, "").unwrap();
    exec.end_call(again);
}

#[test]
fn begin_call_checks_capability_then_namespace() {
    let mut exec = executor_with(&[("u", &["similarity_search", "generate_embedding"])], &["docs"], 1, 1);
    assert_eq!(exec.begin_call("other", HostFunction::SimilaritySearch, "missing").err(), Some(BridgeError::Unauthorized));
    assert_eq!(exec.begin_call("u", HostFunction::SimilaritySearch, "missing").err(), Some(BridgeError::NotFound));
    let a = exec.begin_call("u", HostFunction::SimilaritySearch, "docs").unwrap();
    assert_eq!(a.pool(), None);
    exec.end_call(a);
    let e = exec.begin_call("u", HostFunction::GenerateEmbedding, "").unwrap();
    assert_eq!(e.pool(), Some(PoolKind::Embedding));
    assert_eq!(exec.in_flight(PoolKind::Embedding), 1);
    exec.end_call(e);
    assert_eq!(exec.in_flight(PoolKind::Embedding), 0);
}

#[test]
fn host_function_names_are_capabilities() {
    assert_eq!(HostFunction::LlmQuery.name(), "llm_query");
    assert_eq!(HostFunction::ListNamespaces.name(), "list_namespaces");
    assert_eq!(HostFunction::RetrieveFile.name(), "retrieve_file");
    assert_eq!(HostFunction::GenerateEmbedding.pool(), Some(PoolKind::Embedding));
    assert_eq!(HostFunction::Select.pool(), None);
    assert!(HostFunction::Delete.reads_namespace());
    assert!(!HostFunction::CreateNamespace.reads_namespace());
}

#[test]
fn script_values_render_as_text() {
    assert_eq!(render_result(ScriptValue::Nil), Ok("nil".to_string()));
    assert_eq!(render_result(ScriptValue::Boolean(true)), Ok("true".to_string()));
    assert_eq!(render_result(ScriptValue::Boolean(false)), Ok("false".to_string()));
    assert_eq!(render_result(ScriptValue::Integer(-42)), Ok("-42".to_string()));
    assert_eq!(render_result(ScriptValue::Integer(0)), Ok("0".to_string()));
    assert_eq!(render_result(ScriptValue::Integer(i64::MIN)), Ok("-9223372036854775808".to_string()));
    assert_eq!(render_result(ScriptValue::Text("v1".to_string())), Ok("v1".to_string()));
    assert_eq!(render_result(ScriptValue::Opaque), Err(RenderError::UnexpectedType));
}

#[test]
fn table_results_render_as_structured_text() {
    let seq = ScriptValue::Sequence(vec![ScriptValue::Integer(1), ScriptValue::Integer(2)]);
    assert_eq!(render_result(seq), Ok("[1,2]".to_string()));
    assert_eq!(render_result(ScriptValue::Sequence(vec![])), Ok("[]".to_string()));
    let record = ScriptValue::Record(vec![
        ("id".to_string(), ScriptValue::Integer(7)),
        ("distance".to_string(), ScriptValue::Number("0.25".to_string())),
        ("tags".to_string(), ScriptValue::Sequence(vec![ScriptValue::Text("a\"b".to_string()), ScriptValue::Nil])),
        ("ok".to_string(), ScriptValue::Boolean(true)),
    ]);
    assert_eq!(
        render_result(record),
        Ok(r#"{"id":7,"distance":0.25,"tags":["a\"b",null],"ok":true}"#.to_string())
    );
    assert_eq!(render_result(ScriptValue::Record(vec![])), Ok("{}".to_string()));
}

#[test]
fn nested_text_is_escaped_and_top_level_text_is_not() {
    let inner = ScriptValue::Sequence(vec![ScriptValue::Text("line\nnext\t\\".to_string())]);
    assert_eq!(render_result(inner), Ok(r#"["line\nnext\t\\"]"#.to_string()));
    assert_eq!(render_result(ScriptValue::Text("a\"b".to_string())), Ok("a\"b".to_string()));
    assert_eq!(render_result(ScriptValue::Number("1.5".to_string())), Ok("1.5".to_string()));
}

#[test]
fn value_without_text_form_anywhere_is_an_error() {
    let nested = ScriptValue::Sequence(vec![ScriptValue::Integer(1), ScriptValue::Opaque]);
    assert_eq!(render_result(nested), Err(RenderError::UnexpectedType));
    let field = ScriptValue::Record(vec![("f".to_string(), ScriptValue::Opaque)]);
    assert_eq!(render_result(field), Err(RenderError::UnexpectedType));
}
