use whitematter::namespace::{MetricKind, NamespaceError, NamespaceManager, ScalarKind};

fn open_unit(_: &str, _: usize, _: MetricKind, _: ScalarKind) -> Result<((), ()), String> {
    Ok(((), ()))
}

#[test]
fn test_namespace_manager() {
    let mut manager: NamespaceManager<(), ()> = NamespaceManager::new();

    // Create a namespace
    assert!(manager.create_namespace("test1", 128, MetricKind::Cos, ScalarKind::F32, open_unit).is_ok());

    // Check if namespace exists
    assert!(manager.namespace_exists("test1"));
    assert!(!manager.namespace_exists("nonexistent"));

    // Try to create a duplicate namespace
    assert!(manager.create_namespace("test1", 128, MetricKind::Cos, ScalarKind::F32, open_unit).is_err());

    // Get a namespace
    let namespace = manager.get_namespace("test1");
    assert!(namespace.is_ok());

    // List namespaces
    let namespaces = manager.list_namespaces();
    assert_eq!(namespaces, vec!["test1"]);

    // Delete a namespace
    assert!(manager.delete_namespace("test1").is_ok());

    // Try to get a deleted namespace
    assert!(manager.get_namespace("test1").is_err());

    // Try to delete a non-existent namespace
    assert!(manager.delete_namespace("nonexistent").is_err());
}

#[test]
fn created_namespace_keeps_its_shape_and_handles() {
    let mut manager: NamespaceManager<String, u64> = NamespaceManager::new();
    let r = manager.create_namespace("orders", 128, MetricKind::L2sq, ScalarKind::F16, |name, dims, _, _| {
        Ok((format!("data/{}", name), dims as u64))
    });
    assert_eq!(r, Ok(()));
    let ns = manager.get_namespace("orders").unwrap();
    assert_eq!(ns.dimensions, 128);
    assert_eq!(ns.metric, MetricKind::L2sq);
    assert_eq!(ns.scalar, ScalarKind::F16);
    assert_eq!(ns.db, "data/orders");
    assert_eq!(ns.vector_db, 128);
}

#[test]
fn second_create_is_already_exists_and_does_not_open() {
    let mut manager: NamespaceManager<(), ()> = NamespaceManager::new();
    assert_eq!(manager.create_namespace("orders", 128, MetricKind::Cos, ScalarKind::F32, open_unit), Ok(()));
    let mut opened = false;
    let r = manager.create_namespace("orders", 128, MetricKind::Cos, ScalarKind::F32, |_, _, _, _| {
        opened = true;
        Ok(((), ()))
    });
    assert_eq!(r, Err(NamespaceError::AlreadyExists));
    assert!(!opened);
    assert_eq!(manager.delete_namespace("never_created"), Err(NamespaceError::NotFound));
}

#[test]
fn failed_open_leaves_registry_unchanged() {
    let mut manager: NamespaceManager<(), ()> = NamespaceManager::new();
    let r = manager.create_namespace("bad", 4, MetricKind::Cos, ScalarKind::F32, |_, _, _, _| Err("disk full".to_string()));
    assert_eq!(r, Err(NamespaceError::Collaborator("disk full".to_string())));
    assert!(!manager.namespace_exists("bad"));
    assert!(manager.list_namespaces().is_empty());
}

#[test]
fn delete_then_get_is_not_found() {
    let mut manager: NamespaceManager<(), ()> = NamespaceManager::new();
    manager.create_namespace("a", 3, MetricKind::Cos, ScalarKind::F32, open_unit).unwrap();
    manager.create_namespace("b", 3, MetricKind::Cos, ScalarKind::F32, open_unit).unwrap();
    assert_eq!(manager.list_namespaces(), vec!["a", "b"]);
    manager.delete_namespace("a").unwrap();
    assert!(matches!(manager.get_namespace("a"), Err(NamespaceError::NotFound)));
    assert_eq!(manager.list_namespaces(), vec!["b"]);
}
