use parasite_registry::parasite::AgentStatus;
use parasite_registry::parasite::ParasiteManager;
use parasite_registry::parasite::ParasiticAgent;

#[test]
fn test_parasitic_agent_management() {
    let mut manager = ParasiteManager::new();

    let agent = manager
        .create_parasitic_agent(
            "Test Parasite",
            "TargetAgent1",
            vec!["Clone".to_string(), "Analyze".to_string()],
        )
        .expect("identifier generation failed");
    assert_eq!(agent.name, "Test Parasite");

    let fetched_agent = manager.get_parasitic_agent(agent.id).unwrap();
    assert_eq!(fetched_agent.name, "Test Parasite");

    assert_eq!(manager.list_agents().len(), 1);

    manager.deactivate_agent(agent.id).unwrap();
    let deactivated_agent = manager.get_parasitic_agent(agent.id).unwrap();
    assert_eq!(deactivated_agent.status.label(), "Deactivated");
}

#[test]
fn test_new_registry_is_empty() {
    let manager = ParasiteManager::new();
    assert_eq!(manager.list_agents().len(), 0);
    assert!(manager.get_parasitic_agent(0).is_none());
    assert!(!manager.contains_id(0));
}

#[test]
fn test_create_ids_pairwise_distinct() {
    let mut manager = ParasiteManager::new();
    let mut ids: Vec<u128> = Vec::new();
    for k in 0..20 {
        let agent = manager
            .create_parasitic_agent(&format!("agent {}", k), "target", Vec::new())
            .expect("identifier generation failed");
        ids.push(agent.id);
    }
    for i in 0..ids.len() {
        for j in 0..ids.len() {
            if i != j {
                assert_ne!(ids[i], ids[j]);
            }
        }
    }
}

#[test]
fn test_create_then_get_round_trip() {
    let mut manager = ParasiteManager::new();
    let caps = vec!["scan".to_string(), "copy".to_string(), "scan".to_string()];
    let created = manager
        .create_parasitic_agent("Watcher", "Host-9", caps.clone())
        .expect("identifier generation failed");
    assert_eq!(created.status, AgentStatus::Active);

    let fetched = manager.get_parasitic_agent(created.id).unwrap();
    assert_eq!(fetched.id, created.id);
    assert_eq!(fetched.name, created.name);
    assert_eq!(fetched.target_agent, created.target_agent);
    assert_eq!(fetched.capabilities, caps);
    assert_eq!(fetched.status, AgentStatus::Active);
}

#[test]
fn test_round_trip_with_empty_inputs() {
    let mut manager = ParasiteManager::new();
    let created = manager
        .create_parasitic_agent("", "", Vec::new())
        .expect("identifier generation failed");
    let fetched = manager.get_parasitic_agent(created.id).unwrap();
    assert_eq!(fetched.name, "");
    assert_eq!(fetched.target_agent, "");
    assert_eq!(fetched.capabilities, Vec::<String>::new());
    assert_eq!(fetched.status, AgentStatus::Active);
}

#[test]
fn test_capabilities_stored_exactly() {
    // Duplicates and order are kept: the registry stores exactly what the
    // caller supplied, with no deduplication.
    let mut manager = ParasiteManager::new();
    let caps = vec!["b".to_string(), "a".to_string(), "b".to_string()];
    let created = manager
        .create_parasitic_agent("dup", "t", caps.clone())
        .expect("identifier generation failed");
    let fetched = manager.get_parasitic_agent(created.id).unwrap();
    assert_eq!(fetched.capabilities, caps);
}

#[test]
fn test_deactivate_idempotent() {
    let mut manager = ParasiteManager::new();
    let agent = manager
        .create_parasitic_agent("Once", "T", Vec::new())
        .expect("identifier generation failed");

    assert!(manager.deactivate_agent(agent.id).is_ok());
    assert!(manager.deactivate_agent(agent.id).is_ok());

    let fetched = manager.get_parasitic_agent(agent.id).unwrap();
    assert_eq!(fetched.status, AgentStatus::Deactivated);
    assert_eq!(fetched.name, "Once");
    assert_eq!(fetched.target_agent, "T");
}

#[test]
fn test_unknown_id_get_and_deactivate() {
    let mut manager = ParasiteManager::new();
    let created = manager
        .create_agent_with_id(42, "known", "t", Vec::new())
        .expect("identifier already present");
    assert_eq!(created.id, 42);

    assert!(manager.get_parasitic_agent(43).is_none());
    let err = manager.deactivate_agent(43);
    assert_eq!(err, Err("Agent not found".to_string()));

    // The failed deactivation changed nothing.
    assert_eq!(manager.list_agents().len(), 1);
    assert_eq!(
        manager.get_parasitic_agent(42).unwrap().status,
        AgentStatus::Active
    );
}

#[test]
fn test_create_with_duplicate_id_refused() {
    let mut manager = ParasiteManager::new();
    let first = manager.create_agent_with_id(5, "first", "t1", Vec::new());
    assert!(first.is_some());
    let second = manager.create_agent_with_id(5, "second", "t2", Vec::new());
    assert!(second.is_none());
    assert_eq!(manager.list_agents().len(), 1);
    assert_eq!(manager.get_parasitic_agent(5).unwrap().name, "first");
}

fn find_by_id(agents: &[ParasiticAgent], id: u128) -> &ParasiticAgent {
    agents.iter().find(|a| a.id == id).expect("id not listed")
}

#[test]
fn test_list_completeness() {
    let mut manager = ParasiteManager::new();
    let a = manager
        .create_parasitic_agent("A", "tA", Vec::new())
        .expect("identifier generation failed");
    let b = manager
        .create_parasitic_agent("B", "tB", Vec::new())
        .expect("identifier generation failed");
    let c = manager
        .create_parasitic_agent("C", "tC", Vec::new())
        .expect("identifier generation failed");
    manager.deactivate_agent(b.id).unwrap();

    let listed = manager.list_agents();
    assert_eq!(listed.len(), 3);

    // Exactly {A(Active), B(Deactivated), C(Active)}, order-independent.
    let la = find_by_id(&listed, a.id);
    assert_eq!(la.name, "A");
    assert_eq!(la.status, AgentStatus::Active);
    let lb = find_by_id(&listed, b.id);
    assert_eq!(lb.name, "B");
    assert_eq!(lb.status, AgentStatus::Deactivated);
    let lc = find_by_id(&listed, c.id);
    assert_eq!(lc.name, "C");
    assert_eq!(lc.status, AgentStatus::Active);
}

#[test]
fn test_many_creates_distinct_ids_and_list_size() {
    let mut manager = ParasiteManager::new();
    let k: usize = 50;
    let mut ids: Vec<u128> = Vec::new();
    for n in 0..k {
        let agent = manager
            .create_parasitic_agent(&format!("worker {}", n), "pool", Vec::new())
            .expect("identifier generation failed");
        ids.push(agent.id);
    }
    ids.sort();
    ids.dedup();
    assert_eq!(ids.len(), k);
    assert_eq!(manager.list_agents().len(), k);
}

#[test]
fn test_snapshot_isolation() {
    let mut manager = ParasiteManager::new();
    let agent = manager
        .create_parasitic_agent("Frozen", "T", Vec::new())
        .expect("identifier generation failed");

    let snapshot = manager.list_agents();
    assert_eq!(snapshot[0].status, AgentStatus::Active);

    manager.deactivate_agent(agent.id).unwrap();

    // The snapshot taken before the deactivation is unchanged.
    assert_eq!(snapshot.len(), 1);
    assert_eq!(snapshot[0].status, AgentStatus::Active);
    // The registry itself did change.
    assert_eq!(
        manager.get_parasitic_agent(agent.id).unwrap().status,
        AgentStatus::Deactivated
    );
}

#[test]
fn test_status_labels() {
    assert_eq!(AgentStatus::Active.label(), "Active");
    assert_eq!(AgentStatus::Deactivated.label(), "Deactivated");
}
