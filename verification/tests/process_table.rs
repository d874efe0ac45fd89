use dairi::process_manager::ProcessTable;
use tokio::process::Command;

fn spawn_sleeper(rt: &tokio::runtime::Runtime) -> tokio::process::Child {
    let _guard = rt.enter();
    Command::new("sleep").arg("60").spawn().expect("spawn sleep")
}

#[test]
fn register_keeps_one_entry_per_name() {
    let rt = tokio::runtime::Runtime::new().unwrap();
    let mut table = ProcessTable::new();
    assert_eq!(table.len(), 0);

    let first = spawn_sleeper(&rt);
    let i = table.register(&"julia".to_string(), first);
    assert_eq!(i, 0);
    assert_eq!(table.len(), 1);

    let second = spawn_sleeper(&rt);
    let j = table.register(&"julia".to_string(), second);
    assert_eq!(j, 0);
    assert_eq!(table.len(), 1);

    let third = spawn_sleeper(&rt);
    let k = table.register(&"python".to_string(), third);
    assert_eq!(k, 1);
    assert_eq!(table.len(), 2);

    assert_eq!(table.find(&"julia".to_string()), Some(0));
    assert_eq!(table.find(&"python".to_string()), Some(1));
    assert_eq!(table.find(&"absent".to_string()), None);

    // Clean up the children.
    for name in ["julia", "python"] {
        let i = table.find(&name.to_string()).unwrap();
        let mut child = table.take_child(i).unwrap();
        let _ = child.start_kill();
    }
}

#[test]
fn healthy_child_is_reused_with_its_pid() {
    let rt = tokio::runtime::Runtime::new().unwrap();
    let mut table = ProcessTable::new();
    let child = spawn_sleeper(&rt);
    let pid = child.id().unwrap();
    table.register(&"julia".to_string(), child);

    // Two consecutive requests see the same entry and the same child.
    let i = table.check_reusable(&"julia".to_string()).expect("fresh child is reusable");
    let taken = table.take_child(i).unwrap();
    assert_eq!(taken.id().unwrap(), pid);
    table.put_child(i, taken);

    let j = table.check_reusable(&"julia".to_string()).expect("still reusable");
    assert_eq!(i, j);
    assert_eq!(table.len(), 1);

    let mut child = table.take_child(j).unwrap();
    let _ = child.start_kill();
}

#[test]
fn dead_child_is_not_reusable_and_is_replaced() {
    let rt = tokio::runtime::Runtime::new().unwrap();
    let mut table = ProcessTable::new();
    let child = spawn_sleeper(&rt);
    let old_pid = child.id().unwrap();
    table.register(&"julia".to_string(), child);

    // Kill the child without reaping it: the OS now reports a zombie, so
    // the health probe must refuse to reuse it.
    let mut child = table.take_child(0).unwrap();
    child.start_kill().expect("kill");
    table.put_child(0, child);
    rt.block_on(async {
        tokio::time::sleep(std::time::Duration::from_millis(300)).await;
    });
    assert!(table.check_reusable(&"julia".to_string()).is_none());

    // The next request replaces it under the same name: one entry, a new
    // pid.
    let replacement = spawn_sleeper(&rt);
    let new_pid = replacement.id().unwrap();
    assert_ne!(old_pid, new_pid);
    let i = table.register(&"julia".to_string(), replacement);
    assert_eq!(table.len(), 1);
    assert!(table.check_reusable(&"julia".to_string()).is_some());

    let mut child = table.take_child(i).unwrap();
    let _ = child.start_kill();
}

#[test]
fn remove_evicts_the_entry_and_returns_its_child() {
    let rt = tokio::runtime::Runtime::new().unwrap();
    let mut table = ProcessTable::new();
    let child = spawn_sleeper(&rt);
    table.register(&"julia".to_string(), child);

    assert!(table.remove(&"absent".to_string()).is_none());
    assert_eq!(table.len(), 1);

    let evicted = table.remove(&"julia".to_string()).expect("entry exists");
    assert_eq!(evicted.name, "julia");
    assert_eq!(table.len(), 0);
    assert_eq!(table.find(&"julia".to_string()), None);

    let mut child = evicted.child.unwrap();
    let _ = child.start_kill();
}

#[test]
fn take_child_leaves_the_entry_in_place() {
    let rt = tokio::runtime::Runtime::new().unwrap();
    let mut table = ProcessTable::new();
    let child = spawn_sleeper(&rt);
    table.register(&"julia".to_string(), child);

    let taken = table.take_child(0);
    assert!(taken.is_some());
    assert_eq!(table.len(), 1);
    assert_eq!(table.find(&"julia".to_string()), Some(0));
    // While borrowed, the slot holds no child.
    assert!(table.check_reusable(&"julia".to_string()).is_none());

    let mut child = taken.unwrap();
    let _ = child.start_kill();
    table.put_child(0, child);
}
