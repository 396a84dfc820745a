use bytebox::applog::LogQueue;

#[test]
fn drain_returns_pushed_messages_in_order_and_empties_the_queue() {
    let mut queue = LogQueue::new();
    queue.log("applog test marker A 87f3".to_string());
    queue.log("applog test marker B 87f3".to_string());
    let drained = queue.drain();
    let pos_a = drained.iter().position(|m| m == "applog test marker A 87f3").expect("marqueur A absent du vidage");
    let pos_b = drained.iter().position(|m| m == "applog test marker B 87f3").expect("marqueur B absent du vidage");
    assert!(pos_a < pos_b, "l'ordre d'ajout doit être préservé");
    assert!(!queue.drain().iter().any(|m| m.contains("applog test marker")), "un second vidage ne doit pas revoir des messages déjà retirés");
}
