use bnu::taunts::{insult_after_being_hit, insult_after_hit, random_insult, TauntQueue};

#[test]
fn feed_starts_empty() {
    let q = TauntQueue::new();
    assert_eq!(q.len(), 0);
}

#[test]
fn feed_keeps_insertion_order() {
    let mut q = TauntQueue::new();
    q.push("a".to_owned());
    q.push("b".to_owned());
    q.push("c".to_owned());
    assert_eq!(q.len(), 3);
    assert_eq!(q.text_at(0).as_str(), "a");
    assert_eq!(q.text_at(1).as_str(), "b");
    assert_eq!(q.text_at(2).as_str(), "c");
}

#[test]
fn fifth_push_evicts_exactly_the_oldest() {
    let mut q = TauntQueue::new();
    for t in ["one", "two", "three", "four"] {
        q.push(t.to_owned());
    }
    assert_eq!(q.len(), 4);
    q.push("five".to_owned());
    assert_eq!(q.len(), 4);
    assert_eq!(q.text_at(0).as_str(), "two");
    assert_eq!(q.text_at(1).as_str(), "three");
    assert_eq!(q.text_at(2).as_str(), "four");
    assert_eq!(q.text_at(3).as_str(), "five");
}

#[test]
fn feed_never_exceeds_four_entries() {
    let mut q = TauntQueue::new();
    for i in 0..50 {
        q.push(format!("taunt {}", i));
        assert!(q.len() <= 4);
    }
    assert_eq!(q.text_at(3).as_str(), "taunt 49");
}

#[test]
fn pools_hold_the_fixed_texts() {
    assert_eq!(random_insult(0).as_str(), "I will end you");
    assert_eq!(random_insult(1).as_str(), "Your puny fleet is no match for me");
    assert_eq!(random_insult(2).as_str(), "Mess with the best and die like the rest");
    assert_eq!(random_insult(3).as_str(), "Don't bring a knife to a gunfight");
    assert_eq!(random_insult(4).as_str(), "Stop playing hide and seek");
    for i in 0..4 {
        assert_eq!(insult_after_hit(i).as_str(), insult_after_being_hit(i).as_str());
    }
    assert_eq!(
        insult_after_hit(0).as_str(),
        "There's nothing like the smell of napalm in the morning"
    );
    assert_eq!(insult_after_hit(1).as_str(), "You should've stayed at home");
    assert_eq!(insult_after_hit(2).as_str(), "Go home and be a family man!");
    assert_eq!(insult_after_hit(3).as_str(), "I salute my fallen enemy!");
}
