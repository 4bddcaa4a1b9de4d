use bangumi_download::tui::progress_bar::{BasicBar, Bytes, Inc, ProgressBar, ProgressSuit, SimpleBar, SpeedSum};

#[test]
fn a_bar_never_counts_past_its_size() {
    let mut bar = SimpleBar::new("f".to_string(), 10);
    bar.inc(4);
    assert_eq!(bar.current_size(), 4);
    bar.inc(100);
    assert_eq!(bar.current_size(), 10);
    assert!(bar.is_finished());
    bar.inc(1);
    assert_eq!(bar.current_size(), 10);
}

#[test]
fn bars_keep_the_order_they_were_added_in() {
    let mut suit: ProgressSuit<SimpleBar> = ProgressSuit::new();
    suit.add(2, SimpleBar::new("b".to_string(), 1));
    suit.add(1, SimpleBar::new("a".to_string(), 1));
    suit.add(3, SimpleBar::new("c".to_string(), 1));
    assert_eq!(suit.ids(), vec![2, 1, 3]);
    let names: Vec<String> = {
        let mut it = suit.iter();
        let mut v = Vec::new();
        while let Some(b) = it.next() {
            v.push(b.name().to_string());
        }
        v
    };
    assert_eq!(names, vec!["b", "a", "c"]);
    let removed = suit.remove(1).unwrap();
    assert_eq!(removed.name(), "a");
    assert_eq!(suit.ids(), vec![2, 3]);
    assert!(suit.remove(1).is_none());
}

#[test]
fn adding_then_removing_gives_the_bars_back() {
    let mut suit: ProgressSuit<SimpleBar> = ProgressSuit::new();
    suit.add(5, SimpleBar::new("x".to_string(), 3));
    let before = suit.ids();
    suit.add(9, SimpleBar::new("y".to_string(), 4));
    let bar = suit.remove(9).unwrap();
    assert_eq!(bar.name(), "y");
    assert_eq!(suit.ids(), before);
}

#[test]
fn retain_keeps_unfinished_bars() {
    let mut suit: ProgressSuit<SimpleBar> = ProgressSuit::new();
    let mut done = SimpleBar::new("done".to_string(), 1);
    done.inc_to_finished();
    suit.add(1, done);
    suit.add(2, SimpleBar::new("busy".to_string(), 5));
    suit.retain(|b| !b.is_finished());
    assert_eq!(suit.ids(), vec![2]);
}

#[test]
fn total_speed_adds_the_speeds() {
    let mut suit: ProgressSuit<SimpleBar> = ProgressSuit::new();
    let mut a = SimpleBar::new("a".to_string(), 1);
    a.set_current_speed(300);
    let mut b = SimpleBar::new("b".to_string(), 1);
    b.set_current_speed(700);
    suit.add(1, a);
    suit.add(2, b);
    assert_eq!(suit.speed().0, 1000);
}

#[test]
fn byte_counts_pick_their_unit() {
    assert_eq!(Bytes::from(512).unit_index(), 0);
    assert_eq!(Bytes::from(2048).unit_index(), 1);
    assert_eq!(Bytes::from(3 * 1024 * 1024).unit_index(), 2);
    assert_eq!(Bytes::from(1024u64.pow(4) * 5).unit_index(), 4);
}

#[test]
fn server_bars_turn_into_client_bars() {
    let mut bar = ProgressBar::new("f".to_string(), 50);
    bar.inc(20);
    let simple = bar.to_simple_bar_with_speed(7);
    assert_eq!(simple.current_size(), 20);
    assert_eq!(simple.size(), 50);
    assert_eq!(simple.current_speed().0, 7);
    let back = simple.to_progress_bar();
    assert_eq!(back.current_size(), 20);
    assert_eq!(back.last_size(), 0);
}

#[test]
fn a_total_speed_past_u64_is_none() {
    let mut suit: ProgressSuit<SimpleBar> = ProgressSuit::new();
    let mut a = SimpleBar::new("a".to_string(), 1);
    a.set_current_speed(u64::MAX);
    let mut b = SimpleBar::new("b".to_string(), 1);
    b.set_current_speed(1);
    suit.add(1, a);
    assert_eq!(suit.try_speed().map(|s| s.0), Some(u64::MAX));
    suit.add(2, b);
    assert!(suit.try_speed().is_none());
}

#[test]
fn finishing_a_bar_keeps_its_name_size_and_speed() {
    let mut b = SimpleBar::new("f".to_string(), 10);
    b.set_current_speed(7);
    b.inc_to_finished();
    assert_eq!(b.current_size(), 10);
    assert!(b.is_finished());
    assert_eq!(b.name(), "f");
    assert_eq!(b.size(), 10);
    assert_eq!(b.current_speed().0, 7);
    b.inc_to_finished();
    assert_eq!(b.current_size(), 10);
}

#[test]
fn retain_decides_an_id_listed_twice_once() {
    let mut suit: ProgressSuit<SimpleBar> = ProgressSuit::new();
    let mut done = SimpleBar::new("done".to_string(), 1);
    done.inc_to_finished();
    suit.add(1, done);
    suit.add(2, SimpleBar::new("busy".to_string(), 5));
    suit.add(2, SimpleBar::new("busy".to_string(), 5));
    let mut again = SimpleBar::new("again".to_string(), 3);
    again.inc_to_finished();
    suit.add(1, again);
    suit.retain(|b| !b.is_finished());
    assert_eq!(suit.len(), 2);
    assert_eq!(suit.ids(), vec![2]);
}

#[test]
fn a_bar_changed_in_place_stays_changed() {
    let mut suit: ProgressSuit<SimpleBar> = ProgressSuit::new();
    suit.add(4, SimpleBar::new("x".to_string(), 10));
    suit.add(6, SimpleBar::new("y".to_string(), 10));
    suit.get_bar_mut(6).unwrap().inc(7);
    let sizes: Vec<u64> = {
        let mut it = suit.iter();
        let mut v = Vec::new();
        while let Some(b) = it.next() {
            v.push(b.current_size());
        }
        v
    };
    assert_eq!(sizes, vec![0, 7]);
    assert!(suit.get_bar_mut(5).is_none());
    let copy = suit.clone();
    assert_eq!(copy.ids(), vec![4, 6]);
    assert_eq!(copy.len(), 2);
}
