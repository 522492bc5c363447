use calendar::clocks::default_clocks;
use calendar::domain::{default_true, StoreData, WorldClockConfig};

type Store = StoreData<(), ()>;

fn zones(s: &Store) -> Vec<String> {
    s.world_clocks.iter().map(|c| c.timezone.clone()).collect()
}

fn store_with(zs: &[&str]) -> Store {
    let mut s = Store::empty();
    for z in zs {
        s.add_clock(format!("city {z}"), z.to_string());
    }
    s
}

#[test]
fn default_clocks_are_beijing_london_new_york() {
    let d = default_clocks();
    let pairs: Vec<(String, String)> = d.iter().map(|c| (c.label.clone(), c.timezone.clone())).collect();
    assert_eq!(
        pairs,
        vec![
            ("北京".to_string(), "Asia/Shanghai".to_string()),
            ("伦敦".to_string(), "Europe/London".to_string()),
            ("纽约".to_string(), "America/New_York".to_string()),
        ]
    );
}

#[test]
fn default_clocks_are_offered_cities() {
    let cities = calendar::world_time::list_cities();
    for c in default_clocks() {
        assert!(cities.iter().any(|x| x.label == c.label && x.timezone == c.timezone));
    }
}

#[test]
fn empty_store_and_default_setting() {
    let s = Store::empty();
    assert!(s.world_clocks.is_empty());
    assert!(!s.use_24_hour);
    assert!(default_true());
}

#[test]
fn first_run_fills_the_default_clocks() {
    let mut s = Store::empty();
    s.ensure_clocks();
    assert_eq!(zones(&s), vec!["Asia/Shanghai", "Europe/London", "America/New_York"]);
    let mut t = store_with(&["Asia/Tokyo"]);
    t.ensure_clocks();
    assert_eq!(zones(&t), vec!["Asia/Tokyo"]);
}

#[test]
fn clocks_to_show_fall_back_to_defaults() {
    assert_eq!(Store::empty().clocks_to_show().len(), 3);
    let t = store_with(&["Asia/Tokyo", "Europe/Paris"]);
    let shown: Vec<String> = t.clocks_to_show().iter().map(|c| c.timezone.clone()).collect();
    assert_eq!(shown, vec!["Asia/Tokyo", "Europe/Paris"]);
}

#[test]
fn adding_a_shown_zone_changes_nothing() {
    let mut s = store_with(&["Asia/Tokyo"]);
    s.add_clock("另一个".to_string(), "Asia/Tokyo".to_string());
    assert_eq!(s.world_clocks.len(), 1);
    assert_eq!(s.world_clocks[0].label, "city Asia/Tokyo");
    s.add_clock("巴黎".to_string(), "Europe/Paris".to_string());
    assert_eq!(zones(&s), vec!["Asia/Tokyo", "Europe/Paris"]);
    s.add_clock("巴黎".to_string(), "Europe/Paris".to_string());
    assert_eq!(zones(&s), vec!["Asia/Tokyo", "Europe/Paris"]);
}

#[test]
fn removing_a_zone() {
    let mut s = store_with(&["Asia/Tokyo", "Europe/Paris", "America/Denver"]);
    s.remove_clock(&"Europe/Paris".to_string());
    assert_eq!(zones(&s), vec!["Asia/Tokyo", "America/Denver"]);
    s.remove_clock(&"Nowhere".to_string());
    assert_eq!(zones(&s), vec!["Asia/Tokyo", "America/Denver"]);
}

#[test]
fn remove_undoes_add() {
    let mut s = store_with(&["Asia/Tokyo", "Europe/Paris"]);
    s.add_clock("x".to_string(), "Africa/Cairo".to_string());
    s.remove_clock(&"Africa/Cairo".to_string());
    assert_eq!(zones(&s), vec!["Asia/Tokyo", "Europe/Paris"]);
}

#[test]
fn reorder_puts_requested_zones_first() {
    let mut s = store_with(&["A", "B", "C", "D"]);
    s.reorder_clocks(&vec!["C".to_string(), "A".to_string(), "Z".to_string()]);
    assert_eq!(zones(&s), vec!["C", "A", "B", "D"]);
}

#[test]
fn reorder_with_current_order_is_identity() {
    let mut s = store_with(&["A", "B", "C"]);
    s.reorder_clocks(&vec!["A".to_string(), "B".to_string(), "C".to_string()]);
    assert_eq!(zones(&s), vec!["A", "B", "C"]);
    s.reorder_clocks(&vec![]);
    assert_eq!(zones(&s), vec!["A", "B", "C"]);
}

#[test]
fn reorder_keeps_every_clock() {
    let mut s = store_with(&["A", "B", "C", "D", "E"]);
    s.reorder_clocks(&vec!["E".to_string(), "B".to_string(), "D".to_string()]);
    let mut z = zones(&s);
    assert_eq!(z, vec!["E", "B", "D", "A", "C"]);
    z.sort();
    assert_eq!(z, vec!["A", "B", "C", "D", "E"]);
}

#[test]
fn reorder_with_a_repeated_zone_repeats_its_clock() {
    let mut s = store_with(&["A", "B"]);
    s.reorder_clocks(&vec!["B".to_string(), "B".to_string()]);
    assert_eq!(zones(&s), vec!["B", "B", "A"]);
}

#[test]
fn clock_list_changes_keep_other_settings() {
    let mut s: StoreData<u8, u8> = StoreData::empty();
    s.set_use_24_hour(true);
    s.set_location(7);
    s.add_clock("x".to_string(), "X".to_string());
    s.reorder_clocks(&vec!["X".to_string()]);
    s.remove_clock(&"X".to_string());
    assert!(s.use_24_hour);
    assert_eq!(s.location, Some(7));
    let c = WorldClockConfig { label: "l".into(), timezone: "t".into() };
    assert_eq!(calendar::domain::copy_clock(&c).timezone, "t");
}

#[test]
fn reordering_twice_is_reordering_once() {
    for request in [vec!["C", "A"], vec!["B", "B"], vec!["Z"], vec![]] {
        let request: Vec<String> = request.into_iter().map(String::from).collect();
        let mut once = store_with(&["A", "B", "C"]);
        once.reorder_clocks(&request);
        let mut twice = store_with(&["A", "B", "C"]);
        twice.reorder_clocks(&request);
        twice.reorder_clocks(&request);
        assert_eq!(zones(&once), zones(&twice));
    }
}

#[test]
fn repeating_an_unshown_zone_keeps_a_permutation() {
    let mut s = store_with(&["A", "B", "C"]);
    s.reorder_clocks(&vec!["Z".to_string(), "C".to_string(), "Z".to_string(), "A".to_string()]);
    assert_eq!(zones(&s), vec!["C", "A", "B"]);
}
