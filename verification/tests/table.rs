use screeps_profiler::{ProfileId, ProfileRow, ProfileSentinel, ProfileTable, RawTable};
use std::cell::RefCell;

/// Measures one scope with a clock of its own, as a guard that commits when it
/// goes out of scope.
struct Scope<'a, F: FnMut() -> f64> {
    sentinel: Option<ProfileSentinel>,
    table: &'a RefCell<ProfileTable>,
    get_cpu: F,
}

impl<'a, F: FnMut() -> f64> Scope<'a, F> {
    fn new(id: ProfileId, table: &'a RefCell<ProfileTable>, mut get_cpu: F) -> Self {
        let cpu = get_cpu();
        Scope { sentinel: Some(ProfileSentinel::new(id, cpu.to_bits())), table, get_cpu }
    }
}

impl<'a, F: FnMut() -> f64> Drop for Scope<'a, F> {
    fn drop(&mut self) {
        let sentinel = self.sentinel.take().unwrap();
        let delta = (self.get_cpu)() - f64::from_bits(sentinel.cpu_at_start());
        sentinel.release(&mut self.table.borrow_mut(), delta.to_bits());
    }
}

fn sample(table: &ProfileTable, id: ProfileId, at: usize) -> f64 {
    table.get_data(id).map(|x| f64::from_bits(x.cpu_per_call[at])).unwrap()
}

fn run_it_works() {
    let mut table = ProfileTable::new();

    let call_one = table.add_entity("One".to_owned());
    let call_two = table.add_entity("Two".to_owned());
    let call_zero = table.add_entity("Zero".to_owned());

    let mut cpu = 1.;
    let get_cpu = move || {
        cpu += 2.0;
        cpu
    };

    let table = RefCell::new(table);
    {
        let _sentinel = Scope::new(call_one, &table, get_cpu);
    }

    {
        let _sentinel = Scope::new(call_two, &table, get_cpu);
        let _sentinel = Scope::new(call_two, &table, get_cpu);
    }
    let table = table.into_inner();

    println!("{:#?}", table);

    assert_eq!(table.get_data(call_one).map(|x| x.cpu_per_call.len()), Some(1));
    assert_eq!(table.get_data(call_two).map(|x| x.cpu_per_call.len()), Some(2));

    assert_eq!(table.get_data(call_zero).map(|x| x.cpu_per_call.len()), Some(0));

    let cpu = sample(&table, call_one, 0);
    assert!((2.0 - cpu).abs() < 0.0003);

    let cpu = sample(&table, call_two, 0);
    assert!((2.0 - cpu).abs() < 0.0003);
    let cpu = sample(&table, call_two, 1);
    assert!((2.0 - cpu).abs() < 0.0003);
}

#[test]
fn it_works() {
    run_it_works();
}

#[test]
fn lib_it_works() {
    run_it_works();
}

#[test]
fn new_table_is_empty() {
    let table = ProfileTable::new();
    assert_eq!(table.len(), 0);
    assert!(table.get_label(ProfileId { id: 0 }).is_none());
    assert!(table.get_data(ProfileId { id: 0 }).is_none());
    let table = ProfileTable::default();
    assert_eq!(table.len(), 0);
}

#[test]
fn identifiers_count_up_from_zero() {
    let mut table = ProfileTable::new();
    let names = ["a", "b", "c", "d", "e"];
    for (k, name) in names.iter().enumerate() {
        let id = table.add_entity(name.to_string());
        assert_eq!(id, ProfileId { id: k });
        assert_eq!(table.len(), k + 1);
    }
    for (k, name) in names.iter().enumerate() {
        let id = ProfileId { id: k };
        assert_eq!(table.get_label(id).map(|s| s.as_str()), Some(*name));
        assert_eq!(table.get_data(id).map(|r| r.cpu_per_call.clone()), Some(vec![]));
    }
}

#[test]
fn add_entity_does_not_intern() {
    let mut table = ProfileTable::new();
    let first = table.add_entity("same".to_owned());
    let second = table.add_entity("same".to_owned());
    assert_eq!(first.id, 0);
    assert_eq!(second.id, 1);
    assert_eq!(table.len(), 2);
    assert_eq!(table.get_label(first), table.get_label(second));
}

#[test]
fn lookups_out_of_range_find_nothing() {
    let mut table = ProfileTable::new();
    table.add_entity("only".to_owned());
    for id in [1usize, 2, 100, usize::MAX] {
        let id = ProfileId { id };
        assert!(table.get_label(id).is_none());
        assert!(table.get_data(id).is_none());
        assert!(table.get_data_mut(id).is_none());
    }
    assert_eq!(table.len(), 1);
}

#[test]
fn get_data_mut_writes_one_row() {
    let mut table = ProfileTable::new();
    let a = table.add_entity("a".to_owned());
    let b = table.add_entity("b".to_owned());
    table.get_data_mut(b).unwrap().cpu_per_call.push(7);
    table.get_data_mut(b).unwrap().cpu_per_call.push(9);
    assert_eq!(table.get_data(a).unwrap().cpu_per_call, Vec::<u64>::new());
    assert_eq!(table.get_data(b).unwrap().cpu_per_call, vec![7, 9]);
    assert_eq!(table.get_label(a).unwrap(), "a");
    assert_eq!(table.get_label(b).unwrap(), "b");
}

#[test]
fn clear_forgets_every_row() {
    let mut table = ProfileTable::new();
    let a = table.add_entity("a".to_owned());
    let b = table.add_entity("b".to_owned());
    ProfileSentinel::new(a, 0).release(&mut table, 5);
    table.clear();
    assert_eq!(table.len(), 0);
    assert!(table.get_data(a).is_none());
    assert!(table.get_data(b).is_none());
    assert!(table.get_label(a).is_none());
    assert!(table.get_data_mut(b).is_none());
    let again = table.add_entity("c".to_owned());
    assert_eq!(again.id, 0);
    assert_eq!(table.get_data(a).unwrap().cpu_per_call.len(), 0);
}

#[test]
fn clone_is_a_deep_copy() {
    let mut table = ProfileTable::new();
    let a = table.add_entity("a".to_owned());
    ProfileSentinel::new(a, 0).release(&mut table, 1);
    let copy = table.clone();
    ProfileSentinel::new(a, 0).release(&mut table, 2);
    table.add_entity("b".to_owned());
    assert_eq!(copy.len(), 1);
    assert_eq!(copy.get_data(a).unwrap().cpu_per_call, vec![1]);
    assert_eq!(table.get_data(a).unwrap().cpu_per_call, vec![1, 2]);
    let row = table.get_data(a).unwrap().clone();
    assert_eq!(row.cpu_per_call, vec![1, 2]);
    assert_eq!(ProfileRow::default().cpu_per_call, Vec::<u64>::new());
}

#[test]
fn raw_form_round_trips() {
    let mut table = ProfileTable::new();
    let a = table.add_entity("a".to_owned());
    table.add_entity("b".to_owned());
    ProfileSentinel::new(a, 0).release(&mut table, 4.5f64.to_bits());
    let raw = table.to_raw();
    assert_eq!(raw.labels, vec!["a".to_owned(), "b".to_owned()]);
    assert_eq!(raw.data.len(), 2);
    assert_eq!(raw.data[0].cpu_per_call, vec![4.5f64.to_bits()]);
    assert_eq!(raw.data[1].cpu_per_call, Vec::<u64>::new());
    let back = ProfileTable::from_raw(raw).unwrap();
    assert_eq!(back.len(), 2);
    assert_eq!(back.get_label(a).unwrap(), "a");
    assert_eq!(back.get_data(a).unwrap().cpu_per_call, vec![4.5f64.to_bits()]);
    assert_eq!(back.get_label(ProfileId { id: 1 }).unwrap(), "b");
}

#[test]
fn raw_form_with_unequal_lists_is_no_table() {
    let raw = RawTable { labels: vec!["a".to_owned()], data: vec![] };
    assert!(ProfileTable::from_raw(raw).is_none());
    let raw = RawTable { labels: vec![], data: vec![ProfileRow::default()] };
    assert!(ProfileTable::from_raw(raw).is_none());
    let raw = RawTable { labels: vec![], data: vec![] };
    assert_eq!(ProfileTable::from_raw(raw).map(|t| t.len()), Some(0));
}
