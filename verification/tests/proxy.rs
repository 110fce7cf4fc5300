use evdev_proxy::proxydev::{
    dispatch, remove_dev_from_list, selected_source, Action, AddSourceError, Simple,
    SimpleDeviceClass, Wakeup,
};
use evdev_proxy::reader::{after_publish, after_read, ReaderStep};

type RawEvent = [u8; 24];

fn key_press(code: u8) -> RawEvent {
    let mut ev = [0u8; 24];
    ev[16] = 1;
    ev[18] = code;
    ev[20] = 1;
    ev
}

fn list(paths: &[&str]) -> Vec<(String, u32)> {
    paths.iter().enumerate().map(|(i, p)| (p.to_string(), i as u32)).collect()
}

#[test]
fn remove_takes_the_first_entry_of_the_path() {
    let mut l = list(&["a", "b", "a", "c"]);
    remove_dev_from_list(&mut l, "a");
    assert_eq!(l, vec![("b".to_string(), 1), ("a".to_string(), 2), ("c".to_string(), 3)]);
    remove_dev_from_list(&mut l, "c");
    assert_eq!(l, vec![("b".to_string(), 1), ("a".to_string(), 2)]);
    remove_dev_from_list(&mut l, "a");
    assert_eq!(l, vec![("b".to_string(), 1)]);
    remove_dev_from_list(&mut l, "b");
    assert!(l.is_empty());
}

#[test]
fn remove_of_an_absent_path_changes_nothing() {
    let mut l = list(&["/dev/input/event3", "/dev/input/event4"]);
    let before = l.clone();
    remove_dev_from_list(&mut l, "/dev/input/event5");
    assert_eq!(l, before);
    remove_dev_from_list(&mut l, "/dev/input/event");
    assert_eq!(l, before);
    remove_dev_from_list(&mut l, "");
    assert_eq!(l, before);
    let mut empty: Vec<(String, u32)> = Vec::new();
    remove_dev_from_list(&mut empty, "/dev/input/event3");
    assert!(empty.is_empty());
}

#[test]
fn new_proxy_has_no_sources() {
    let pd: Simple<u32> = Simple::new("kbd", "/dev/input/event20");
    assert_eq!(pd.num_sources(), 0);
    assert_eq!(pd.dev_path(), "/dev/input/event20");
    assert_eq!(pd.dev_name(), "kbd");
    assert!(!pd.needs_reload());
    assert!(!pd.has_source("/dev/input/event3"));
}

#[test]
fn add_registers_and_asks_for_a_reload() {
    let mut pd: Simple<u32> = Simple::new("kbd", "/dev/input/event20");
    assert!(matches!(pd.add_source_dev::<String>("/dev/input/event3", Ok(7)), Ok(())));
    assert_eq!(pd.num_sources(), 1);
    assert!(pd.has_source("/dev/input/event3"));
    assert!(pd.needs_reload());
    let local = pd.rebuild();
    assert_eq!(local, vec![("/dev/input/event3".to_string(), 7)]);
    assert!(!pd.needs_reload());
    assert_eq!(pd.num_sources(), 1);
    assert_eq!(pd.dev_path(), "/dev/input/event20");
}

#[test]
fn failed_open_is_handed_back_and_changes_nothing() {
    let mut pd: Simple<u32> = Simple::new("kbd", "/dev/input/event20");
    assert!(pd.add_source_dev::<String>("/dev/input/event3", Ok(1)).is_ok());
    let _ = pd.rebuild();
    let r = pd.add_source_dev("/dev/input/event4", Err("device busy".to_string()));
    assert!(matches!(r, Err(AddSourceError::Open(ref e)) if e == "device busy"));
    assert_eq!(pd.num_sources(), 1);
    assert!(!pd.has_source("/dev/input/event4"));
    assert!(!pd.needs_reload());
    assert_eq!(pd.rebuild(), vec![("/dev/input/event3".to_string(), 1)]);
}

#[test]
fn registered_path_is_not_added_twice() {
    let mut pd: Simple<u32> = Simple::new("kbd", "/dev/input/event20");
    assert!(pd.add_source_dev::<String>("/dev/input/event3", Ok(1)).is_ok());
    let _ = pd.rebuild();
    let r = pd.add_source_dev::<String>("/dev/input/event3", Ok(2));
    assert!(matches!(r, Err(AddSourceError::AlreadyRegistered)));
    assert_eq!(pd.num_sources(), 1);
    assert!(!pd.needs_reload());
    assert_eq!(pd.rebuild(), vec![("/dev/input/event3".to_string(), 1)]);
}

#[test]
fn sources_stay_in_order_of_registration() {
    let mut pd: Simple<u32> = Simple::new("aio", "/dev/input/event20");
    for (i, p) in ["/dev/input/event5", "/dev/input/event3", "/dev/input/event4"].iter().enumerate() {
        assert!(pd.add_source_dev::<String>(p, Ok(i as u32)).is_ok());
        assert_eq!(pd.num_sources(), i + 1);
    }
    assert_eq!(
        pd.rebuild(),
        vec![
            ("/dev/input/event5".to_string(), 0),
            ("/dev/input/event3".to_string(), 1),
            ("/dev/input/event4".to_string(), 2),
        ]
    );
    assert!(pd.remove_source("/dev/input/event3"));
    assert_eq!(
        pd.rebuild(),
        vec![("/dev/input/event5".to_string(), 0), ("/dev/input/event4".to_string(), 2)]
    );
}

#[test]
fn removal_is_idempotent() {
    let mut pd: Simple<u32> = Simple::new("kbd", "/dev/input/event20");
    assert!(pd.add_source_dev::<String>("/dev/input/event3", Ok(1)).is_ok());
    assert!(pd.add_source_dev::<String>("/dev/input/event4", Ok(2)).is_ok());
    let _ = pd.rebuild();
    assert!(!pd.remove_source("/dev/input/event9"));
    assert_eq!(pd.num_sources(), 2);
    assert!(!pd.needs_reload());
    assert!(pd.remove_source("/dev/input/event3"));
    assert_eq!(pd.num_sources(), 1);
    assert!(pd.needs_reload());
    let _ = pd.rebuild();
    assert!(!pd.remove_source("/dev/input/event3"));
    assert_eq!(pd.num_sources(), 1);
    assert!(!pd.needs_reload());
    assert_eq!(pd.rebuild(), vec![("/dev/input/event4".to_string(), 2)]);
}

#[test]
fn removed_path_can_be_added_again() {
    let mut pd: Simple<u32> = Simple::new("kbd", "/dev/input/event20");
    assert!(pd.add_source_dev::<String>("/dev/input/event3", Ok(1)).is_ok());
    assert!(pd.remove_source("/dev/input/event3"));
    assert!(pd.add_source_dev::<String>("/dev/input/event3", Ok(2)).is_ok());
    assert_eq!(pd.rebuild(), vec![("/dev/input/event3".to_string(), 2)]);
}

#[test]
fn operations_past_the_sources_are_the_reload_signal() {
    let local = list(&["/dev/input/event3", "/dev/input/event4"]);
    assert_eq!(selected_source(&local, 0), Some(&("/dev/input/event3".to_string(), 0)));
    assert_eq!(selected_source(&local, 1), Some(&("/dev/input/event4".to_string(), 1)));
    assert_eq!(selected_source(&local, 2), None);
    let none: Vec<(String, u32)> = Vec::new();
    assert_eq!(selected_source(&none, 0), None);
}

#[test]
fn loop_reacts_to_each_wakeup() {
    let local = list(&["/dev/input/event3", "/dev/input/event4"]);
    assert!(matches!(dispatch::<u32, RawEvent>(&local, Wakeup::Reload), Action::Rebuild));
    match dispatch::<u32, RawEvent>(&local, Wakeup::Closed(1)) {
        Action::Evict(path) => assert_eq!(path, "/dev/input/event4"),
        other => panic!("expected an eviction, got {:?}", other),
    }
    match dispatch::<u32, RawEvent>(&local, Wakeup::Closed(0)) {
        Action::Evict(path) => assert_eq!(path, "/dev/input/event3"),
        other => panic!("expected an eviction, got {:?}", other),
    }
    match dispatch(&local, Wakeup::Event(1, key_press(30))) {
        Action::Write(ev) => assert_eq!(ev, key_press(30)),
        other => panic!("expected a write, got {:?}", other),
    }
    let none: Vec<(String, u32)> = Vec::new();
    assert!(matches!(dispatch::<u32, RawEvent>(&none, Wakeup::Reload), Action::Rebuild));
}

#[test]
fn device_classes_are_distinct() {
    assert_ne!(SimpleDeviceClass::Keyboard, SimpleDeviceClass::Mouse);
    assert_ne!(SimpleDeviceClass::Keyboard, SimpleDeviceClass::AIO);
    assert_ne!(SimpleDeviceClass::Mouse, SimpleDeviceClass::AIO);
}

#[test]
fn reader_stops_on_a_failed_read() {
    assert_eq!(after_read(Err::<usize, String>("gone".to_string())), ReaderStep::Stop);
}

#[test]
fn reader_reads_again_after_an_empty_batch() {
    assert_eq!(after_read(Ok::<usize, String>(0)), ReaderStep::Read);
}

#[test]
fn reader_publishes_a_batch_in_order() {
    let mut step = after_read(Ok::<usize, String>(3));
    let mut published = Vec::new();
    while let ReaderStep::Publish { index, count } = step {
        assert_eq!(count, 3);
        published.push(index);
        step = after_publish(index, count, Ok::<(), String>(()));
    }
    assert_eq!(published, vec![0, 1, 2]);
    assert_eq!(step, ReaderStep::Read);
    assert_eq!(after_read(Ok::<usize, String>(1)), ReaderStep::Publish { index: 0, count: 1 });
    assert_eq!(after_publish(0, 1, Ok::<(), String>(())), ReaderStep::Read);
    assert_eq!(
        after_read(Ok::<usize, String>(128)),
        ReaderStep::Publish { index: 0, count: 128 }
    );
    assert_eq!(after_publish(127, 128, Ok::<(), String>(())), ReaderStep::Read);
}

#[test]
fn reader_stops_on_a_failed_publication() {
    assert_eq!(after_publish(0, 3, Err::<(), String>("closed".to_string())), ReaderStep::Stop);
    assert_eq!(after_publish(2, 3, Err::<(), String>("closed".to_string())), ReaderStep::Stop);
}

#[test]
fn apply_carries_out_what_the_loop_decided() {
    let mut pd: Simple<u32> = Simple::new("kbd", "/dev/input/event20");
    assert!(pd.add_source_dev::<String>("/dev/input/event3", Ok(1)).is_ok());
    assert!(pd.add_source_dev::<String>("/dev/input/event4", Ok(2)).is_ok());
    assert!(pd.needs_reload());

    assert_eq!(pd.apply(&Action::Write(key_press(30))), None);
    assert!(pd.needs_reload());
    assert_eq!(pd.num_sources(), 2);

    let local = pd.apply(&Action::<RawEvent>::Rebuild).expect("a list");
    assert_eq!(local, vec![("/dev/input/event3".to_string(), 1), ("/dev/input/event4".to_string(), 2)]);
    assert!(!pd.needs_reload());

    let local = pd.apply(&Action::<RawEvent>::Evict("/dev/input/event3".to_string())).expect("a list");
    assert_eq!(local, vec![("/dev/input/event4".to_string(), 2)]);
    assert_eq!(pd.num_sources(), 1);
    assert!(!pd.needs_reload());

    let local = pd.apply(&Action::<RawEvent>::Evict("/dev/input/event3".to_string())).expect("a list");
    assert_eq!(local, vec![("/dev/input/event4".to_string(), 2)]);
    assert_eq!(pd.num_sources(), 1);
    assert!(!pd.needs_reload());
}
