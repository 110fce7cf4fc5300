use crossbeam::channel::{bounded, Receiver, Select, Sender};
use evdev_proxy::config::{listener_by_config, DeviceSelector};
use evdev_proxy::device::{DeviceInfo, EventInfo, Property};
use evdev_proxy::listener::{DevEvent, DevEventType};
use evdev_proxy::proxydev::{dispatch, selected_source, Action, Simple, Wakeup};
use evdev_proxy::reader::{after_publish, after_read, ReaderStep};

type RawEvent = [u8; 24];

fn raw(kind: u8, code: u8, value: u8) -> RawEvent {
    let mut ev = [0u8; 24];
    ev[0] = 0x5d;
    ev[8] = 0x2a;
    ev[16] = kind;
    ev[18] = code;
    ev[20] = value;
    ev
}

/// A proxy with its forwarding loop, run one wakeup at a time on this thread,
/// and a list in place of the virtual device.
struct Proxy {
    pd: Simple<Receiver<RawEvent>>,
    reload: (Sender<bool>, Receiver<bool>),
    local: Vec<(String, Receiver<RawEvent>)>,
    written: Vec<RawEvent>,
}

impl Proxy {
    fn new() -> Proxy {
        let mut pd = Simple::new("kbd", "/dev/input/event20");
        let local = pd.rebuild();
        Proxy { pd, reload: bounded(1), local, written: Vec::new() }
    }

    fn add_source_dev(&mut self, path: &str) -> Option<Sender<RawEvent>> {
        let (tx, rx) = bounded(64);
        match self.pd.add_source_dev::<String>(path, Ok(rx)) {
            Ok(()) => {
                let _ = self.reload.0.try_send(true);
                Some(tx)
            }
            Err(_) => None,
        }
    }

    fn on_hotplug(&mut self, event: &DevEvent) -> Option<Sender<RawEvent>> {
        match event.new_source() {
            Some(path) => self.add_source_dev(path),
            None => None,
        }
    }

    /// Lets the loop act on one wakeup. False when nothing is ready.
    fn step(&mut self) -> bool {
        let wakeup = {
            let mut sel = Select::new();
            for (_, rx) in &self.local {
                sel.recv(rx);
            }
            sel.recv(&self.reload.1);
            let op = match sel.try_select() {
                Ok(op) => op,
                Err(_) => return false,
            };
            let idx = op.index();
            match selected_source(&self.local, idx) {
                None => {
                    op.recv(&self.reload.1).unwrap();
                    Wakeup::Reload
                }
                Some((_, rx)) => match op.recv(rx) {
                    Ok(ev) => Wakeup::Event(idx, ev),
                    Err(_) => Wakeup::Closed(idx),
                },
            }
        };
        match dispatch(&self.local, wakeup) {
            Action::Write(ev) => self.written.push(ev),
            change => {
                self.local = self.pd.apply(&change).expect("a new list of sources");
            }
        }
        true
    }

    fn run(&mut self) {
        while self.step() {}
    }
}

/// A reader fed with the batches that its device yields, publishing to `tx`.
fn read_batches(tx: &Sender<RawEvent>, batches: &[Vec<RawEvent>]) -> ReaderStep {
    let mut next = 0;
    let mut batch: &[RawEvent] = &[];
    let mut step = ReaderStep::Read;
    loop {
        step = match step {
            ReaderStep::Read => {
                if next == batches.len() {
                    return step;
                }
                batch = &batches[next];
                next += 1;
                after_read(Ok::<usize, String>(batch.len()))
            }
            ReaderStep::Publish { index, count } => {
                after_publish(index, count, tx.try_send(batch[index]))
            }
            ReaderStep::Stop => return step,
        };
    }
}

fn present(path: &str, vendor: &str, model: &str) -> DeviceInfo {
    DeviceInfo::new(vec![
        Property::new("DEVNAME", path),
        Property::new("ID_VENDOR_ID", vendor),
        Property::new("ID_MODEL_ID", model),
    ])
}

fn change(action: &str, path: &str, vendor: &str, model: &str) -> EventInfo {
    EventInfo::new(vec![
        Property::new("ACTION", action),
        Property::new("DEVNAME", path),
        Property::new("ID_VENDOR_ID", vendor),
        Property::new("ID_MODEL_ID", model),
    ])
}

#[test]
fn enumerated_keyboard_is_added_and_its_key_press_written() {
    let selectors = Some(vec![DeviceSelector::USBID { vendor: 0x046d, model: 0xc52b }]);
    let listener = listener_by_config("input", 32, &selectors);
    let found = vec![
        present("/dev/input/event0", "0001", "0001"),
        present("/dev/input/event3", "046d", "c52b"),
    ];
    let events = listener.listen::<String>(&found, Ok(Vec::new())).expect("the monitor started");
    assert_eq!(events.len(), 1);
    assert_eq!(events[0].action, DevEventType::Add);
    assert_eq!(events[0].devname, "/dev/input/event3");

    let mut proxy = Proxy::new();
    assert_eq!(proxy.pd.num_sources(), 0);
    let tx = proxy.on_hotplug(&events[0]).expect("the source is added");
    assert_eq!(proxy.pd.num_sources(), 1);
    assert!(proxy.pd.has_source("/dev/input/event3"));
    proxy.run();
    assert!(proxy.written.is_empty());

    let press = raw(1, 30, 1);
    assert_eq!(read_batches(&tx, &[vec![press]]), ReaderStep::Read);
    assert!(proxy.step());
    assert_eq!(proxy.written, vec![press]);
    assert_eq!(proxy.written[0].to_vec(), press.to_vec());
    assert!(!proxy.step());
}

#[test]
fn failed_reader_is_evicted_and_the_other_source_goes_on() {
    let mut proxy = Proxy::new();
    let tx1 = proxy.add_source_dev("/dev/input/event3").expect("added");
    let tx2 = proxy.add_source_dev("/dev/input/event4").expect("added");
    assert_eq!(proxy.pd.num_sources(), 2);
    proxy.run();

    assert_eq!(read_batches(&tx2, &[vec![raw(1, 30, 1)]]), ReaderStep::Read);
    proxy.run();
    assert_eq!(proxy.written, vec![raw(1, 30, 1)]);

    // The read of the first device fails: its reader ends and lets go of the channel.
    assert_eq!(after_read(Err::<usize, String>("no such device".to_string())), ReaderStep::Stop);
    drop(tx1);
    assert_eq!(proxy.pd.num_sources(), 2);
    assert!(proxy.step());
    assert_eq!(proxy.pd.num_sources(), 1);
    assert!(!proxy.pd.has_source("/dev/input/event3"));
    assert!(proxy.pd.has_source("/dev/input/event4"));
    assert!(!proxy.pd.needs_reload());
    assert_eq!(proxy.local.len(), 1);
    assert_eq!(proxy.local[0].0, "/dev/input/event4");

    assert_eq!(read_batches(&tx2, &[vec![raw(1, 30, 0), raw(0, 0, 0)]]), ReaderStep::Read);
    proxy.run();
    assert_eq!(proxy.written, vec![raw(1, 30, 1), raw(1, 30, 0), raw(0, 0, 0)]);
    assert_eq!(proxy.pd.num_sources(), 1);
}

#[test]
fn evicted_source_takes_no_more_events() {
    let mut proxy = Proxy::new();
    let tx = proxy.add_source_dev("/dev/input/event3").expect("added");
    proxy.run();
    let late = tx.clone();
    assert_eq!(read_batches(&tx, &[vec![raw(1, 16, 1)]]), ReaderStep::Read);
    drop(tx);
    // Nothing is evicted while an event still waits, or while a sender lives.
    proxy.run();
    assert_eq!(proxy.written, vec![raw(1, 16, 1)]);
    assert_eq!(proxy.pd.num_sources(), 1);
    assert!(proxy.pd.remove_source("/dev/input/event3"));
    proxy.local = proxy.pd.rebuild();
    assert_eq!(proxy.pd.num_sources(), 0);
    // The receiving ends are gone: a reader that still tries to publish stops.
    assert_eq!(read_batches(&late, &[vec![raw(1, 17, 1)]]), ReaderStep::Stop);
    proxy.run();
    assert_eq!(proxy.written, vec![raw(1, 16, 1)]);
}

#[test]
fn remove_event_for_an_absent_path_changes_nothing() {
    let listener = listener_by_config("input", 32, &None);
    let mut proxy = Proxy::new();
    let _tx = proxy.add_source_dev("/dev/input/event3").expect("added");
    proxy.run();

    let gone = listener
        .on_change(&change("remove", "/dev/input/event7", "046d", "c52b"))
        .expect("the listener reports it");
    assert_eq!(gone.action, DevEventType::Remove);
    assert!(proxy.on_hotplug(&gone).is_none());
    assert_eq!(proxy.pd.num_sources(), 1);
    assert!(!proxy.pd.needs_reload());
    assert!(!proxy.step());

    assert!(!proxy.pd.remove_source(&gone.devname));
    assert_eq!(proxy.pd.num_sources(), 1);
    assert!(proxy.pd.has_source("/dev/input/event3"));
    assert!(!proxy.pd.needs_reload());
    assert!(!proxy.step());
    assert!(proxy.written.is_empty());
}

#[test]
fn events_of_one_source_keep_their_order_among_others() {
    let mut proxy = Proxy::new();
    let tx1 = proxy.add_source_dev("/dev/input/event3").expect("added");
    let tx2 = proxy.add_source_dev("/dev/input/event4").expect("added");
    proxy.run();
    let first: Vec<RawEvent> = (0..40).map(|i| raw(1, i, 1)).collect();
    let second: Vec<RawEvent> = (0..40).map(|i| raw(2, i, 1)).collect();
    assert_eq!(
        read_batches(&tx1, &[first[..7].to_vec(), Vec::new(), first[7..].to_vec()]),
        ReaderStep::Read
    );
    assert_eq!(
        read_batches(&tx2, &[second[..1].to_vec(), second[1..].to_vec()]),
        ReaderStep::Read
    );
    proxy.run();
    assert_eq!(proxy.written.len(), 80);
    let from1: Vec<RawEvent> = proxy.written.iter().copied().filter(|e| e[16] == 1).collect();
    let from2: Vec<RawEvent> = proxy.written.iter().copied().filter(|e| e[16] == 2).collect();
    assert_eq!(from1, first);
    assert_eq!(from2, second);
}

#[test]
fn added_source_is_forwarded_without_other_activity() {
    let mut proxy = Proxy::new();
    let _tx1 = proxy.add_source_dev("/dev/input/event3").expect("added");
    proxy.run();
    assert!(!proxy.step());

    let tx2 = proxy.add_source_dev("/dev/input/event4").expect("added");
    assert!(proxy.pd.needs_reload());
    // The reload signal alone wakes the loop; after it the loop waits on the new source.
    assert!(proxy.step());
    assert!(!proxy.pd.needs_reload());
    assert_eq!(proxy.local.len(), 2);
    assert_eq!(proxy.local[1].0, "/dev/input/event4");
    assert!(!proxy.step());

    assert_eq!(read_batches(&tx2, &[vec![raw(2, 0, 5)]]), ReaderStep::Read);
    assert!(proxy.step());
    assert_eq!(proxy.written, vec![raw(2, 0, 5)]);
}

#[test]
fn reader_stops_when_its_channel_is_full_or_closed() {
    let (tx, rx) = bounded::<RawEvent>(2);
    let batch = vec![raw(1, 1, 1), raw(1, 2, 1), raw(1, 3, 1)];
    // The third publication finds no room: here that counts as a failure.
    assert_eq!(read_batches(&tx, &[batch.clone(), batch.clone()]), ReaderStep::Stop);
    assert_eq!(rx.try_iter().collect::<Vec<_>>(), batch[..2].to_vec());
    drop(rx);
    assert_eq!(read_batches(&tx, &[batch]), ReaderStep::Stop);
}
