use collector::center::{DataCenter, DataCenterError, DownlinkSlot, Identifiable, LatestTable};
use collector::point::{Entry, Val};
use tokio::sync::mpsc::Sender;

#[derive(Default)]
struct TestDev {}

impl Identifiable for TestDev {
    fn id(&self) -> String {
        "BCU".to_string()
    }
}

fn f32v(x: f32) -> Val {
    Val::F32(x.to_bits())
}

fn entry(k: &str, v: Val) -> Entry {
    Entry::new(k.to_string(), v)
}

#[test]
fn test_ingest() {
    let mut center: DataCenter<Sender<Vec<Entry>>> = DataCenter::new(12);
    let dev = TestDev::default();
    let a = center.snapshot(&dev.id());
    assert!(a.is_none());
    center.ingest(&dev.id(), vec![entry("SOH", f32v(100.0))]);
    let b = center.snapshot(&dev.id());
    assert!(b.is_some());
    assert_eq!(b.unwrap()[0].value, f32v(100.0));
}

#[test]
fn test_dispatch() {
    let rt = tokio::runtime::Builder::new_current_thread().enable_all().build().unwrap();
    rt.block_on(async {
        let mut center: DataCenter<Sender<Vec<Entry>>> = DataCenter::new(12);
        let dev = TestDev::default();
        let a = center.snapshot(&dev.id());
        assert!(a.is_none());
        let (tx, mut rx) = tokio::sync::mpsc::channel(1);
        center.attach(&dev.id(), tx).unwrap();
        let sender = center.dispatch_target(&dev.id()).unwrap().clone();
        let _ = sender.send(vec![entry("SOC", f32v(84.3))]).await;
        center.ingest(&dev.id(), vec![entry("SOH", f32v(100.0))]);
        let b = center.snapshot(&dev.id());
        assert!(b.is_some());
        assert_eq!(b.unwrap()[0].value, f32v(100.0));
        let c = rx.recv().await;
        assert!(c.is_some());
        assert_eq!(c.unwrap()[0].value, f32v(84.3));
        center.detach(&dev.id());
    });
}

#[test]
fn ingest_twice_keeps_one_entry() {
    let mut center: DataCenter<()> = DataCenter::new(1);
    center.ingest("BCU", vec![entry("SOH", f32v(100.0))]);
    center.ingest("BCU", vec![entry("SOH", f32v(100.0))]);
    let snap = center.snapshot("BCU").unwrap();
    assert_eq!(snap, vec![entry("SOH", f32v(100.0))]);
}

#[test]
fn last_ingested_value_is_read() {
    let mut center: DataCenter<()> = DataCenter::new(1);
    for v in [1u16, 2, 2, 3] {
        center.ingest("BCU", vec![entry("P", Val::U16(v))]);
    }
    assert_eq!(center.read("BCU", "P"), Some(Val::U16(3)));
    assert_eq!(center.read("BCU", "Q"), None);
    assert_eq!(center.read("PCS", "P"), None);
}

#[test]
fn later_entry_in_one_batch_wins() {
    let mut t = LatestTable::new();
    t.ingest(vec![entry("A", Val::I8(-1)), entry("B", Val::U8(1)), entry("A", Val::I32(7))]);
    assert_eq!(t.read("A"), Some(Val::I32(7)));
    assert_eq!(t.snapshot(), vec![entry("A", Val::I32(7)), entry("B", Val::U8(1))]);
}

#[test]
fn devices_are_kept_apart() {
    let mut center: DataCenter<()> = DataCenter::new(2);
    center.ingest("A", vec![entry("X", Val::U8(1))]);
    center.ingest("B", vec![entry("X", Val::U8(2))]);
    assert_eq!(center.read("A", "X"), Some(Val::U8(1)));
    assert_eq!(center.read("B", "X"), Some(Val::U8(2)));
}

#[test]
fn empty_ingest_creates_device() {
    let mut center: DataCenter<()> = DataCenter::new(1);
    center.ingest("BCU", vec![]);
    assert_eq!(center.snapshot("BCU"), Some(vec![]));
}

#[test]
fn attach_twice_is_refused() {
    let mut center: DataCenter<u8> = DataCenter::new(1);
    assert!(center.attach("BCU", 1).is_ok());
    match center.attach("BCU", 2) {
        Err(DataCenterError::DevHasRegister(d)) => assert_eq!(d, "BCU"),
        other => panic!("unexpected {:?}", other),
    }
    assert_eq!(center.dispatch_target("BCU").ok(), Some(&1));
}

#[test]
fn dispatch_after_detach_is_not_found() {
    let mut center: DataCenter<u8> = DataCenter::new(1);
    center.attach("BCU", 1).unwrap();
    center.detach("BCU");
    center.detach("BCU");
    match center.dispatch_target("BCU") {
        Err(DataCenterError::NotFoundDevError(d)) => assert_eq!(d, "BCU"),
        other => panic!("unexpected {:?}", other),
    }
    assert!(center.attach("BCU", 3).is_ok());
}

#[test]
fn dispatch_round_trip_delivers_vector() {
    let rt = tokio::runtime::Builder::new_current_thread().build().unwrap();
    rt.block_on(async {
        let mut center: DataCenter<Sender<Vec<Entry>>> = DataCenter::new(1);
        let (tx, mut rx) = tokio::sync::mpsc::channel(16);
        center.attach("BCU", tx).unwrap();
        let msg = vec![entry("SOC", f32v(84.3))];
        center.dispatch_target("BCU").unwrap().send(msg.clone()).await.unwrap();
        assert_eq!(rx.recv().await, Some(msg));
    });
}

#[test]
fn downlink_slot_registers_once() {
    let mut slot: DownlinkSlot<u8> = DownlinkSlot::new();
    match slot.dispatch_target("BCU") {
        Err(DataCenterError::NotFoundDevError(d)) => assert_eq!(d, "BCU"),
        other => panic!("unexpected {:?}", other),
    }
    assert!(slot.attach("BCU", 1).is_ok());
    assert!(matches!(slot.attach("BCU", 2), Err(DataCenterError::DevHasRegister(_))));
    assert_eq!(slot.dispatch_target("BCU").ok(), Some(&1));
    slot.detach();
    assert!(slot.dispatch_target("BCU").is_err());
}
