use motorbridge::bus::{CanBus, CanFrame};
use motorbridge::controller::{CoreController, PollNext};
use motorbridge::device::MotorDevice;
use motorbridge::error::MotorError;
use motorbridge::vendor_controller::VendorController;
use std::collections::VecDeque;
use std::sync::atomic::{AtomicBool, AtomicUsize, Ordering};
use std::sync::{Arc, Mutex};

#[derive(Clone)]
struct FakeBus {
    rx: Arc<Mutex<VecDeque<CanFrame>>>,
    sent: Arc<Mutex<Vec<CanFrame>>>,
    shutdown_count: Arc<AtomicUsize>,
    fail_recv: Arc<AtomicBool>,
}

impl FakeBus {
    fn new() -> Self {
        Self {
            rx: Arc::new(Mutex::new(VecDeque::new())),
            sent: Arc::new(Mutex::new(Vec::new())),
            shutdown_count: Arc::new(AtomicUsize::new(0)),
            fail_recv: Arc::new(AtomicBool::new(false)),
        }
    }

    fn push_rx(&self, frame: CanFrame) {
        self.rx.lock().expect("rx lock").push_back(frame);
    }

    fn set_fail_recv(&self, fail: bool) {
        self.fail_recv.store(fail, Ordering::SeqCst);
    }
}

impl CanBus for FakeBus {
    fn send(&mut self, frame: CanFrame) -> Result<(), MotorError> {
        self.sent.lock().expect("sent lock").push(frame);
        Ok(())
    }

    fn recv(&mut self, _timeout_ms: u64) -> Result<Option<CanFrame>, MotorError> {
        if self.fail_recv.load(Ordering::SeqCst) {
            return Err(MotorError::Io("injected recv error".to_string()));
        }
        Ok(self.rx.lock().expect("rx lock").pop_front())
    }

    fn shutdown(&mut self) -> Result<(), MotorError> {
        self.shutdown_count.fetch_add(1, Ordering::SeqCst);
        Ok(())
    }
}

#[derive(Clone)]
struct Counters {
    enable_count: Arc<AtomicUsize>,
    disable_count: Arc<AtomicUsize>,
    processed_count: Arc<AtomicUsize>,
}

struct FakeDevice {
    id: u16,
    accepts_id: u32,
    counters: Counters,
    fail_power: bool,
}

impl FakeDevice {
    fn new(id: u16, accepts_id: u32) -> (Self, Counters) {
        let counters = Counters {
            enable_count: Arc::new(AtomicUsize::new(0)),
            disable_count: Arc::new(AtomicUsize::new(0)),
            processed_count: Arc::new(AtomicUsize::new(0)),
        };
        (Self { id, accepts_id, counters: counters.clone(), fail_power: false }, counters)
    }
}

impl MotorDevice for FakeDevice {
    fn vendor(&self) -> &'static str {
        "fake"
    }

    fn model(&self) -> &str {
        "fake-model"
    }

    fn motor_id(&self) -> u16 {
        self.id
    }

    fn feedback_id(&self) -> u16 {
        self.accepts_id as u16
    }

    fn enable(&mut self) -> Result<(), MotorError> {
        self.counters.enable_count.fetch_add(1, Ordering::SeqCst);
        if self.fail_power {
            return Err(MotorError::Io(format!("enable {} failed", self.id)));
        }
        Ok(())
    }

    fn disable(&mut self) -> Result<(), MotorError> {
        self.counters.disable_count.fetch_add(1, Ordering::SeqCst);
        if self.fail_power {
            return Err(MotorError::Io(format!("disable {} failed", self.id)));
        }
        Ok(())
    }

    fn accepts_frame(&self, frame: &CanFrame) -> bool {
        frame.arbitration_id == self.accepts_id
    }

    fn process_feedback_frame(&mut self, _frame: CanFrame) -> Result<(), MotorError> {
        self.counters.processed_count.fetch_add(1, Ordering::SeqCst);
        if self.fail_power {
            return Err(MotorError::Io(format!("feedback {} failed", self.id)));
        }
        Ok(())
    }
}

fn rx_frame(id: u32) -> CanFrame {
    CanFrame {
        arbitration_id: id,
        data: [0; 8],
        dlc: 8,
        is_extended: false,
        is_rx: true,
    }
}

#[test]
fn add_device_rejects_duplicate_motor_id() {
    let bus = FakeBus::new();
    let mut ctrl = CoreController::new(bus);
    let (d1, _) = FakeDevice::new(1, 0x11);
    let (d2, _) = FakeDevice::new(1, 0x12);
    ctrl.add_device(d1).expect("first add");
    assert!(ctrl.add_device(d2).is_err());
    ctrl.close_bus().expect("close");
}

#[test]
fn poll_feedback_routes_to_accepting_device() {
    let bus = FakeBus::new();
    bus.push_rx(rx_frame(0x12));
    bus.push_rx(rx_frame(0x11));

    let mut ctrl = CoreController::new(bus);
    let (d1, c1) = FakeDevice::new(1, 0x11);
    let (d2, c2) = FakeDevice::new(2, 0x12);
    ctrl.add_device(d1).expect("add d1");
    ctrl.add_device(d2).expect("add d2");

    ctrl.poll_feedback_once().expect("poll");

    assert_eq!(c1.processed_count.load(Ordering::SeqCst), 1);
    assert_eq!(c2.processed_count.load(Ordering::SeqCst), 1);
    ctrl.close_bus().expect("close");
}

#[test]
fn enable_and_disable_all_touch_each_device_once() {
    let bus = FakeBus::new();
    let mut ctrl = CoreController::new(bus);
    let (d1, c1) = FakeDevice::new(1, 0x11);
    let (d2, c2) = FakeDevice::new(2, 0x12);
    ctrl.add_device(d1).expect("add d1");
    ctrl.add_device(d2).expect("add d2");

    ctrl.enable_all().expect("enable all");
    ctrl.disable_all().expect("disable all");

    assert_eq!(c1.enable_count.load(Ordering::SeqCst), 1);
    assert_eq!(c2.enable_count.load(Ordering::SeqCst), 1);
    assert_eq!(c1.disable_count.load(Ordering::SeqCst), 1);
    assert_eq!(c2.disable_count.load(Ordering::SeqCst), 1);
    ctrl.close_bus().expect("close");
}

#[test]
fn shutdown_disables_devices_and_closes_bus() {
    let bus = FakeBus::new();
    let mut ctrl = CoreController::new(bus.clone());
    let (d1, c1) = FakeDevice::new(1, 0x11);
    ctrl.add_device(d1).expect("add d1");

    ctrl.shutdown().expect("shutdown");

    assert_eq!(c1.disable_count.load(Ordering::SeqCst), 1);
    assert_eq!(bus.shutdown_count.load(Ordering::SeqCst), 1);
}

#[test]
fn poll_feedback_once_returns_bus_recv_error() {
    let bus = FakeBus::new();
    let mut ctrl = CoreController::new(bus.clone());
    let (d1, _) = FakeDevice::new(1, 0x11);
    ctrl.add_device(d1).expect("add d1");

    bus.set_fail_recv(true);
    let err = ctrl.poll_feedback_once().expect_err("recv should fail");
    assert!(err.to_string().contains("injected recv error"));
    ctrl.close_bus().expect("close");
}

#[test]
fn frames_that_are_not_received_or_not_taken_go_nowhere() {
    let bus = FakeBus::new();
    let mut ctrl = CoreController::new(bus.clone());
    let (d1, c1) = FakeDevice::new(1, 0x11);
    let (d2, c2) = FakeDevice::new(2, 0x11);
    ctrl.add_device(d1).expect("add d1");
    ctrl.add_device(d2).expect("add d2");
    let mut tx = rx_frame(0x11);
    tx.is_rx = false;
    assert!(!ctrl.route_frame(tx).unwrap());
    assert!(!ctrl.route_frame(rx_frame(0x33)).unwrap());
    assert!(ctrl.route_frame(rx_frame(0x11)).unwrap());
    assert_eq!(c1.processed_count.load(Ordering::SeqCst), 1);
    assert_eq!(c2.processed_count.load(Ordering::SeqCst), 0);
    assert_eq!(ctrl.device_count(), 2);
    assert!(bus.sent.lock().unwrap().is_empty());
}

#[test]
fn duplicate_id_error_names_the_id() {
    let mut ctrl = CoreController::new(FakeBus::new());
    ctrl.add_device(FakeDevice::new(7, 0x17).0).unwrap();
    match ctrl.add_device(FakeDevice::new(7, 0x18).0) {
        Err(MotorError::InvalidArgument(m)) => assert_eq!(m, "device with motor_id 7 already exists"),
        other => panic!("unexpected {:?}", other.is_ok()),
    }
    assert_eq!(ctrl.position_of(7), Some(0));
    assert_eq!(ctrl.position_of(8), None);
}

#[test]
fn vendor_controller_finds_motors_by_id() {
    let bus = FakeBus::new();
    let mut vc: VendorController<FakeBus, FakeDevice> = VendorController::new(bus.clone());
    vc.add_motor_with(1, |_b: FakeBus| Ok(FakeDevice::new(1, 0x11).0)).expect("add 1");
    vc.add_motor_with(2, |_b: FakeBus| Ok(FakeDevice::new(2, 0x12).0)).expect("add 2");
    assert_eq!(vc.motor_count(), 2);
    assert_eq!(vc.get_motor(2).expect("motor 2").motor_id(), 2);
    match vc.get_motor(3) {
        Err(MotorError::InvalidArgument(m)) => assert_eq!(m, "motor 3 not found"),
        _ => panic!("expected not found"),
    }
    assert!(vc.add_motor_with(1, |_b: FakeBus| Ok(FakeDevice::new(1, 0x13).0)).is_err());
    assert!(vc
        .add_motor_with(4, |_b: FakeBus| Err(MotorError::Io("builder failed".to_string())))
        .is_err());
    assert_eq!(vc.motor_count(), 2);
    bus.push_rx(rx_frame(0x12));
    vc.poll_feedback_once().expect("poll");
    vc.shutdown().expect("shutdown");
    assert_eq!(bus.shutdown_count.load(Ordering::SeqCst), 1);
}

#[test]
fn background_poll_steps() {
    let mut ctrl = CoreController::new(FakeBus::new());
    let (d1, c1) = FakeDevice::new(1, 0x11);
    ctrl.add_device(d1).expect("add");
    assert_eq!(ctrl.poll_step(Ok(Some(rx_frame(0x11)))), PollNext::Drain);
    assert_eq!(c1.processed_count.load(Ordering::SeqCst), 1);
    assert_eq!(ctrl.poll_step(Ok(None)), PollNext::Idle);
    assert_eq!(ctrl.poll_step(Err(MotorError::Io("gone".to_string()))), PollNext::Stop);
    assert_eq!(c1.processed_count.load(Ordering::SeqCst), 1);
}

#[test]
fn enable_all_stops_at_the_first_failing_motor_and_returns_its_error() {
    let bus = FakeBus::new();
    let mut ctrl = CoreController::new(bus.clone());
    let (d1, c1) = FakeDevice::new(1, 0x11);
    let (mut d2, c2) = FakeDevice::new(2, 0x12);
    d2.fail_power = true;
    let (d3, c3) = FakeDevice::new(3, 0x13);
    ctrl.add_device(d1).unwrap();
    ctrl.add_device(d2).unwrap();
    ctrl.add_device(d3).unwrap();
    match ctrl.enable_all() {
        Err(MotorError::Io(m)) => assert_eq!(m, "enable 2 failed"),
        _ => panic!("expected the second motor's error"),
    }
    assert_eq!(c1.enable_count.load(Ordering::SeqCst), 1);
    assert_eq!(c2.enable_count.load(Ordering::SeqCst), 1);
    assert_eq!(c3.enable_count.load(Ordering::SeqCst), 0);
    // shutdown ignores the failing disable and still closes the bus
    assert!(ctrl.shutdown().is_ok());
    assert_eq!(c1.disable_count.load(Ordering::SeqCst), 1);
    assert_eq!(c2.disable_count.load(Ordering::SeqCst), 1);
    assert_eq!(c3.disable_count.load(Ordering::SeqCst), 0);
    assert_eq!(bus.shutdown_count.load(Ordering::SeqCst), 1);
}

#[test]
fn poll_feedback_returns_the_failing_motors_error_and_stops_there() {
    let bus = FakeBus::new();
    bus.push_rx(rx_frame(0x11));
    bus.push_rx(rx_frame(0x12));
    bus.push_rx(rx_frame(0x11));
    let mut ctrl = CoreController::new(bus.clone());
    let (d1, c1) = FakeDevice::new(1, 0x11);
    let (mut d2, c2) = FakeDevice::new(2, 0x12);
    d2.fail_power = true;
    ctrl.add_device(d1).unwrap();
    ctrl.add_device(d2).unwrap();
    match ctrl.poll_feedback_once() {
        Err(MotorError::Io(m)) => assert_eq!(m, "feedback 2 failed"),
        _ => panic!("expected the second motor's error"),
    }
    assert_eq!(c1.processed_count.load(Ordering::SeqCst), 1);
    assert_eq!(c2.processed_count.load(Ordering::SeqCst), 1);
    assert_eq!(bus.rx.lock().unwrap().len(), 1);
}
