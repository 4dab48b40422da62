use flint_drivers::bus::i2c::{I2cBus, MAX_PAYLOAD};
use flint_drivers::bus::{i2c_frame, BusError, BusKind, Op, Plan, Reply, Transfer};

struct Recorder {
    seen: Vec<Vec<u8>>,
    canned: Vec<u8>,
    waited: u32,
}

impl Recorder {
    fn exchange(&mut self, tx: &[u8], rx: &mut [u8]) {
        self.seen.push(tx.to_vec());
        let n = rx.len().min(self.canned.len());
        rx[..n].copy_from_slice(&self.canned[..n]);
    }

    fn run(&mut self, plan: Plan, buffers: &mut [&mut [u8]]) -> Result<(), BusError> {
        for transfer in &plan.transfers {
            match transfer {
                Transfer::Exchange { tx, rx: Reply::Drop(len) } => {
                    self.exchange(tx, &mut vec![0; *len]);
                }
                Transfer::Exchange { tx, rx: Reply::Keep { op, from, len } } => {
                    let room = &mut buffers[*op][*from..*from + *len];
                    self.exchange(tx, room);
                }
                Transfer::Delay(us) => self.waited += us,
            }
        }
        plan.result
    }
}

fn bus_with(canned: &[u8]) -> (I2cBus, Recorder) {
    (I2cBus::new(0x76), Recorder { seen: Vec::new(), canned: canned.to_vec(), waited: 0 })
}

fn write(tx: &[u8]) -> Op<'_> {
    Op { tx: Some(tx), rx: None, word_bits: 8, delay_us: 0 }
}

fn read(len: usize) -> Op<'static> {
    Op { tx: None, rx: Some(len), word_bits: 8, delay_us: 0 }
}

fn exchange(tx: &[u8], len: usize) -> Op<'_> {
    Op { tx: Some(tx), rx: Some(len), word_bits: 8, delay_us: 0 }
}

#[test]
fn the_address_reaches_the_physical_layer_unshifted() {
    let (bus, mut rec) = bus_with(&[]);
    rec.run(bus.transfer(&[write(&[0xF4, 0x27])]), &mut []).unwrap();
    assert_eq!(rec.seen[0][0], 0x76, "address must not be pre-shifted");
}

#[test]
fn all_three_shapes_address_the_device_the_same_way() {
    for (name, run) in [("write", 0), ("read", 1), ("exchange", 2)] {
        let (bus, mut rec) = bus_with(&[0xAA; 4]);
        let mut rx = [0u8; 2];
        let plan = match run {
            0 => bus.transfer(&[write(&[0x01])]),
            1 => bus.transfer(&[read(2)]),
            _ => bus.transfer(&[exchange(&[0x01], 2)]),
        };
        rec.run(plan, &mut [&mut rx]).unwrap();
        assert_eq!(rec.seen[0][0], 0x76, "{name} addressed differently");
    }
}

#[test]
fn a_read_returns_the_bytes_to_the_caller() {
    let (bus, mut rec) = bus_with(&[0xDE, 0xAD, 0xBE]);
    let mut buf = [0u8; 3];
    rec.run(bus.transfer(&[read(3)]), &mut [&mut buf]).unwrap();
    assert_eq!(buf, [0xDE, 0xAD, 0xBE]);
}

#[test]
fn an_exchange_returns_the_bytes_to_the_caller() {
    let (bus, mut rec) = bus_with(&[0x12, 0x34]);
    let mut buf = [0u8; 2];
    rec.run(bus.transfer(&[exchange(&[0xF7], 2)]), &mut [&mut buf]).unwrap();
    assert_eq!(buf, [0x12, 0x34]);
}

#[test]
fn a_plain_read_sends_the_address_and_nothing_else() {
    let (bus, mut rec) = bus_with(&[0; 4]);
    let mut buf = [0u8; 4];
    rec.run(bus.transfer(&[read(4)]), &mut [&mut buf]).unwrap();
    assert_eq!(rec.seen, vec![vec![0x76]], "read sends only the address");
}

#[test]
fn a_write_carries_its_payload_after_the_address() {
    let (bus, mut rec) = bus_with(&[]);
    rec.run(bus.transfer(&[write(&[0xF4, 0x27])]), &mut []).unwrap();
    assert_eq!(rec.seen, vec![vec![0x76, 0xF4, 0x27]]);
}

#[test]
fn a_write_past_the_fifo_is_refused_not_cut_short() {
    let (bus, mut rec) = bus_with(&[]);
    let tx = [0x55u8; MAX_PAYLOAD + 1];
    assert_eq!(rec.run(bus.transfer(&[write(&tx)]), &mut []), Err(BusError::InvalidConfig));
    assert!(rec.seen.is_empty(), "nothing may reach the wire");
    let tx = [0x55u8; MAX_PAYLOAD];
    rec.run(bus.transfer(&[write(&tx)]), &mut []).unwrap();
    assert_eq!(rec.seen[0].len(), MAX_PAYLOAD + 1);
}

#[test]
fn a_non_byte_word_is_rejected() {
    let (bus, mut rec) = bus_with(&[]);
    let op = Op { word_bits: 7, ..write(&[0x01]) };
    assert_eq!(rec.run(bus.transfer(&[op]), &mut []), Err(BusError::InvalidConfig));
}

#[test]
fn a_refused_operation_ends_the_list_there() {
    let (bus, mut rec) = bus_with(&[9]);
    let mut buf = [0u8; 1];
    let wide = Op { word_bits: 16, ..write(&[2]) };
    let ops = [Op { delay_us: 30, ..write(&[1]) }, read(1), wide, write(&[3])];
    let plan = bus.transfer(&ops);
    assert_eq!(rec.run(plan, &mut [&mut [], &mut buf]), Err(BusError::InvalidConfig));
    assert_eq!(rec.seen, vec![vec![0x76, 1], vec![0x76]]);
    assert_eq!(rec.waited, 30);
    assert_eq!(buf, [9]);
}

#[test]
fn an_empty_operation_only_waits() {
    let (bus, mut rec) = bus_with(&[]);
    let op = Op { tx: None, rx: None, word_bits: 8, delay_us: 5 };
    rec.run(bus.transfer(&[op]), &mut []).unwrap();
    assert!(rec.seen.is_empty());
    assert_eq!(rec.waited, 5);
    assert_eq!(bus.max_transfer(), 64);
    assert_eq!(bus.kind(), BusKind::I2c);
    assert_eq!(bus.set_speed(400_000), Err(BusError::InvalidConfig));
}

#[test]
fn i2c_write_builds_frame() {
    let bus = i2c_frame::I2cBus::new(0x76);
    match bus.write(&[0xF4, 0x27]) {
        Transfer::Exchange { tx, rx } => {
            assert_eq!(tx, vec![0xEC, 0xF4, 0x27]);
            assert_eq!(rx, Reply::Drop(65));
        }
        Transfer::Delay(_) => unreachable!(),
    }
}

#[test]
fn i2c_read() {
    let bus = i2c_frame::I2cBus::new(0x76);
    let buf = [0u8; 3];
    match bus.read(buf.len()) {
        Transfer::Exchange { tx, rx } => {
            assert_eq!(tx, vec![0xED]);
            assert_eq!(rx, Reply::Keep { op: 0, from: 0, len: 3 });
        }
        Transfer::Delay(_) => unreachable!(),
    }
}

#[test]
fn a_message_addresses_each_direction_it_has() {
    let bus = i2c_frame::I2cBus::new(0x76);
    let list = bus.transfer(&[1, 2], 3);
    let sent: Vec<(Vec<u8>, Reply)> = list
        .into_iter()
        .map(|t| match t {
            Transfer::Exchange { tx, rx } => (tx, rx),
            Transfer::Delay(_) => unreachable!(),
        })
        .collect();
    assert_eq!(
        sent,
        vec![
            (vec![0x76], Reply::Drop(0)),
            (vec![0x77], Reply::Drop(64)),
        ]
    );
    assert!(bus.transfer(&[], 0).is_empty());
    assert_eq!(bus.transfer(&[], 1).len(), 1);
    assert_eq!(bus.set_speed(1), Err(BusError::InvalidConfig));
}

#[test]
fn a_long_message_is_cut_at_the_buffer() {
    let bus = i2c_frame::I2cBus::new(0x21);
    match bus.write(&[7; 80]) {
        Transfer::Exchange { tx, .. } => assert_eq!(tx.len(), 65),
        Transfer::Delay(_) => unreachable!(),
    }
    match bus.read(80) {
        Transfer::Exchange { tx, rx } => {
            assert_eq!(tx, vec![0x43]);
            assert_eq!(rx, Reply::Keep { op: 0, from: 0, len: 80 });
        }
        Transfer::Delay(_) => unreachable!(),
    }
}
