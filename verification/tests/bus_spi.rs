use flint_drivers::bus::spi::{SpiBus, MAX_TRANSFER};
use flint_drivers::bus::uart::UartBus;
use flint_drivers::bus::{spi_frame, uart, BusError, BusKind, Op, Plan, Reply, Transfer};

#[derive(Default)]
struct Echo {
    sent: Vec<u8>,
    waited: u32,
}

impl Echo {
    fn exchange(&mut self, tx: &[u8], rx: &mut [u8]) {
        let len = tx.len().min(rx.len());
        self.sent.extend_from_slice(&tx[..len]);
        rx[..len].copy_from_slice(&tx[..len]);
    }

    fn perform(&mut self, transfer: &Transfer, buffers: &mut [&mut [u8]]) {
        match transfer {
            Transfer::Exchange { tx, rx: Reply::Drop(len) } => {
                self.exchange(tx, &mut vec![0; *len]);
            }
            Transfer::Exchange { tx, rx: Reply::Keep { op, from, len } } => {
                let room = &mut buffers[*op][*from..*from + *len];
                self.exchange(tx, room);
            }
            Transfer::Delay(us) => self.waited += us,
        }
    }

    fn run(&mut self, plan: Plan, buffers: &mut [&mut [u8]]) -> Result<(), BusError> {
        for transfer in &plan.transfers {
            self.perform(transfer, buffers);
        }
        plan.result
    }
}

fn write(tx: &[u8]) -> Op<'_> {
    Op { tx: Some(tx), rx: None, word_bits: 8, delay_us: 0 }
}

fn read(len: usize) -> Op<'static> {
    Op { tx: None, rx: Some(len), word_bits: 8, delay_us: 0 }
}

fn exchange(tx: &[u8], len: usize) -> Op<'_> {
    Op { tx: Some(tx), rx: Some(len), word_bits: 8, delay_us: 0 }
}

#[test]
fn exchange_echoes_tx_into_rx() {
    let mut phys = Echo::default();
    let bus = SpiBus::new();
    let mut rx = [0u8; 4];
    phys.run(bus.transfer(&[exchange(b"data", 4)]), &mut [&mut rx]).unwrap();
    assert_eq!(&rx, b"data");
}

#[test]
fn a_read_op_clocks_zeros_and_fills_the_buffer() {
    let mut phys = Echo::default();
    let bus = SpiBus::new();
    let mut rx = [0xAAu8; 3];
    phys.run(bus.transfer(&[read(3)]), &mut [&mut rx]).unwrap();
    assert_eq!(rx, [0u8; 3]);
}

#[test]
fn lib_a_non_byte_word_is_rejected() {
    let mut phys = Echo::default();
    let bus = SpiBus::new();
    let mut rx = [0u8; 2];
    let op = Op { word_bits: 16, ..exchange(b"hi", 2) };
    assert_eq!(
        phys.run(bus.transfer(&[op]), &mut [&mut rx]),
        Err(BusError::InvalidConfig)
    );
}

#[test]
fn a_write_only_op_sends_every_byte() {
    let mut phys = Echo::default();
    let bus = SpiBus::new();
    phys.run(bus.transfer(&[write(b"cmd")]), &mut []).unwrap();
    assert_eq!(&phys.sent[..], b"cmd");
}

#[test]
fn a_write_longer_than_the_buffer_sends_every_byte() {
    let mut phys = Echo::default();
    let bus = SpiBus::new();
    let tx: Vec<u8> = (0..=200u8).collect();
    phys.run(bus.transfer(&[write(&tx)]), &mut []).unwrap();
    assert_eq!(&phys.sent[..], &tx[..]);
}

#[test]
fn a_read_longer_than_the_buffer_fills_every_byte() {
    let mut phys = Echo::default();
    let bus = SpiBus::new();
    let mut rx = [0xAAu8; 150];
    phys.run(bus.transfer(&[read(150)]), &mut [&mut rx]).unwrap();
    assert_eq!(rx, [0u8; 150], "every byte must be clocked in");
    assert_eq!(phys.sent.len(), 150, "every byte must be clocked out");
}

#[test]
fn logical_drivers_still_reach_it_through_bushandle() {
    let mut phys = Echo::default();
    let bus = SpiBus::new();
    let mut rx = [0u8; 4];
    assert!(phys.run(bus.transfer(&[exchange(b"data", 4)]), &mut [&mut rx]).is_ok());
    assert_eq!(&rx, b"data");
    assert!(phys.run(bus.transfer(&[write(b"cmd")]), &mut []).is_ok());
    assert!(phys.run(bus.transfer(&[read(4)]), &mut [&mut rx]).is_ok());
    assert_eq!(bus.max_transfer(), MAX_TRANSFER);
    assert_eq!(bus.kind(), BusKind::Spi);
}

#[test]
fn a_write_goes_out_in_buffer_sized_pieces() {
    let bus = SpiBus::new();
    let plan = bus.transfer(&[Op { delay_us: 7, ..write(&[1; 130]) }]);
    let lengths: Vec<usize> = plan
        .transfers
        .iter()
        .map(|t| match t {
            Transfer::Exchange { tx, rx } => {
                assert_eq!(*rx, Reply::Drop(tx.len()));
                tx.len()
            }
            Transfer::Delay(us) => *us as usize,
        })
        .collect();
    assert_eq!(lengths, vec![64, 64, 2, 7]);
    assert_eq!(plan.result, Ok(()));
    assert!(bus.transfer(&[write(&[])]).transfers.is_empty());
}

#[test]
fn spi_transfer_echo() {
    let mut phys = Echo::default();
    let bus = spi_frame::SpiBus::new();
    let mut rx = [0u8; 4];
    phys.perform(&bus.transfer(b"data", 4), &mut [&mut rx]);
    assert_eq!(&rx[..4], b"data");
}

#[test]
fn spi_write_read() {
    let mut phys = Echo::default();
    let bus = spi_frame::SpiBus::new();
    phys.perform(&bus.write(b"hello"), &mut []);
    assert_eq!(&phys.sent[..], b"hello");
    let mut buf = [0u8; 5];
    phys.perform(&bus.read(5), &mut [&mut buf]);
    assert_eq!(&buf, &[0u8; 5]);
}

#[test]
fn a_one_way_message_is_cut_at_the_buffer() {
    let mut phys = Echo::default();
    let bus = spi_frame::SpiBus::new();
    phys.perform(&bus.write(&[3; 100]), &mut []);
    assert_eq!(phys.sent, vec![3; 64]);
    let mut buf = [9u8; 70];
    phys.perform(&bus.read(70), &mut [&mut buf]);
    assert_eq!(buf[..64], [0; 64]);
    assert_eq!(buf[64..], [9; 6]);
    assert_eq!(bus.set_speed(1), Err(BusError::InvalidConfig));
}

#[test]
fn a_two_way_message_is_cut_at_the_buffer() {
    let mut phys = Echo::default();
    let bus = spi_frame::SpiBus::new();
    let mut rx = [9u8; 70];
    phys.perform(&bus.transfer(&[3; 100], 70), &mut [&mut rx]);
    assert_eq!(phys.sent, vec![3; 64]);
    assert_eq!(rx[..64], [3; 64]);
    assert_eq!(rx[64..], [9; 6]);
    match bus.transfer(&[3; 100], 5) {
        Transfer::Exchange { tx, rx } => {
            assert_eq!(tx.len(), 64);
            assert_eq!(rx, Reply::Keep { op: 0, from: 0, len: 5 });
        }
        Transfer::Delay(_) => unreachable!(),
    }
}

#[test]
fn write_and_read_ops_reach_the_driver() {
    let mut phys = Echo::default();
    let bus = UartBus::new();
    phys.run(bus.transfer(&[write(b"hello")]), &mut []).unwrap();
    let mut buf = [0xAAu8; 4];
    phys.run(bus.transfer(&[read(4)]), &mut [&mut buf]).unwrap();
    assert_eq!(&buf, &[0u8; 4]);
}

#[test]
fn logical_surface_survives_through_bushandle() {
    let mut phys = Echo::default();
    let bus = UartBus::new();
    let mut rx = [0u8; 4];
    assert!(phys.run(bus.transfer(&[exchange(b"data", 4)]), &mut [&mut rx]).is_ok());
    assert_eq!(&rx, b"data");
    assert_eq!(bus.max_transfer(), uart::MAX_TRANSFER);
}

#[test]
fn a_serial_read_is_capped_and_a_wide_word_refused() {
    let mut phys = Echo::default();
    let bus = UartBus::new();
    let mut buf = [9u8; 300];
    phys.run(bus.transfer(&[read(300)]), &mut [&mut buf]).unwrap();
    assert_eq!(buf[..256], [0; 256]);
    assert_eq!(buf[256..], [9; 44]);
    let op = Op { word_bits: 9, ..write(&[1]) };
    assert_eq!(phys.run(bus.transfer(&[op]), &mut []), Err(BusError::InvalidConfig));
    let plan = bus.transfer(&[write(b"hello")]);
    assert!(matches!(
        &plan.transfers[..],
        [Transfer::Exchange { tx, rx: Reply::Drop(0) }] if tx == b"hello"
    ));
}

#[test]
fn a_serial_write_is_capped_both_ways() {
    let bus = UartBus::new();
    let plan = bus.transfer(&[write(&[1; 300]), exchange(&[2; 257], 400)]);
    assert!(matches!(
        &plan.transfers[..],
        [
            Transfer::Exchange { tx: a, rx: Reply::Drop(0) },
            Transfer::Exchange { tx: b, rx: Reply::Keep { op: 1, from: 0, len: 256 } },
        ] if a == &vec![1; 256] && b == &vec![2; 256]
    ));
}
