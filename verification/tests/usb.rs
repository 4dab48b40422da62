use flint_drivers::usb::descriptors::{self, microsoft, Identity, BOS, CONFIG};
use flint_drivers::usb::device::{
    Command, Control, Device, EndpointType, Error, Event, Halted, ResetTarget, Setup, Step,
};
use flint_drivers::usb::ring::Ring;
use flint_drivers::usb::serial::{Reply, Request, UsbSerial};
use std::collections::VecDeque;

#[derive(Default)]
struct Mock {
    events: VecDeque<Event>,
    writes: Vec<(u8, Vec<u8>)>,
    out: Vec<u8>,
    armed: Vec<u8>,
    stalls: [bool; 32],
    busy: [bool; 32],
    address: u8,
    configured: Vec<u8>,
    kinds: Vec<EndpointType>,
    broken: bool,
}

fn index(ep: u8) -> usize {
    usize::from(ep & 15) * 2 + usize::from(ep & 128 != 0)
}

impl Mock {
    fn poll(&mut self) -> Option<Event> {
        let event = self.events.pop_front();
        if matches!(event, Some(Event::Setup(_) | Event::Reset)) {
            self.stalls[0] = false;
            self.stalls[1] = false;
            self.busy[0] = false;
            self.busy[1] = false;
        }
        if let Some(Event::InComplete(ep) | Event::Out(ep)) = event {
            self.busy[index(ep)] = false;
        }
        if matches!(event, Some(Event::Reset)) {
            self.busy.fill(false);
        }
        event
    }

    fn run(&mut self, command: Command) {
        match command {
            Command::Configure { ep, kind } => {
                self.configured.push(ep);
                self.kinds.push(kind);
            }
            Command::CloseDataEndpoints => {
                self.configured.clear();
                self.stalls.fill(false);
                self.busy[2..].fill(false);
            }
            Command::SetAddress { address } => self.address = address,
            Command::WriteIn { ep, data } => {
                assert!(data.len() <= 64);
                assert!(!self.busy[index(ep)], "IN buffer overwritten before ACK");
                self.busy[index(ep)] = true;
                self.writes.push((ep, data));
            }
            Command::ArmOut { ep } => {
                assert!(!self.busy[index(ep)], "OUT buffer armed twice");
                self.busy[index(ep)] = true;
                self.armed.push(ep);
            }
            Command::SetStall { ep, halt } => {
                self.stalls[index(ep)] = halt;
                self.busy[index(ep)] = false;
            }
        }
    }

    fn stalled(&self, ep: u8) -> bool {
        self.stalls[index(ep)]
    }

    fn halted(&self) -> Halted {
        Halted {
            control_out: self.stalled(0),
            control_in: self.stalled(0x80),
            notify: self.stalled(0x81),
            rx: self.stalled(2),
            tx: self.stalled(0x82),
        }
    }
}

struct Rig {
    port: UsbSerial,
    controller: Mock,
}

impl Rig {
    fn service(&mut self) -> Result<(), Error> {
        let mut request = self.port.service(Reply::Start, self.controller.halted());
        loop {
            let reply = match request {
                Request::Return(result) => return result,
                _ if self.controller.broken => Reply::Failed(Error::Controller),
                Request::Poll => Reply::Event(self.controller.poll()),
                Request::Read(_) => Reply::Packet(std::mem::take(&mut self.controller.out)),
                Request::Run(command) => {
                    self.controller.run(command);
                    Reply::Done
                }
            };
            request = self.port.service(reply, self.controller.halted());
        }
    }

    fn perform(&mut self, step: Step) {
        for command in step.commands {
            self.controller.run(command);
        }
        self.port.device.commit(step.commit);
    }

    fn d(&mut self) -> &mut Device {
        &mut self.port.device
    }
}

fn identity() -> Identity {
    Identity {
        vid: 0x1209,
        pid: 1,
        manufacturer: "FlintOS",
        product: "test",
        serial: None,
        allow_reset: true,
    }
}

fn device() -> Rig {
    Rig { port: UsbSerial::new(identity()), controller: Mock::default() }
}

fn setup(d: &mut Rig, kind: u8, request: u8, value: u16, idx: u16, len: u16) {
    let v = value.to_le_bytes();
    let i = idx.to_le_bytes();
    let l = len.to_le_bytes();
    event(d, Event::Setup([kind, request, v[0], v[1], i[0], i[1], l[0], l[1]]));
}

fn event(d: &mut Rig, e: Event) {
    d.controller.events.push_back(e);
    d.service().unwrap();
}

fn ack(d: &mut Rig) {
    event(d, Event::InComplete(0x80));
}

fn configured() -> Rig {
    let mut d = device();
    setup(&mut d, 0, 5, 17, 0, 0);
    ack(&mut d);
    setup(&mut d, 0, 9, 1, 0, 0);
    ack(&mut d);
    setup(&mut d, 0x21, 0x22, 1, 0, 0);
    ack(&mut d);
    d.controller.writes.clear();
    d
}

#[test]
fn configuration_walk_is_exact_and_endpoints_are_distinct() {
    let mut offset = 0;
    let mut endpoints = 0u32;
    let mut interfaces = 0;
    while offset < CONFIG.len() {
        let len = CONFIG[offset] as usize;
        assert!(len >= 2 && offset + len <= CONFIG.len());
        if CONFIG[offset + 1] == 4 {
            interfaces += 1;
        }
        if CONFIG[offset + 1] == 5 {
            let ep = CONFIG[offset + 2];
            let bit = 1 << ((ep & 15) * 2 + u8::from(ep & 128 != 0));
            assert_eq!(endpoints & bit, 0);
            endpoints |= bit;
        }
        offset += len;
    }
    assert_eq!(offset, 84);
    assert_eq!(interfaces, CONFIG[4]);
    assert_eq!(endpoints.count_ones(), 3);
}

#[test]
fn microsoft_lengths_and_reset_interface_match() {
    let mut data = [0; 256];
    assert_eq!(microsoft(&mut data), 166);
    assert_eq!(u16::from_le_bytes([data[8], data[9]]), 166);
    assert_eq!(&data[14..18], &[2, 0, 156, 0]);
    assert_eq!(&data[22..30], b"WINUSB\0\0");
    assert_eq!(&data[164..166], &[0, 0]);
    assert_eq!(&BOS[29..31], &[166, 0]);
}

#[test]
fn address_and_configuration_change_only_after_status_ack() {
    let mut d = device();
    setup(&mut d, 0, 5, 17, 0, 0);
    assert_eq!(d.controller.address, 0);
    ack(&mut d);
    assert_eq!(d.controller.address, 17);
    setup(&mut d, 0, 9, 1, 0, 0);
    assert!(!d.port.status().configured);
    ack(&mut d);
    assert_eq!(d.controller.configured, vec![0x81, 2, 0x82]);
    assert_eq!(
        d.controller.kinds,
        vec![EndpointType::Interrupt, EndpointType::Bulk, EndpointType::Bulk]
    );
    assert!(d.d().rx_armed);
}

#[test]
fn all_descriptor_request_lengths_are_bounded() {
    for requested in [1, 8, 18, 63, 64, 65, 84, 255, 256, 65535] {
        let mut d = device();
        setup(&mut d, 0x80, 6, 0x200, 0, requested);
        while matches!(d.d().control, Control::In { .. }) {
            ack(&mut d);
        }
        let bytes: Vec<_> =
            d.controller.writes.iter().flat_map(|(_, v)| v.iter().copied()).collect();
        assert_eq!(bytes, &CONFIG[..usize::from(requested).min(84)]);
        assert!(matches!(d.d().control, Control::StatusOut));
        event(&mut d, Event::Out(0));
        assert!(matches!(d.d().control, Control::Idle));
    }
}

#[test]
fn exact_packet_short_descriptor_needs_zero_length_termination() {
    let mut d = device();
    d.d().reply[..64].fill(7);
    let step = d.d().send_reply(64, 255);
    d.perform(step);
    ack(&mut d);
    assert_eq!(
        d.controller.writes.iter().map(|(_, v)| v.len()).collect::<Vec<_>>(),
        vec![64, 0]
    );
    ack(&mut d);
    assert!(matches!(d.d().control, Control::StatusOut));
}

#[test]
fn exact_requested_length_does_not_add_a_zero_packet() {
    let mut d = device();
    let step = d.d().send_reply(64, 64);
    d.perform(step);
    ack(&mut d);
    assert_eq!(d.controller.writes.len(), 1);
}

#[test]
fn new_setup_cancels_pending_address_and_recovers_from_stall() {
    let mut d = device();
    setup(&mut d, 0, 5, 99, 0, 0);
    setup(&mut d, 0x80, 6, 0x100, 0, 18);
    ack(&mut d);
    assert_eq!(d.d().address, 0);
    setup(&mut d, 0x80, 6, 0xff00, 0, 64);
    assert!(d.controller.stalled(0x80));
    setup(&mut d, 0x80, 6, 0x100, 0, 18);
    assert!(!d.controller.stalled(0x80));
}

#[test]
fn invalid_control_fields_stall_instead_of_mutating_state() {
    for (kind, req, value, idx, len) in [
        (0, 5, 128, 0, 0),
        (0, 5, 2, 1, 0),
        (0, 5, 2, 0, 1),
        (0, 9, 2, 0, 0),
        (0x80, 6, 0x101, 0, 18),
        (0x80, 6, 0x100, 1, 18),
        (0x80, 6, 0x300, 9, 4),
        (0x21, 0x20, 0, 0, 8),
        (0x21, 0x22, 4, 0, 0),
        (0x21, 0x22, 1, 1, 0),
        (0x82, 0, 0, 0x192, 2),
        (2, 3, 0, 0x80, 0),
        (0x41, 1, 1, 2, 0),
        (0x41, 1, 0, 1, 0),
        (0xc0, 1, 1, 7, 166),
        (0xff, 0xff, 0xffff, 0xffff, 0xffff),
    ] {
        let mut d = configured();
        setup(&mut d, kind, req, value, idx, len);
        assert!(d.controller.stalled(0x80), "{kind:x}/{req:x}");
        assert!(d.d().reset.is_none());
    }
}

#[test]
fn vendor_reset_waits_for_ack_and_obeys_policy() {
    for (request, target) in [(1, ResetTarget::Bootloader), (2, ResetTarget::Application)] {
        let mut d = configured();
        setup(&mut d, 0x41, request, 0, 2, 0);
        assert!(d.d().reset.is_none());
        ack(&mut d);
        assert_eq!(d.d().reset, Some(target));
        assert_eq!(d.port.take_reset(), Some(target));
        assert_eq!(d.port.take_reset(), None);
        let mut d = configured();
        d.d().identity.allow_reset = false;
        setup(&mut d, 0x41, request, 0, 2, 0);
        assert!(d.d().reset.is_none());
        assert!(d.controller.stalled(0x80));
    }
}

#[test]
fn twelve_hundred_baud_reset_requires_valid_data_and_status_ack() {
    let mut d = configured();
    setup(&mut d, 0x21, 0x20, 0, 0, 7);
    d.controller.out = vec![0xb0, 4, 0, 0, 0, 0, 8];
    event(&mut d, Event::Out(0));
    assert!(d.d().reset.is_none());
    ack(&mut d);
    assert_eq!(d.d().reset, Some(ResetTarget::Bootloader));
    let mut d = configured();
    setup(&mut d, 0x21, 0x20, 0, 0, 7);
    d.controller.out = vec![0xb0, 4, 0];
    event(&mut d, Event::Out(0));
    assert!(d.controller.stalled(0));
    assert!(d.d().reset.is_none());
}

#[test]
fn disabled_reset_allows_twelve_hundred_baud_as_normal_line_coding() {
    let mut d = configured();
    d.d().identity.allow_reset = false;
    setup(&mut d, 0x21, 0x20, 0, 0, 7);
    d.controller.out = vec![0xb0, 4, 0, 0, 0, 0, 8];
    event(&mut d, Event::Out(0));
    ack(&mut d);
    assert!(d.d().reset.is_none());
    assert_eq!(d.d().line_coding[0], 0xb0);
}

#[test]
fn receive_backpressure_never_overwrites_unread_bytes() {
    let mut d = configured();
    for byte in 0..8 {
        d.controller.out = vec![byte; 64];
        event(&mut d, Event::Out(2));
    }
    assert_eq!(d.d().rx.len, 512);
    assert!(!d.d().rx_armed);
    let mut out = [0; 63];
    d.d().rx.pop(&mut out);
    d.service().unwrap();
    assert!(!d.d().rx_armed);
    d.d().rx.pop(&mut [0]);
    d.service().unwrap();
    assert!(d.d().rx_armed);
    for byte in 1..8 {
        let mut packet = [0; 64];
        assert_eq!(d.d().rx.pop(&mut packet), 64);
        assert_eq!(packet, [byte; 64]);
    }
}

#[test]
fn transmit_packet_boundary_and_zero_packet_are_exact() {
    let mut d = configured();
    assert_eq!(d.d().tx.push(&[9; 512]), 512);
    assert_eq!(d.d().tx.push(&[8]), 0);
    d.service().unwrap();
    for _ in 0..8 {
        event(&mut d, Event::InComplete(0x82));
    }
    let sizes: Vec<_> = d
        .controller
        .writes
        .iter()
        .filter(|(ep, _)| *ep == 0x82)
        .map(|(_, v)| v.len())
        .collect();
    assert_eq!(sizes, vec![64, 64, 64, 64, 64, 64, 64, 64, 0]);
    assert_eq!(d.d().stats.transmitted, 512);
}

#[test]
fn reset_discards_old_data_and_pending_reset_request() {
    let mut d = configured();
    d.d().tx.push(&[7; 5]);
    d.d().rx.push(&[6; 3]);
    d.d().reset = Some(ResetTarget::Bootloader);
    event(&mut d, Event::Reset);
    assert!(!d.port.status().configured);
    assert_eq!(d.d().rx.len + d.d().tx.len, 0);
    assert!(d.d().reset.is_none());
    assert_eq!(d.d().stats.resets, 1);
}

#[test]
fn suspend_stops_transmit_resume_preserves_bytes() {
    let mut d = configured();
    event(&mut d, Event::Suspend);
    d.d().tx.push(&[5; 3]);
    d.service().unwrap();
    assert_eq!(d.d().tx.len, 3);
    event(&mut d, Event::Resume);
    assert_eq!(d.d().tx.len, 0);
    assert_eq!(d.controller.writes.last().unwrap().1, vec![5; 3]);
}

#[test]
fn endpoint_halt_clear_and_get_status_agree() {
    let mut d = configured();
    setup(&mut d, 2, 3, 0, 0x82, 0);
    ack(&mut d);
    assert!(d.controller.stalled(0x82));
    setup(&mut d, 0x82, 0, 0, 0x82, 2);
    assert_eq!(d.controller.writes.last().unwrap().1, vec![1, 0]);
    setup(&mut d, 2, 1, 0, 0x82, 0);
    ack(&mut d);
    assert!(!d.controller.stalled(0x82));
}

#[test]
fn unicode_strings_and_missing_serial_are_checked() {
    let mut d = device();
    d.d().identity.product = "USB 🦀";
    setup(&mut d, 0x80, 6, 0x302, 0x409, 255);
    let packet = &d.controller.writes.last().unwrap().1;
    assert_eq!(packet.len(), 14);
    assert_eq!(packet[0], 14);
    setup(&mut d, 0x80, 6, 0x303, 0x409, 255);
    assert!(d.controller.stalled(0x80));
}

#[test]
fn ring_wrap_preserves_order() {
    let mut ring = Ring::new();
    for _ in 0..50 {
        assert_eq!(ring.push(&[3; 500]), 500);
        assert_eq!(ring.pop(&mut [0; 499]), 499);
        assert_eq!(ring.push(&[4; 10]), 10);
        let mut out = [0; 11];
        assert_eq!(ring.pop(&mut out), 11);
        assert_eq!(out[0], 3);
        assert_eq!(&out[1..], &[4; 10]);
    }
}

#[test]
fn service_has_a_fixed_event_budget() {
    let mut d = configured();
    d.controller.events.extend([Event::Suspend; 40]);
    d.service().unwrap();
    assert_eq!(d.controller.events.len(), 24);
    d.service().unwrap();
    assert_eq!(d.controller.events.len(), 8);
}

#[test]
fn deterministic_setup_noise_always_allows_a_new_valid_request() {
    let mut d = configured();
    let mut random = 0x1720_0001u32;
    for _ in 0..10_000 {
        let mut bytes = [0; 8];
        for byte in &mut bytes {
            random ^= random << 13;
            random ^= random >> 17;
            random ^= random << 5;
            *byte = random as u8;
        }
        event(&mut d, Event::Setup(bytes));
        setup(&mut d, 0x80, 6, 0x100, 0, 18);
        assert!(!d.controller.stalled(0x80));
        assert_eq!(d.controller.writes.last().unwrap().1.len(), 18);
        ack(&mut d);
        event(&mut d, Event::Out(0));
        assert!(matches!(d.d().control, Control::Idle));
    }
}

#[test]
fn a_setup_packet_is_two_bytes_and_three_little_endian_words() {
    let s = Setup::from([0x21, 0x22, 0x34, 0x12, 0x78, 0x56, 0xBC, 0x9A]);
    assert_eq!(
        s,
        Setup { kind: 0x21, request: 0x22, value: 0x1234, index: 0x5678, length: 0x9ABC }
    );
}

#[test]
fn a_device_descriptor_names_the_board() {
    let mut out = [0xEE; 256];
    let len = descriptors::descriptor(&identity(), 0x100, 0, &mut out);
    assert_eq!(len, Some(18));
    assert_eq!(&out[..2], &[18, 1]);
    assert_eq!(&out[8..12], &[0x09, 0x12, 1, 0]);
    assert_eq!(out[18], 0xEE, "what lies behind the descriptor is left alone");
    assert_eq!(descriptors::descriptor(&identity(), 0x400, 0, &mut out), None);
}

#[test]
fn a_connected_port_carries_bytes_both_ways() {
    let mut d = configured();
    assert!(d.port.status().connected);
    assert_eq!(d.port.write(b"out"), 3);
    d.service().unwrap();
    assert_eq!(d.controller.writes.last(), Some(&(0x82, b"out".to_vec())));
    d.controller.out = b"in".to_vec();
    event(&mut d, Event::Out(2));
    let mut buf = [0u8; 4];
    assert_eq!(d.port.read(&mut buf), 2);
    assert_eq!(&buf, b"in\0\0");
    assert_eq!(d.port.status().received, 2);
    assert_eq!(d.port.status().transmitted, 3);
}

#[test]
fn a_port_without_a_host_takes_nothing() {
    let mut d = device();
    assert_eq!(d.port.write(b"lost"), 0);
    assert!(d.port.status().transmit_idle);
}

#[test]
fn a_controller_failure_ends_the_call() {
    let mut d = configured();
    d.controller.broken = true;
    assert_eq!(d.service(), Err(Error::Controller));
    d.controller.broken = false;
    assert_eq!(d.service(), Ok(()));
}

#[test]
fn an_overfull_queue_is_a_hardware_error() {
    let mut d = configured();
    d.d().rx.push(&[1; 500]);
    d.controller.out = vec![2; 64];
    d.controller.events.push_back(Event::Out(2));
    assert_eq!(d.service(), Err(Error::Hardware));
}

#[test]
fn an_unasked_answer_ends_the_call() {
    let mut d = configured();
    let halted = d.controller.halted();
    assert!(matches!(
        d.port.service(Reply::Done, halted),
        Request::Return(Err(Error::Controller))
    ));
}

#[test]
fn the_controllers_own_error_is_handed_on() {
    let mut d = device();
    let halted = d.controller.halted();
    assert!(matches!(d.port.service(Reply::Start, halted), Request::Poll));
    let halted = d.controller.halted();
    assert!(matches!(
        d.port.service(Reply::Failed(Error::Hardware), halted),
        Request::Return(Err(Error::Hardware))
    ));
}

#[test]
fn setup_packets_alone_change_nothing() {
    let mut d = configured();
    d.d().rx.push(&[1, 2, 3]);
    let before = d.port.status();
    let (address, configuration, lines) =
        (d.port.device.address, d.port.device.configuration, d.port.device.lines);
    let coding = d.port.device.line_coding;
    setup(&mut d, 0, 9, 0, 0, 0);
    setup(&mut d, 0, 5, 99, 0, 0);
    setup(&mut d, 0x21, 0x22, 0, 0, 0);
    setup(&mut d, 0x21, 0x20, 0, 0, 7);
    setup(&mut d, 0x41, 1, 0, 2, 0);
    setup(&mut d, 0xff, 0xff, 1, 2, 3);
    assert_eq!(d.port.device.address, address);
    assert_eq!(d.port.device.configuration, configuration);
    assert_eq!(d.port.device.lines, lines);
    assert_eq!(d.port.device.line_coding, coding);
    assert!(d.port.device.reset.is_none());
    let after = d.port.status();
    assert_eq!(after.configured, before.configured);
    assert_eq!(after.connected, before.connected);
    let mut got = [0; 8];
    assert_eq!(d.port.read(&mut got), 3);
    assert_eq!(got[..3], [1, 2, 3]);
}

#[test]
fn a_second_acknowledgement_applies_nothing() {
    let mut d = device();
    setup(&mut d, 0, 5, 17, 0, 0);
    ack(&mut d);
    d.controller.address = 0;
    ack(&mut d);
    assert_eq!(d.controller.address, 0);
    assert_eq!(d.port.device.address, 17);
    assert!(d.controller.stalled(0) && d.controller.stalled(0x80));
    setup(&mut d, 0, 9, 1, 0, 0);
    ack(&mut d);
    let configured = d.controller.configured.clone();
    assert_eq!(configured, vec![0x81, 2, 0x82]);
    ack(&mut d);
    assert_eq!(d.controller.configured, configured);
    setup(&mut d, 0, 9, 0, 0, 0);
    ack(&mut d);
    assert!(d.controller.configured.is_empty());
    assert!(!d.port.status().configured);
}

#[test]
fn a_long_reply_goes_out_in_consecutive_packets() {
    for (available, requested, lengths) in [
        (200usize, 255u16, vec![64, 64, 64, 8]),
        (192, 255, vec![64, 64, 64, 0]),
        (192, 192, vec![64, 64, 64]),
        (256, 100, vec![64, 36]),
        (0, 1, vec![0]),
    ] {
        let mut d = device();
        for i in 0..available {
            d.d().reply[i] = i as u8;
        }
        let step = d.d().send_reply(available, requested);
        d.perform(step);
        for _ in &lengths {
            ack(&mut d);
        }
        assert!(matches!(d.d().control, Control::StatusOut));
        assert_eq!(d.controller.armed, vec![0]);
        let sent: Vec<usize> = d.controller.writes.iter().map(|(_, v)| v.len()).collect();
        assert_eq!(sent, lengths);
        let bytes: Vec<u8> = d.controller.writes.iter().flat_map(|(_, v)| v.clone()).collect();
        let expected: Vec<u8> =
            (0..available.min(requested as usize)).map(|i| i as u8).collect();
        assert_eq!(bytes, expected);
        assert!(d.controller.writes.iter().all(|(ep, _)| *ep == 0x80));
    }
}
