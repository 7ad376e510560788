//! Endpoints, with a controller that is nothing but memory.

use imxrt_usbd::control::SetupPhase;
use imxrt_usbd::endpoint::Endpoint;
use imxrt_usbd::flush::FlushPhase;
use imxrt_usbd::handoff::{Handoff, Phase};
use imxrt_usbd::layout::{chain_layout, TDS_PER_EP, TRANSFER_MAX_BYTES};
use imxrt_usbd::qh::{Buffer, Qh};
use imxrt_usbd::registers::{
    modify, wait_endptflush, wait_endptprime, Action, Register, USBCMD_ATDTW, USBCMD_SUTW,
};
use imxrt_usbd::td::{StatusFlag, Td};
use imxrt_usbd::usb::{EndpointAddress, EndpointType, UsbDirection, UsbError};

/// Where the fake memory starts.
const MEMORY: u32 = 0x2000_0000;

/// A controller that never does anything by itself, except that it fetches what it is
/// primed with, and flushes what it is told to, at once.
struct FakeUsb {
    usbcmd: u32,
    endptstat: u32,
    endptprime: u32,
    /// Reads of USBCMD that find the tripwires reset by the controller.
    lost_tripwires: u32,
    /// Reads of ENDPTPRIME that still find the bit set.
    slow_fetches: u32,
    tds: Vec<Td>,
    overlay: Td,
    setups: Vec<u64>,
    log: Vec<Action>,
}

impl FakeUsb {
    fn new() -> FakeUsb {
        FakeUsb {
            usbcmd: 0,
            endptstat: 0,
            endptprime: 0,
            lost_tripwires: 0,
            slow_fetches: 0,
            tds: vec![Td::new(0); TDS_PER_EP],
            overlay: Td::new(0),
            setups: Vec::new(),
            log: Vec::new(),
        }
    }

    fn perform(&mut self, ep: &mut Endpoint, action: Action) -> u32 {
        self.log.push(action);
        match action {
            Action::StoreTd(i) => self.tds[i] = ep.tds[i],
            Action::StoreLink(i) => self.tds[i].next = ep.tds[i].next,
            Action::LoadToken(i) => return self.tds[i].token,
            Action::ClearTd(i) => {
                self.tds[i].next = 1;
                self.tds[i].token &= 0xFFFF_FF00;
            }
            Action::StoreOverlay => {
                self.overlay.next = ep.qh.overlay.next;
                self.overlay.token = ep.qh.overlay.token;
            }
            Action::LoadOverlay => ep.qh.overlay.write_back(self.overlay.token),
            Action::LoadSetup => ep.qh.receive_setup(self.setups.remove(0)),
            Action::StoreCapabilities | Action::StoreStaging(_) => {}
            Action::CleanTd(_) | Action::CleanQh | Action::Barrier | Action::Done => {}
            Action::Read(Register::EndptStat) => return self.endptstat,
            Action::Read(Register::EndptPrime) => {
                if self.slow_fetches > 0 {
                    self.slow_fetches -= 1;
                    return self.endptprime | self.primed();
                }
                return self.endptprime;
            }
            Action::Read(Register::UsbCmd) => {
                if self.lost_tripwires > 0 {
                    self.lost_tripwires -= 1;
                    self.usbcmd = modify(self.usbcmd, USBCMD_ATDTW | USBCMD_SUTW, 0);
                }
                return self.usbcmd;
            }
            Action::Read(_) => {}
            Action::Write(_, _) => {}
            Action::Modify(Register::UsbCmd, mask, value) => {
                self.usbcmd = modify(self.usbcmd, mask, value)
            }
            Action::Modify(_, _, _) => {}
        }
        0
    }

    /// The last value that was written to ENDPTPRIME.
    fn primed(&self) -> u32 {
        let mut value = 0;
        for action in &self.log {
            if let Action::Write(Register::EndptPrime, v) = action {
                value = *v;
            }
        }
        value
    }

    /// The last value that was written to ENDPTFLUSH.
    fn flushed(&self) -> u32 {
        let mut value = 0;
        for action in &self.log {
            if let Action::Write(Register::EndptFlush, v) = action {
                value = *v;
            }
        }
        value
    }

    fn run(&mut self, ep: &mut Endpoint, mut handoff: Handoff) {
        let mut input = 0;
        loop {
            let action = ep.prime_or_append(&mut handoff, input);
            input = self.perform(ep, action);
            if action == Action::Done {
                assert_eq!(handoff.phase, Phase::Finished);
                return;
            }
        }
    }

    fn submit(&mut self, ep: &mut Endpoint, ptr: u32, len: usize) -> Result<(), UsbError> {
        let handoff = ep.submit_transfer(ptr, len)?;
        self.run(ep, handoff);
        Ok(())
    }

    fn clear(&mut self, ep: &mut Endpoint) {
        let mut phase = FlushPhase::Start;
        let mut input = 0;
        loop {
            let action = ep.clear_transfers(&mut phase, input);
            input = self.perform(ep, action);
            if action == Action::Done {
                return;
            }
        }
    }

    fn read_setup(&mut self, ep: &mut Endpoint) -> u64 {
        let mut phase = SetupPhase::Start;
        let mut input = 0;
        loop {
            let action = ep.read_setup(&mut phase, input);
            input = self.perform(ep, action);
            if let (Action::Done, SetupPhase::Finished(setup)) = (action, phase) {
                return setup;
            }
        }
    }
}

/// What the controller writes back when it is done with a descriptor.
fn force_complete(td: &mut Td, remaining: u32) {
    td.write_back((td.token & 0x8000_FF00 & !0x80) | (remaining << 16));
    assert!(td.is_consistent());
}

fn pool(depth: usize) -> Vec<Td> {
    (0..depth).map(|i| Td::new(MEMORY + 32 * i as u32)).collect()
}

fn endpoint(index: usize, depth: usize, mps: usize, dir: UsbDirection, kind: EndpointType) -> Endpoint {
    Endpoint::new(
        EndpointAddress::from_parts(index, dir),
        Qh::new(),
        pool(depth),
        Buffer::new(MEMORY + 0x1000, mps),
        kind,
    )
}

fn make_bulk_ep(mps: usize) -> Endpoint {
    endpoint(1, TDS_PER_EP, mps, UsbDirection::Out, EndpointType::Bulk)
}

fn ioc(td: &Td) -> u32 {
    (td.token >> 15) & 1
}

#[test]
fn chain_layout_splits_into_dtds() {
    let (sizes, count) = chain_layout(65536);
    assert_eq!(count, 4, "64 KiB must produce 4 chunks");
    assert_eq!(&sizes[..count], [16384, 16384, 16384, 16384]);

    let (sizes, count) = chain_layout(31);
    assert_eq!(count, 1, "31 B must produce 1 chunk");
    assert_eq!(&sizes[..count], [31]);

    let (_, count) = chain_layout(130 * 1024);
    assert_eq!(count, TDS_PER_EP, "over-cap size must clamp to TDS_PER_EP entries");

    let (sizes, count) = chain_layout(0);
    assert_eq!(count, 1, "zero size must produce 1 chunk");
    assert_eq!(sizes[0], 0);
}

#[test]
fn chain_layout_edges() {
    assert_eq!(chain_layout(16384).1, 1);
    let (sizes, count) = chain_layout(16385);
    assert_eq!((count, sizes[0], sizes[1], sizes[2]), (2, 16384, 1, 0));
    let (sizes, count) = chain_layout(TRANSFER_MAX_BYTES);
    assert_eq!((count, sizes), (8, [16384; 8]));
    let (sizes, count) = chain_layout(usize::MAX);
    assert_eq!((count, sizes), (8, [16384; 8]));
}

#[test]
fn td_chain_link_and_terminate() {
    let mut td0 = Td::new(MEMORY);
    let mut td1 = Td::new(MEMORY + 32);

    td0.set_next(td1.address);
    td1.set_terminate();

    assert_eq!(td0.next, td1.address, "td0.NEXT must point to td1");
    assert_ne!(td0.next, 1, "td0 must not be terminated");
    assert_eq!(td1.next, 1, "td1 must be terminated");
}

#[test]
fn schedule_transfer_single_td_no_feature() {
    let mut usb = FakeUsb::new();
    let mut ep_mut = endpoint(1, 1, 64, UsbDirection::Out, EndpointType::Bulk);

    let data = [0xAAu8; 32];
    let (written, _) = ep_mut.write(&data);
    assert_eq!(written, 32, "write must return byte count");

    let handoff = ep_mut.schedule_transfer(32);
    usb.run(&mut ep_mut, handoff);

    assert!(
        ep_mut.tds[0].status().contains(StatusFlag::Active),
        "tds[0] must be ACTIVE after schedule_transfer"
    );
    assert!(
        ep_mut.check_errors().is_ok(),
        "ACTIVE-only status must not trigger an error"
    );

    ep_mut.tds[0].clear_status();
    assert!(
        !ep_mut.tds[0].status().contains(StatusFlag::Active),
        "tds[0] must not be ACTIVE after clear_status"
    );
    assert!(
        ep_mut.check_errors().is_ok(),
        "no errors after clear_status"
    );

    let data2 = [0xBBu8; 16];
    let (written2, _) = ep_mut.write(&data2);
    assert_eq!(written2, 16, "second write must stage 16 bytes");

    let mut out = [0u8; 64];
    let n = ep_mut.read(&mut out);
    assert_eq!(n, 0);
    assert_eq!(ep_mut.tds.len(), 1, "depth-1 endpoint must have exactly 1 TD slot");
}

#[test]
fn schedule_transfer_order_of_accesses() {
    let mut usb = FakeUsb::new();
    let mut ep = endpoint(2, 1, 64, UsbDirection::In, EndpointType::Interrupt);
    let handoff = ep.schedule_transfer(10);
    assert_eq!(ep.tds[0].buffer, MEMORY + 0x1000);
    usb.run(&mut ep, handoff);
    assert_eq!(
        usb.log,
        vec![
            Action::StoreTd(0),
            Action::CleanTd(0),
            Action::LoadOverlay,
            Action::StoreOverlay,
            Action::CleanQh,
            Action::Barrier,
            Action::Write(Register::EndptPrime, 1 << 18),
            Action::Read(Register::EndptPrime),
            Action::Done,
        ]
    );
    assert_eq!(usb.overlay.next, MEMORY);
    assert_eq!(ep.tds[0].token, (10 << 16) | 0x8000 | 0x80);
}

#[test]
fn submit_builds_chain_ioc_on_last() {
    let mut usb = FakeUsb::new();
    let mut ep = make_bulk_ep(512);

    usb.submit(&mut ep, MEMORY + 0x1_0000, 64 * 1024)
        .expect("64 KiB submit must succeed");

    assert_eq!(ep.pending_transfers(), 1);

    for i in 0..4usize {
        assert!(
            ep.tds[i].status().contains(StatusFlag::Active),
            "tds[{i}] must be ACTIVE"
        );
        assert_eq!(usb.tds[i], ep.tds[i]);
        assert_eq!(ep.tds[i].buffer, MEMORY + 0x1_0000 + 16384 * i as u32);
    }
    for i in 0..3usize {
        assert_eq!(
            ep.tds[i].next,
            ep.tds[i + 1].address,
            "tds[{i}].NEXT must point to tds[{}]",
            i + 1
        );
    }
    assert_eq!(ep.tds[3].next, 1, "tds[3] must be terminated");

    for i in 0..3usize {
        assert_eq!(ioc(&ep.tds[i]), 0, "tds[{i}] must NOT have IOC set");
    }
    assert_eq!(ioc(&ep.tds[3]), 1, "tds[3] must have IOC set");
}

#[test]
fn submit_would_block_when_td_budget_exhausted() {
    let mut usb = FakeUsb::new();
    let ptr = MEMORY + 0x1_0000;
    let mut ep = make_bulk_ep(512);

    usb.submit(&mut ep, ptr, 64 * 1024)
        .expect("first 64 KiB submit must succeed");
    assert_eq!(ep.tds_in_use, 4);

    usb.submit(&mut ep, ptr + 64 * 1024, 64 * 1024)
        .expect("second 64 KiB submit must succeed");
    assert_eq!(ep.tds_in_use, 8);
    assert_eq!(ep.tds_free(), 0);

    let result = usb.submit(&mut ep, ptr + 128 * 1024, 64 * 1024);
    assert!(
        matches!(result, Err(UsbError::WouldBlock)),
        "third submit must return WouldBlock, got {result:?}"
    );
    assert_eq!(ep.pending_transfers(), 2);
    assert_eq!(ep.tds_in_use, 8);

    for i in 0..4usize {
        force_complete(&mut ep.tds[i], 0);
    }

    let polled = ep.poll_transfer();
    assert!(
        matches!(polled, Some(Ok(_))),
        "poll must succeed after completing first record, got {polled:?}"
    );
    assert_eq!(polled, Some(Ok(64 * 1024)));
    assert_eq!(ep.pending_transfers(), 1);
    assert_eq!(ep.tds_free(), TDS_PER_EP / 2);

    usb.submit(&mut ep, ptr + 128 * 1024, 64 * 1024)
        .expect("third submit must succeed after poll freed TDs");
    assert_eq!(ep.pending_transfers(), 2);
}

#[test]
fn poll_retires_fifo_with_byte_counts() {
    let mut usb = FakeUsb::new();
    let ptr = MEMORY + 0x1_0000;
    let mut ep = make_bulk_ep(512);

    usb.submit(&mut ep, ptr, 512).expect("transfer 0 submit");
    usb.submit(&mut ep, ptr + 512, 512).expect("transfer 1 submit");
    usb.submit(&mut ep, ptr + 1024, 512).expect("transfer 2 submit");

    assert_eq!(ep.pending_transfers(), 3);
    assert_eq!(ep.poll_transfer(), None);

    force_complete(&mut ep.tds[0], 0);
    force_complete(&mut ep.tds[1], 481);
    force_complete(&mut ep.tds[2], 0);

    assert_eq!(ep.poll_transfer(), Some(Ok(512)));
    assert_eq!(ep.pending_transfers(), 2);

    assert_eq!(ep.poll_transfer(), Some(Ok(31)));
    assert_eq!(ep.pending_transfers(), 1);

    assert_eq!(ep.poll_transfer(), Some(Ok(512)));
    assert_eq!(ep.pending_transfers(), 0);

    assert_eq!(ep.poll_transfer(), None);
}

#[test]
fn submit_transfer_rejects_oversized() {
    let mut usb = FakeUsb::new();
    let mut ep = make_bulk_ep(512);

    let result = usb.submit(&mut ep, MEMORY, TRANSFER_MAX_BYTES + 1);
    assert!(
        matches!(result, Err(UsbError::InvalidState)),
        "oversized submit must return InvalidState, got {result:?}"
    );
    assert_eq!(ep.pending_transfers(), 0, "queue must remain empty");
    assert_eq!(ep.tds_in_use, 0, "TD budget must be untouched");
}

#[test]
fn refused_submissions_do_not_look_at_the_memory() {
    let mut usb = FakeUsb::new();
    let mut ep = make_bulk_ep(512);
    assert_eq!(
        ep.submit_transfer(u32::MAX, TRANSFER_MAX_BYTES + 1),
        Err(UsbError::InvalidState)
    );

    usb.submit(&mut ep, MEMORY, TRANSFER_MAX_BYTES).expect("the whole pool");
    assert_eq!(ep.submit_transfer(u32::MAX, 512), Err(UsbError::WouldBlock));
    assert_eq!(ep.pending_transfers(), 1);
}

#[test]
fn poll_reports_dtd_error() {
    let mut usb = FakeUsb::new();
    let mut ep = make_bulk_ep(512);

    usb.submit(&mut ep, MEMORY, 512).expect("submit must succeed");

    force_complete(&mut ep.tds[0], 0);
    let existing = ep.tds[0].token;
    ep.tds[0].write_back(existing | 0x40);

    let result = ep.poll_transfer();
    assert!(
        matches!(result, Some(Err(_))),
        "halted TD must yield Some(Err(_)), got {result:?}"
    );
    assert_eq!(result, Some(Err(UsbError::InvalidState)));
    assert_eq!(ep.pending_transfers(), 0);
}

#[test]
fn every_error_flag_is_reported() {
    for flag in [0x40, 0x20, 0x08] {
        let mut usb = FakeUsb::new();
        let mut ep = make_bulk_ep(512);
        usb.submit(&mut ep, MEMORY, 20_000).unwrap();
        force_complete(&mut ep.tds[0], 0);
        let token = ep.tds[0].token;
        ep.tds[0].write_back(token | flag);
        assert_eq!(ep.check_errors(), Err(UsbError::InvalidState));
        // The second descriptor is still at work.
        assert_eq!(ep.poll_transfer(), None);
        assert_eq!(ep.pending_transfers(), 1);
        force_complete(&mut ep.tds[1], 0);
        assert_eq!(ep.poll_transfer(), Some(Err(UsbError::InvalidState)));
        assert_eq!(ep.tds_in_use, 0);
    }
}

#[test]
fn zero_length_transfer_single_dtd() {
    let mut usb = FakeUsb::new();
    let mut ep = make_bulk_ep(512);

    usb.submit(&mut ep, MEMORY, 0)
        .expect("zero-length submit must succeed");

    assert_eq!(ep.pending_transfers(), 1);
    assert_eq!(ep.tds_in_use, 1, "exactly one TD consumed");

    force_complete(&mut ep.tds[0], 0);

    let result = ep.poll_transfer();
    assert_eq!(result, Some(Ok(0)), "zero-length must retire to Ok(0)");
    assert_eq!(ep.pending_transfers(), 0);
}

#[test]
fn clear_transfers_resets_queue() {
    let mut usb = FakeUsb::new();
    let ptr = MEMORY + 0x1_0000;
    let mut ep = make_bulk_ep(512);

    usb.submit(&mut ep, ptr, 512).expect("submit 0");
    usb.submit(&mut ep, ptr + 512, 512).expect("submit 1");
    assert_eq!(ep.pending_transfers(), 2);

    usb.clear(&mut ep);

    assert_eq!(ep.pending_transfers(), 0, "pending must be 0 after clear");
    assert_eq!(ep.tds_in_use, 0, "tds_in_use must be 0 after clear");
    assert_eq!(ep.td_head, 0, "td_head must reset to 0");

    for i in 0..TDS_PER_EP {
        assert_eq!(
            ep.tds[i].next, 1,
            "tds[{i}] must be terminated after clear_transfers"
        );
        assert!(
            !ep.tds[i].status().contains(StatusFlag::Active),
            "tds[{i}] must not be ACTIVE after clear_transfers"
        );
        assert_eq!(usb.tds[i].next, ep.tds[i].next);
        assert_eq!(usb.tds[i].token, ep.tds[i].token);
    }
    assert_eq!(usb.overlay.next, 1);

    assert_ne!(
        usb.flushed() & (1u32 << 1),
        0,
        "ENDPTFLUSH bit 1 must be set for EP1 OUT"
    );

    usb.submit(&mut ep, ptr, 512)
        .expect("post-clear submit must succeed");
    assert_eq!(ep.pending_transfers(), 1);
    assert!(
        ep.tds[0].status().contains(StatusFlag::Active),
        "fresh TD must be ACTIVE after post-clear submit"
    );
    assert_eq!(usb.overlay.next, ep.tds[0].address);
}

#[test]
fn clear_transfers_waits_for_the_controller() {
    let mut ep = endpoint(3, TDS_PER_EP, 64, UsbDirection::In, EndpointType::Bulk);
    ep.submit_transfer(MEMORY, 64).unwrap();
    let mut phase = FlushPhase::Start;
    assert_eq!(
        ep.clear_transfers(&mut phase, 0),
        Action::Write(Register::EndptFlush, 1 << 19)
    );
    let read = Action::Read(Register::EndptFlush);
    assert_eq!(ep.clear_transfers(&mut phase, 0), read);
    assert_eq!(ep.clear_transfers(&mut phase, 1 << 19), read);
    assert_eq!(ep.pending_transfers(), 1);
    assert_eq!(ep.clear_transfers(&mut phase, 1 << 3), Action::LoadToken(0));
    assert_eq!(ep.pending_transfers(), 0);
}

#[test]
fn clear_transfers_clears_every_td_before_the_overlay() {
    let mut usb = FakeUsb::new();
    let mut ep = endpoint(1, 2, 64, UsbDirection::Out, EndpointType::Bulk);
    usb.clear(&mut ep);
    assert_eq!(
        usb.log,
        vec![
            Action::Write(Register::EndptFlush, 2),
            Action::Read(Register::EndptFlush),
            Action::LoadToken(0),
            Action::ClearTd(0),
            Action::LoadToken(1),
            Action::ClearTd(1),
            Action::LoadOverlay,
            Action::StoreOverlay,
            Action::Done,
        ]
    );
}

#[test]
fn clear_transfers_keeps_what_the_controller_counted() {
    let mut usb = FakeUsb::new();
    let mut ep = make_bulk_ep(64);
    ep.write(&[7; 64]);
    let handoff = ep.schedule_transfer(64);
    usb.run(&mut ep, handoff);

    // Half of the packet arrives, and nobody looks.
    usb.tds[0].write_back(32 << 16 | 1 << 15);
    usb.clear(&mut ep);

    assert_eq!(ep.tds[0].token, 32 << 16 | 1 << 15);
    assert_eq!(usb.tds[0].token, ep.tds[0].token);
    assert_eq!(usb.tds[0].buffer, MEMORY + 0x1000);
    let mut out = [0u8; 64];
    assert_eq!(ep.read(&mut out), 32);
    assert_eq!(out[..32], [7; 32]);
    assert_eq!(out[32..], [0; 32]);

    // A queued transfer that was cut short, and failed.
    usb.submit(&mut ep, MEMORY, 512).unwrap();
    usb.tds[0].write_back(500 << 16 | 0x40);
    usb.clear(&mut ep);
    assert_eq!(ep.tds[0].bytes_transferred(), 12);
    assert_eq!(ep.check_errors(), Ok(()));
    assert_eq!(ep.poll_transfer(), None);
}

#[test]
fn clear_transfers_empties_status_and_keeps_the_endpoint() {
    let mut usb = FakeUsb::new();
    let mut ep = make_bulk_ep(64);
    ep.enable_zlt();
    ep.write(&[9; 64]);
    usb.submit(&mut ep, MEMORY, 40_000).unwrap();
    let before = ep.qh;
    usb.tds[0].write_back(0x40E8);
    usb.tds[1].write_back(0x0028);
    usb.overlay.write_back(0x0048);
    usb.clear(&mut ep);

    for i in 0..TDS_PER_EP {
        assert_eq!(ep.tds[i].status().bits, 0);
        assert_eq!(usb.tds[i].token & 0xFF, 0);
        assert_eq!(ep.tds[i].address, MEMORY + 32 * i as u32);
    }
    assert_eq!(ep.qh.overlay.status().bits, 0);
    assert_eq!((usb.overlay.next, usb.overlay.token & 0xFF), (1, 0));
    assert_eq!((ep.q_head, ep.q_len, ep.td_head, ep.tds_in_use), (0, 0, 0, 0));

    assert_eq!(ep.address(), EndpointAddress::from_parts(1, UsbDirection::Out));
    assert_eq!(ep.kind, EndpointType::Bulk);
    assert_eq!(ep.staging(0).data, vec![9; 64]);
    assert_eq!(Qh { overlay: before.overlay, ..ep.qh }, before);
}

#[test]
fn handoff_changes_the_link_of_the_tail_alone() {
    let mut usb = FakeUsb::new();
    let mut ep = make_bulk_ep(64);
    usb.submit(&mut ep, MEMORY, 20_000).unwrap();
    usb.endptstat = 2;
    let handoff = ep.submit_transfer(MEMORY, 64).unwrap();
    assert_eq!(handoff.prev_tail, Some(1));
    let before = ep.tds.clone();
    usb.run(&mut ep, handoff);
    for i in 0..TDS_PER_EP {
        let next = if i == 1 { ep.tds[2].address } else { before[i].next };
        assert_eq!(ep.tds[i], Td { next, ..before[i] });
    }
    assert_eq!(ep.pending_transfers(), 2);
}

#[test]
fn take_token_refuses_more_than_was_programmed() {
    let mut usb = FakeUsb::new();
    let mut ep = make_bulk_ep(64);
    usb.submit(&mut ep, MEMORY, 100).unwrap();
    let programmed = ep.tds[0];

    assert!(!ep.take_token(0, 101 << 16));
    assert_eq!(ep.tds[0], programmed);
    assert_eq!(ep.poll_transfer(), None);

    assert!(ep.take_token(0, 30 << 16));
    assert_eq!(ep.tds[0].bytes_transferred(), 70);
    assert_eq!(ep.poll_transfer(), Some(Ok(70)));
}

#[test]
fn idle_endpoint_is_primed_from_the_overlay() {
    let mut usb = FakeUsb::new();
    let mut ep = make_bulk_ep(512);
    usb.slow_fetches = 2;
    usb.submit(&mut ep, MEMORY, 20_000).unwrap();
    let read_prime = Action::Read(Register::EndptPrime);
    assert_eq!(
        usb.log,
        vec![
            Action::StoreTd(0),
            Action::StoreTd(1),
            Action::Read(Register::EndptStat),
            Action::LoadOverlay,
            Action::StoreOverlay,
            Action::Barrier,
            Action::Write(Register::EndptPrime, 2),
            read_prime,
            read_prime,
            read_prime,
            Action::Done,
        ]
    );
}

#[test]
fn active_endpoint_gets_a_link_and_the_tripwire() {
    let mut usb = FakeUsb::new();
    let mut ep = make_bulk_ep(512);
    usb.submit(&mut ep, MEMORY, 512).unwrap();
    usb.log.clear();
    usb.endptstat = 2;
    usb.lost_tripwires = 1;
    usb.submit(&mut ep, MEMORY, 512).unwrap();
    let arm = Action::Modify(Register::UsbCmd, USBCMD_ATDTW, USBCMD_ATDTW);
    assert_eq!(
        usb.log,
        vec![
            Action::StoreTd(1),
            Action::Read(Register::EndptStat),
            Action::Barrier,
            Action::StoreLink(0),
            Action::Read(Register::EndptPrime),
            arm,
            Action::Read(Register::EndptStat),
            Action::Read(Register::UsbCmd),
            arm,
            Action::Read(Register::EndptStat),
            Action::Read(Register::UsbCmd),
            Action::Modify(Register::UsbCmd, USBCMD_ATDTW, 0),
            Action::Done,
        ]
    );
    assert_eq!(usb.usbcmd, 0);
    assert_eq!(usb.tds[0].next, ep.tds[1].address);
    assert_eq!(ep.tds[0].next, ep.tds[1].address);
    assert_eq!(ep.tds[1].next, 1);
}

#[test]
fn link_suffices_while_the_controller_primes() {
    let mut usb = FakeUsb::new();
    let mut ep = make_bulk_ep(512);
    usb.submit(&mut ep, MEMORY, 512).unwrap();
    usb.log.clear();
    // Not primed, but the overlay is active.
    usb.overlay.token |= 0x80;
    usb.endptprime = 2;
    usb.submit(&mut ep, MEMORY, 512).unwrap();
    assert_eq!(
        usb.log,
        vec![
            Action::StoreTd(1),
            Action::Read(Register::EndptStat),
            Action::LoadOverlay,
            Action::Barrier,
            Action::StoreLink(0),
            Action::Read(Register::EndptPrime),
            Action::Done,
        ]
    );
}

#[test]
fn endpoint_that_went_idle_is_primed_after_all() {
    let mut ep = make_bulk_ep(512);
    ep.submit_transfer(MEMORY, 512).unwrap();
    let mut handoff = ep.submit_transfer(MEMORY + 512, 512).unwrap();
    assert_eq!(handoff.prev_tail, Some(0));
    // ENDPTSTAT is set at first, and clear in the trusted sample.
    let inputs = [0, 0, 2, 0, 0, 0, 0, 0, USBCMD_ATDTW, 0, 0, 0, 0, 0, 0];
    let mut actions = Vec::new();
    for input in inputs {
        actions.push(ep.prime_or_append(&mut handoff, input));
    }
    assert_eq!(
        &actions[8..],
        [
            Action::Modify(Register::UsbCmd, USBCMD_ATDTW, 0),
            Action::LoadOverlay,
            Action::StoreOverlay,
            Action::Barrier,
            Action::Write(Register::EndptPrime, 2),
            Action::Read(Register::EndptPrime),
            Action::Done,
        ]
    );
    assert_eq!(ep.qh.overlay.next, ep.tds[1].address);
}

#[test]
fn chains_wrap_around_the_pool() {
    let mut usb = FakeUsb::new();
    let mut ep = make_bulk_ep(512);
    usb.submit(&mut ep, MEMORY, 5 * 16384).unwrap();
    usb.submit(&mut ep, MEMORY, 16384).unwrap();
    for i in 0..5 {
        force_complete(&mut ep.tds[i], 0);
    }
    assert_eq!(ep.poll_transfer(), Some(Ok(5 * 16384)));
    usb.submit(&mut ep, MEMORY, 3 * 16384 + 5).unwrap();
    assert_eq!(ep.tds[6].next, ep.tds[7].address);
    assert_eq!(ep.tds[7].next, ep.tds[0].address);
    assert_eq!(ep.tds[0].next, ep.tds[1].address);
    assert_eq!(ep.tds[1].next, 1);
    assert_eq!(ep.tds[1].last_transfer_size, 5);
    assert_eq!(ep.td_head, 2);
    force_complete(&mut ep.tds[5], 0);
    for i in [6, 7, 0] {
        force_complete(&mut ep.tds[i], 0);
    }
    assert_eq!(ep.poll_transfer(), Some(Ok(16384)));
    assert_eq!(ep.poll_transfer(), None);
    force_complete(&mut ep.tds[1], 2);
    assert_eq!(ep.poll_transfer(), Some(Ok(3 * 16384 + 3)));
    assert_eq!(ep.tds_free(), TDS_PER_EP);
}

#[test]
fn submission_with_a_staging_slot_is_recorded() {
    let mut ep = make_bulk_ep(64);
    ep.submit_inner(MEMORY, 64, Some(3)).unwrap();
    let record = ep.queue[ep.q_head];
    assert_eq!(record.staging_slot, Some(3));
    assert_eq!((record.first_td, record.td_count, record.len), (0, 1, 64));
}

#[test]
fn new_endpoint_is_configured() {
    let mut tds = pool(2);
    tds[1].set_active();
    let ep = Endpoint::new(
        EndpointAddress::from_parts(0, UsbDirection::Out),
        Qh::new(),
        tds,
        Buffer::new(MEMORY, 64),
        EndpointType::Control,
    );
    assert!(ep.qh.interrupt_on_setup);
    assert!(!ep.qh.zero_length_termination);
    assert_eq!(ep.max_packet_len(), 64);
    assert_eq!(ep.tds[1].next, 1);
    assert_eq!(ep.tds[1].token, 0);
    assert_eq!(ep.address().index(), 0);
    assert!(ep.buffers[0].is_some() && ep.buffers[1].is_none());
    let ep = endpoint(0, 1, 64, UsbDirection::In, EndpointType::Control);
    assert!(!ep.qh.interrupt_on_setup);
    let mut ep = endpoint(1, 1, 64, UsbDirection::Out, EndpointType::Bulk);
    assert!(!ep.qh.interrupt_on_setup);
    assert_eq!(ep.enable_zlt(), Action::StoreCapabilities);
    assert!(ep.qh.zero_length_termination);
}

#[test]
fn packets_go_through_the_staging_buffer() {
    let mut ep = endpoint(1, 1, 8, UsbDirection::Out, EndpointType::Bulk);
    assert_eq!(
        ep.write(&[1, 2, 3, 4, 5, 6, 7, 8, 9, 10]),
        (8, Action::StoreStaging(8))
    );
    assert_eq!(ep.staging(0).data, vec![1, 2, 3, 4, 5, 6, 7, 8]);
    assert_eq!(ep.write(&[20, 30]), (2, Action::StoreStaging(2)));
    ep.schedule_transfer(8);
    force_complete(&mut ep.tds[0], 3);
    let mut out = [0xFF; 10];
    assert_eq!(ep.read(&mut out), 5);
    assert_eq!(out, [20, 30, 3, 4, 5, 0xFF, 0xFF, 0xFF, 0xFF, 0xFF]);
    let mut out = [0; 3];
    assert_eq!(ep.read(&mut out), 3);
    assert_eq!(out, [20, 30, 3]);
    ep.staging_mut(0).data[0] = 99;
    assert_eq!(ep.read(&mut out), 3);
    assert_eq!(out[0], 99);
}

#[test]
fn setup_packets_are_read_again_when_torn() {
    let mut usb = FakeUsb::new();
    let mut ep = endpoint(0, 1, 64, UsbDirection::Out, EndpointType::Control);
    assert!(ep.has_setup(1));
    assert!(!ep.has_setup(2));
    usb.setups = vec![0x1111, 0x2222];
    usb.lost_tripwires = 1;
    assert_eq!(usb.read_setup(&mut ep), 0x2222);
    assert_eq!(usb.usbcmd, 0);
    let arm = Action::Modify(Register::UsbCmd, USBCMD_SUTW, USBCMD_SUTW);
    assert_eq!(
        usb.log,
        vec![
            Action::Write(Register::EndptSetupStat, 1),
            arm,
            Action::LoadSetup,
            Action::Read(Register::UsbCmd),
            arm,
            Action::LoadSetup,
            Action::Read(Register::UsbCmd),
            Action::Modify(Register::UsbCmd, USBCMD_SUTW, 0),
            Action::Done,
        ]
    );
}

/// The control register after an access to it.
fn apply(endptctrl: u32, action: Action) -> u32 {
    match action {
        Action::Modify(_, mask, value) => modify(endptctrl, mask, value),
        _ => panic!("not an access to a control register"),
    }
}

#[test]
fn control_register_of_an_in_endpoint() {
    let ep = endpoint(3, 1, 64, UsbDirection::In, EndpointType::Interrupt);
    assert_eq!(
        ep.initialize(),
        Some(Action::Modify(Register::EndptCtrl(3), 0x008C_0000, 0x0008_0000))
    );
    assert_eq!(
        ep.enable(),
        Some(Action::Modify(Register::EndptCtrl(3), 0x00CC_0000, 0x00CC_0000))
    );
    let enabled = apply(0x0000_00C8, ep.enable().unwrap());
    assert_eq!(enabled, 0x00CC_00C8);
    assert!(ep.is_enabled(enabled));
    assert!(!ep.is_enabled(0x80));
    assert!(!ep.is_enabled(apply(enabled, ep.initialize().unwrap())));
    let stalled = apply(enabled, ep.set_stalled(true));
    assert!(ep.is_stalled(stalled) && ep.is_enabled(stalled));
    assert!(!ep.is_stalled(1));
    assert_eq!(apply(stalled, ep.set_stalled(false)), enabled);
    assert_eq!(ep.clear_complete(), Action::Write(Register::EndptComplete, 1 << 19));
    assert_eq!(ep.clear_nack(), Action::Write(Register::EndptNak, 1 << 19));
    assert!(ep.is_primed(1 << 19));
    assert!(!ep.is_primed(1 << 3));
}

#[test]
fn control_register_of_an_out_endpoint() {
    let ep = endpoint(7, 1, 64, UsbDirection::Out, EndpointType::Bulk);
    let enabled = apply(0, ep.enable().unwrap());
    assert_eq!(enabled, 0x0000_00C8);
    assert!(ep.is_enabled(enabled));
    assert!(!ep.is_enabled(0x0080_0000));
    assert_eq!(apply(enabled, ep.initialize().unwrap()), 0x0000_0048);
    assert!(ep.is_stalled(apply(0, ep.set_stalled(true))));
    assert!(!ep.is_stalled(0x0001_0000));
    assert_eq!(ep.clear_complete(), Action::Write(Register::EndptComplete, 1 << 7));
    assert!(ep.is_primed(1 << 7));
    assert!(!ep.is_primed(1 << 23));
}

#[test]
fn control_endpoint_is_always_enabled() {
    let ep = endpoint(0, 1, 64, UsbDirection::In, EndpointType::Control);
    assert!(ep.is_enabled(0));
    assert_eq!(ep.enable(), None);
    assert_eq!(ep.initialize(), None);
}

#[test]
fn waits_look_at_the_endpoint_only() {
    let address = EndpointAddress::from_parts(2, UsbDirection::In);
    assert!(!wait_endptprime(1 << 18, address));
    assert!(wait_endptprime(!(1 << 18), address));
    assert!(!wait_endptflush(0b110, 0b010));
    assert!(wait_endptflush(0b100, 0b010));
    let ep = endpoint(2, 1, 64, UsbDirection::In, EndpointType::Bulk);
    assert!(ep.endpoint_priming(1 << 18));
    assert!(!ep.endpoint_priming(1 << 2));
    assert_eq!(ep.endpoint_active(1 << 18, USBCMD_ATDTW), Some(true));
    assert_eq!(ep.endpoint_active(1 << 2, USBCMD_ATDTW), Some(false));
    assert_eq!(ep.endpoint_active(1 << 18, USBCMD_SUTW), None);
}

#[test]
fn buffer_pointers_follow_the_pages() {
    let mut td = Td::new(MEMORY);
    td.set_buffer(0x2000_1FFF, 16384);
    assert_eq!(
        td.buffer_pointers(),
        [0x2000_1FFF, 0x2000_2000, 0x2000_3000, 0x2000_4000, 0x2000_5000]
    );
    // The last byte of the payload lies in the fifth page.
    assert_eq!((td.buffer + 16383) & !0xFFF, 0x2000_5000);
    td.set_buffer(0xFFFF_F000, 16);
    assert_eq!(td.buffer_pointers()[1], 0);
}

#[test]
fn token_fields_are_independent() {
    let mut td = Td::new(MEMORY);
    td.write_back(0xFFFF_FFFF);
    assert!(!td.is_consistent());
    td.set_buffer(0, 0x1234);
    assert_eq!(td.token, 0x9234_FFFF);
    td.set_interrupt_on_complete(false);
    assert_eq!(td.token, 0x9234_7FFF);
    td.set_interrupt_on_complete(true);
    td.clear_status();
    assert_eq!(td.token, 0x9234_FF00);
    td.set_active();
    assert_eq!(td.token, 0x9234_FF80);
    assert_eq!(td.bytes_transferred(), 0);
    assert!(td.is_consistent());
    assert!(td.status().contains(StatusFlag::Active));
    assert!(!td.status().is_error());
    td.write_back(0x0234_0028);
    assert_eq!(td.bytes_transferred(), 0x1000);
    assert!(td.status().contains(StatusFlag::DataBufferError));
    assert!(td.status().contains(StatusFlag::TransactionError));
    assert!(!td.status().contains(StatusFlag::Halted));
}

/// The descriptors that a queued transfer owns.
fn owned(ep: &Endpoint, k: usize) -> Vec<usize> {
    let record = ep.queue[(ep.q_head + k) % TDS_PER_EP];
    (0..record.td_count as usize)
        .map(|i| (record.first_td as usize + i) % TDS_PER_EP)
        .collect()
}

#[test]
fn queued_transfers_share_no_descriptor() {
    let mut usb = FakeUsb::new();
    let mut ep = make_bulk_ep(512);
    // Move the start of the pool away from its front.
    usb.submit(&mut ep, MEMORY, 3 * 16384).unwrap();
    usb.submit(&mut ep, MEMORY, 16384).unwrap();
    for i in 0..3 {
        force_complete(&mut ep.tds[i], 0);
    }
    ep.poll_transfer().unwrap().unwrap();
    usb.submit(&mut ep, MEMORY, 5 * 16384).unwrap();
    let before = ep.tds.clone();
    usb.endptstat = 2;
    usb.submit(&mut ep, MEMORY, 2 * 16384).unwrap();
    assert_eq!(owned(&ep, 0), [3]);
    assert_eq!(owned(&ep, 1), [4, 5, 6, 7, 0]);
    assert_eq!(owned(&ep, 2), [1, 2]);
    assert_eq!(ep.tds_in_use, 8);
    // Only the link of the last descriptor of the previous transfer has changed.
    for i in [3, 4, 5, 6, 7] {
        assert_eq!(ep.tds[i], before[i]);
    }
    assert_eq!(ep.tds[0].token, before[0].token);
    assert_eq!(ep.tds[0].next, ep.tds[1].address);
}

#[test]
fn short_packet_leaves_later_descriptors_active() {
    let mut usb = FakeUsb::new();
    let mut ep = make_bulk_ep(512);
    usb.submit(&mut ep, MEMORY, 40_000).unwrap();
    force_complete(&mut ep.tds[0], 16384 - 31);
    assert_eq!(ep.poll_transfer(), None);
    assert_eq!(ep.pending_transfers(), 1);
    usb.clear(&mut ep);
    assert_eq!(ep.pending_transfers(), 0);
}

#[test]
fn empty_queue_takes_a_full_chain_and_no_more() {
    let mut usb = FakeUsb::new();
    let mut ep = make_bulk_ep(512);
    usb.submit(&mut ep, MEMORY, TRANSFER_MAX_BYTES).unwrap();
    assert_eq!(ep.tds_free(), 0);
    assert_eq!(usb.submit(&mut ep, MEMORY, 0), Err(UsbError::WouldBlock));
    for i in 0..TDS_PER_EP {
        force_complete(&mut ep.tds[i], 0);
    }
    assert_eq!(ep.poll_transfer(), Some(Ok(TRANSFER_MAX_BYTES)));
}

#[test]
fn eight_transfers_fit_the_queue() {
    let mut usb = FakeUsb::new();
    let mut ep = make_bulk_ep(512);
    for round in 0..3u32 {
        for i in 0..8u32 {
            usb.submit(&mut ep, MEMORY, (8 * round + i) as usize).unwrap();
        }
        assert_eq!(usb.submit(&mut ep, MEMORY, 1), Err(UsbError::WouldBlock));
        for td in ep.tds.iter_mut() {
            force_complete(td, 0);
        }
        for i in 0..8u32 {
            assert_eq!(ep.poll_transfer(), Some(Ok((8 * round + i) as usize)));
        }
        assert_eq!(ep.poll_transfer(), None);
    }
}

#[test]
fn publication_is_always_behind_a_barrier() {
    // Every combination of answers, for a while.
    for pattern in 0..256u32 {
        let mut ep = make_bulk_ep(512);
        ep.submit_transfer(MEMORY, 512).unwrap();
        let mut handoff = ep.submit_transfer(MEMORY + 512, 20_000).unwrap();
        let mut actions = Vec::new();
        let mut reads = 0;
        let mut input = 0;
        for _ in 0..40 {
            let action = ep.prime_or_append(&mut handoff, input);
            actions.push(action);
            input = 0;
            if let Action::Read(register) = action {
                // In the end, the tripwire holds.
                if (pattern >> reads) & 1 == 1 || (reads > 7 && register == Register::UsbCmd) {
                    input = 0xFFFF_FFFF;
                }
                reads += 1;
            }
        }
        assert_eq!(handoff.phase, Phase::Finished);
        let mut tripwire = false;
        for (i, action) in actions.iter().enumerate() {
            match action {
                Action::StoreLink(_) | Action::Write(Register::EndptPrime, _) => {
                    assert_eq!(actions[i - 1], Action::Barrier)
                }
                Action::StoreTd(td) => assert_eq!(*td, i + 1),
                Action::Modify(Register::UsbCmd, _, value) => tripwire = *value != 0,
                _ => {}
            }
        }
        assert!(!tripwire);
        let head = ep.tds[1].address;
        assert!(ep.qh.overlay.next == head || ep.tds[0].next == head);
    }
}
