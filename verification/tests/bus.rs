//! The bus, and the vocabulary that it shares with other crates.

use imxrt_ral::usb as ral;
use usb_device::endpoint as theirs;
use imxrt_usbd::bus::{BusAdapter, Route};
use imxrt_usbd::flush::FlushPhase;
use imxrt_usbd::layout::TDS_PER_EP;
use imxrt_usbd::qh::{Buffer, Qh};
use imxrt_usbd::registers::{
    Action, Register, ENDPTCTRL_RXE, ENDPTCTRL_RXR, ENDPTCTRL_RXS, ENDPTCTRL_RXT, ENDPTCTRL_TXE,
    ENDPTCTRL_TXR, ENDPTCTRL_TXS, ENDPTCTRL_TXT, USBCMD_ATDTW, USBCMD_SUTW,
};
use imxrt_usbd::td::Td;
use imxrt_usbd::usb::{
    into_raw_endpoint_type, EndpointAddress, EndpointType, IsochronousSynchronizationType,
    IsochronousUsageType, UsbDirection, UsbError,
};

fn pool() -> Vec<Td> {
    (0..TDS_PER_EP).map(|i| Td::new(0x2000_0000 + 32 * i as u32)).collect()
}

fn allocate(
    bus: &mut BusAdapter,
    dir: UsbDirection,
    addr: Option<EndpointAddress>,
    kind: EndpointType,
) -> Result<EndpointAddress, UsbError> {
    bus.alloc_ep(dir, addr, kind, 64, Some(Buffer::new(0x2000_1000, 64)), Qh::new(), pool())
}

fn address(index: usize, dir: UsbDirection) -> EndpointAddress {
    EndpointAddress::from_parts(index, dir)
}

#[test]
fn alloc_ep_takes_the_lowest_free_index() {
    let mut bus = BusAdapter::new();
    let wish = address(2, UsbDirection::In);
    assert_eq!(allocate(&mut bus, UsbDirection::In, Some(wish), EndpointType::Bulk), Ok(wish));
    for index in [1, 3, 4, 5, 6, 7] {
        let expected = address(index, UsbDirection::In);
        assert_eq!(bus.choose_address(UsbDirection::In, None), Ok(expected));
        assert_eq!(allocate(&mut bus, UsbDirection::In, None, EndpointType::Bulk), Ok(expected));
        assert!(bus.is_allocated(expected));
        assert!(!bus.is_allocated(address(index, UsbDirection::Out)));
    }
    assert_eq!(
        allocate(&mut bus, UsbDirection::In, None, EndpointType::Bulk),
        Err(UsbError::EndpointOverflow)
    );
    assert_eq!(
        allocate(&mut bus, UsbDirection::Out, None, EndpointType::Bulk),
        Ok(address(1, UsbDirection::Out))
    );
}

#[test]
fn alloc_ep_refuses_taken_addresses() {
    let mut bus = BusAdapter::new();
    let wish = address(0, UsbDirection::Out);
    assert_eq!(allocate(&mut bus, UsbDirection::In, Some(wish), EndpointType::Control), Ok(wish));
    assert_eq!(
        allocate(&mut bus, UsbDirection::Out, Some(wish), EndpointType::Control),
        Err(UsbError::InvalidEndpoint)
    );
}

#[test]
fn alloc_ep_needs_memory() {
    let mut bus = BusAdapter::new();
    let result =
        bus.alloc_ep(UsbDirection::In, None, EndpointType::Bulk, 64, None, Qh::new(), pool());
    assert_eq!(result, Err(UsbError::EndpointMemoryOverflow));
    assert!(!bus.is_allocated(address(1, UsbDirection::In)));
}

#[test]
fn requests_are_routed() {
    let mut bus = BusAdapter::new();
    let control = address(0, UsbDirection::In);
    let bulk = address(1, UsbDirection::In);
    allocate(&mut bus, UsbDirection::In, Some(control), EndpointType::Control).unwrap();
    allocate(&mut bus, UsbDirection::In, Some(bulk), EndpointType::Bulk).unwrap();
    assert_eq!(bus.write(control), Ok(Route::Control));
    assert_eq!(bus.write(bulk), Ok(Route::Endpoint));
    assert_eq!(bus.read(bulk), Ok(Route::Endpoint));
    assert_eq!(bus.write(address(1, UsbDirection::Out)), Err(UsbError::InvalidEndpoint));
    assert_eq!(bus.read(address(9, UsbDirection::Out)), Err(UsbError::InvalidEndpoint));
}

#[test]
fn endpoints_do_not_disturb_each_other() {
    let mut bus = BusAdapter::new();
    let out = allocate(&mut bus, UsbDirection::Out, None, EndpointType::Bulk).unwrap();
    let other = allocate(&mut bus, UsbDirection::In, None, EndpointType::Bulk).unwrap();
    assert!(bus.submit_read(out, 0x2000_2000, 512).is_ok());
    assert!(bus.submit_write(other, 0x2000_3000, 512).is_ok());
    assert!(bus.submit_write(other, 0x2000_4000, 512).is_ok());
    assert_eq!(bus.pending_transfers(out), 1);
    assert_eq!(bus.pending_transfers(other), 2);
    assert_eq!(bus.poll_transfer(other), None);
    let ep = bus.endpoint_mut(other).unwrap();
    ep.tds[0].write_back(12 << 16);
    assert_eq!(bus.poll_transfer(other), Some(Ok(500)));
    assert_eq!(bus.pending_transfers(out), 1);
    assert_eq!(bus.pending_transfers(other), 1);

    assert_eq!(bus.enable_zlt(out), Some(Action::StoreCapabilities));
    assert!(bus.endpoint_mut(out).unwrap().qh.zero_length_termination);
    assert!(!bus.endpoint_mut(other).unwrap().qh.zero_length_termination);

    let mut phase = FlushPhase::Start;
    while bus.cancel_transfers(other, &mut phase, 0) != Action::Done {}
    assert_eq!(phase, FlushPhase::Finished);
    assert_eq!(bus.pending_transfers(other), 0);
    assert_eq!(bus.pending_transfers(out), 1);
}

#[test]
fn endpoints_that_are_not_there() {
    let mut bus = BusAdapter::new();
    let nobody = address(1, UsbDirection::In);
    assert!(matches!(bus.submit_write(nobody, 0, 1), Err(UsbError::InvalidEndpoint)));
    assert!(matches!(bus.submit_read(nobody, 0, 1), Err(UsbError::InvalidEndpoint)));
    assert_eq!(bus.poll_transfer(nobody), None);
    assert_eq!(bus.pending_transfers(nobody), 0);
    assert_eq!(bus.set_stalled(nobody, true), None);
    assert!(!bus.is_stalled(nobody, 0xFFFF_FFFF));
    assert_eq!(bus.enable_zlt(nobody), None);
    assert!(bus.endpoint_mut(nobody).is_none());
    assert!(bus.endpoint_mut(address(100, UsbDirection::In)).is_none());
    let mut phase = FlushPhase::Start;
    assert_eq!(bus.cancel_transfers(nobody, &mut phase, 0), Action::Done);
    assert_eq!(phase, FlushPhase::Start);
}

#[test]
fn control_endpoint_has_nothing_to_cancel() {
    let mut bus = BusAdapter::new();
    let control = address(0, UsbDirection::In);
    allocate(&mut bus, UsbDirection::In, Some(control), EndpointType::Control).unwrap();
    let mut phase = FlushPhase::Start;
    assert_eq!(bus.cancel_transfers(control, &mut phase, 0), Action::Done);
    assert_eq!(phase, FlushPhase::Start);
}

#[test]
fn stalling_goes_to_the_control_register() {
    let mut bus = BusAdapter::new();
    let ep = allocate(&mut bus, UsbDirection::In, None, EndpointType::Bulk).unwrap();
    assert_eq!(
        bus.set_stalled(ep, true),
        Some(Action::Modify(Register::EndptCtrl(1), ENDPTCTRL_TXS, ENDPTCTRL_TXS))
    );
    assert!(bus.is_stalled(ep, ENDPTCTRL_TXS));
    assert!(!bus.is_stalled(ep, ENDPTCTRL_RXS));
}

#[test]
fn only_out_endpoints_read_ahead() {
    let mut bus = BusAdapter::new();
    let control = address(0, UsbDirection::Out);
    allocate(&mut bus, UsbDirection::Out, Some(control), EndpointType::Control).unwrap();
    let out = allocate(&mut bus, UsbDirection::Out, None, EndpointType::Bulk).unwrap();
    let other = allocate(&mut bus, UsbDirection::In, None, EndpointType::Bulk).unwrap();
    assert_eq!(bus.check_packet_queue(out), Ok(()));
    for refused in [control, other, address(5, UsbDirection::Out), address(50, UsbDirection::Out)] {
        assert_eq!(bus.check_packet_queue(refused), Err(UsbError::InvalidEndpoint));
    }
}

#[test]
fn addresses_agree_with_usb_device() {
    for raw in 0..=255u8 {
        let ours = EndpointAddress { raw };
        let theirs = usb_device::endpoint::EndpointAddress::from(raw);
        assert_eq!(ours.index(), theirs.index());
        assert_eq!(ours.direction() == UsbDirection::In, theirs.is_in());
        assert_eq!(EndpointAddress::from_parts(ours.index(), ours.direction()), ours);
    }
    assert_eq!(address(3, UsbDirection::In).raw, 0x83);
    assert_eq!(address(3, UsbDirection::Out).raw, 0x03);
}

#[test]
fn endpoint_types_agree_with_usb_device() {
    assert_eq!(EndpointType::Control.to_bm_attributes(), theirs::EndpointType::Control.to_bm_attributes());
    assert_eq!(EndpointType::Bulk.to_bm_attributes(), theirs::EndpointType::Bulk.to_bm_attributes());
    assert_eq!(
        EndpointType::Interrupt.to_bm_attributes(),
        theirs::EndpointType::Interrupt.to_bm_attributes()
    );
    let synchronizations = [
        (
            IsochronousSynchronizationType::NoSynchronization,
            theirs::IsochronousSynchronizationType::NoSynchronization,
        ),
        (
            IsochronousSynchronizationType::Asynchronous,
            theirs::IsochronousSynchronizationType::Asynchronous,
        ),
        (IsochronousSynchronizationType::Adaptive, theirs::IsochronousSynchronizationType::Adaptive),
        (
            IsochronousSynchronizationType::Synchronous,
            theirs::IsochronousSynchronizationType::Synchronous,
        ),
    ];
    let usages = [
        (IsochronousUsageType::Data, theirs::IsochronousUsageType::Data),
        (IsochronousUsageType::Feedback, theirs::IsochronousUsageType::Feedback),
        (
            IsochronousUsageType::ImplicitFeedbackData,
            theirs::IsochronousUsageType::ImplicitFeedbackData,
        ),
    ];
    for (our_sync, their_sync) in synchronizations {
        for (our_usage, their_usage) in usages {
            let ours = EndpointType::Isochronous { synchronization: our_sync, usage: our_usage };
            let their = theirs::EndpointType::Isochronous {
                synchronization: their_sync,
                usage: their_usage,
            };
            assert_eq!(ours.to_bm_attributes(), their.to_bm_attributes());
            assert_eq!(into_raw_endpoint_type(ours), 1);
        }
    }
    assert_eq!(into_raw_endpoint_type(EndpointType::Control), 0);
    assert_eq!(into_raw_endpoint_type(EndpointType::Bulk), 2);
    assert_eq!(into_raw_endpoint_type(EndpointType::Interrupt), 3);
}

#[test]
fn register_fields_agree_with_imxrt_ral() {
    assert_eq!(USBCMD_SUTW, ral::USBCMD::SUTW::mask);
    assert_eq!(USBCMD_ATDTW, ral::USBCMD::ATDTW::mask);
    assert_eq!(ENDPTCTRL_RXS, ral::ENDPTCTRL::RXS::mask);
    assert_eq!(ENDPTCTRL_RXT, ral::ENDPTCTRL::RXT::mask);
    assert_eq!(ENDPTCTRL_RXR, ral::ENDPTCTRL::RXR::mask);
    assert_eq!(ENDPTCTRL_RXE, ral::ENDPTCTRL::RXE::mask);
    assert_eq!(ENDPTCTRL_TXS, ral::ENDPTCTRL::TXS::mask);
    assert_eq!(ENDPTCTRL_TXT, ral::ENDPTCTRL::TXT::mask);
    assert_eq!(ENDPTCTRL_TXR, ral::ENDPTCTRL::TXR::mask);
    assert_eq!(ENDPTCTRL_TXE, ral::ENDPTCTRL::TXE::mask);
    assert_eq!(ral::ENDPTPRIME::PERB::offset, 0);
    assert_eq!(ral::ENDPTPRIME::PETB::offset, 16);
    assert_eq!(ral::ENDPTFLUSH::FETB::offset, 16);
    assert_eq!(ral::ENDPTSTAT::ETBR::offset, 16);
    assert_eq!(ral::ENDPTCOMPLETE::ETCE::offset, 16);
    assert_eq!(ral::ENDPTNAK::EPTN::offset, 16);
}
