# imxrt-usbd

The transfer logic of a USB device driver for i.MX RT processors, verified with Verus.

- `src/` is the library. It decides; it never touches hardware.
  - `layout`: how a transfer is split over transfer descriptors.
  - `td`, `qh`: the driver's copies of transfer descriptors, queue heads and staging
    buffers.
  - `pool`, `queue`: the circular pool of descriptors, and the records of queued transfers.
  - `endpoint`: endpoints, submitting transfers and retiring them.
  - `packet`: single packets.
  - `registers`: the controller's registers, and the accesses that the driver asks for.
  - `handoff`: handing a chain to the controller, with the tripwire that closes the race
    with a controller that goes idle.
  - `flush`: dropping the queue of an endpoint.
  - `control`: setup packets, enabling and stalling.
  - `bus`: the endpoints of a device.
  - `usb`: directions, addresses, transfer types and errors.
  - `laws`, `controller_laws`: what holds of all of this together, whatever the controller
    answers.
- `tests/` runs the library against a controller that is nothing but memory.
- `app/` performs the accesses on the peripheral, and implements `usb_device::bus::UsbBus`.
  It is generic over the driver of the PHY, the interrupts and the control transfers, and
  over the layout of the shared memory.
