//! Setup packets, and the control register of an endpoint.

use crate::endpoint::Endpoint;
use crate::registers;
use crate::registers::{
    endpoint_mask, Action, Register, ENDPTCTRL_RXE, ENDPTCTRL_RXR, ENDPTCTRL_RXS,
    ENDPTCTRL_RXT, ENDPTCTRL_TXE, ENDPTCTRL_TXR, ENDPTCTRL_TXS, ENDPTCTRL_TXT, USBCMD_SUTW,
};
use crate::usb;
use crate::usb::{into_raw_endpoint_type, EndpointType, UsbDirection};
use vstd::prelude::*;

verus! {

/// What reading a setup packet does when it is stepped next.
#[derive(Clone, Copy, Debug, PartialEq, Eq, Structural)]
pub enum SetupPhase {
    /// Acknowledge the packet.
    Start,
    /// Set the tripwire.
    Arm,
    /// Load the setup buffer.
    Load,
    /// Take in the setup buffer.
    Sample,
    /// Take in USBCMD, to see if this packet can be trusted.
    Confirm(u64),
    /// This packet was read in one piece.
    Finished(u64),
}

impl SetupPhase {
    /// The next phase and the action to perform, given what the last read returned.
    pub open spec fn next(self, ep: Endpoint, input: u32) -> (SetupPhase, Action) {
        self.next_at(ep.address.spec_index(), ep.qh.setup, input)
    }

    /// The next phase and the action to perform: `index` is the endpoint's, `loaded` the
    /// setup buffer as it was loaded last, and `input` what the last read returned.
    pub open spec fn next_at(self, index: int, loaded: u64, input: u32) -> (SetupPhase, Action) {
        let arm = Action::Modify(Register::UsbCmd, USBCMD_SUTW, USBCMD_SUTW);
        match self {
            SetupPhase::Start => (
                SetupPhase::Arm,
                Action::Write(Register::EndptSetupStat, registers::bit(index)),
            ),
            SetupPhase::Arm => (SetupPhase::Load, arm),
            SetupPhase::Load => (SetupPhase::Sample, Action::LoadSetup),
            SetupPhase::Sample => (SetupPhase::Confirm(loaded), Action::Read(Register::UsbCmd)),
            SetupPhase::Confirm(setup) => if registers::setup_tripwire(input) {
                (
                    SetupPhase::Finished(setup),
                    Action::Modify(Register::UsbCmd, USBCMD_SUTW, 0),
                )
            } else {
                (SetupPhase::Load, arm)
            },
            SetupPhase::Finished(setup) => (SetupPhase::Finished(setup), Action::Done),
        }
    }
}

/// A bit of a register, as a mask selects it.
pub open spec fn flag_set(value: u32, flag: u32) -> bool {
    (value / flag) % 2 == 1
}

impl Endpoint {
    /// Indicates if a setup packet has arrived, given ENDPTSETUPSTAT.
    pub fn has_setup(&self, endptsetupstat: u32) -> (r: bool)
        requires
            self.wf(),
        ensures
            r == registers::bit_set(endptsetupstat, self.address.spec_index()),
    {
        proof {
            registers::lemma_mask_tests_bit(endptsetupstat, self.address.spec_index());
        }
        endptsetupstat & (1u32 << (self.address.index() as u32)) != 0
    }

    /// One step of reading a setup packet. Only a control OUT endpoint has any.
    ///
    /// The tripwire tells if another packet came in while the setup buffer was read; then
    /// it is read again.
    ///
    /// `input` is what the last action read. The caller performs the action that is
    /// returned, and steps again, until it is `Done`; `phase` then holds the packet.
    pub fn read_setup(&self, phase: &mut SetupPhase, input: u32) -> (action: Action)
        requires
            self.wf(),
        ensures
            (*final(phase), action) == old(phase).next(*self, input),
    {
        match *phase {
            SetupPhase::Start => {
                proof {
                    registers::lemma_mask_tests_bit(0, self.address.spec_index());
                }
                *phase = SetupPhase::Arm;
                Action::Write(Register::EndptSetupStat, 1u32 << (self.address.index() as u32))
            },
            SetupPhase::Arm => {
                *phase = SetupPhase::Load;
                Action::Modify(Register::UsbCmd, USBCMD_SUTW, USBCMD_SUTW)
            },
            SetupPhase::Load => {
                *phase = SetupPhase::Sample;
                Action::LoadSetup
            },
            SetupPhase::Sample => {
                *phase = SetupPhase::Confirm(self.qh.setup);
                Action::Read(Register::UsbCmd)
            },
            SetupPhase::Confirm(setup) => {
                assert((input & 0x2000u32 != 0) == ((input / 0x2000) % 2 == 1)) by (bit_vector);
                if input & USBCMD_SUTW != 0 {
                    *phase = SetupPhase::Finished(setup);
                    Action::Modify(Register::UsbCmd, USBCMD_SUTW, 0)
                } else {
                    *phase = SetupPhase::Load;
                    Action::Modify(Register::UsbCmd, USBCMD_SUTW, USBCMD_SUTW)
                }
            },
            SetupPhase::Finished(_) => Action::Done,
        }
    }

    /// The write that acknowledges a complete transfer.
    pub fn clear_complete(&self) -> (action: Action)
        requires
            self.wf(),
        ensures
            action == Action::Write(Register::EndptComplete, registers::bit(self.position())),
    {
        Action::Write(Register::EndptComplete, endpoint_mask(self.address))
    }

    /// The write that clears the NAK bit.
    pub fn clear_nack(&self) -> (action: Action)
        requires
            self.wf(),
        ensures
            action == Action::Write(Register::EndptNak, registers::bit(self.position())),
    {
        Action::Write(Register::EndptNak, endpoint_mask(self.address))
    }

    /// The control register of the endpoint.
    pub open spec fn control_register(self) -> Register {
        Register::EndptCtrl(self.address.spec_index() as usize)
    }

    /// The stall bit of the endpoint's direction.
    pub open spec fn stall_flag(self) -> u32 {
        match self.address.spec_direction() {
            UsbDirection::In => ENDPTCTRL_TXS,
            UsbDirection::Out => ENDPTCTRL_RXS,
        }
    }

    /// The enable bit of the endpoint's direction.
    pub open spec fn enable_flag(self) -> u32 {
        match self.address.spec_direction() {
            UsbDirection::In => ENDPTCTRL_TXE,
            UsbDirection::Out => ENDPTCTRL_RXE,
        }
    }

    /// The type field of the endpoint's direction, for an endpoint type.
    pub open spec fn type_field(self, kind: EndpointType) -> u32 {
        match self.address.spec_direction() {
            UsbDirection::In => (usb::raw_endpoint_type(kind) * 0x4_0000) as u32,
            UsbDirection::Out => (usb::raw_endpoint_type(kind) * 4) as u32,
        }
    }

    /// The endpoint is enabled, by its control register. The control endpoint always is.
    pub open spec fn enabled(self, endptctrl: u32) -> bool {
        self.address.spec_index() == 0 || flag_set(endptctrl, self.enable_flag())
    }

    /// The endpoint is stalled, by its control register.
    pub open spec fn stalled(self, endptctrl: u32) -> bool {
        flag_set(endptctrl, self.stall_flag())
    }

    /// Disable the endpoint, and give it the bulk type.
    pub open spec fn initializing(self) -> Option<Action> {
        if self.address.spec_index() == 0 {
            None
        } else {
            let mask = match self.address.spec_direction() {
                UsbDirection::In => ENDPTCTRL_TXE + ENDPTCTRL_TXT,
                UsbDirection::Out => ENDPTCTRL_RXE + ENDPTCTRL_RXT,
            };
            Some(
                Action::Modify(
                    self.control_register(),
                    mask as u32,
                    self.type_field(EndpointType::Bulk),
                ),
            )
        }
    }

    /// Enable the endpoint, reset its data toggle, and give it its type.
    pub open spec fn enabling(self) -> Option<Action> {
        if self.address.spec_index() == 0 {
            None
        } else {
            let (enable, reset, kind) = match self.address.spec_direction() {
                UsbDirection::In => (ENDPTCTRL_TXE, ENDPTCTRL_TXR, ENDPTCTRL_TXT),
                UsbDirection::Out => (ENDPTCTRL_RXE, ENDPTCTRL_RXR, ENDPTCTRL_RXT),
            };
            Some(
                Action::Modify(
                    self.control_register(),
                    (enable + reset + kind) as u32,
                    (enable + reset + self.type_field(self.kind)) as u32,
                ),
            )
        }
    }

    /// Set or clear the stall bit.
    pub open spec fn stalling(self, stall: bool) -> Action {
        let value = if stall {
            self.stall_flag()
        } else {
            0
        };
        Action::Modify(self.control_register(), self.stall_flag(), value)
    }

    /// The access that puts the endpoint into its initial state: disabled, with the bulk
    /// type. The control endpoint needs none.
    pub fn initialize(&self) -> (action: Option<Action>)
        requires
            self.wf(),
        ensures
            action == self.initializing(),
    {
        let index: usize = self.address.index();
        if index == 0 {
            return None;
        }
        let kind: u32 = into_raw_endpoint_type(EndpointType::Bulk);
        Some(
            match self.address.direction() {
                UsbDirection::In => Action::Modify(
                    Register::EndptCtrl(index),
                    ENDPTCTRL_TXE + ENDPTCTRL_TXT,
                    kind * 0x4_0000,
                ),
                UsbDirection::Out => Action::Modify(
                    Register::EndptCtrl(index),
                    ENDPTCTRL_RXE + ENDPTCTRL_RXT,
                    kind * 4,
                ),
            },
        )
    }

    /// The access that enables the endpoint, with its type and a fresh data toggle. The
    /// control endpoint needs none: it is always enabled.
    pub fn enable(&self) -> (action: Option<Action>)
        requires
            self.wf(),
        ensures
            action == self.enabling(),
    {
        let index: usize = self.address.index();
        if index == 0 {
            return None;
        }
        let kind: u32 = into_raw_endpoint_type(self.kind);
        Some(
            match self.address.direction() {
                UsbDirection::In => Action::Modify(
                    Register::EndptCtrl(index),
                    ENDPTCTRL_TXE + ENDPTCTRL_TXR + ENDPTCTRL_TXT,
                    ENDPTCTRL_TXE + ENDPTCTRL_TXR + kind * 0x4_0000,
                ),
                UsbDirection::Out => Action::Modify(
                    Register::EndptCtrl(index),
                    ENDPTCTRL_RXE + ENDPTCTRL_RXR + ENDPTCTRL_RXT,
                    ENDPTCTRL_RXE + ENDPTCTRL_RXR + kind * 4,
                ),
            },
        )
    }

    /// Indicates if the endpoint is enabled, given its control register. The control
    /// endpoint always is.
    pub fn is_enabled(&self, endptctrl: u32) -> (r: bool)
        requires
            self.wf(),
        ensures
            r == self.enabled(endptctrl),
    {
        if self.address.index() == 0 {
            return true;
        }
        assert((endptctrl & 0x80_0000u32 != 0) == ((endptctrl / 0x80_0000) % 2 == 1))
            by (bit_vector);
        assert((endptctrl & 0x80u32 != 0) == ((endptctrl / 0x80) % 2 == 1)) by (bit_vector);
        match self.address.direction() {
            UsbDirection::In => endptctrl & ENDPTCTRL_TXE != 0,
            UsbDirection::Out => endptctrl & ENDPTCTRL_RXE != 0,
        }
    }

    /// The access that stalls or unstalls the endpoint.
    pub fn set_stalled(&self, stall: bool) -> (action: Action)
        requires
            self.wf(),
        ensures
            action == self.stalling(stall),
    {
        let flag: u32 = match self.address.direction() {
            UsbDirection::In => ENDPTCTRL_TXS,
            UsbDirection::Out => ENDPTCTRL_RXS,
        };
        Action::Modify(
            Register::EndptCtrl(self.address.index()),
            flag,
            if stall {
                flag
            } else {
                0
            },
        )
    }

    /// Indicates if the endpoint is stalled, given its control register.
    pub fn is_stalled(&self, endptctrl: u32) -> (r: bool)
        requires
            self.wf(),
        ensures
            r == self.stalled(endptctrl),
    {
        assert((endptctrl & 0x1_0000u32 != 0) == ((endptctrl / 0x1_0000) % 2 == 1))
            by (bit_vector);
        assert((endptctrl & 1u32 != 0) == ((endptctrl / 1) % 2 == 1)) by (bit_vector);
        match self.address.direction() {
            UsbDirection::In => endptctrl & ENDPTCTRL_TXS != 0,
            UsbDirection::Out => endptctrl & ENDPTCTRL_RXS != 0,
        }
    }
}

} // verus!
