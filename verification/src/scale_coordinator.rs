use vstd::prelude::*;

verus! {

/// The pointer serial kept beside the scale bookkeeping, shared with the code
/// that creates popups so that their grabs use the latest serial.
pub struct SharedPointerSerial {
    serial: u32,
}

impl SharedPointerSerial {
    /// The serial currently stored.
    pub closed spec fn serial_value(&self) -> u32 {
        self.serial
    }

    /// A fresh holder starts at serial 0.
    pub fn new() -> (s: Self)
        ensures
            s.serial_value() == 0,
    {
        SharedPointerSerial { serial: 0 }
    }

    /// Stores `serial`, replacing whatever was stored before.
    pub fn update(&mut self, serial: u32)
        ensures
            final(self).serial_value() == serial,
    {
        self.serial = serial;
    }

    /// The serial stored by the last `update`, or 0 if there was none.
    pub fn get(&self) -> (r: u32)
        ensures
            r == self.serial_value(),
    {
        self.serial
    }
}

impl Default for SharedPointerSerial {
    fn default() -> (s: Self)
        ensures
            s.serial_value() == 0,
    {
        Self::new()
    }
}

} // verus!
