//! `reboot`: powering the machine off or restarting it, by the command numbers Linux uses. Anything
//! else is refused with `EINVAL`; the firmware call itself is the architecture's.

use vstd::prelude::*;

use crate::abi::EINVAL;

verus! {

/// `reboot` command: power the machine off.
pub const LINUX_REBOOT_CMD_POWER_OFF: u32 = 0x4321_FEDC;
/// `reboot` command: restart the machine.
pub const LINUX_REBOOT_CMD_RESTART: u32 = 0x0123_4567;

/// What `reboot` asks the firmware for.
#[derive(Clone, Copy, Debug, PartialEq, Eq, Structural)]
pub enum PowerAction {
    Off,
    Reset,
}

/// What `reboot(cmd)` does: the command must fit in 32 bits and be one of the two Linux numbers.
pub fn reboot_action(cmd: usize) -> (r: Result<PowerAction, isize>)
    ensures
        cmd == LINUX_REBOOT_CMD_POWER_OFF ==> r == Ok::<PowerAction, isize>(PowerAction::Off),
        cmd == LINUX_REBOOT_CMD_RESTART ==> r == Ok::<PowerAction, isize>(PowerAction::Reset),
        cmd != LINUX_REBOOT_CMD_POWER_OFF && cmd != LINUX_REBOOT_CMD_RESTART ==> r == Err::<PowerAction, isize>(EINVAL),
{
    if cmd == LINUX_REBOOT_CMD_POWER_OFF as usize {
        Ok(PowerAction::Off)
    } else if cmd == LINUX_REBOOT_CMD_RESTART as usize {
        Ok(PowerAction::Reset)
    } else {
        Err(EINVAL)
    }
}

} // verus!
