//! The names and paths used when the firmware is installed on the fan
//! controller, which shows up as a removable disk.

use vstd::prelude::*;
use vstd::string::*;
use crate::decimal::{nat_text, push_nat};
use crate::text::{after_last, has_prefix, last_segment, starts_with};

verus! {

/// Whether a directory entry under `/dev/disk/by-id` belongs to the
/// controller: it is a symbolic link whose name begins with
/// `usb-RPI_RP2_`.
pub fn is_rp2_entry(name: &str, is_symlink: bool) -> (b: bool)
    ensures
        b == (is_symlink && starts_with(name@, "usb-RPI_RP2_"@)),
{
    is_symlink && has_prefix(name, "usb-RPI_RP2_")
}

/// The device of the controller's first partition, given the path that its
/// entry links to: where the path ends in `1`, `/dev/` and the path's last
/// component. None for any other path.
pub fn partition_device(target: &str) -> (device: Option<String>)
    ensures
        match device {
            Some(path) => {
                &&& target@.len() > 0
                &&& target@.last() == '1'
                &&& path@ == "/dev/"@ + last_segment(target@, '/')
            },
            None => target@.len() == 0 || target@.last() != '1',
        },
{
    let len: usize = target.unicode_len();
    if len == 0 || target.get_char(len - 1) != '1' {
        return None;
    }
    let mut path: String = String::from_str("/dev/");
    path.append(after_last(target, '/'));
    Some(path)
}

/// The directory to mount the disk at, named after the time in seconds
/// since the epoch.
pub fn mount_point(unix_secs: u64) -> (path: String)
    ensures
        path@ == "/tmp/rp2_"@ + nat_text(unix_secs as nat),
{
    let mut path: String = String::from_str("/tmp/rp2_");
    push_nat(&mut path, unix_secs);
    path
}

/// The shell command that mounts `device` at `mount_point`.
pub fn mount_command(device: &str, mount_point: &str) -> (command: String)
    ensures
        command@ == "mount "@ + device@ + " "@ + mount_point@,
{
    let mut command: String = String::from_str("mount ");
    command.append(device);
    command.append(" ");
    command.append(mount_point);
    command
}

/// The path of the firmware file on the mounted disk.
pub fn firmware_path(mount_point: &str) -> (path: String)
    ensures
        path@ == mount_point@ + "/pwm_fan.uf2"@,
{
    let mut path: String = String::from_str(mount_point);
    path.append("/pwm_fan.uf2");
    path
}

} // verus!
