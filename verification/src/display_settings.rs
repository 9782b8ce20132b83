//! Display rotation rules and the runtime rotation setting.

use vstd::prelude::*;
use vstd::string::StringExecFns;

use crate::text::{append_decimal, decimal_digits};

verus! {

/// Rotation used when nothing valid is configured.
pub const DEFAULT_ROTATION_DEGREES: u16 = 0;

/// The supported right angles.
pub open spec fn valid_rotation(rotation_degrees: int) -> bool {
    rotation_degrees == 0 || rotation_degrees == 90 || rotation_degrees == 180
        || rotation_degrees == 270
}

/// Returns true when rotation is one of the supported right angles.
pub fn is_valid_rotation_degrees(rotation_degrees: u16) -> (valid: bool)
    ensures
        valid == valid_rotation(rotation_degrees as int),
{
    rotation_degrees == 0 || rotation_degrees == 90 || rotation_degrees == 180
        || rotation_degrees == 270
}

/// Converts a signed rotation request value into a validated rotation.
pub fn parse_rotation_degrees(rotation_degrees: i32) -> (parsed: Option<u16>)
    ensures
        valid_rotation(rotation_degrees as int) ==> parsed == Some(rotation_degrees as u16),
        !valid_rotation(rotation_degrees as int) ==> parsed.is_none(),
{
    if rotation_degrees == 0 {
        Some(0)
    } else if rotation_degrees == 90 {
        Some(90)
    } else if rotation_degrees == 180 {
        Some(180)
    } else if rotation_degrees == 270 {
        Some(270)
    } else {
        None
    }
}

/// Logical dimensions for physical dimensions and a rotation: 90 and 270
/// swap width and height, every other rotation keeps them.
pub open spec fn logical_dimensions(
    physical_width: u32,
    physical_height: u32,
    rotation_degrees: u16,
) -> (u32, u32) {
    if rotation_degrees == 90 || rotation_degrees == 270 {
        (physical_height, physical_width)
    } else {
        (physical_width, physical_height)
    }
}

/// Computes logical dimensions from physical dimensions and rotation.
/// 90/270 swap width and height. 0/180 keep dimensions unchanged.
pub fn compute_logical_dimensions(
    physical_width: u32,
    physical_height: u32,
    rotation_degrees: u16,
) -> (dimensions: (u32, u32))
    ensures
        dimensions == logical_dimensions(physical_width, physical_height, rotation_degrees),
{
    if rotation_degrees == 90 || rotation_degrees == 270 {
        (physical_height, physical_width)
    } else {
        (physical_width, physical_height)
    }
}

/// The clockwise rotation that undoes a mounting rotation: the rotation
/// that completes a supported one to a full turn, and 0 for any other.
pub open spec fn flash_rotation(mount_rotation_degrees: u16) -> u16 {
    if mount_rotation_degrees == 90 {
        270
    } else if mount_rotation_degrees == 180 {
        180
    } else if mount_rotation_degrees == 270 {
        90
    } else {
        0
    }
}

/// Computes the clockwise rotation to apply during flashing to compensate for the
/// physical mounting orientation.
///
/// The configured rotation represents how the physical panel is mounted.
/// To keep UI preview and the flashed output consistent (i.e. upright in the UI),
/// the flash script should counter-rotate the image buffer.
pub fn compute_flash_rotation_degrees(mount_rotation_degrees: u16) -> (rotation: u16)
    ensures
        rotation == flash_rotation(mount_rotation_degrees),
        valid_rotation(rotation as int),
        valid_rotation(mount_rotation_degrees as int) ==> (mount_rotation_degrees + rotation)
            % 360 == 0,
{
    if mount_rotation_degrees == 90 {
        270
    } else if mount_rotation_degrees == 180 {
        180
    } else if mount_rotation_degrees == 270 {
        90
    } else {
        0
    }
}

/// The rotation that is used when none is stored.
pub fn default_rotation_degrees() -> (rotation: u16)
    ensures
        rotation == DEFAULT_ROTATION_DEGREES,
{
    DEFAULT_ROTATION_DEGREES
}

/// The display settings that can change while the server runs.
#[derive(Debug, Clone, Copy, PartialEq, Eq, Structural)]
pub struct RuntimeDisplaySettings {
    pub rotation_degrees: u16,
}

impl Default for RuntimeDisplaySettings {
    fn default() -> (settings: Self)
        ensures
            settings.rotation_degrees == DEFAULT_ROTATION_DEGREES,
    {
        RuntimeDisplaySettings { rotation_degrees: DEFAULT_ROTATION_DEGREES }
    }
}

/// The settings in force for what was read from storage: the stored
/// settings if there are any and their rotation is supported, else the
/// defaults.
pub open spec fn settings_in_force(stored: Option<RuntimeDisplaySettings>) -> RuntimeDisplaySettings {
    match stored {
        Some(settings) => if valid_rotation(settings.rotation_degrees as int) {
            settings
        } else {
            RuntimeDisplaySettings { rotation_degrees: DEFAULT_ROTATION_DEGREES }
        },
        None => RuntimeDisplaySettings { rotation_degrees: DEFAULT_ROTATION_DEGREES },
    }
}

/// Loads the runtime display settings from what storage held: `stored` is
/// none where the settings file is missing, unreadable or not parsable.
pub fn load_runtime_settings(stored: Option<RuntimeDisplaySettings>) -> (settings:
    RuntimeDisplaySettings)
    ensures
        settings == settings_in_force(stored),
        valid_rotation(settings.rotation_degrees as int),
{
    match stored {
        Some(settings) => {
            if is_valid_rotation_degrees(settings.rotation_degrees) {
                settings
            } else {
                RuntimeDisplaySettings { rotation_degrees: DEFAULT_ROTATION_DEGREES }
            }
        },
        None => RuntimeDisplaySettings { rotation_degrees: DEFAULT_ROTATION_DEGREES },
    }
}

/// Returns the configured rotation for what storage held.
pub fn load_rotation_degrees(stored: Option<RuntimeDisplaySettings>) -> (rotation: u16)
    ensures
        rotation == settings_in_force(stored).rotation_degrees,
        valid_rotation(rotation as int),
{
    load_runtime_settings(stored).rotation_degrees
}

/// The message that refuses a rotation.
pub open spec fn invalid_rotation_message(rotation_degrees: u16) -> Seq<char> {
    "Invalid rotation_degrees "@ + decimal_digits(rotation_degrees as nat)
        + ". Must be one of 0, 90, 180, 270."@
}

/// Decides whether settings may be persisted: settings with a supported
/// rotation pass, any other are refused with a message. The caller writes
/// the file after an `Ok`.
pub fn save_runtime_settings(settings: &RuntimeDisplaySettings) -> (checked: Result<(), String>)
    ensures
        valid_rotation(settings.rotation_degrees as int) ==> checked is Ok,
        !valid_rotation(settings.rotation_degrees as int) ==> checked is Err && checked->Err_0@
            == invalid_rotation_message(settings.rotation_degrees),
{
    if is_valid_rotation_degrees(settings.rotation_degrees) {
        Ok(())
    } else {
        let mut message = String::from_str("Invalid rotation_degrees ");
        append_decimal(&mut message, settings.rotation_degrees as u64);
        message.append(". Must be one of 0, 90, 180, 270.");
        Err(message)
    }
}

/// Builds the settings to persist for a rotation: a supported rotation
/// gives its settings, any other is refused with a message. The caller
/// writes the file after an `Ok`.
pub fn save_rotation_degrees(rotation_degrees: u16) -> (checked: Result<
    RuntimeDisplaySettings,
    String,
>)
    ensures
        valid_rotation(rotation_degrees as int) ==> checked == Ok::<
            RuntimeDisplaySettings,
            String,
        >(RuntimeDisplaySettings { rotation_degrees }),
        !valid_rotation(rotation_degrees as int) ==> checked is Err && checked->Err_0@
            == invalid_rotation_message(rotation_degrees),
{
    let settings = RuntimeDisplaySettings { rotation_degrees };
    match save_runtime_settings(&settings) {
        Ok(_) => Ok(settings),
        Err(message) => Err(message),
    }
}

} // verus!
