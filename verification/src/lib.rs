use vstd::prelude::*;

pub mod api_emulator;
pub mod api_server;
pub mod datamine;
pub mod debug_dump;
pub mod device_history_db;
pub mod device_manager;
pub mod dynamic_triggers;
pub mod event_triggers;
pub mod event_engine;
pub mod haptic_engine;
pub mod hud_messages;
pub mod map_database;
pub mod map_detection;
pub mod map_module;
pub mod pattern_engine;
pub mod profile_manager;
pub mod rate_limiter;
pub mod state_history;
pub mod text;
pub mod vehicle_limits;
pub mod ui_patterns;
pub mod wt_telemetry;

use crate::wt_telemetry::VehicleType;

verus! {

/// What the interface shows of the connection: the kind of vehicle, how much
/// of the game's data is available, and a list of what that data is.
pub struct VehicleModeInfo {
    pub vehicle_type: String,
    pub mode: String,
    pub available_data: Vec<String>,
}

/// The name of a kind of vehicle, as the interface shows it.
pub open spec fn vehicle_type_name_spec(vt: VehicleType) -> Seq<char> {
    match vt {
        VehicleType::Tank => "Tank"@,
        VehicleType::Aircraft => "Aircraft"@,
        VehicleType::Helicopter => "Helicopter"@,
        VehicleType::Ship => "Ship"@,
        VehicleType::Unknown => "Unknown"@,
    }
}

/// The name of a kind of vehicle, as the interface shows it.
pub fn vehicle_type_name(vt: VehicleType) -> (r: String)
    ensures
        r@ == vehicle_type_name_spec(vt),
{
    match vt {
        VehicleType::Tank => String::from_str("Tank"),
        VehicleType::Aircraft => String::from_str("Aircraft"),
        VehicleType::Helicopter => String::from_str("Helicopter"),
        VehicleType::Ship => String::from_str("Ship"),
        VehicleType::Unknown => String::from_str("Unknown"),
    }
}

/// The mode for a poll of the game: `None` when the game did not answer, else
/// the kind of vehicle and whether the indicators were valid. Ships get only
/// HUD data; other vehicles get full telemetry while the indicators are valid.
pub open spec fn mode_spec(state: Option<(VehicleType, bool)>) -> Seq<char> {
    match state {
        None => "Disconnected"@,
        Some((vt, valid)) => if vt == VehicleType::Ship {
            "HudOnly"@
        } else if valid {
            "FullTelemetry"@
        } else {
            "Disconnected"@
        },
    }
}

/// What the interface lists as available for a poll of the game.
pub open spec fn available_spec(state: Option<(VehicleType, bool)>) -> Seq<Seq<char>> {
    match state {
        None => Seq::empty(),
        Some((vt, _)) => if vt == VehicleType::Ship {
            seq![
                "Combat events (kills, hits)"@,
                "Damage events (fire, flooding)"@,
                "Achievements"@,
                "Map position"@,
            ]
        } else {
            seq![
                "Speed & altitude"@,
                "Engine telemetry"@,
                "Fuel & ammo"@,
                "Damage state"@,
                "All combat events"@,
            ]
        },
    }
}

/// The vehicle mode shown for a poll of the game: `None` when the game did not
/// answer, else the kind of vehicle and whether the indicators were valid.
pub fn vehicle_mode_info(state: Option<(VehicleType, bool)>) -> (r: VehicleModeInfo)
    ensures
        r.vehicle_type@ == match state {
            None => "Unknown"@,
            Some((vt, _)) => vehicle_type_name_spec(vt),
        },
        r.mode@ == mode_spec(state),
        r.available_data.deep_view() == available_spec(state),
{
    match state {
        None => {
            let r = VehicleModeInfo {
                vehicle_type: String::from_str("Unknown"),
                mode: String::from_str("Disconnected"),
                available_data: Vec::new(),
            };
            assert(r.available_data.deep_view() =~= Seq::<Seq<char>>::empty());
            r
        },
        Some((vt, valid)) => {
            let is_ship = vt == VehicleType::Ship;
            let mode = if is_ship {
                String::from_str("HudOnly")
            } else if valid {
                String::from_str("FullTelemetry")
            } else {
                String::from_str("Disconnected")
            };
            let mut data: Vec<String> = Vec::new();
            if is_ship {
                data.push(String::from_str("Combat events (kills, hits)"));
                data.push(String::from_str("Damage events (fire, flooding)"));
                data.push(String::from_str("Achievements"));
                data.push(String::from_str("Map position"));
            } else {
                data.push(String::from_str("Speed & altitude"));
                data.push(String::from_str("Engine telemetry"));
                data.push(String::from_str("Fuel & ammo"));
                data.push(String::from_str("Damage state"));
                data.push(String::from_str("All combat events"));
            }
            assert(data.deep_view() =~= available_spec(state));
            VehicleModeInfo { vehicle_type: vehicle_type_name(vt), mode, available_data: data }
        },
    }
}

} // verus!
