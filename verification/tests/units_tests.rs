use std::path::Path;
use tailgunner::datamine::aircraft::{aircraft_class, aircraft_display_name};
use tailgunner::datamine::ground::{caliber_text, crew_count, gear_counts, ground_class, GearRatio};
use tailgunner::datamine::naval::{compartment_rule, is_ship_file, ship_class, DamageSection};
use tailgunner::datamine::parser::{first_found, is_blk_file, models_dir_candidates, unit_display_name, UnitKind};
use tailgunner::datamine::wiki_scraper::fill_missing;

#[test]
fn aircraft_class_is_prefix_before_underscore() {
    assert_eq!(aircraft_class("f-14a_early"), "f-14a");
    assert_eq!(aircraft_class("bf-109f-4"), "bf-109f-4");
    assert_eq!(aircraft_class("_x"), "");
}

#[test]
fn aircraft_display_name_spaces_separators() {
    assert_eq!(aircraft_display_name("bf-109f-4"), "bf 109f 4");
    assert_eq!(aircraft_display_name("f-14a_early"), "f 14a early");
}

#[test]
fn unit_display_name_spaces_underscores_only() {
    assert_eq!(unit_display_name("t_34_1941"), "t 34 1941");
    assert_eq!(unit_display_name("m-60"), "m-60");
}

#[test]
fn first_found_takes_first_present() {
    assert_eq!(first_found(&vec![None, Some(2.5f64), Some(3.0)]), Some(2.5));
    assert_eq!(first_found::<f64>(&vec![None, None]), None);
    assert_eq!(first_found::<f64>(&vec![]), None);
}

#[test]
fn blk_extension() {
    assert!(is_blk_file("a.blk"));
    assert!(is_blk_file("a.b.blk"));
    assert!(!is_blk_file("a.blkx"));
    assert!(!is_blk_file(".blk"));
    assert!(!is_blk_file("blk"));
    assert!(!is_blk_file("a.blk.json"));
}

#[test]
fn model_folders_in_order() {
    let c = models_dir_candidates("game", UnitKind::Aircraft);
    let first = Path::new("game").join("gamedata").join("flightmodels").join("fm");
    let second = Path::new("game").join("aces.vromfs.bin_u").join("gamedata").join("flightmodels").join("fm");
    assert_eq!(c, vec![first.to_string_lossy().into_owned(), second.to_string_lossy().into_owned()]);
    let s = models_dir_candidates("game", UnitKind::Ship);
    assert_eq!(s[0], Path::new("game").join("gamedata").join("units").join("ships").to_string_lossy());
    let g = models_dir_candidates("game", UnitKind::Ground);
    assert_eq!(g[0], Path::new("game").join("gamedata").join("units").join("tankmodels").to_string_lossy());
}

#[test]
fn crew_count_skips_setting() {
    let keys: Vec<String> = ["commander", "driver", "changeTimeMult", "gunner"].iter().map(|s| s.to_string()).collect();
    assert_eq!(crew_count(&keys), 3);
    assert_eq!(crew_count(&vec![]), 0);
}

#[test]
fn gear_counts_by_sign() {
    let (r, n, f) = (GearRatio::Reverse, GearRatio::Neutral, GearRatio::Forward);
    assert_eq!(gear_counts(&vec![r, n, f, f, f]), (Some(3), Some(1)));
    assert_eq!(gear_counts(&vec![f]), (Some(1), Some(0)));
    assert_eq!(gear_counts(&vec![n, n]), (None, None));
    assert_eq!(gear_counts(&vec![]), (None, None));
}

#[test]
fn caliber_from_weapon_path() {
    assert_eq!(caliber_text("gameData/Weapons/groundModels_weapons/120mm_kan_Strv_122_user_cannon.blk"), "120");
    assert_eq!(caliber_text("75mm_kwk40.blk"), "75");
    assert_eq!(caliber_text("mmm_x"), "m");
    assert_eq!(caliber_text("a/b/"), "");
}

#[test]
fn ground_class_default() {
    assert_eq!(ground_class(None), "mediumVehicle");
    assert_eq!(ground_class(Some("lightVehicle")), "lightVehicle");
}

#[test]
fn non_ship_files_are_skipped() {
    assert!(!is_ship_file("fishboat_a.blk"));
    assert!(!is_ship_file("cargo"));
    assert!(!is_ship_file("debris_1.blk"));
    assert!(!is_ship_file("float_mine.blk"));
    assert!(!is_ship_file("buoy_red.blk"));
    assert!(is_ship_file("floater.blk"));
    assert!(is_ship_file("us_destroyer_fletcher.blk"));
}

#[test]
fn compartments_by_section() {
    assert_eq!(compartment_rule(DamageSection::CrewCompartments, "room1_dm"), Some(false));
    assert_eq!(compartment_rule(DamageSection::CrewCompartments, "room1"), None);
    assert_eq!(compartment_rule(DamageSection::Engines, "engine_room_dm"), Some(true));
    assert_eq!(compartment_rule(DamageSection::Engines, "engine_dm_x"), None);
    assert_eq!(compartment_rule(DamageSection::AmmoStorages, "main_ammunition_1"), Some(true));
    assert_eq!(compartment_rule(DamageSection::AmmoStorages, "shells_dm"), None);
}

#[test]
fn ship_class_fallbacks() {
    assert_eq!(ship_class(Some("destroyer"), Some("x")), "destroyer");
    assert_eq!(ship_class(None, Some("cruiser")), "cruiser");
    assert_eq!(ship_class(None, None), "unknown");
}

#[test]
fn wiki_fills_only_missing_fields() {
    let mut a: Option<f32> = None;
    assert!(fill_missing(&mut a, Some(55.0)));
    assert_eq!(a, Some(55.0));
    let mut b: Option<f32> = Some(40.0);
    assert!(!fill_missing(&mut b, Some(55.0)));
    assert_eq!(b, Some(40.0));
    let mut c: Option<u8> = None;
    assert!(!fill_missing(&mut c, None));
    assert_eq!(c, None);
}
