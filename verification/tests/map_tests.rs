use tailgunner::map_database::MapDatabase;
use tailgunner::map_detection::MapIdentity;
use tailgunner::map_module::{
    find_player, grid_cell_to_string, grid_reference, select_objects, MapObjectInfo, MapSelection,
};

fn obj(t: &str, color: &str, icon: &str) -> MapObjectInfo {
    MapObjectInfo { obj_type: t.to_string(), color: color.to_string(), icon: icon.to_string() }
}

#[test]
fn test_is_player() {
    let o = obj("ground_model", "#faC81E", "Player");
    assert!(o.is_player());
}

#[test]
fn test_is_friendly() {
    let o = obj("ground_model", "#174DFF", "Ship");
    assert!(o.is_friendly());
    assert!(o.is_ship());
}

#[test]
fn enemies_and_kinds() {
    let o = obj("aircraft", "#fa0c00", "none");
    assert!(o.is_enemy());
    assert!(!o.is_friendly());
    assert!(o.is_aircraft());
    assert!(!o.is_tank());
    assert!(obj("ground_model", "#fff", "Tank").is_tank());
}

#[test]
fn selections_and_the_player() {
    let objs = vec![
        obj("ground_model", "#174DFF", "Ship"),
        obj("ground_model", "#faC81E", "Player"),
        obj("capture_zone", "#FFFFFF", "capture_zone"),
        obj("ship", "#fa0C00", "none"),
        obj("ground_model", "#174DFF", "Tank"),
    ];
    assert_eq!(find_player(&objs), Some(1));
    assert_eq!(select_objects(&objs, MapSelection::FriendlyShips), vec![0]);
    assert_eq!(select_objects(&objs, MapSelection::EnemyShips), vec![3]);
    assert_eq!(select_objects(&objs, MapSelection::CaptureZones), vec![2]);
    let no_player = vec![obj("capture_zone", "#FFFFFF", "capture_zone")];
    assert_eq!(find_player(&no_player), None);
}

#[test]
fn grid_text() {
    assert_eq!(grid_cell_to_string(4, 0), "A5");
    assert_eq!(grid_cell_to_string(-3, 25), "Z-2");
    assert_eq!(grid_cell_to_string(9, 26), "?10");
    assert_eq!(grid_reference(9, 15), "P-10");
    assert_eq!(grid_reference(0, -1), "?-1-1");
    assert_eq!(grid_reference(120, 2), "C-121");
}

#[test]
fn map_identity_holds_its_names() {
    let m = MapIdentity {
        name: "european_province".to_string(),
        localized_name: "European Province".to_string(),
        game_mode: "ground".to_string(),
    };
    assert_eq!(m.game_mode, "ground");
}

#[test]
fn test_attica_grid() {
    let db = MapDatabase::new();
    let attica = db.get_map("attica").unwrap();
    assert_eq!(attica.ground_grid_step, Some(225));
}

#[test]
fn test_european_province() {
    let db = MapDatabase::new();
    let ep = db.get_map("european_province").unwrap();
    assert_eq!(ep.ground_grid_step, Some(200));
}

#[test]
fn map_database_lookups() {
    let db = MapDatabase::new();
    assert_eq!(db.maps().len(), 12);
    assert!(db.get_map("unknown_map").is_none());
    let berlin = db.get_map("berlin_air").unwrap();
    assert_eq!(berlin.localized_name, "Berlin (Air)");
    assert_eq!(berlin.map_size, (131072, 131072));
    assert_eq!(berlin.game_modes, vec!["air".to_string()]);
}

#[test]
fn grid_step_by_vehicle_kind() {
    let db = MapDatabase::new();
    assert_eq!(db.get_grid_step("attica", "Tank"), Some(225));
    assert_eq!(db.get_grid_step("attica", "ground"), Some(225));
    assert_eq!(db.get_grid_step("attica", "aircraft"), None);
    assert_eq!(db.get_grid_step("berlin_air", "HELICOPTER"), Some(13100));
    assert_eq!(db.get_grid_step("berlin_air", "other"), Some(13100));
    assert_eq!(db.get_grid_step("bay_of_naples", "naval"), Some(800));
    assert_eq!(db.get_grid_step("bay_of_naples", "ship"), Some(800));
    assert_eq!(db.get_grid_step("bay_of_naples", "tank"), None);
    assert_eq!(db.get_grid_step("bay_of_naples", ""), Some(800));
    assert_eq!(db.get_grid_step("nowhere", "tank"), None);
}

#[test]
fn every_known_map_has_a_step_for_its_mode() {
    let db = MapDatabase::new();
    for m in db.maps() {
        assert!(db.get_grid_step(&m.name, &m.game_modes[0]).is_some(), "{}", m.name);
    }
}

#[test]
fn known_map_names_are_distinct() {
    let db = MapDatabase::new();
    let maps = db.maps();
    for i in 0..maps.len() {
        for j in (i + 1)..maps.len() {
            assert_ne!(maps[i].name, maps[j].name);
        }
    }
}
