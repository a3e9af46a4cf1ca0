use tailgunner::datamine::parser::{first_found_path, markers_present};
use tailgunner::datamine::vromfs::{choose_unpack_source, UnpackSource, VromfsError};
use tailgunner::datamine::parser::extract_identifier;
use tailgunner::datamine::wiki_scraper::{
    extract_gears, ground_speed_texts, max_speed_texts, speed_candidates, CharBlock,
};

#[test]
fn test_extract_identifier() {
    let path = "bf-109f-4.blkx";
    assert_eq!(extract_identifier(path), Some("bf-109f-4".to_string()));
}

#[test]
fn test_extract_gears() {
    assert_eq!(extract_gears("8 / 4"), Some((8, 4)));
    assert_eq!(extract_gears("Forward / Reverse: 8 / 4"), Some((8, 4)));
    assert_eq!(extract_gears("8 forward, 4 reverse"), Some((8, 4)));
    assert_eq!(extract_gears("invalid"), None);
}

fn extract_speed(text: &str) -> Option<f32> {
    speed_candidates(text).iter().find_map(|s| s.parse::<f32>().ok())
}

#[test]
fn test_extract_speed() {
    assert_eq!(extract_speed("68 km/h"), Some(68.0));
    assert_eq!(extract_speed("68 km/h (AB / RB / SB)"), Some(68.0));
    assert_eq!(extract_speed("68 / 72 / 68 km/h"), Some(68.0));
    assert_eq!(extract_speed("10 km/h"), Some(10.0));
    assert_eq!(extract_speed("invalid"), None);
}

#[test]
fn speed_candidate_texts() {
    assert_eq!(speed_candidates("68 / 72 / 68 km/h"), vec!["68", "72", "68"]);
    assert_eq!(speed_candidates("68 km/h (AB / RB / SB)"), vec!["68"]);
    assert_eq!(speed_candidates(" 1,200 km/h"), vec!["1200"]);
    assert_eq!(speed_candidates("invalid"), vec!["invalid"]);
    assert_eq!(speed_candidates("a//b"), vec!["a", "", "b"]);
    assert_eq!(speed_candidates(""), vec![""]);
}

#[test]
fn installation_markers_need_both() {
    assert!(markers_present(true, true));
    assert!(!markers_present(true, false));
    assert!(!markers_present(false, true));
    assert!(!markers_present(false, false));
}

#[test]
fn first_found_path_takes_the_first_yes() {
    let c: Vec<String> = ["a", "b", "c"].iter().map(|s| s.to_string()).collect();
    assert_eq!(first_found_path(&c, &vec![false, true, true]), Some("b".to_string()));
    assert_eq!(first_found_path(&c, &vec![true, true, true]), Some("a".to_string()));
    assert_eq!(first_found_path(&c, &vec![false, false, false]), None);
}

#[test]
fn unpack_source_by_disk_answers() {
    let s = |x: &str| Some(x.to_string());
    let found = |r: Result<UnpackSource, VromfsError>| match r {
        Ok(UnpackSource::Found(d)) => format!("found {}", d),
        Ok(UnpackSource::Unpack(d)) => format!("unpack {}", d),
        Err(e) => format!("{:?}", e),
    };
    assert_eq!(found(choose_unpack_source(false, s("G"), s("n"), true, true, true, true, true, "C".into())), "NotFound");
    assert_eq!(found(choose_unpack_source(true, None, s("n"), true, true, true, true, true, "C".into())), "NoParent");
    assert_eq!(found(choose_unpack_source(true, s("G"), None, true, true, true, true, true, "C".into())), "InvalidName");
    assert_eq!(found(choose_unpack_source(true, s("G"), s("n"), true, true, false, true, true, "C".into())), "found G");
    assert_eq!(found(choose_unpack_source(true, s("G"), s("n"), true, false, true, false, false, "C".into())), "found G");
    assert_eq!(found(choose_unpack_source(true, s("G"), s("n"), true, false, false, true, true, "C".into())), "found C");
    assert_eq!(found(choose_unpack_source(true, s("G"), s("n"), false, false, false, true, false, "C".into())), "unpack C");
}

#[test]
fn registry_keys_in_order() {
    let k = tailgunner::datamine::registry_subkeys();
    assert_eq!(k.len(), 4);
    assert_eq!(k[0], "SOFTWARE\\Gaijin\\War Thunder");
    assert_eq!(k[3], "SOFTWARE\\WOW6432Node\\Microsoft\\Windows\\CurrentVersion\\Uninstall\\War Thunder");
}

#[test]
fn at_most_eight_sends_per_second() {
    let mut r = tailgunner::rate_limiter::RateLimiter::new();
    let mut sent = 0;
    // Offer a command every millisecond for one second.
    for ms in 0..1_000u64 {
        if r.try_send_at(ms * 1_000_000) {
            sent += 1;
        }
    }
    assert_eq!(sent, 8);
}

const SPEED_PAGE: &str = r#"<html><body>
<div class="game-unit_chars-block">
  <div class="game-unit_chars-header">Weight</div>
  <div class="game-unit_chars-subline"><span>Forward</span> <span class="game-unit_chars-value"><span class="show-char-rb">30</span></span></div>
</div>
<div class="game-unit_chars-block">
  <div class="game-unit_chars-header"> Max speed </div>
  <div class="game-unit_chars-subline"><span>Forward</span> <span class="game-unit_chars-value"><span class="show-char-ab">72</span> <span class="show-char-rb"> 65 </span></span></div>
  <div class="game-unit_chars-subline"><span>Backward</span> <span class="game-unit_chars-value"><span class="show-char-rb">12</span></span></div>
  <div class="game-unit_chars-subline"><span>Turn</span> <span class="game-unit_chars-value"><span class="show-char-rb">40</span></span></div>
</div>
</body></html>"#;

#[test]
fn wiki_page_speed_texts() {
    let (forward, backward) = ground_speed_texts(SPEED_PAGE);
    assert_eq!(forward, vec!["65".to_string()]);
    assert_eq!(backward, vec!["12".to_string()]);
}

#[test]
fn wiki_page_without_blocks_has_no_speeds() {
    let (forward, backward) = ground_speed_texts("<html><body><p>Forward 65</p></body></html>");
    assert!(forward.is_empty());
    assert!(backward.is_empty());
}

fn line(text: &str, rb: Option<&str>) -> (String, Option<String>) {
    (text.to_string(), rb.map(|s| s.to_string()))
}

#[test]
fn max_speed_lines_in_page_order() {
    let blocks = vec![
        CharBlock { header: None, lines: vec![line("Forward", Some("1"))] },
        CharBlock { header: Some("Max speed".to_string()), lines: vec![
            line("  FORWARD  (km/h)", Some(" 60 ")),
            line("Backward", None),
            line("backward", Some("n/a")),
        ] },
        CharBlock { header: Some("Armour".to_string()), lines: vec![line("Forward", Some("9"))] },
        CharBlock { header: Some(" Max speed\n".to_string()), lines: vec![
            line("Forward", Some("70")),
            line("", Some("5")),
        ] },
    ];
    let (forward, backward) = max_speed_texts(&blocks);
    assert_eq!(forward, vec!["60".to_string(), "70".to_string()]);
    assert_eq!(backward, vec!["n/a".to_string()]);
}
