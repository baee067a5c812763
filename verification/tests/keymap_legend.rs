use editor_core::app::Dispatch;
use editor_core::components::keymap_legend::{
    Keymap, KeymapLegendBody, KeymapLegendConfig, KeymapLegendSection, Keymaps,
};
use editor_core::key_event_parser::parse_key_event;

fn keymap(key: &'static str, description: &str) -> Keymap {
    Keymap::new(key, description.to_string(), Dispatch::RequestSave)
}

#[test]
fn test_display_1() {
    let keymaps = Keymaps(
        [
            keymap("a", "Aloha"),
            keymap("b", "Bomb"),
            keymap("c", "Caterpillar"),
            keymap("d", "D"),
            keymap("e", "Elephant"),
            keymap("space", "Gogagg"),
        ]
        .to_vec(),
    );
    let width = 53;
    let actual = keymaps.display(2, width).to_string();
    let expected = "
  a → Aloha                b → Bomb
  c → Caterpillar          d → D
  e → Elephant         space → Gogagg"
        .trim_matches('\n');
    assert_eq!(actual, expected);
}

#[test]
fn test_display_2() {
    let keymaps = Keymaps(
        [
            keymap("a", "Aloha"),
            keymap("b", "Bomb"),
            keymap("space", "Gogagg"),
            keymap("c", "Caterpillar"),
        ]
        .to_vec(),
    );
    let width = 53;
    let actual = keymaps.display(2, width).to_string();
    let expected = "
      a → Aloha                b → Bomb
  space → Gogagg               c → Caterpillar"
        .trim_matches('\n');
    assert_eq!(actual, expected);
}

#[test]
fn a_narrow_window_shows_one_keymap_in_a_row() {
    let keymaps = Keymaps::new(vec![keymap("a", "Aloha"), keymap("space", "Go")]);
    assert_eq!(keymaps.display(0, 0), "    a → Aloha\nspace → Go");
    assert_eq!(keymaps.display(3, 1), "       a → Aloha\n   space → Go");
    assert_eq!(Keymaps::new(vec![]).display(2, 80), "");
    assert_eq!(
        Keymaps::new(vec![keymap("a", "Aloha")]).display(1, 80),
        " a → Aloha"
    );
}

#[test]
fn a_legend_shows_its_sections_under_their_titles() {
    let first = KeymapLegendSection {
        title: "Move".to_string(),
        keymaps: Keymaps::new(vec![keymap("h", "Left"), keymap("l", "Right")]),
    };
    let second = KeymapLegendSection {
        title: "Edit".to_string(),
        keymaps: Keymaps::new(vec![keymap("d", "Delete")]),
    };
    assert_eq!(first.display(80), "Move:\n  h → Left       l → Right");
    let config = KeymapLegendConfig {
        title: "Keys".to_string(),
        body: KeymapLegendBody::MultipleSections {
            sections: vec![first.clone(), second],
        },
        owner_id: 7,
    };
    assert_eq!(
        config.display(80),
        "Move:\n  h → Left       l → Right\n\nEdit:\n  d → Delete"
    );
    let keys: Vec<&str> = config.keymaps().iter().map(|k| k.key.as_str()).collect();
    assert_eq!(keys, ["h", "l", "d"]);
    let single = KeymapLegendBody::SingleSection {
        keymaps: first.keymaps.clone(),
    };
    assert_eq!(single.display(80), "h → Left       l → Right");
    assert_eq!(single.keymaps().len(), 2);
}

#[test]
fn a_keymap_is_found_by_its_key() {
    let keymaps = Keymaps::new(vec![
        keymap("a", "Aloha"),
        keymap("ctrl-b", "Bomb"),
        keymap("a", "Again"),
    ]);
    let a = parse_key_event("a").unwrap();
    let b = parse_key_event("ctrl-b").unwrap();
    let c = parse_key_event("c").unwrap();
    assert_eq!(keymaps.get(&a).unwrap().description, "Aloha");
    assert_eq!(keymaps.get(&b).unwrap().description, "Bomb");
    assert_eq!(keymaps.get(&b).unwrap().dispatch(), &Dispatch::RequestSave);
    assert!(keymaps.get(&c).is_none());
    assert!(Keymap::named("nokey", String::new(), Dispatch::RequestSave).is_none());
    let named = Keymap::named("esc", "Leave".to_string(), Dispatch::RequestSave).unwrap();
    assert_eq!(named.event, parse_key_event("esc").unwrap());
}
