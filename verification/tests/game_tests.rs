use starfarer::astroph::sky::Sky;
use starfarer::menus::{Escape, FpsCounter};
use starfarer::ships::compiled::enterprise;
use starfarer::ships::layout::{ship_layout, ShipLayout};
use starfarer::ships::loader::{model_bundle, part_file, ship_file, ModelBundle, PartFile, ShipFile};
use starfarer::ships::models::{draw_order, model_role, ModelRole};
use starfarer::ships::primitives::{MakeID, PartID};

#[test]
fn parts_belong_to_their_maker() {
    let make = MakeID { make: 4 };
    assert_eq!(make.part(3), PartID { make: 4, part: 3 });
    assert_eq!(MakeID::from(PartID { make: 7, part: 1 }), MakeID { make: 7 });
    assert_eq!(enterprise::make(), MakeID { make: enterprise::MAKE_NUMBER });
    assert_eq!(enterprise::kestrel(), PartID { make: 0, part: 0 });
    assert_eq!(enterprise::chair(), PartID { make: 0, part: 1 });
    assert_eq!(enterprise::solar(), PartID { make: 0, part: 6 });
}

#[test]
fn compiled_files_by_part() {
    assert_eq!(model_bundle(enterprise::kestrel()), Some(ModelBundle::Kestrel));
    assert_eq!(model_bundle(enterprise::chair()), Some(ModelBundle::EnterpriseAccessories));
    assert_eq!(model_bundle(PartID { make: 0, part: 40 }), Some(ModelBundle::EnterpriseAccessories));
    assert_eq!(model_bundle(PartID { make: 1, part: 0 }), None);
    assert_eq!(ship_file(enterprise::kestrel()), Some(ShipFile::Kestrel));
    assert_eq!(ship_file(enterprise::chair()), None);
    assert_eq!(part_file(enterprise::dish()), Some(PartFile::Dish));
    assert_eq!(part_file(enterprise::rcs()), Some(PartFile::Rcs));
    assert_eq!(part_file(enterprise::kestrel()), None);
    assert_eq!(part_file(PartID { make: 1, part: 2 }), None);
}

fn ship_bytes(info: u32, texture: u32, indices: u32, body: usize) -> Vec<u8> {
    let mut bytes = Vec::new();
    for word in [info, texture, indices].iter() {
        bytes.extend_from_slice(&word.to_le_bytes());
        bytes.extend_from_slice(&[0xAA, 0xBB, 0xCC, 0xDD]);
    }
    bytes.extend(std::iter::repeat(7u8).take(body));
    bytes
}

#[test]
fn ship_header_is_read_little_endian() {
    let bytes = ship_bytes(4, 2, 3, 18);
    assert_eq!(
        ship_layout(&bytes),
        Some(ShipLayout { info_size: 4, texture_size: 2, num_indices: 3, texture_start: 28, object_start: 30 })
    );
    let bytes = ship_bytes(0x0102, 0x0003_0000, 9, 0x0102 + 0x0003_0000);
    let layout = ship_layout(&bytes).unwrap();
    assert_eq!(layout.info_size, 258);
    assert_eq!(layout.texture_size, 196_608);
    assert_eq!(layout.object_start, 24 + 258 + 196_608);
}

#[test]
fn short_ship_files_are_refused() {
    assert_eq!(ship_layout(&[0u8; 23]), None);
    assert_eq!(ship_layout(&ship_bytes(4, 2, 3, 5)), None);
    assert_eq!(ship_layout(&ship_bytes(10, 0, 0, 9)), None);
    assert_eq!(ship_layout(&ship_bytes(0, 0, 0, 0)).map(|l| l.object_start), Some(24));
}

#[test]
fn model_roles_by_name() {
    assert_eq!(model_role("outside_hull"), ModelRole::Outside);
    assert_eq!(model_role("inside"), ModelRole::Inside);
    assert_eq!(model_role("transparent_glass"), ModelRole::Transparent);
    assert_eq!(model_role("out"), ModelRole::Other);
    assert_eq!(model_role("hull_outside"), ModelRole::Other);
    assert_eq!(model_role(""), ModelRole::Other);
}

#[test]
fn ship_models_drawn_inside_outside_then_transparent() {
    let (i, o, t, x) = (ModelRole::Inside, ModelRole::Outside, ModelRole::Transparent, ModelRole::Other);
    assert_eq!(draw_order(&[x, o, t, i, t]), Some(vec![3, 1, 2, 4]));
    assert_eq!(draw_order(&[i, o, i]), Some(vec![2, 1]));
    assert_eq!(draw_order(&[o, t]), None);
    assert_eq!(draw_order(&[i]), None);
    assert_eq!(draw_order(&[]), None);
}

#[test]
fn escape_opens_then_quits() {
    let mut menu = Escape::closed();
    assert!(!menu.is_open && !menu.quit);
    menu.press_escape();
    assert!(menu.is_open && !menu.quit);
    menu.press_escape();
    assert!(menu.is_open && menu.quit);
    let mut menu = Escape::closed();
    menu.press_button();
    assert!(!menu.is_open && menu.quit);
}

#[test]
fn fps_counter_shows_the_last_whole_second() {
    let mut counter = FpsCounter::new();
    counter.update(0);
    counter.update(0);
    counter.update(0);
    assert_eq!((counter.frames, counter.fps), (3, 0));
    counter.update(1);
    assert_eq!((counter.frames, counter.fps, counter.short_time), (0, 4, 1));
    counter.update(1);
    assert_eq!((counter.frames, counter.fps), (1, 4));
}

#[test]
fn sky_pixel_colors() {
    let _sky = Sky::new();
    assert_eq!(Sky::color_bytes(100, 50, 200), [100, 50, 155, 200]);
    assert_eq!(Sky::color_bytes(300, -5, 300), [255, 40, 0, 255]);
    assert_eq!(Sky::color_bytes(0, 0, -4), [0, 0, 255, 0]);
}
