use purpy::quads::{batch_corners, MAX_ENTRIES};
use purpy::rendercontext::SpriteBatch;
use purpy::geometry::{Pixels, Point, Rect, Subpixels};
use purpy::level::{objects_fit, Level};
use purpy::menu::Menu;
use purpy::platform::{bagel_shake, Bagel, Button, Conveyor, Platform, PlatformType, Spring};
use purpy::player::Player;
use purpy::mapfile::{DataXml, LayerXml, ObjectGroupXml, ObjectXml, TileMapField, TileMapXml, TileSetSourceXml};
use purpy::properties::{PropertiesXml, PropertyMap, PropertyXml};
use purpy::rendercontext::{RenderContext, RenderLayer, SpriteBatchEntry};
use purpy::sprite::{Animation, Sprite, SpriteSheet};
use purpy::star::{star_shake, Star};
use purpy::switchstate::SwitchState;
use purpy::tilemap::{ButtonType, TileIndex, TileMap, TileSetList};
use purpy::tileset::{LocalTileIndex, TileProperties, TileSet};

fn sprite(id: usize) -> Sprite {
    Sprite { id, area: Rect { x: Pixels(0), y: Pixels(0), w: Pixels(64), h: Pixels(64) } }
}

fn tileset() -> TileSet {
    let alt = TileProperties {
        solid: false,
        oneway: None,
        alternate: Some(LocalTileIndex(3)),
        hitbox_left: Pixels(0),
        hitbox_right: Pixels(0),
        hitbox_top: Pixels(0),
        hitbox_bottom: Pixels(0),
        slope: false,
        deadly: false,
        switch: None,
        condition: Some("red".to_string()),
        raw: PropertyMap::new(),
    };
    TileSet {
        firstgid: TileIndex(1),
        sprite: sprite(0),
        tilewidth: Pixels(16),
        tileheight: Pixels(16),
        columns: 4,
        animations: vec![None, None, None, None, None, Some(Animation {
            sheet: SpriteSheet { sprite: sprite(9), sprite_width: Pixels(16), sprite_height: Pixels(16) },
            frames: 4,
            frame_duration: 10,
        })],
        properties: vec![None, None, Some(alt)],
        slopes: vec![],
    }
}

fn map(data: &str) -> TileMap {
    map_with(data, vec![])
}

fn map_with(data: &str, objects: Vec<ObjectXml>) -> TileMap {
    let layer = LayerXml {
        id: 1,
        name: "l".to_string(),
        width: 3,
        height: 2,
        data: DataXml { encoding: "csv".to_string(), data: data.to_string() },
        properties: Some(PropertiesXml {
            property: vec![PropertyXml { name: "player".to_string(), typ: "bool".to_string(), value: "true".to_string() }],
        }),
    };
    let xml = TileMapXml {
        width: 3,
        height: 2,
        tilewidth: 16,
        tileheight: 16,
        backgroundcolor: "#000000".to_string(),
        fields: vec![
            TileMapField::TileSet(TileSetSourceXml { source: "t.tsx".to_string(), firstgid: 1 }),
            TileMapField::Layer(layer),
            TileMapField::ObjectGroup(ObjectGroupXml { object: objects }),
        ],
        properties: None,
    };
    let mut sets = TileSetList::new();
    sets.add(tileset());
    TileMap::from_xml(xml, sets, vec![]).unwrap()
}

fn sprite_draws(entries: &[SpriteBatchEntry]) -> Vec<(usize, i32, i32, i32, i32)> {
    entries
        .iter()
        .filter_map(|e| match e {
            SpriteBatchEntry::Sprite { sprite, source, destination, .. } => {
                Some((sprite.id, source.x.0, source.y.0, destination.x.0, destination.y.0))
            }
            _ => None,
        })
        .collect()
}

#[test]
fn draws_visible_tiles_with_alternates_and_animations() {
    let m = map("0,1,3\n6,2,0");
    let mut ctx = RenderContext::new(320, 180, 25);
    let dest = Rect { x: Subpixels(0), y: Subpixels(0), w: Subpixels(320 * 32), h: Subpixels(180 * 32) };
    let offset = Point { x: Subpixels(0), y: Subpixels(0) };
    m.draw_background(&mut ctx, RenderLayer::Player, dest, offset, &SwitchState::new());
    let entries = &ctx.player_batch.entries;
    assert!(matches!(entries[0], SpriteBatchEntry::FillRect { .. }));
    // gid 1 (local 0) at column 1; gid 3 (local 2) fails its condition and
    // shows local 3; gid 6 (local 5) is animated, frame 25 / 10 % 4 = 2;
    // gid 2 (local 1) at column 1 of row 1.
    assert_eq!(
        sprite_draws(entries),
        vec![(0, 0, 0, 16, 0), (0, 48, 0, 32, 0), (9, 32, 0, 0, 16), (0, 16, 0, 16, 16)]
    );
    let mut fg = RenderContext::new(320, 180, 0);
    m.draw_foreground(&mut fg, RenderLayer::Player, dest, offset, &SwitchState::new());
    assert!(fg.player_batch.entries.is_empty());
}

#[test]
fn cuts_tiles_at_the_screen_edge() {
    let m = map("1,0,0\n0,0,0");
    let mut ctx = RenderContext::new(320, 180, 0);
    let dest = Rect { x: Subpixels(0), y: Subpixels(0), w: Subpixels(320 * 32), h: Subpixels(180 * 32) };
    let offset = Point { x: Subpixels(-4 * 32), y: Subpixels(0) };
    m.draw_background(&mut ctx, RenderLayer::Hud, dest, offset, &SwitchState::new());
    match &ctx.hud_batch.entries[1] {
        SpriteBatchEntry::Sprite { source, destination, .. } => {
            assert_eq!((source.x.0, source.w.0), (4, 12));
            assert_eq!((destination.x.0, destination.w.0), (0, 12));
        }
        _ => panic!("expected a tile"),
    }
    assert!(m.get_animation(TileIndex(6)).is_some());
    assert!(m.get_animation(TileIndex(1)).is_none());
}

#[test]
fn stars_shake_within_bounds() {
    assert_eq!(star_shake(0), -1);
    assert_eq!(star_shake(40), 1);
    assert_eq!(star_shake(-40), -3);
    for x in [i32::MIN, -1, 7, 123456, i32::MAX] {
        let s = star_shake(x);
        assert!((-3..=1).contains(&s));
    }
    let m = map("0,0,0\n0,0,0");
    let star = Star { area: Rect { x: Subpixels(320), y: Subpixels(640), w: Subpixels(512), h: Subpixels(512) }, tile_gid: TileIndex(2) };
    let mut ctx = RenderContext::new(320, 180, 0);
    star.draw_at(&m, &mut ctx, RenderLayer::Player, Point { x: Subpixels(0), y: Subpixels(0) }, (1, -3));
    match &ctx.player_batch.entries[0] {
        SpriteBatchEntry::Sprite { source, destination, .. } => {
            assert_eq!(source.x.0, 16);
            assert_eq!((destination.x.0, destination.y.0), (11, 17));
        }
        _ => panic!("expected the star"),
    }
    assert_eq!(ctx.lights.len(), 1);
    assert_eq!(ctx.lights[0].position.x.0, 320 + 32 + 3 * 32);
    assert!(objects_fit(&m));
}

fn platform(subtype: PlatformType, gid: usize, occupied: bool) -> Platform {
    Platform {
        id: 1,
        tile_gid: TileIndex(gid),
        position: Rect { x: Subpixels(320), y: Subpixels(640), w: Subpixels(256), h: Subpixels(256) },
        delta: Point { x: Subpixels(0), y: Subpixels(0) },
        solid: true,
        occupied,
        subtype,
    }
}

fn sheet(id: usize) -> SpriteSheet {
    SpriteSheet { sprite: sprite(id), sprite_width: Pixels(8), sprite_height: Pixels(8) }
}

#[test]
fn platforms_draw_their_frames() {
    let m = map("0,0,0\n0,0,0");
    let offset = Point { x: Subpixels(32), y: Subpixels(-64) };
    let mut ctx = RenderContext::new(320, 180, 25);
    // A spring two pixels down shows frame 2 of its sheet.
    let spring = Spring { up: false, pos: Subpixels(64), stall_counter: 0, launch: false, sprite: sheet(5) };
    platform(PlatformType::Spring(spring), 1, true).draw(&m, &mut ctx, RenderLayer::Player, offset);
    // A button at level 5 shows frame 5 / 2 = 2, at its resting height.
    let button = Button {
        level: 5,
        original_y: Subpixels(600),
        clicked: true,
        button_type: ButtonType::Toggle,
        was_occupied: true,
        color: "red".to_string(),
        sprite: sheet(7),
    };
    platform(PlatformType::Button(button), 1, true).draw(&m, &mut ctx, RenderLayer::Player, offset);
    // A conveyor on an animated tile shows frame 25 / 10 % 4 = 2 of it.
    platform(PlatformType::Conveyor(Conveyor), 6, false).draw(&m, &mut ctx, RenderLayer::Player, offset);
    // A bagel nobody stands on is its tile, the size of a map tile.
    let bagel = Bagel { original_y: Subpixels(640), falling: false, remaining: 10 };
    platform(PlatformType::Bagel(bagel), 2, false).draw(&m, &mut ctx, RenderLayer::Player, offset);
    assert_eq!(
        sprite_draws(&ctx.player_batch.entries),
        vec![(5, 16, 0, 11, 18), (7, 16, 0, 11, 16), (9, 32, 0, 11, 18), (0, 16, 0, 11, 18)]
    );
    match &ctx.player_batch.entries[3] {
        SpriteBatchEntry::Sprite { destination, .. } => assert_eq!((destination.w.0, destination.h.0), (16, 16)),
        _ => panic!("expected the bagel"),
    }
}

#[test]
fn bagels_shake_under_the_player() {
    assert_eq!(bagel_shake(0), -1);
    assert_eq!(bagel_shake(4), 0);
    assert_eq!(bagel_shake(255), -1);
    assert_eq!(bagel_shake(254), 1);
    let m = map("0,0,0\n0,0,0");
    let bagel = Bagel { original_y: Subpixels(640), falling: false, remaining: 10 };
    let p = platform(PlatformType::Bagel(bagel), 2, true);
    let mut ctx = RenderContext::new(320, 180, 0);
    p.draw_at(&m, &mut ctx, RenderLayer::Player, Point { x: Subpixels(0), y: Subpixels(0) }, (1, -1));
    match &ctx.player_batch.entries[0] {
        SpriteBatchEntry::Sprite { destination, .. } => {
            // 321 and 639 subpixels are 10 and 19 whole pixels.
            assert_eq!((destination.x.0, destination.y.0), (10, 19));
        }
        _ => panic!("expected the bagel"),
    }
}

#[test]
fn a_level_draws_its_map_stars_and_bar() {
    let m = map("1,0,0\n0,0,0");
    let start = ObjectXml {
        id: 1,
        x: 0,
        y: 0,
        width: Some(8),
        height: Some(8),
        gid: None,
        properties: Some(PropertiesXml {
            property: vec![PropertyXml { name: "uibutton".to_string(), typ: "string".to_string(), value: "start".to_string() }],
        }),
    };
    let menu = Menu::new_menu(map_with("0,0,0\n0,0,0", vec![start]), sprite(1), sprite(2));
    let hitbox = Rect { x: Subpixels(0), y: Subpixels(0), w: Subpixels(256), h: Subpixels(256) };
    let mut level = Level::new("one".to_string(), "one.tmx".to_string(), m, Player::new(hitbox), menu, None, &vec![]).unwrap();
    level.stars.push(Star { area: Rect { x: Subpixels(320), y: Subpixels(0), w: Subpixels(512), h: Subpixels(512) }, tile_gid: TileIndex(2) });
    let mut ctx = RenderContext::new(320, 180, 0);
    level.draw(&mut ctx);
    let entries = &ctx.player_batch.entries;
    // The background, the tile of gid 1, then the star.
    assert!(matches!(entries[0], SpriteBatchEntry::FillRect { .. }));
    assert_eq!(entries.len(), 3);
    assert!(level.previous_map_offset.is_some());
    // The bar with the level's name starts above the screen.
    assert!(ctx.hud_batch.entries.is_empty());
    assert_eq!(ctx.lights.len(), 2);
}

#[test]
fn a_paused_level_draws_its_pause_menu() {
    let start = ObjectXml {
        id: 1,
        x: 0,
        y: 0,
        width: Some(8),
        height: Some(8),
        gid: None,
        properties: Some(PropertiesXml {
            property: vec![PropertyXml { name: "uibutton".to_string(), typ: "string".to_string(), value: "start".to_string() }],
        }),
    };
    let menu = Menu::new_menu(map_with("0,0,0\n0,0,0", vec![start]), sprite(1), sprite(2));
    let hitbox = Rect { x: Subpixels(0), y: Subpixels(0), w: Subpixels(256), h: Subpixels(256) };
    let mut level = Level::new("one".to_string(), "one.tmx".to_string(), map("1,0,0\n0,0,0"), Player::new(hitbox), menu, None, &vec![]).unwrap();
    level.paused = true;
    let mut ctx = RenderContext::new(320, 180, 0);
    level.draw(&mut ctx);
    // The world ends with the menu's purple fill; the menu's cursor is the
    // last thing on the display.
    match ctx.player_batch.entries.last() {
        Some(SpriteBatchEntry::FillRect { color, .. }) => assert_eq!((color.r, color.g, color.b), (0x33, 0, 0x33)),
        _ => panic!("expected the menu's fill"),
    }
    match ctx.hud_batch.entries.last() {
        Some(SpriteBatchEntry::Sprite { sprite, .. }) => assert_eq!(sprite.id, 1),
        _ => panic!("expected the cursor"),
    }
}

#[test]
fn batches_become_two_triangles_per_entry() {
    let sheet = Sprite { id: 3, area: Rect { x: Pixels(100), y: Pixels(200), w: Pixels(64), h: Pixels(64) } };
    let mut batch = SpriteBatch::new();
    batch.entries.push(SpriteBatchEntry::Sprite {
        sprite: sheet,
        source: Rect { x: Pixels(8), y: Pixels(0), w: Pixels(8), h: Pixels(16) },
        destination: Rect { x: Pixels(10), y: Pixels(20), w: Pixels(8), h: Pixels(16) },
        reversed: true,
    });
    let corners = batch_corners(&batch);
    assert_eq!(corners.len(), 6);
    // Top left on the screen takes the atlas's right column: mirrored.
    assert_eq!((corners[0].x, corners[0].y, corners[0].u, corners[0].v), (10, 20, 116, 200));
    assert_eq!((corners[5].x, corners[5].y, corners[5].u, corners[5].v), (18, 36, 108, 216));
    let mut big = SpriteBatch::new();
    for _ in 0..MAX_ENTRIES + 5 {
        big.entries.push(SpriteBatchEntry::FillRect {
            destination: Rect { x: Pixels(0), y: Pixels(0), w: Pixels(1), h: Pixels(1) },
            color: purpy::utils::Color { r: 1, g: 2, b: 3, a: 4 },
        });
    }
    assert_eq!(batch_corners(&big).len(), MAX_ENTRIES * 6);
}
