use purpy::error::Error;
use purpy::geometry::{Pixels, Rect};
use purpy::mapfile::{
    DataXml, ImageLayerXml, ImageXml, LayerXml, ObjectGroupXml, ObjectXml, TileMapField, TileMapXml,
    TileSetSourceXml,
};
use purpy::properties::{PropertiesXml, PropertyMap, PropertyValue, PropertyXml};
use purpy::sprite::Sprite;
use purpy::tilemap::{Layer, MapObject, TileIndex, TileLayer, TileMap, TileSetList};
use purpy::tileset::{TileProperties, TileSet};
use purpy::utils::Color;

fn prop(name: &str, typ: &str, value: &str) -> PropertyXml {
    PropertyXml { name: name.to_string(), typ: typ.to_string(), value: value.to_string() }
}

fn layer(data: &str, width: u32, height: u32, player: bool) -> LayerXml {
    LayerXml {
        id: 1,
        name: "ground".to_string(),
        width,
        height,
        data: DataXml { encoding: "csv".to_string(), data: data.to_string() },
        properties: if player {
            Some(PropertiesXml { property: vec![prop("player", "bool", "true")] })
        } else {
            None
        },
    }
}

fn sprite() -> Sprite {
    Sprite { id: 0, area: Rect { x: Pixels(0), y: Pixels(0), w: Pixels(64), h: Pixels(64) } }
}

fn tileset(firstgid: usize) -> TileSet {
    let mut raw = PropertyMap::new();
    raw.insert("platform".to_string(), PropertyValue::Bool(true));
    raw.insert("speed".to_string(), PropertyValue::Int(5));
    let props = TileProperties {
        solid: true,
        oneway: None,
        alternate: None,
        hitbox_left: Pixels(0),
        hitbox_right: Pixels(0),
        hitbox_top: Pixels(0),
        hitbox_bottom: Pixels(0),
        slope: false,
        deadly: false,
        switch: None,
        condition: None,
        raw,
    };
    TileSet {
        firstgid: TileIndex(firstgid),
        sprite: sprite(),
        tilewidth: Pixels(16),
        tileheight: Pixels(16),
        columns: 4,
        animations: vec![],
        properties: vec![None, Some(props)],
        slopes: vec![],
    }
}

#[test]
fn reads_tile_layer_rows() {
    let l = TileLayer::from_xml(&layer("\n1,2,3\n  4,5,6 \n\n", 3, 2, true)).unwrap();
    assert_eq!(l.data.len(), 2);
    assert_eq!(l.data[0], vec![TileIndex(1), TileIndex(2), TileIndex(3)]);
    assert_eq!(l.data[1], vec![TileIndex(4), TileIndex(5), TileIndex(6)]);
    assert!(l.player);
    assert_eq!(l.get(1, 2), Some(&TileIndex(6)));
    assert_eq!(l.get(2, 0), None);
}

#[test]
fn tile_layer_errors() {
    assert_eq!(
        TileLayer::from_xml(&layer("1,2\n3", 2, 2, false)).err(),
        Some(Error::RowWidth { row_len: 1, width: 2 })
    );
    assert_eq!(
        TileLayer::from_xml(&layer("1,2\n3,4", 2, 3, false)).err(),
        Some(Error::LayerHeight { rows: 2, height: 3 })
    );
    assert_eq!(
        TileLayer::from_xml(&layer("1,x\n3,4", 2, 2, false)).err(),
        Some(Error::InvalidNumber("x".to_string()))
    );
}

fn object(gid: Option<u32>, props: Vec<PropertyXml>) -> ObjectXml {
    ObjectXml {
        id: 7,
        x: 10,
        y: 40,
        width: Some(16),
        height: Some(16),
        gid,
        properties: Some(PropertiesXml { property: props }),
    }
}

#[test]
fn tile_objects_take_tile_defaults_and_bottom_edge() {
    let mut sets = TileSetList::new();
    sets.add(tileset(1));
    let o = MapObject::new(&object(Some(2), vec![prop("speed", "int", "9")]), &sets).unwrap();
    assert_eq!(o.id, 7);
    assert_eq!(o.gid, Some(TileIndex(2)));
    assert_eq!(o.position.x, Pixels(10));
    assert_eq!(o.position.y, Pixels(24));
    assert!(o.properties.platform);
    assert_eq!(o.properties.speed, Some(Pixels(9)));

    let plain = MapObject::new(&object(None, vec![]), &sets).unwrap();
    assert_eq!(plain.position.y, Pixels(40));
    assert!(!plain.properties.platform);
}

#[test]
fn object_property_errors() {
    let sets = TileSetList::new();
    let bad = object(None, vec![prop("direction", "string", "Q")]);
    assert!(matches!(MapObject::new(&bad, &sets), Err(Error::InvalidDirection(t)) if t == "Q"));
}

fn map_xml(color: &str, fields: Vec<TileMapField>) -> TileMapXml {
    TileMapXml {
        width: 3,
        height: 2,
        tilewidth: 16,
        tileheight: 16,
        backgroundcolor: color.to_string(),
        fields,
        properties: Some(PropertiesXml { property: vec![prop("gravity", "int", "7")] }),
    }
}

#[test]
fn reads_whole_map() {
    let fields = vec![
        TileMapField::TileSet(TileSetSourceXml { source: "tiles.tsx".to_string(), firstgid: 1 }),
        TileMapField::ImageLayer(ImageLayerXml { id: 3, image: ImageXml { source: "sky.png".to_string() } }),
        TileMapField::Layer(layer("0,1,0\n1,1,1", 3, 2, true)),
        TileMapField::ObjectGroup(ObjectGroupXml { object: vec![object(Some(2), vec![])] }),
        TileMapField::Layer(layer("0,0,0\n0,0,0", 3, 2, false)),
    ];
    let mut sets = TileSetList::new();
    sets.add(tileset(1));
    let m = TileMap::from_xml(map_xml("#112233", fields), sets, vec![sprite()]).unwrap();
    assert_eq!(m.backgroundcolor, Color { r: 0x11, g: 0x22, b: 0x33, a: 255 });
    assert_eq!(m.layers.len(), 3);
    assert!(matches!(&m.layers[0], Layer::Image(im) if im.source == "sky.png"));
    assert_eq!(m.player_layer, Some(1));
    assert_eq!(m.objects.len(), 1);
    assert_eq!(m.properties.gravity.map(|g| g.0), Some(7));
    assert!(!m.properties.dark);
}

#[test]
fn map_errors() {
    let one_set = || {
        let mut s = TileSetList::new();
        s.add(tileset(1));
        s
    };
    assert!(matches!(
        TileMap::from_xml(map_xml("black", vec![]), one_set(), vec![]),
        Err(Error::InvalidColor(t)) if t == "black"
    ));
    assert_eq!(
        TileMap::from_xml(map_xml("#000000", vec![]), TileSetList::new(), vec![]).err(),
        Some(Error::NoTilesets)
    );
    let two_players = vec![
        TileMapField::Layer(layer("0,0,0\n0,0,0", 3, 2, true)),
        TileMapField::Layer(layer("0,0,0\n0,0,0", 3, 2, true)),
    ];
    assert_eq!(
        TileMap::from_xml(map_xml("#000000", two_players), one_set(), vec![]).err(),
        Some(Error::TooManyPlayerLayers)
    );
}
