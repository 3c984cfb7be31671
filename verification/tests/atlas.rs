use purpy::atlas::{image_paths, index_text, layout, order_images, ImageFile};
use purpy::error::Error;
use purpy::package::manifest_patterns;

fn img(path: &str, width: u32, height: u32) -> ImageFile {
    ImageFile { path: path.to_string(), width, height }
}

#[test]
fn lists_image_paths() {
    assert_eq!(image_paths("a.png\n\n  b.png \r\n"), vec!["a.png".to_string(), "b.png".to_string()]);
}

#[test]
fn orders_tallest_first() {
    let order = order_images(vec![img("a", 1, 5), img("b", 1, 8), img("c", 1, 5), img("d", 1, 2)]);
    let paths: Vec<&str> = order.iter().map(|i| i.path.as_str()).collect();
    assert_eq!(paths, vec!["b", "c", "a", "d"]);
}

#[test]
fn packs_rows_without_overlap() {
    let (entries, width, height) = layout(vec![img("a", 4, 2), img("b", 6, 3), img("c", 2, 2), img("d", 5, 1)]).unwrap();
    assert_eq!(width, 6);
    let placed: Vec<(&str, (u32, u32, u32, u32))> = entries.iter().map(|e| (e.path.as_str(), e.location)).collect();
    assert_eq!(
        placed,
        vec![("b", (0, 0, 6, 3)), ("c", (0, 3, 2, 2)), ("a", (2, 3, 4, 2)), ("d", (0, 5, 5, 1))]
    );
    assert_eq!(height, 6);
    for (i, a) in entries.iter().enumerate() {
        for b in entries.iter().skip(i + 1) {
            let (ax, ay, aw, ah) = a.location;
            let (bx, by, bw, bh) = b.location;
            assert!(ax + aw <= bx || bx + bw <= ax || ay + ah <= by || by + bh <= ay);
        }
    }
    assert_eq!(index_text(&entries), "0,0,6,3,b\n0,3,2,2,c\n2,3,4,2,a\n0,5,5,1,d\n");
}

#[test]
fn no_images_is_an_error() {
    assert_eq!(layout(vec![]).err(), Some(Error::NoImages));
}

#[test]
fn manifest_lines_become_patterns() {
    assert_eq!(
        manifest_patterns("root", "assets/*.png\n\n levels/** \n"),
        vec!["root/assets/*.png".to_string(), "root/levels/**".to_string()]
    );
}

#[test]
fn png_size_reads_the_header() {
    let mut bytes = vec![0x89u8, b'P', b'N', b'G', 0x0d, 0x0a, 0x1a, 0x0a, 0, 0, 0, 13, b'I', b'H', b'D', b'R'];
    bytes.extend_from_slice(&[0, 0, 1, 2, 0, 0, 0, 40]);
    assert_eq!(purpy::png::png_size(&bytes), Some((258, 40)));
    assert_eq!(purpy::png::png_size(&bytes[..20]), None);
    bytes[1] = b'X';
    assert_eq!(purpy::png::png_size(&bytes), None);
}
