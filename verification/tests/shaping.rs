use reovim::shaping::{clusters, Cluster};

fn c(num_bytes: i32, num_glyphs: i32) -> Cluster {
    Cluster { num_bytes, num_glyphs }
}

#[test]
fn glyphs_group_into_clusters() {
    assert_eq!(clusters(&vec![0, 0, 3, 5], 10, 18), vec![c(3, 2), c(2, 1), c(3, 1)]);
}

#[test]
fn one_glyph_covers_the_run() {
    assert_eq!(clusters(&vec![4], 0, 2), vec![c(2, 1)]);
    assert_eq!(clusters(&vec![7, 7, 7], 1, 5), vec![c(4, 3)]);
}

#[test]
fn no_glyphs_no_clusters() {
    assert_eq!(clusters(&Vec::new(), 0, 0), Vec::new());
}

#[test]
fn clusters_add_up_to_the_run() {
    let offsets = vec![2, 3, 3, 9, 12, 12, 12];
    let cs = clusters(&offsets, 2, 16);
    assert_eq!(cs.iter().map(|k| k.num_bytes).sum::<i32>(), 14);
    assert_eq!(cs.iter().map(|k| k.num_glyphs).sum::<i32>(), offsets.len() as i32);
}
