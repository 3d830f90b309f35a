use reovim::metrics::Metrics;

#[test]
fn line_space_adds_to_the_line_height() {
    let mut m = Metrics::new();
    m.set_linespace(3);
    assert_eq!((m.linespace(), m.height()), (3, 5));
}

#[test]
fn new_metrics() {
    let m = Metrics::new();
    assert_eq!((m.charwidth(), m.charheight(), m.linespace(), m.height(), m.width()), (1, 2, 0, 2, 1));
}

#[test]
fn cell_size_from_extents() {
    let mut m = Metrics::new();
    m.recompute(&vec![(8000, 17000), (9000, 16000)], 16500);
    assert_eq!((m.width(), m.charwidth(), m.charheight(), m.height()), (9, 9, 17, 17));
    m.recompute(&vec![(8000, 17000), (9000, 16000)], 0);
    assert_eq!((m.width(), m.charwidth(), m.charheight(), m.height()), (9, 9, 17, 17));
}

#[test]
fn empty_extents_give_one_unit() {
    let mut m = Metrics::new();
    m.recompute(&Vec::new(), 0);
    assert_eq!((m.width(), m.charwidth(), m.charheight(), m.height()), (1, 1, 1, 1));
}

#[test]
fn line_height_follows_the_character_height() {
    let mut m = Metrics::new();
    m.recompute(&vec![(9216, 17408)], 0);
    assert_eq!((m.charwidth(), m.charheight(), m.height()), (9, 17, 17));
    m.set_linespace(3);
    assert_eq!(m.height(), 20);
    // The same size in font units: nothing changes.
    m.recompute(&vec![(9216, 17408)], 0);
    assert_eq!(m.height(), 20);
    // A size that rounds to the same pixels is still taken anew.
    m.recompute(&vec![(9216, 17000)], 0);
    assert_eq!((m.charheight(), m.height()), (17, 20));
    m.set_charheight(10);
    assert_eq!(m.height(), 13);
    m.set_width(4);
    m.set_charwidth(5);
    assert_eq!((m.width(), m.charwidth()), (4, 5));
}
