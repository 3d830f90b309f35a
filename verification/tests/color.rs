use reovim::color::{ColorExt, Rgb};

#[test]
fn colors_from_integers() {
    let c = Rgb::from_u64(0x12ab7f);
    assert_eq!(c, Rgb { red: 0x12, green: 0xab, blue: 0x7f });
    assert_eq!(c.to_hex(), "#12ab7f");
    assert_eq!(Rgb::from_u64(0xff00_0000_00ff_00).to_hex(), "#00ff00");
    assert_eq!(Rgb::from_u64(0).to_hex(), "#000000");
    assert_eq!(Rgb::from_u64(0xffffff).to_hex(), "#ffffff");
}

#[test]
fn hex_round_trip() {
    for v in [0u64, 1, 0x0a0b0c, 0xdeadbe, 0xffffff] {
        assert_eq!(Rgb::from_u64(v).to_hex(), format!("#{:06x}", v));
    }
}
