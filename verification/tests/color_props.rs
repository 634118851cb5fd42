use rasterizer::color::Color;
use rasterizer::fixed::FX_ONE;

#[test]
fn pack_exact_channels() {
    // 1.0 -> 255, 0.0 -> 0, 0.5 -> 127 (floor of 127.5)
    let c = Color::new(FX_ONE, 0, FX_ONE / 2);
    assert_eq!(c.to_hex(), 0x00FF007F);
}

#[test]
fn pack_clamps_out_of_range_channels() {
    let c = Color::new(-100, 70000, FX_ONE);
    assert_eq!(c.to_hex(), 0x0000FFFF);
    let d = Color::new(i64::MIN / 2, i64::MAX / 2, 0);
    assert_eq!(d.to_hex(), 0x0000FF00);
}

#[test]
fn pack_black_and_solid_colors() {
    assert_eq!(Color::new(0, 0, 0).to_hex(), 0);
    assert_eq!(Color::new(FX_ONE, 0, 0).to_hex(), 0x00FF0000);
    assert_eq!(Color::new(0, FX_ONE, 0).to_hex(), 0x0000FF00);
    assert_eq!(Color::new(0, 0, FX_ONE).to_hex(), 0x000000FF);
}

#[test]
fn unpack_reads_channels() {
    let c = Color::from_hex(0x00FF007F);
    assert_eq!(c.r, FX_ONE);
    assert_eq!(c.g, 0);
    assert_eq!(c.b, 0x7F * FX_ONE / 255);
}

#[test]
fn pack_unpack_round_trips_within_one_step() {
    // One quantization step is 1/255, i.e. ceil(FX_ONE / 255) = 257 fixed.
    let mut c: i64 = 0;
    while c <= FX_ONE {
        let packed = Color::new(c, c, c).to_hex();
        let back = Color::from_hex(packed);
        for channel in [back.r, back.g, back.b] {
            assert!(channel <= c);
            assert!(c - channel <= 257);
        }
        c += 41;
    }
    // and the boundary value itself
    let back = Color::from_hex(Color::new(FX_ONE, FX_ONE, FX_ONE).to_hex());
    assert_eq!(back.r, FX_ONE);
}
