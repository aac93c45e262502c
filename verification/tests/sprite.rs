use sprite_encoding::assets::AssetStorage;
use sprite_encoding::components::{GlobalTransform, Rgba};
use sprite_encoding::scalar::{negate, zero_value, ONE, SIGN_BIT, ZERO};
use sprite_encoding::sprite::{Sprite, SpriteSheet};

fn bits(x: f32) -> u32 {
    x.to_bits()
}

#[test]
fn sprite_from_tuple_maps_fields_correctly() {
    assert_eq!(
        Sprite {
            width: bits(10.),
            height: bits(20.),
            left: bits(0.),
            right: bits(0.5),
            top: bits(0.75),
            bottom: bits(1.0),
            offsets: [bits(0.), bits(0.)],
        },
        ((bits(10.), bits(20.)), (bits(0.0), bits(0.5)), (bits(0.75), bits(1.0))).into()
    );
}

#[test]
fn sprite_from_slice_maps_fields_correctly() {
    assert_eq!(
        Sprite {
            width: bits(10.),
            height: bits(20.),
            left: bits(0.),
            right: bits(0.5),
            top: bits(0.75),
            bottom: bits(1.0),
            offsets: [bits(0.), bits(0.)],
        },
        [bits(10.), bits(20.), bits(0.0), bits(0.5), bits(0.75), bits(1.0)].into()
    );
}

#[test]
fn flat_and_nested_forms_give_the_same_sprite() {
    let flat = Sprite::from([bits(10.), bits(20.), bits(0.), bits(0.5), bits(0.75), bits(1.0)]);
    let nested = Sprite::from(((bits(10.), bits(20.)), (bits(0.), bits(0.5)), (bits(0.75), bits(1.0))));
    assert_eq!(flat, nested);
    assert_eq!(f32::from_bits(flat.width), 10.0);
    assert_eq!(f32::from_bits(flat.height), 20.0);
    assert_eq!(f32::from_bits(flat.left), 0.0);
    assert_eq!(f32::from_bits(flat.right), 0.5);
    assert_eq!(f32::from_bits(flat.top), 0.75);
    assert_eq!(f32::from_bits(flat.bottom), 1.0);
}

#[test]
fn forms_keep_every_bit_of_every_scalar() {
    let odd = [0x7fc0_0001u32, 0x8000_0000, 0xffff_ffff, 1, 0x0080_0000, 0x7f7f_ffff];
    let flat = Sprite::from(odd);
    let nested = Sprite::from(((odd[0], odd[1]), (odd[2], odd[3]), (odd[4], odd[5])));
    assert_eq!(flat, nested);
    assert_eq!(
        [flat.width, flat.height, flat.left, flat.right, flat.top, flat.bottom],
        odd
    );
    assert_eq!(flat.offsets, [0, 0]);
}

#[test]
fn forms_in_another_order_differ() {
    let a = Sprite::from([bits(10.), bits(20.), bits(0.), bits(0.5), bits(0.75), bits(1.0)]);
    let b = Sprite::from([bits(20.), bits(10.), bits(0.), bits(0.5), bits(0.75), bits(1.0)]);
    assert_ne!(a, b);
}

#[test]
fn sheet_finds_sprites_by_number() {
    let first = Sprite::from([bits(1.), bits(2.), bits(0.), bits(0.5), bits(0.), bits(0.5)]);
    let second = Sprite::from([bits(3.), bits(4.), bits(0.5), bits(1.), bits(0.5), bits(1.)]);
    let sheet = SpriteSheet { texture_id: 7, sprites: vec![first, second] };
    assert_eq!(sheet.sprite(0), Some(first));
    assert_eq!(sheet.sprite(1), Some(second));
    assert_eq!(sheet.sprite(2), None);
    assert_eq!(sheet.sprite(usize::MAX), None);
    let empty = SpriteSheet { texture_id: 0, sprites: vec![] };
    assert_eq!(empty.sprite(0), None);
}

#[test]
fn constants_are_the_bits_of_zero_and_one() {
    assert_eq!(f32::from_bits(ZERO), 0.0);
    assert_eq!(f32::from_bits(ONE), 1.0);
    assert_eq!(ONE, 1.0f32.to_bits());
    assert_eq!(SIGN_BIT, (-0.0f32).to_bits());
    assert_eq!(zero_value(), [0.0f32.to_bits(); 4]);
}

#[test]
fn negate_flips_the_sign() {
    assert_eq!(negate(bits(2.5)), bits(-2.5));
    assert_eq!(negate(bits(-2.5)), bits(2.5));
    assert_eq!(negate(bits(0.0)), bits(-0.0));
    assert_eq!(negate(bits(f32::INFINITY)), bits(f32::NEG_INFINITY));
    assert_eq!(negate(bits(f32::MIN_POSITIVE)), bits(-f32::MIN_POSITIVE));
    assert_eq!(negate(0x7fc0_0000), 0xffc0_0000);
    for x in [0u32, 1, 0x3f80_0000, 0x8000_0000, 0xffff_ffff, 0x1234_5678] {
        assert_eq!(negate(negate(x)), x);
        assert_ne!(negate(x), x);
        assert_eq!(negate(x), (-f32::from_bits(x)).to_bits());
    }
}

#[test]
fn white_is_one_in_every_channel() {
    let white = Rgba::white();
    assert_eq!(white, Rgba(ONE, ONE, ONE, ONE));
    assert_eq!(white.to_vec4().map(f32::from_bits), [1.0, 1.0, 1.0, 1.0]);
    assert_eq!(Rgba(1, 2, 3, 4).to_vec4(), [1, 2, 3, 4]);
}

#[test]
fn transform_gives_its_basis_vectors() {
    let t = GlobalTransform([[1, 2, 3, 4], [5, 6, 7, 8], [9, 10, 11, 12], [13, 14, 15, 16]]);
    assert_eq!(t.basis_x(), [1, 2, 3, 4]);
    assert_eq!(t.basis_y(), [5, 6, 7, 8]);
}

#[test]
fn assets_resolve_by_identifier() {
    let mut assets: AssetStorage<u8> = AssetStorage::new();
    assert_eq!(assets.len(), 0);
    assert_eq!(assets.get(0), None);
    let a = assets.load(10);
    let b = assets.reserve();
    let c = assets.load(30);
    assert_eq!((a, b, c), (0, 1, 2));
    assert_eq!(assets.len(), 3);
    assert_eq!(assets.get(a), Some(&10));
    assert_eq!(assets.get(b), None);
    assert_eq!(assets.get(c), Some(&30));
    assert_eq!(assets.get(3), None);
    assert_eq!(assets.store(b, 20), Ok(None));
    assert_eq!(assets.get(b), Some(&20));
    assert_eq!(assets.store(b, 21), Ok(Some(20)));
    assert_eq!(assets.get(b), Some(&21));
    assert_eq!(assets.store(3, 40), Err(40));
    assert_eq!(assets.len(), 3);
    assert_eq!(assets.get(a), Some(&10));
}
