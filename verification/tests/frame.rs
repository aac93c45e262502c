use nalgebra::{Matrix4, Vector4};
use sprite_encoding::assets::AssetStorage;
use sprite_encoding::components::{GlobalTransform, Rgba};
use sprite_encoding::encoding::binding::Binding;
use sprite_encoding::encoding::encoders::SetupFailure;
use sprite_encoding::encoding::frame::{SpritePass, SpriteSources};
use sprite_encoding::encoding::property::Property;
use sprite_encoding::scalar::Vec4;
use sprite_encoding::sprite::{Sprite, SpriteRenderInfo, SpriteSheet, SpriteSheetHandle};

fn to_bits4(v: [f32; 4]) -> Vec4 {
    v.map(f32::to_bits)
}

fn to_floats4(v: Vec4) -> [f32; 4] {
    v.map(f32::from_bits)
}

fn scale_by(v: Vec4, s: u32) -> Vec4 {
    let scaled: Vector4<f32> = Vector4::from(to_floats4(v)) * f32::from_bits(s);
    to_bits4(scaled.into())
}

fn apply_to(m: [Vec4; 4], v: Vec4) -> Vec4 {
    let matrix: Matrix4<f32> = Matrix4::from(m.map(to_floats4));
    let moved: Vector4<f32> = matrix * Vector4::from(to_floats4(v));
    to_bits4(moved.into())
}

fn moved_to(x: f32, y: f32) -> GlobalTransform {
    GlobalTransform([[1., 0., 0., 0.], [0., 1., 0., 0.], [0., 0., 1., 0.], [x, y, 0., 1.]].map(to_bits4))
}

fn sheet_with(width: f32, height: f32) -> SpriteSheet {
    let f = f32::to_bits;
    SpriteSheet { texture_id: 3, sprites: vec![Sprite::from([f(width), f(height), f(0.), f(1.), f(0.), f(1.)])] }
}

fn shows(sheet: usize, number: usize) -> SpriteRenderInfo {
    SpriteRenderInfo { sprite_sheet: SpriteSheetHandle { id: sheet }, sprite_number: number }
}

const WHITE: [f32; 4] = [1., 1., 1., 1.];
const NOTHING: [f32; 4] = [0., 0., 0., 0.];

#[test]
fn pass_registers_the_reference_encoders() {
    let pass = SpritePass::new();
    let system = pass.system();
    assert_eq!(system.encoder_count(), 2);
    assert_eq!(system.property_count(), 4);
    assert_eq!(system.offset(Property::Tint), Some(0));
    assert_eq!(system.offset(Property::Pos2D), Some(1));
    assert_eq!(system.offset(Property::DirX), Some(2));
    assert_eq!(system.offset(Property::DirY), Some(3));
    assert_eq!(system.range(0), Some((0, 1)));
    assert_eq!(system.range(1), Some((1, 4)));
}

#[test]
fn pass_encodes_aligned_buffers() {
    let tints = Binding {
        slots: vec![Some(Rgba(1, 2, 3, 4)), Some(Rgba(5, 6, 7, 8)), None, None, Some(Rgba(9, 9, 9, 9))],
    };
    let transforms = Binding { slots: vec![None, Some(moved_to(1., 2.)), Some(moved_to(3., 4.)), Some(moved_to(5., 6.))] };
    let renders = Binding { slots: vec![None, Some(shows(0, 0)), Some(shows(0, 0)), None, None, Some(shows(0, 0))] };
    let mut sheets = AssetStorage::new();
    sheets.load(sheet_with(8., 4.));
    let sources = SpriteSources { tints: &tints, transforms: &transforms, renders: &renders, sheets: &sheets };
    let (frame, failure) = SpritePass::new().encode(&sources, &scale_by, &apply_to);
    assert_eq!(failure, None);
    assert_eq!(frame.entities(), &vec![1, 2, 3, 5]);
    assert_eq!(frame.buffer_count(), 4);
    assert_eq!(frame.rows(), 4);
    let column = |offset: usize| -> Vec<[f32; 4]> {
        frame.buffer(offset).unwrap().iter().map(|v| to_floats4(*v)).collect()
    };
    assert_eq!(frame.buffer(0).unwrap()[0], [5, 6, 7, 8]);
    assert_eq!(column(0)[1..], [WHITE, WHITE, WHITE]);
    assert_eq!(column(1), vec![[1., 2., 0., 1.], [3., 4., 0., 1.], NOTHING, NOTHING]);
    assert_eq!(column(2), vec![[8., 0., 0., 0.], [8., 0., 0., 0.], NOTHING, NOTHING]);
    assert_eq!(column(3), vec![[0., 4., 0., 0.], [0., 4., 0., 0.], NOTHING, NOTHING]);
}

#[test]
fn pass_keeps_the_tint_when_the_geometry_fails() {
    let tints = Binding { slots: vec![Some(Rgba(1, 2, 3, 4)), None] };
    let transforms = Binding { slots: vec![Some(moved_to(1., 2.)), Some(moved_to(3., 4.))] };
    let renders = Binding { slots: vec![Some(shows(0, 0)), Some(shows(1, 0))] };
    let mut sheets = AssetStorage::new();
    sheets.load(sheet_with(8., 4.));
    let sources = SpriteSources { tints: &tints, transforms: &transforms, renders: &renders, sheets: &sheets };
    let (frame, failure) = SpritePass::new().encode(&sources, &scale_by, &apply_to);
    assert_eq!(
        failure,
        Some(SetupFailure::UnresolvedSpriteSheet { entity: 1, handle: SpriteSheetHandle { id: 1 } })
    );
    assert_eq!(frame.entities(), &vec![0, 1]);
    assert_eq!(frame.buffer(0), Some(&vec![[1, 2, 3, 4], to_bits4(WHITE)]));
    for offset in 1..4 {
        assert_eq!(frame.buffer(offset), Some(&vec![[0; 4], [0; 4]]));
    }
}

#[test]
fn pass_encodes_an_empty_frame() {
    let tints = Binding { slots: vec![Some(Rgba(1, 2, 3, 4))] };
    let transforms = Binding::new();
    let renders = Binding::new();
    let sheets = AssetStorage::new();
    let sources = SpriteSources { tints: &tints, transforms: &transforms, renders: &renders, sheets: &sheets };
    let (frame, failure) = SpritePass::new().encode(&sources, &scale_by, &apply_to);
    assert_eq!(failure, None);
    assert_eq!(frame.rows(), 0);
    assert_eq!(frame.buffer_count(), 4);
    assert_eq!(frame.buffer(0), Some(&vec![]));
}

#[test]
fn pass_encodes_the_same_frame_again() {
    let tints = Binding { slots: vec![None, Some(Rgba(5, 6, 7, 8))] };
    let transforms = Binding { slots: vec![Some(moved_to(0.1, 0.2)), Some(moved_to(-3.5, 4.25))] };
    let renders = Binding { slots: vec![Some(shows(0, 0)), Some(shows(0, 0))] };
    let mut sheets = AssetStorage::new();
    sheets.load(sheet_with(0.3, 0.7));
    let sources = SpriteSources { tints: &tints, transforms: &transforms, renders: &renders, sheets: &sheets };
    let pass = SpritePass::new();
    assert_eq!(pass.encode(&sources, &scale_by, &apply_to), pass.encode(&sources, &scale_by, &apply_to));
}
