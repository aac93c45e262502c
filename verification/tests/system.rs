use sprite_encoding::components::Rgba;
use sprite_encoding::encoding::binding::Binding;
use sprite_encoding::encoding::encode_loop::{EncodeLoop, EncodedRows};
use sprite_encoding::encoding::encoders::{LoopResult, RgbaTintEncoder, SetupFailure, SpriteTransformEncoder};
use sprite_encoding::encoding::property::Property;
use sprite_encoding::encoding::system::{EncodingSystem, MergeError, RegistrationError};
use sprite_encoding::scalar::Vec4;
use sprite_encoding::sprite::SpriteSheetHandle;

const ZEROS: Vec4 = [0, 0, 0, 0];

fn reference_system() -> EncodingSystem {
    let mut system = EncodingSystem::new();
    assert_eq!(system.register(RgbaTintEncoder::properties()), Ok(0));
    assert_eq!(system.register(SpriteTransformEncoder::properties()), Ok(1));
    system
}

#[test]
fn new_system_has_nothing_registered() {
    let system = EncodingSystem::new();
    assert_eq!(system.encoder_count(), 0);
    assert_eq!(system.property_count(), 0);
    assert_eq!(system.offset(Property::Tint), None);
    assert_eq!(system.owner(Property::Tint), None);
    assert_eq!(system.range(0), None);
}

#[test]
fn registration_fixes_offsets_in_order() {
    let system = reference_system();
    assert_eq!(system.encoder_count(), 2);
    assert_eq!(system.property_count(), 4);
    assert_eq!(system.offset(Property::Tint), Some(0));
    assert_eq!(system.offset(Property::Pos2D), Some(1));
    assert_eq!(system.offset(Property::DirX), Some(2));
    assert_eq!(system.offset(Property::DirY), Some(3));
    assert_eq!(system.offset(Property::Custom(0)), None);
    assert_eq!(system.owner(Property::Tint), Some(0));
    assert_eq!(system.owner(Property::Pos2D), Some(1));
    assert_eq!(system.owner(Property::DirY), Some(1));
    assert_eq!(system.owner(Property::Custom(4)), None);
    assert_eq!(system.range(0), Some((0, 1)));
    assert_eq!(system.range(1), Some((1, 4)));
    assert_eq!(system.range(2), None);
}

#[test]
fn offsets_stay_when_more_encoders_register() {
    let mut system = reference_system();
    assert_eq!(system.register([Property::Custom(1), Property::Custom(2)]), Ok(2));
    assert_eq!(system.register::<0>([]), Ok(3));
    assert_eq!(system.register([Property::Custom(3)]), Ok(4));
    assert_eq!(system.offset(Property::Tint), Some(0));
    assert_eq!(system.offset(Property::DirY), Some(3));
    assert_eq!(system.offset(Property::Custom(2)), Some(5));
    assert_eq!(system.offset(Property::Custom(3)), Some(6));
    assert_eq!(system.range(3), Some((6, 6)));
    assert_eq!(system.range(4), Some((6, 7)));
    assert_eq!(system.owner(Property::Custom(3)), Some(4));
    assert_eq!(system.owner(Property::Custom(1)), Some(2));
}

#[test]
fn registration_rejects_a_property_that_is_owned() {
    let mut system = reference_system();
    let before = reference_system();
    assert_eq!(
        system.register([Property::Custom(1), Property::DirX, Property::Tint]),
        Err(RegistrationError::DuplicateProperty(Property::DirX))
    );
    assert_eq!(system, before);
    assert_eq!(system.offset(Property::Custom(1)), None);
    assert_eq!(
        system.register(RgbaTintEncoder::properties()),
        Err(RegistrationError::DuplicateProperty(Property::Tint))
    );
    assert_eq!(system, before);
}

#[test]
fn registration_rejects_a_property_that_is_declared_twice() {
    let mut system = EncodingSystem::new();
    assert_eq!(
        system.register([Property::Custom(1), Property::Custom(2), Property::Custom(1)]),
        Err(RegistrationError::DuplicateProperty(Property::Custom(1)))
    );
    assert_eq!(system, EncodingSystem::new());
    assert_eq!(system.register([Property::Custom(1), Property::Custom(2)]), Ok(0));
}

#[test]
fn frame_begins_with_zeros() {
    let system = reference_system();
    let frame = system.begin_frame(vec![4, 2, 9]);
    assert_eq!(frame.entities(), &vec![4, 2, 9]);
    assert_eq!(frame.rows(), 3);
    assert_eq!(frame.buffer_count(), 4);
    for offset in 0..4 {
        assert_eq!(frame.buffer(offset), Some(&vec![ZEROS, ZEROS, ZEROS]));
    }
    assert_eq!(frame.buffer(4), None);
    let empty = system.begin_frame(vec![]);
    assert_eq!(empty.rows(), 0);
    assert_eq!(empty.buffer(0), Some(&vec![]));
}

#[test]
fn merge_writes_values_and_leaves_no_value_at_zero() {
    let system = reference_system();
    let mut frame = system.begin_frame(vec![0, 1, 2]);
    let encoded = EncodedRows {
        entities: vec![0, 1, 2],
        rows: vec![
            [Some([1, 1, 1, 1]), Some([2, 2, 2, 2]), None],
            [None, None, None],
            [Some([3, 3, 3, 3]), None, Some([4, 4, 4, 4])],
        ],
    };
    assert_eq!(system.merge(&mut frame, 1, &encoded), Ok(()));
    assert_eq!(frame.buffer(0), Some(&vec![ZEROS, ZEROS, ZEROS]));
    assert_eq!(frame.buffer(1), Some(&vec![[1, 1, 1, 1], ZEROS, [3, 3, 3, 3]]));
    assert_eq!(frame.buffer(2), Some(&vec![[2, 2, 2, 2], ZEROS, ZEROS]));
    assert_eq!(frame.buffer(3), Some(&vec![ZEROS, ZEROS, [4, 4, 4, 4]]));
    assert_eq!(frame.entities(), &vec![0, 1, 2]);
    let again = EncodedRows {
        entities: vec![0, 1, 2],
        rows: vec![[None, None, None], [Some([9, 9, 9, 9]), None, None], [None, None, None]],
    };
    assert_eq!(system.merge(&mut frame, 1, &again), Ok(()));
    assert_eq!(frame.buffer(1), Some(&vec![[1, 1, 1, 1], [9, 9, 9, 9], [3, 3, 3, 3]]));
    assert_eq!(frame.buffer(2), Some(&vec![[2, 2, 2, 2], ZEROS, ZEROS]));
}

#[test]
fn merge_refuses_what_is_not_the_contribution_of_the_encoder() {
    let system = reference_system();
    let mut frame = system.begin_frame(vec![0, 1]);
    let untouched = system.begin_frame(vec![0, 1]);
    let tint = EncodedRows { entities: vec![0, 1], rows: vec![[Some([1, 1, 1, 1])], [Some([2, 2, 2, 2])]] };
    assert_eq!(system.merge(&mut frame, 2, &tint), Err(MergeError::UnknownEncoder));
    assert_eq!(system.merge(&mut frame, 1, &tint), Err(MergeError::ArityMismatch));
    let other_order = EncodedRows { entities: vec![1, 0], rows: tint.rows.clone() };
    assert_eq!(system.merge(&mut frame, 0, &other_order), Err(MergeError::Misaligned));
    let fewer = EncodedRows { entities: vec![0], rows: vec![[Some([1, 1, 1, 1])]] };
    assert_eq!(system.merge(&mut frame, 0, &fewer), Err(MergeError::Misaligned));
    let ragged = EncodedRows { entities: vec![0, 1], rows: vec![[Some([1, 1, 1, 1])]] };
    assert_eq!(system.merge(&mut frame, 0, &ragged), Err(MergeError::Misaligned));
    let mut smaller = EncodingSystem::new();
    assert_eq!(smaller.register([Property::Tint]), Ok(0));
    assert_eq!(smaller.merge(&mut frame, 0, &tint), Err(MergeError::ForeignFrame));
    assert_eq!(frame, untouched);
    assert_eq!(system.merge(&mut frame, 0, &tint), Ok(()));
    assert_eq!(frame.buffer(0), Some(&vec![[1, 1, 1, 1], [2, 2, 2, 2]]));
}

#[test]
fn failed_encoder_contributes_nothing_and_spares_the_others() {
    let system = reference_system();
    let tints = Binding { slots: vec![Some(Rgba(1, 2, 3, 4)), None] };
    let mut frame = system.begin_frame(vec![0, 1]);
    let tint = RgbaTintEncoder::encode(EncodeLoop { entities: vec![0, 1], components: (&tints,) }, ());
    assert_eq!(system.contribute(&mut frame, 0, &tint), Ok(true));
    let failed: LoopResult<3> =
        Err(SetupFailure::UnresolvedSpriteSheet { entity: 1, handle: SpriteSheetHandle { id: 3 } });
    assert_eq!(system.contribute(&mut frame, 1, &failed), Ok(false));
    assert_eq!(frame.buffer(0), Some(&vec![[1, 2, 3, 4], [0x3f80_0000; 4]]));
    for offset in 1..4 {
        assert_eq!(frame.buffer(offset), Some(&vec![ZEROS, ZEROS]));
    }
    assert_eq!(system.contribute(&mut frame, 5, &failed), Ok(false));
    let misplaced: LoopResult<3> = Ok(EncodedRows { entities: vec![0], rows: vec![[None, None, None]] });
    assert_eq!(system.contribute(&mut frame, 1, &misplaced), Err(MergeError::Misaligned));
    assert_eq!(system.contribute(&mut frame, 0, &misplaced), Err(MergeError::ArityMismatch));
}

#[test]
fn buffers_of_all_encoders_share_their_rows() {
    let system = reference_system();
    let tints = Binding { slots: vec![None, Some(Rgba(5, 6, 7, 8)), None] };
    let population = vec![0, 1, 2];
    let mut frame = system.begin_frame(population.clone());
    let tint = RgbaTintEncoder::encode(EncodeLoop { entities: population.clone(), components: (&tints,) }, ());
    let geometry: LoopResult<3> = Ok(EncodedRows {
        entities: population.clone(),
        rows: vec![
            [Some([1; 4]), Some([2; 4]), Some([3; 4])],
            [None, None, None],
            [Some([4; 4]), Some([5; 4]), Some([6; 4])],
        ],
    });
    assert_eq!(system.contribute(&mut frame, 1, &geometry), Ok(true));
    assert_eq!(system.contribute(&mut frame, 0, &tint), Ok(true));
    for offset in 0..4 {
        assert_eq!(frame.buffer(offset).map(|buffer| buffer.len()), Some(population.len()));
    }
    assert_eq!(frame.buffer(0), Some(&vec![[0x3f80_0000; 4], [5, 6, 7, 8], [0x3f80_0000; 4]]));
    assert_eq!(frame.buffer(1), Some(&vec![[1; 4], ZEROS, [4; 4]]));
    assert_eq!(frame.buffer(2), Some(&vec![[2; 4], ZEROS, [5; 4]]));
    assert_eq!(frame.buffer(3), Some(&vec![[3; 4], ZEROS, [6; 4]]));
}
