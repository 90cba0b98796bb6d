use nara::material::{
    material2d_descriptor_key, material_key_input, AlphaMode2d, Material2dDescriptor, MaterialImageRef, SamplerDescriptor,
};

fn black_tint() -> [u32; 4] {
    [0.0_f32.to_bits(), 0.0_f32.to_bits(), 0.0_f32.to_bits(), 1.0_f32.to_bits()]
}

#[test]
fn sampler_default_is_linear_clamp() {
    assert_eq!(SamplerDescriptor::default(), SamplerDescriptor::linear_clamp());
}

#[test]
fn material_key_changes_when_material_intent_changes() {
    let base = Material2dDescriptor::from_image(MaterialImageRef::Path("textures/player.png".to_owned()));

    assert_ne!(base.key(), base.clone().with_sampler(SamplerDescriptor::nearest_clamp()).key());
    assert_ne!(base.key(), base.clone().with_alpha_mode(AlphaMode2d::Opaque).key());
    assert_ne!(base.key(), base.clone().with_tint_bits(black_tint()).key());
    assert_ne!(
        base.key(),
        Material2dDescriptor::from_image(MaterialImageRef::Path("textures/enemy.png".to_owned())).key()
    );
}

#[test]
fn material_key_is_the_blake3_digest_of_its_canonical_input() {
    let descriptor = Material2dDescriptor::from_image(MaterialImageRef::Path("textures/player.png".to_owned()))
        .with_sampler(SamplerDescriptor::nearest_clamp())
        .with_alpha_mode(AlphaMode2d::Opaque);
    let input = material_key_input(&descriptor);

    assert_eq!(material2d_descriptor_key(&descriptor).as_bytes(), *blake3::hash(&input).as_bytes());
    assert_ne!(material2d_descriptor_key(&descriptor).as_bytes().to_vec(), input[..32.min(input.len())].to_vec());
    assert_eq!(descriptor.key(), material2d_descriptor_key(&descriptor));
}

#[test]
fn equal_descriptors_have_equal_keys() {
    let first = Material2dDescriptor::from_tint_bits(black_tint());
    let second = Material2dDescriptor::from_tint_bits(black_tint());
    assert_eq!(first.key(), second.key());
    assert_ne!(first.key(), Material2dDescriptor::from_image(MaterialImageRef::StableId("2f0d71c7".to_owned())).key());
}
