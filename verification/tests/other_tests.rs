use editor::colorscheme::{hex_color, is_hex_color, ColorSchemeBuilder};
use editor::event::{key_for_code, key_for_code_index, Key, KeyCode};
use editor::ml::download_stable_diffusion;
use editor::renderer::{bind_group_count, pack_uniform_group, EntryResource, GroupEntry, UniformData};
use editor::app::{closes_app, loop_action, Command, LoopAction, LoopEvent};
use editor::shader_types::{
    create_binding_type, create_binding_type_for_image, create_binding_type_for_sampler, BindingType, ImageClass,
    ImageDimension, Sampler, SamplerBindingType, ScalarKind, StorageFormat, StorageTextureAccess,
    Texture, TextureFormat, TextureSampleType, TextureViewDimension, TypeInner, Vector, VectorSize,
};
use editor::sprite::{Image, SpriteSheetSprite};
use editor::sprite_animator::{animation_update, SpriteAnimation};
use std::time::{Duration, Instant};

#[test]
fn hex_colors_are_read() {
    assert_eq!(hex_color("#FF8000").unwrap(), [255, 128, 0]);
    assert_eq!(hex_color("#ff8000").unwrap(), [255, 128, 0]);
    assert_eq!(hex_color("color: #12aB3c;").unwrap(), [0x12, 0xab, 0x3c]);
    assert_eq!(hex_color("#zz#0a0b0c").unwrap(), [10, 11, 12]);
    assert!(is_hex_color("#FFFFFF"));
    assert!(!is_hex_color("#FFFFF"));
    assert!(!is_hex_color("red"));
}

#[test]
fn default_scheme_builds() {
    let builder = ColorSchemeBuilder::default();
    assert!(builder.colors_valid());
    let scheme = builder.build().unwrap();
    assert_eq!(scheme.text_color, [0xF6, 0x47, 0x40]);
    assert_eq!(scheme.keyword_color, [0x7a, 0x28, 0xcb]);
    assert_eq!(scheme.line_number_color, [255, 255, 255]);
    let custom = ColorSchemeBuilder::default().keyword_color("#000001").text_color("#010203");
    let scheme = custom.build().unwrap();
    assert_eq!(scheme.keyword_color, [0, 0, 1]);
    assert_eq!(scheme.text_color, [1, 2, 3]);
    assert_eq!(scheme.type_color, [0xff, 0xd9, 0x52]);
    assert!(!ColorSchemeBuilder::default().comment_color("nope").colors_valid());
}

#[test]
fn keys_know_their_shifted_characters() {
    assert_eq!(Key::char('a'), Key::Char('a', Some('A')));
    assert_eq!(Key::char('1'), Key::Char('1', Some('!')));
    assert_eq!(Key::char('\\'), Key::Char('\\', Some('|')));
    assert_eq!(Key::char('/'), Key::Char('/', Some('?')));
    assert_eq!(Key::char(' '), Key::Char(' ', None));
    assert_eq!(Key::char('é'), Key::Char('é', Some('É')));
    assert_eq!(Key::char('ß'), Key::Char('ß', Some('S')));
}

#[test]
fn key_codes_map_to_digits_and_letters() {
    assert_eq!(key_for_code_index(0), Some(Key::Char('1', Some('!'))));
    assert_eq!(key_for_code_index(9), Some(Key::Char('0', Some(')'))));
    assert_eq!(key_for_code_index(10), Some(Key::Char('a', Some('A'))));
    assert_eq!(key_for_code_index(35), Some(Key::Char('z', Some('Z'))));
    assert_eq!(key_for_code_index(36), None);
}

#[test]
fn vectors_and_uniform_values() {
    assert!(matches!(Vector::<u32>::new(2), Vector::Vec2([0, 0])));
    assert!(matches!(Vector::<i32>::new(4), Vector::Vec2([0, 0])));
    assert!(matches!(Vector::from(&[3u32, 4u32]), Vector::Vec2([3, 4])));
    assert_eq!(Texture::new(), Texture {});
    assert!(matches!(Sampler::new(true), Sampler {}));
}

#[test]
fn sprite_sheet_tiles() {
    let mut s = SpriteSheetSprite::from_sprite_sheet_dimensions(4, 2);
    assert!(s == SpriteSheetSprite { width: 4, height: 2, tile_x: 0, tile_y: 0 });
    s.set_tile(7, 1);
    assert_eq!((s.tile_x, s.tile_y), (7, 1));
    assert_eq!(s.clamped_tile(), (3, 1));
    let image = Image::new("hero.png", true);
    assert_eq!(image.image_path(), "hero.png");
    assert!(image.smooth_sampling());
}

#[test]
fn animations_step_through_frames() {
    let mut sprite = SpriteSheetSprite::from_sprite_sheet_dimensions(4, 4);
    let mut a = SpriteAnimation::new_constant_time(Duration::from_millis(0), vec![(1, 0), (2, 0), (3, 1)]);
    a.step(&mut sprite, false, Instant::now());
    assert_eq!((sprite.tile_x, sprite.tile_y), (1, 0));
    a.step(&mut sprite, false, Instant::now());
    assert_eq!((sprite.tile_x, sprite.tile_y), (1, 0));
    a.step(&mut sprite, true, Instant::now());
    assert_eq!((sprite.tile_x, sprite.tile_y), (2, 0));
    a.step(&mut sprite, true, Instant::now());
    assert_eq!((sprite.tile_x, sprite.tile_y), (3, 1));
    a.step(&mut sprite, true, Instant::now());
    assert_eq!((sprite.tile_x, sprite.tile_y), (1, 0));
}

#[test]
fn animation_update_starts_the_animation() {
    let mut sprite = SpriteSheetSprite::from_sprite_sheet_dimensions(2, 2);
    let mut a = SpriteAnimation::new(vec![(Duration::from_secs(3600), (1, 1)), (Duration::from_secs(1), (0, 1))]);
    animation_update(&mut sprite, &mut a);
    assert_eq!((sprite.tile_x, sprite.tile_y), (1, 1));
    animation_update(&mut sprite, &mut a);
    assert_eq!((sprite.tile_x, sprite.tile_y), (1, 1));
}

#[test]
fn stable_diffusion_notes_run_nothing() {
    download_stable_diffusion();
}

#[test]
fn key_codes_map_to_keys() {
    assert_eq!(key_for_code(&KeyCode::Indexed(10)), Some(Key::Char('a', Some('A'))));
    assert_eq!(key_for_code(&KeyCode::Indexed(40)), None);
    assert_eq!(key_for_code(&KeyCode::Caret), Some(Key::Char('^', None)));
    assert_eq!(key_for_code(&KeyCode::Slash), Some(Key::Char('/', Some('?'))));
    assert_eq!(key_for_code(&KeyCode::Space), Some(Key::Char(' ', None)));
    assert_eq!(key_for_code(&KeyCode::Back), Some(Key::Backspace));
    assert_eq!(key_for_code(&KeyCode::Return), Some(Key::Return));
    assert_eq!(key_for_code(&KeyCode::Other), None);
}

#[test]
fn image_binding_types() {
    assert_eq!(
        create_binding_type_for_image(ImageDimension::D2, true, ImageClass::Sampled { kind: ScalarKind::Float, multi: false }),
        Some(BindingType::Texture {
            sample_type: TextureSampleType::Float { filterable: true },
            view_dimension: TextureViewDimension::D2Array,
            multisampled: false,
        })
    );
    assert_eq!(
        create_binding_type_for_image(ImageDimension::D1, true, ImageClass::Depth { multi: false }),
        None
    );
    assert_eq!(
        create_binding_type_for_image(ImageDimension::Cube, false, ImageClass::Depth { multi: true }),
        Some(BindingType::Texture {
            sample_type: TextureSampleType::Depth,
            view_dimension: TextureViewDimension::Cube,
            multisampled: true,
        })
    );
    assert_eq!(
        create_binding_type_for_image(ImageDimension::D3, false, ImageClass::Sampled { kind: ScalarKind::Bool, multi: false }),
        None
    );
    assert_eq!(
        create_binding_type_for_image(ImageDimension::D3, false, ImageClass::Storage { format: StorageFormat::R8Snorm, access: 3 }),
        Some(BindingType::StorageTexture {
            access: StorageTextureAccess::ReadWrite,
            format: TextureFormat::R8Uint,
            view_dimension: TextureViewDimension::D3,
        })
    );
    assert_eq!(
        create_binding_type_for_image(ImageDimension::D2, false, ImageClass::Storage { format: StorageFormat::Rgba8Unorm, access: 1 }),
        Some(BindingType::StorageTexture {
            access: StorageTextureAccess::ReadOnly,
            format: TextureFormat::Rgba8Unorm,
            view_dimension: TextureViewDimension::D2,
        })
    );
    assert_eq!(
        create_binding_type_for_image(ImageDimension::D2, false, ImageClass::Storage { format: StorageFormat::R32Float, access: 0 }),
        None
    );
    assert_eq!(create_binding_type_for_sampler(true), BindingType::Sampler(SamplerBindingType::Filtering));
    assert_eq!(create_binding_type_for_sampler(false), BindingType::Sampler(SamplerBindingType::NonFiltering));
}

#[test]
fn uniforms_are_packed_into_their_group_buffer() {
    let uniforms = vec![
        UniformData { group: 0, binding: 0, bytes: Some(vec![1, 2, 3, 4]) },
        UniformData { group: 1, binding: 0, bytes: Some(vec![9]) },
        UniformData { group: 0, binding: 1, bytes: None },
        UniformData { group: 0, binding: 2, bytes: Some(vec![5, 6]) },
    ];
    let (buffer, entries) = pack_uniform_group(&uniforms, 0);
    assert_eq!(buffer, vec![1, 2, 3, 4, 5, 6]);
    assert_eq!(
        entries,
        vec![
            GroupEntry { binding: 0, resource: EntryResource::Buffer { offset: 0, size: 4 } },
            GroupEntry { binding: 1, resource: EntryResource::Resource },
            GroupEntry { binding: 2, resource: EntryResource::Buffer { offset: 4, size: 2 } },
        ]
    );
    let (buffer, entries) = pack_uniform_group(&uniforms, 1);
    assert_eq!(buffer, vec![9]);
    assert_eq!(entries, vec![GroupEntry { binding: 0, resource: EntryResource::Buffer { offset: 0, size: 1 } }]);
    let (buffer, entries) = pack_uniform_group(&uniforms, 2);
    assert!(buffer.is_empty() && entries.is_empty());
}

#[test]
fn a_repeated_binding_takes_the_first_size() {
    let uniforms = vec![
        UniformData { group: 0, binding: 3, bytes: Some(vec![7, 7, 7]) },
        UniformData { group: 0, binding: 3, bytes: Some(vec![8]) },
    ];
    let (buffer, entries) = pack_uniform_group(&uniforms, 0);
    assert_eq!(buffer, vec![7, 7, 7, 8]);
    assert_eq!(
        entries,
        vec![
            GroupEntry { binding: 3, resource: EntryResource::Buffer { offset: 0, size: 3 } },
            GroupEntry { binding: 3, resource: EntryResource::Buffer { offset: 3, size: 3 } },
        ]
    );
}

#[test]
fn bind_groups_run_up_to_the_first_missing_index() {
    assert_eq!(bind_group_count(&vec![1, 0, 3]), 2);
    assert_eq!(bind_group_count(&vec![]), 0);
    assert_eq!(bind_group_count(&vec![2, 1]), 0);
    assert_eq!(bind_group_count(&vec![0, 1, 2]), 3);
}

#[test]
fn each_frame_has_its_own_duration() {
    let mut sprite = SpriteSheetSprite::from_sprite_sheet_dimensions(2, 2);
    let mut a = SpriteAnimation::new(vec![(Duration::from_millis(80), (0, 0)), (Duration::from_millis(125), (1, 0))]);
    assert_eq!(a.frame_duration(), Duration::from_millis(80));
    a.step(&mut sprite, false, Instant::now());
    a.step(&mut sprite, true, Instant::now());
    assert_eq!(a.frame_duration(), Duration::from_millis(125));
    assert_eq!((sprite.tile_x, sprite.tile_y), (1, 0));
}

#[test]
fn uniform_types_take_their_bindings() {
    assert_eq!(
        create_binding_type(&TypeInner::Vector { size: VectorSize::Tri, kind: ScalarKind::Float, width: 4 }),
        Some(BindingType::UniformBuffer { min_binding_size: Some(12) })
    );
    assert_eq!(
        create_binding_type(&TypeInner::Matrix { columns: VectorSize::Quad, rows: VectorSize::Quad, width: 4 }),
        Some(BindingType::UniformBuffer { min_binding_size: Some(64) })
    );
    assert_eq!(
        create_binding_type(&TypeInner::Scalar { kind: ScalarKind::Uint, width: 4 }),
        Some(BindingType::UniformBuffer { min_binding_size: Some(4) })
    );
    assert_eq!(
        create_binding_type(&TypeInner::Struct { span: 0 }),
        Some(BindingType::UniformBuffer { min_binding_size: None })
    );
    assert_eq!(
        create_binding_type(&TypeInner::Sampler { comparison: false }),
        Some(BindingType::Sampler(SamplerBindingType::NonFiltering))
    );
    assert_eq!(
        create_binding_type(&TypeInner::Image { dim: ImageDimension::D1, arrayed: true, class: ImageClass::Depth { multi: false } }),
        None
    );
    assert_eq!(create_binding_type(&TypeInner::Other), None);
}

#[test]
fn the_loop_exits_on_close() {
    assert_eq!(loop_action(&LoopEvent::CloseRequested { own_window: true }), LoopAction::Exit);
    assert_eq!(loop_action(&LoopEvent::CloseRequested { own_window: false }), LoopAction::Wait);
    assert_eq!(loop_action(&LoopEvent::RedrawRequested), LoopAction::RunSystems);
    assert_eq!(loop_action(&LoopEvent::MainEventsCleared), LoopAction::RequestRedraw);
    assert_eq!(loop_action(&LoopEvent::Other), LoopAction::Wait);
    assert!(!closes_app(&vec![]));
    assert!(closes_app(&vec![Command::CloseApp]));
}
