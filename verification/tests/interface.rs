use voxel_world::game::renderer::chunk::{align_up, WorldUniforms};
use voxel_world::game::renderer::ui::{UiBuilder, UiPrimitive};
use voxel_world::game::texture::TextureId;
use voxel_world::imgui::{RectSides, ScreenRect, Style};
use voxel_world::input::InputElementState::{Held, JustPressed, JustReleased, Released};
use voxel_world::input::{Input, InputElementState};
use voxel_world::math::{vec2, vec3, DotProduct, Rect, Vector, VectorInto};

#[test]
fn align_up_to_powers_of_two() {
    assert_eq!(align_up(0, 256), 0);
    assert_eq!(align_up(1, 256), 256);
    assert_eq!(align_up(64, 256), 256);
    assert_eq!(align_up(256, 256), 256);
    assert_eq!(align_up(257, 256), 512);
    assert_eq!(align_up(64, 64), 64);
    assert_eq!(align_up(64, 16), 64);
    assert_eq!(align_up(65, 16), 80);
    assert_eq!(align_up(7, 1), 7);
}

#[test]
fn uniforms_layout() {
    let uniforms = WorldUniforms::new(256);
    assert_eq!(uniforms.camera_uniform_offset(), 0);
    assert_eq!(uniforms.camera_uniform_size(), 64);
    assert_eq!(uniforms.lighting_uniform_offset(), 256);
    assert_eq!(uniforms.lighting_uniform_size(), 16);
    assert_eq!(uniforms.camera_uniform_range(), 0..64);
    assert_eq!(uniforms.lighting_uniform_range(), 256..272);
    assert_eq!(uniforms.data().len(), 272);
    assert!(uniforms.data().iter().all(|&b| b == 0));

    let tight = WorldUniforms::new(16);
    assert_eq!(tight.lighting_uniform_range(), 64..80);
    assert_eq!(tight.data().len(), 80);
}

#[test]
fn uniforms_are_written_in_place() {
    let mut uniforms = WorldUniforms::new(128);
    let mut camera = [0u8; 64];
    for (i, byte) in camera.iter_mut().enumerate() {
        *byte = i as u8 + 1;
    }
    let lighting = [9u8; 16];
    uniforms.set_camera_uniform(&camera);
    uniforms.set_lighting_uniform(&lighting);
    assert_eq!(&uniforms.data()[0..64], &camera[..]);
    assert!(uniforms.data()[64..128].iter().all(|&b| b == 0));
    assert_eq!(&uniforms.data()[128..144], &lighting[..]);
    assert_eq!(uniforms.data().len(), 144);
}

#[test]
fn ui_builder_adds_quads() {
    let mut builder = UiBuilder::new(vec2(800, 601), vec2(256, 256));
    assert!(builder.add_rect(
        Rect { x: 392, y: 292, w: 17, h: 17 },
        Rect { x: 0, y: 0, w: 16, h: 16 }
    ));
    assert!(builder.add_rect(Rect { x: 0, y: 0, w: 5, h: 6 }, Rect { x: 16, y: 0, w: 16, h: 16 }));
    assert_eq!(builder.quads.len(), 2);
    let first = builder.quads[0];
    assert_eq!((first.rect.x, first.rect.y, first.rect.w, first.rect.h), (-8, -8, 17, 17));
    assert_eq!((first.uvs.x, first.uvs.y, first.uvs.w, first.uvs.h), (0, 0, 16, 16));
    let second = builder.quads[1];
    assert_eq!((second.rect.x, second.rect.y, second.rect.w, second.rect.h), (-400, -300, 5, 6));
    assert_eq!(builder.indices, vec![0, 1, 2, 0, 2, 3, 4, 5, 6, 4, 6, 7]);
    assert_eq!(
        builder.primitives,
        vec![UiPrimitive { offset: 0, count: 6 }, UiPrimitive { offset: 6, count: 6 }]
    );
}

#[test]
fn ui_builder_refuses_what_cannot_be_centred() {
    let mut builder = UiBuilder::new(vec2(800, 600), vec2(256, 256));
    assert!(!builder.add_rect(
        Rect { x: i32::MIN + 10, y: 0, w: 1, h: 1 },
        Rect { x: 0, y: 0, w: 1, h: 1 }
    ));
    assert!(builder.quads.is_empty());
    assert!(builder.indices.is_empty());
    assert!(builder.primitives.is_empty());
}

#[test]
fn margins_add_up() {
    let sides = RectSides { left: 1, right: 20, top: 300, bottom: 4000 };
    assert_eq!(sides.horizontal(), 21);
    assert_eq!(sides.vertical(), 4300);
    let negative = RectSides { left: -5, right: 2, top: -1, bottom: -1 };
    assert_eq!(negative.horizontal(), -3);
    assert_eq!(negative.vertical(), -2);
}

#[test]
fn window_is_centred() {
    let style = Style {
        window_title_margin: RectSides { left: 4, right: 6, top: 2, bottom: 3 },
        label_margin: RectSides { left: 0, right: 0, top: 0, bottom: 0 },
    };
    assert_eq!(
        style.centered_window(800, 600, 90, 15),
        ScreenRect { x: 350, y: 290, width: 100, height: 20 }
    );
    // a window wider than the screen starts left of it
    assert_eq!(
        style.centered_window(100, 10, 195, 16),
        ScreenRect { x: -52, y: -5, width: 205, height: 21 }
    );
}

#[test]
fn texture_rect_in_the_strip() {
    let rect = TextureId(3).rect();
    assert_eq!((rect.x, rect.y, rect.w, rect.h), (48, 0, 16, 16));
    assert_eq!((rect.x1(), rect.y1(), rect.x2(), rect.y2()), (48, 0, 64, 16));
    assert_eq!(rect.xy1().0, [48, 0]);
    assert_eq!(rect.xy2().0, [64, 16]);
    let doubled = rect.map(|c| c as i32 * 2);
    assert_eq!((doubled.x, doubled.y, doubled.w, doubled.h), (96, 0, 32, 32));
    assert_eq!((doubled.x2(), doubled.y2()), (128, 32));
}

#[test]
fn dot_product() {
    assert_eq!(vec3(1, 2, 3).dot(&vec3(4, -5, 6)), 12);
    assert_eq!(vec3(3, 4, 0).mag_squared(), 25);
    let big = Vector([i32::MIN; 4]);
    assert_eq!(big.dot(&big), 4 * (1i128 << 62));
    let empty: Vector<i32, 0> = Vector([]);
    assert_eq!(empty.dot(&empty), 0);
}

#[test]
fn tuples_as_vectors() {
    assert_eq!((7,).vector().0, [7]);
    assert_eq!((7, 8).vector().0, [7, 8]);
    assert_eq!((0, 0, 0).vector().0, [0, 0, 0]);
    assert_eq!(('a', 'b', 'c', 'd').vector().0, ['a', 'b', 'c', 'd']);
}

#[test]
fn key_goes_through_its_states() {
    assert_eq!(InputElementState::from_old_new(Released, true), JustPressed);
    assert_eq!(InputElementState::from_old_new(Released, false), Released);
    assert_eq!(InputElementState::from_old_new(JustPressed, true), Held);
    assert_eq!(InputElementState::from_old_new(JustPressed, false), JustReleased);
    assert_eq!(InputElementState::from_old_new(Held, true), Held);
    assert_eq!(InputElementState::from_old_new(Held, false), JustReleased);
    assert_eq!(InputElementState::from_old_new(JustReleased, true), JustPressed);
    assert_eq!(InputElementState::from_old_new(JustReleased, false), Released);
    for (state, held, changed, pressed, released) in [
        (Released, false, false, false, false),
        (JustPressed, true, true, true, false),
        (Held, true, false, false, false),
        (JustReleased, false, true, false, true),
    ] {
        assert_eq!(state.held(), held);
        assert_eq!(state.not_held(), changed);
        assert_eq!(state.just_pressed(), pressed);
        assert_eq!(state.just_released(), released);
    }
}

#[test]
fn input_follows_keys_and_buttons() {
    let mut input = Input::new();
    assert_eq!(input.key(0), Released);
    assert_eq!(input.button(255), Released);
    assert!(!input.close_requested());

    assert!(input.key_event(17, true));
    assert!(input.button_event(1, true));
    assert!(!input.key_event(256, true));
    assert!(!input.button_event(1000, false));
    assert_eq!(input.key(17), JustPressed);
    assert_eq!(input.button(1), JustPressed);
    assert_eq!(input.key(18), Released);
    assert_eq!(input.button(17), Released);

    input.reset_deltas();
    assert_eq!(input.key(17), Held);
    assert_eq!(input.button(1), Held);

    assert!(input.key_event(17, false));
    assert_eq!(input.key(17), JustReleased);
    assert_eq!(input.button(1), Held);
    input.reset_deltas();
    assert_eq!(input.key(17), Released);
    assert_eq!(input.button(1), Held);

    input.request_close();
    assert!(input.close_requested());
    input.reset_deltas();
    assert!(input.close_requested());
}
