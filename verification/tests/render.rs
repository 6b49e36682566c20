use richter::render::{attachment_descriptor, AttachmentKind, texture_descriptor, TextureDescriptor, TextureDimension, TextureUsages};
use richter::render::palette::PalettedImageLoaderSettings;
use richter::client::input::InputFocus;
use richter::render::palette::{conchars_indices, Palette};
use richter::render::uniform::UniformBool;
use richter::render::{
    plan_targets_update, targets_after_update, texture_upload, ui_plan, DiffuseData, Extent2d, Extent3d, FullbrightData,
    HudKind, InitPass, InitPassOutput, LightmapData, OverlayKind, TargetShape, TargetsState,
    TextureData, TextureFormat, UiPlan,
};

fn palette() -> Palette {
    let data: Vec<u8> = (0..768u32).map(|i| (i % 256) as u8).collect();
    Palette::new(&data)
}

#[test]
fn uniform_bool_values() {
    assert_eq!(UniformBool::new(true).value(), 1);
    assert_eq!(UniformBool::new(false).value(), 0);
}

#[test]
fn palette_colors() {
    let p = palette();
    assert_eq!(p.color(0), [0, 1, 2]);
    assert_eq!(p.color(100), [44, 45, 46]);
}

#[test]
fn translate_palette_indices() {
    let p = palette();
    let (diffuse, fullbright) = p.translate(&[1, 0xFF, 224]);
    assert_eq!(diffuse.rgba, vec![3, 4, 5, 0xFF, 0, 0, 0, 0, 160, 161, 162, 0xFF]);
    // one fullbright byte per pixel, 0 for a transparent one
    assert_eq!(fullbright.fullbright, vec![0, 0, 0xFF]);
}

#[test]
fn paletted_images() {
    let p = palette();
    assert_eq!(p.image_rgba(&[2, 7], 7), vec![6, 7, 8, 0xFF, 0, 0, 0, 0]);
    assert_eq!(conchars_indices(&[0, 5, 0]), vec![0xFF, 5, 0xFF]);
}

#[test]
fn texture_data_layout() {
    let d = TextureData::Diffuse(DiffuseData { rgba: vec![0; 16] });
    assert_eq!(d.format(), TextureFormat::Rgba8UnormSrgb);
    assert_eq!(d.stride(), 4);
    assert_eq!(d.size(), 16);
    let f = TextureData::Fullbright(FullbrightData { fullbright: vec![1, 2] });
    assert_eq!(f.format(), TextureFormat::R8Unorm);
    assert_eq!(f.stride(), 1);
    assert_eq!(f.data(), &[1, 2]);
    let l = TextureData::Lightmap(LightmapData { lightmap: vec![] });
    assert_eq!(l.stride(), 1);
    let up = texture_upload(0, 3, &d);
    assert_eq!(up.texture_size, Extent3d { width: 1, height: 3, depth_or_array_layers: 1 });
    assert_eq!(up.copy_size, Extent3d { width: 0, height: 3, depth_or_array_layers: 1 });
    assert_eq!(texture_upload(5, 2, &d).bytes_per_row, 20);
    assert_eq!(
        Extent2d { width: 3, height: 4 }.to_extent3d(),
        Extent3d { width: 3, height: 4, depth_or_array_layers: 1 }
    );
}

#[test]
fn init_pass_outputs() {
    let names: Vec<&str> = InitPass.output().into_iter().map(|o| o.slot_name()).collect();
    assert_eq!(names, vec!["init_diffuse", "init_normal", "init_light", "init_depth"]);
    assert_eq!(InitPassOutput::Depth.slot_name(), "init_depth");
}

#[test]
fn render_target_updates() {
    let size = Extent2d { width: 640, height: 480 };
    let shape = TargetShape { size, sample_count: 1 };
    let cur = TargetsState { sample_count: 1, initial: shape, deferred: shape, final_target: shape };
    let same = plan_targets_update(&cur, size, 1);
    assert!(!same.recreate_pipelines && !same.initial && !same.deferred && !same.final_target);
    let resized = plan_targets_update(&cur, Extent2d { width: 800, height: 600 }, 1);
    assert!(!resized.recreate_pipelines && resized.initial && resized.deferred && resized.final_target);
    let resampled = plan_targets_update(&cur, size, 4);
    assert!(resampled.recreate_pipelines && resampled.initial);
    // the final target is single-sampled: only a new size rebuilds it
    assert!(!resampled.final_target);
    let after = targets_after_update(size, 4);
    let again = plan_targets_update(&after, size, 4);
    assert!(!again.recreate_pipelines && !again.initial && !again.deferred && !again.final_target);
}

#[test]
fn ui_overlays() {
    assert_eq!(ui_plan(false, false, InputFocus::Console, true, true), None);
    assert_eq!(
        ui_plan(true, false, InputFocus::Console, true, true),
        Some(UiPlan { hud: HudKind::InGame, overlay: Some(OverlayKind::Console) })
    );
    assert_eq!(
        ui_plan(true, true, InputFocus::Menu, true, false),
        Some(UiPlan { hud: HudKind::Intermission, overlay: None })
    );
    assert_eq!(
        ui_plan(true, false, InputFocus::Game, true, true),
        Some(UiPlan { hud: HudKind::InGame, overlay: None })
    );
}

#[test]
fn texture_descriptors_and_loader_defaults() {
    assert_eq!(
        texture_descriptor(Some("lightmap"), 4, 2, TextureFormat::R8Unorm),
        TextureDescriptor {
            label: Some("lightmap".to_string()),
            size: Extent3d { width: 4, height: 2, depth_or_array_layers: 1 },
            mip_level_count: 1,
            sample_count: 1,
            dimension: TextureDimension::D2,
            format: TextureFormat::R8Unorm,
            usage: TextureUsages {
                copy_src: false,
                copy_dst: true,
                texture_binding: true,
                storage_binding: false,
                render_attachment: false,
            },
        }
    );
    assert_eq!(texture_descriptor(None, 1, 1, TextureFormat::R8Unorm).label, None);
    let s = PalettedImageLoaderSettings::default();
    assert_eq!(s.transparent, 0xFF);
    assert_eq!(s.dimensions, Extent2d { width: 256, height: 256 });
}

#[test]
fn attachment_descriptors() {
    let none = TextureUsages {
        copy_src: false,
        copy_dst: false,
        texture_binding: true,
        storage_binding: false,
        render_attachment: false,
    };
    let d = attachment_descriptor(AttachmentKind::Depth, Extent2d { width: 320, height: 200 }, 4, none);
    assert_eq!(d.label.as_deref(), Some("depth attachment"));
    assert_eq!(d.size, Extent3d { width: 320, height: 200, depth_or_array_layers: 1 });
    assert_eq!(d.sample_count, 4);
    assert_eq!(d.format, TextureFormat::Depth32Float);
    assert_eq!(d.dimension, TextureDimension::D2);
    assert!(d.usage.render_attachment && d.usage.texture_binding && !d.usage.copy_dst);
    let c = attachment_descriptor(AttachmentKind::Color, Extent2d { width: 1, height: 1 }, 1, none);
    assert_eq!(c.label.as_deref(), Some("color attachment"));
    assert_eq!(c.format, TextureFormat::Rgba8UnormSrgb);
}
