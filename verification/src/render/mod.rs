//! Rendering: texture data and formats, render-pass labels and outputs,
//! palettes, and the decision of which render targets to rebuild.

pub mod palette;
pub mod uniform;

use vstd::prelude::*;

use crate::client::input::InputFocus;

verus! {

/// The pixel formats of the textures and attachments the renderer creates.
#[derive(Clone, Copy, Debug, PartialEq, Eq, Structural)]
pub enum TextureFormat {
    Rgba8UnormSrgb,
    Rgba8Unorm,
    R8Unorm,
    Depth32Float,
}

/// Format of diffuse (colour) textures.
pub const DIFFUSE_TEXTURE_FORMAT: TextureFormat = TextureFormat::Rgba8UnormSrgb;

/// Format of fullbright masks.
pub const FULLBRIGHT_TEXTURE_FORMAT: TextureFormat = TextureFormat::R8Unorm;

/// Format of lightmaps.
pub const LIGHTMAP_TEXTURE_FORMAT: TextureFormat = TextureFormat::R8Unorm;

/// Format of the diffuse attachment of the initial pass.
pub const DIFFUSE_ATTACHMENT_FORMAT: TextureFormat = TextureFormat::Rgba8UnormSrgb;

/// Format of the final attachment.
pub const FINAL_ATTACHMENT_FORMAT: TextureFormat = TextureFormat::Rgba8UnormSrgb;

/// Format of the normal attachment of the initial pass.
pub const NORMAL_ATTACHMENT_FORMAT: TextureFormat = TextureFormat::Rgba8Unorm;

/// Format of the light attachment of the initial pass.
pub const LIGHT_ATTACHMENT_FORMAT: TextureFormat = TextureFormat::Rgba8Unorm;

/// Format of the depth attachment of the initial pass.
pub const DEPTH_ATTACHMENT_FORMAT: TextureFormat = TextureFormat::Depth32Float;

/// Bytes per pixel of a colour format; depth formats have no byte stride.
pub open spec fn spec_bytes_per_pixel(format: TextureFormat) -> Option<u32> {
    match format {
        TextureFormat::Rgba8UnormSrgb | TextureFormat::Rgba8Unorm => Some(4u32),
        TextureFormat::R8Unorm => Some(1u32),
        TextureFormat::Depth32Float => None,
    }
}

/// RGBA colour data, four bytes per pixel.
pub struct DiffuseData {
    pub rgba: Vec<u8>,
}

/// Fullbright mask, one byte per pixel.
pub struct FullbrightData {
    pub fullbright: Vec<u8>,
}

/// Lightmap data, one byte per pixel.
pub struct LightmapData {
    pub lightmap: Vec<u8>,
}

/// Pixel data for a texture, in one of the three kinds the renderer uploads.
pub enum TextureData {
    Diffuse(DiffuseData),
    Fullbright(FullbrightData),
    Lightmap(LightmapData),
}

impl TextureData {
    /// The bytes of the texture, whatever its kind.
    pub open spec fn spec_data(&self) -> Seq<u8> {
        match self {
            TextureData::Diffuse(d) => d.rgba@,
            TextureData::Fullbright(d) => d.fullbright@,
            TextureData::Lightmap(d) => d.lightmap@,
        }
    }

    /// The format a texture of this kind is created with.
    pub open spec fn spec_format(&self) -> TextureFormat {
        match self {
            TextureData::Diffuse(_) => DIFFUSE_TEXTURE_FORMAT,
            TextureData::Fullbright(_) => FULLBRIGHT_TEXTURE_FORMAT,
            TextureData::Lightmap(_) => LIGHTMAP_TEXTURE_FORMAT,
        }
    }

    pub fn format(&self) -> (r: TextureFormat)
        ensures
            r == self.spec_format(),
    {
        match self {
            TextureData::Diffuse(_) => DIFFUSE_TEXTURE_FORMAT,
            TextureData::Fullbright(_) => FULLBRIGHT_TEXTURE_FORMAT,
            TextureData::Lightmap(_) => LIGHTMAP_TEXTURE_FORMAT,
        }
    }

    pub fn data(&self) -> (r: &[u8])
        ensures
            r@ == self.spec_data(),
    {
        match self {
            TextureData::Diffuse(d) => d.rgba.as_slice(),
            TextureData::Fullbright(d) => d.fullbright.as_slice(),
            TextureData::Lightmap(d) => d.lightmap.as_slice(),
        }
    }

    /// Bytes per pixel of the texture's format.
    pub fn stride(&self) -> (r: u32)
        ensures
            spec_bytes_per_pixel(self.spec_format()) == Some(r),
    {
        match self.format() {
            TextureFormat::Rgba8UnormSrgb | TextureFormat::Rgba8Unorm => 4,
            TextureFormat::R8Unorm => 1,
            TextureFormat::Depth32Float => 4,
        }
    }

    /// Size of the texture data in bytes.
    pub fn size(&self) -> (r: u64)
        ensures
            r == self.spec_data().len(),
    {
        self.data().len() as u64
    }
}

/// Width and height of a two-dimensional surface.
#[derive(Copy, Clone, Debug, PartialEq, Eq, Structural)]
pub struct Extent2d {
    pub width: u32,
    pub height: u32,
}

/// Width, height and layer count of a texture.
#[derive(Copy, Clone, Debug, PartialEq, Eq, Structural)]
pub struct Extent3d {
    pub width: u32,
    pub height: u32,
    pub depth_or_array_layers: u32,
}

impl Extent2d {
    /// The same surface as a texture extent of one layer.
    pub fn to_extent3d(self) -> (r: Extent3d)
        ensures
            r == (Extent3d { width: self.width, height: self.height, depth_or_array_layers: 1 }),
    {
        Extent3d { width: self.width, height: self.height, depth_or_array_layers: 1 }
    }
}

/// Number of dimensions of a texture.
#[derive(Copy, Clone, Debug, PartialEq, Eq, Structural)]
pub enum TextureDimension {
    D1,
    D2,
    D3,
}

/// What a texture may be used for.
#[derive(Copy, Clone, Debug, PartialEq, Eq, Structural)]
pub struct TextureUsages {
    pub copy_src: bool,
    pub copy_dst: bool,
    pub texture_binding: bool,
    pub storage_binding: bool,
    pub render_attachment: bool,
}

/// How a texture is created: its label, size, mip levels, samples,
/// dimensions, format and uses.
#[derive(Clone, Debug, PartialEq, Eq)]
pub struct TextureDescriptor {
    pub label: Option<String>,
    pub size: Extent3d,
    pub mip_level_count: u32,
    pub sample_count: u32,
    pub dimension: TextureDimension,
    pub format: TextureFormat,
    pub usage: TextureUsages,
}

/// The uses of a texture that data is copied into and that is sampled.
pub open spec fn sampled_copy_target() -> TextureUsages {
    TextureUsages {
        copy_src: false,
        copy_dst: true,
        texture_binding: true,
        storage_binding: false,
        render_attachment: false,
    }
}

/// The description of a two-dimensional texture, with one mip level and
/// one sample, to copy data into and sample from.
pub fn texture_descriptor(label: Option<&str>, width: u32, height: u32, format: TextureFormat) -> (r:
    TextureDescriptor)
    ensures
        r.label is None <==> label is None,
        r.label matches Some(l) ==> (label matches Some(g) && l@ == g@),
        r.size == (Extent3d { width, height, depth_or_array_layers: 1 }),
        r.mip_level_count == 1,
        r.sample_count == 1,
        r.dimension == TextureDimension::D2,
        r.format == format,
        r.usage == sampled_copy_target(),
{
    let label = match label {
        Some(l) => Some(l.to_string()),
        None => None,
    };
    TextureDescriptor {
        label,
        size: Extent3d { width, height, depth_or_array_layers: 1 },
        mip_level_count: 1,
        sample_count: 1,
        dimension: TextureDimension::D2,
        format,
        usage: TextureUsages {
            copy_src: false,
            copy_dst: true,
            texture_binding: true,
            storage_binding: false,
            render_attachment: false,
        },
    }
}

/// The attachments of the G-buffer.
#[derive(Copy, Clone, Debug, PartialEq, Eq, Structural)]
pub enum AttachmentKind {
    Color,
    Normal,
    Light,
    Depth,
}

/// The format of an attachment.
pub open spec fn attachment_format(kind: AttachmentKind) -> TextureFormat {
    match kind {
        AttachmentKind::Color => DIFFUSE_ATTACHMENT_FORMAT,
        AttachmentKind::Normal => NORMAL_ATTACHMENT_FORMAT,
        AttachmentKind::Light => LIGHT_ATTACHMENT_FORMAT,
        AttachmentKind::Depth => DEPTH_ATTACHMENT_FORMAT,
    }
}

/// The label of an attachment.
pub open spec fn attachment_label(kind: AttachmentKind) -> Seq<char> {
    match kind {
        AttachmentKind::Color => "color attachment"@,
        AttachmentKind::Normal => "normal attachment"@,
        AttachmentKind::Light => "light attachment"@,
        AttachmentKind::Depth => "depth attachment"@,
    }
}

/// The description of a G-buffer attachment: a labelled two-dimensional
/// texture of the attachment's format with one mip level and the given
/// sample count, usable as a render attachment and for the other given uses.
pub fn attachment_descriptor(kind: AttachmentKind, size: Extent2d, sample_count: u32, usage: TextureUsages) -> (r:
    TextureDescriptor)
    ensures
        r.label matches Some(l) && l@ == attachment_label(kind),
        r.size == (Extent3d { width: size.width, height: size.height, depth_or_array_layers: 1 }),
        r.mip_level_count == 1,
        r.sample_count == sample_count,
        r.dimension == TextureDimension::D2,
        r.format == attachment_format(kind),
        r.usage == (TextureUsages { render_attachment: true, ..usage }),
{
    let (label, format) = match kind {
        AttachmentKind::Color => (String::from_str("color attachment"), DIFFUSE_ATTACHMENT_FORMAT),
        AttachmentKind::Normal => (String::from_str("normal attachment"), NORMAL_ATTACHMENT_FORMAT),
        AttachmentKind::Light => (String::from_str("light attachment"), LIGHT_ATTACHMENT_FORMAT),
        AttachmentKind::Depth => (String::from_str("depth attachment"), DEPTH_ATTACHMENT_FORMAT),
    };
    TextureDescriptor {
        label: Some(label),
        size: size.to_extent3d(),
        mip_level_count: 1,
        sample_count,
        dimension: TextureDimension::D2,
        format,
        usage: TextureUsages { render_attachment: true, ..usage },
    }
}

/// Layout of a texture upload: the texture is created at least one pixel in
/// each direction, and each row of the data holds `width * stride` bytes.
#[derive(Copy, Clone, Debug, PartialEq, Eq, Structural)]
pub struct TextureUpload {
    pub texture_size: Extent3d,
    pub copy_size: Extent3d,
    pub bytes_per_row: u32,
}

/// How `create_texture` lays out a texture of the given size and data.
pub fn texture_upload(width: u32, height: u32, data: &TextureData) -> (r: TextureUpload)
    requires
        width * 4 <= u32::MAX,
    ensures
        r.texture_size == (Extent3d {
            width: if width >= 1 { width } else { 1 },
            height: if height >= 1 { height } else { 1 },
            depth_or_array_layers: 1,
        }),
        r.copy_size == (Extent3d { width, height, depth_or_array_layers: 1 }),
        spec_bytes_per_pixel(data.spec_format()) matches Some(s) && r.bytes_per_row == width * s,
{
    let w = if width >= 1 { width } else { 1 };
    let h = if height >= 1 { height } else { 1 };
    let stride = data.stride();
    TextureUpload {
        texture_size: Extent3d { width: w, height: h, depth_or_array_layers: 1 },
        copy_size: Extent3d { width, height, depth_or_array_layers: 1 },
        bytes_per_row: width * stride,
    }
}

/// Label of the initial (geometry) render pass.
#[derive(Debug, Hash, PartialEq, Eq, Clone, Copy, Structural)]
pub struct InitPassLabel;

/// The initial render pass, which draws the world into the G-buffer.
#[derive(Default)]
pub struct InitPass;

/// The outputs of the initial pass.
#[derive(Clone, Copy, Debug, PartialEq, Eq, Structural)]
pub enum InitPassOutput {
    Diffuse,
    Normal,
    Light,
    Depth,
}

impl InitPassOutput {
    /// The name of the output slot this output is written to.
    pub fn slot_name(self) -> (r: &'static str)
        ensures
            self == InitPassOutput::Diffuse ==> r@ == "init_diffuse"@,
            self == InitPassOutput::Normal ==> r@ == "init_normal"@,
            self == InitPassOutput::Light ==> r@ == "init_light"@,
            self == InitPassOutput::Depth ==> r@ == "init_depth"@,
    {
        match self {
            InitPassOutput::Diffuse => "init_diffuse",
            InitPassOutput::Normal => "init_normal",
            InitPassOutput::Light => "init_light",
            InitPassOutput::Depth => "init_depth",
        }
    }
}

impl InitPass {
    /// The output slots the pass declares, in order.
    pub fn output(&self) -> (r: Vec<InitPassOutput>)
        ensures
            r@ == seq![
                InitPassOutput::Diffuse,
                InitPassOutput::Normal,
                InitPassOutput::Light,
                InitPassOutput::Depth,
            ],
    {
        let mut v: Vec<InitPassOutput> = Vec::new();
        v.push(InitPassOutput::Diffuse);
        v.push(InitPassOutput::Normal);
        v.push(InitPassOutput::Light);
        v.push(InitPassOutput::Depth);
        v
    }
}

/// Label of the deferred lighting pass.
#[derive(Debug, Hash, PartialEq, Eq, Clone, Copy, Structural)]
pub struct DeferredPassLabel;

/// The deferred lighting pass, which shades the G-buffer.
#[derive(Default)]
pub struct DeferredPass;

/// Size and sample count of one render target.
#[derive(Copy, Clone, Debug, PartialEq, Eq, Structural)]
pub struct TargetShape {
    pub size: Extent2d,
    pub sample_count: u32,
}

/// The current sample count of the pipelines and the shapes of the three
/// render targets.
#[derive(Copy, Clone, Debug, PartialEq, Eq, Structural)]
pub struct TargetsState {
    pub sample_count: u32,
    pub initial: TargetShape,
    pub deferred: TargetShape,
    pub final_target: TargetShape,
}

/// What a resize or sample-count change rebuilds.
#[derive(Copy, Clone, Debug, PartialEq, Eq, Structural)]
pub struct TargetsUpdate {
    pub recreate_pipelines: bool,
    pub initial: bool,
    pub deferred: bool,
    pub final_target: bool,
}

/// Decides what `GraphicsState::update` rebuilds for a new framebuffer size
/// and sample count: the pipelines when the sample count changes, the
/// initial and deferred targets when their size or sample count differs,
/// and the final target, which is always single-sampled, when its size
/// differs.
pub fn plan_targets_update(cur: &TargetsState, size: Extent2d, sample_count: u32) -> (r: TargetsUpdate)
    ensures
        r.recreate_pipelines == (cur.sample_count != sample_count),
        r.initial == (cur.initial.size != size || cur.initial.sample_count != sample_count),
        r.deferred == (cur.deferred.size != size || cur.deferred.sample_count != sample_count),
        r.final_target == (cur.final_target.size != size),
{
    TargetsUpdate {
        recreate_pipelines: cur.sample_count != sample_count,
        initial: cur.initial.size != size || cur.initial.sample_count != sample_count,
        deferred: cur.deferred.size != size || cur.deferred.sample_count != sample_count,
        final_target: cur.final_target.size != size,
    }
}

/// The sample count and target shapes after `GraphicsState::update`: the
/// initial and deferred targets have the new size and sample count, and the
/// final target the new size with one sample.
pub fn targets_after_update(size: Extent2d, sample_count: u32) -> (r: TargetsState)
    ensures
        r == (TargetsState {
            sample_count,
            initial: TargetShape { size, sample_count },
            deferred: TargetShape { size, sample_count },
            final_target: TargetShape { size, sample_count: 1 },
        }),
{
    TargetsState {
        sample_count,
        initial: TargetShape { size, sample_count },
        deferred: TargetShape { size, sample_count },
        final_target: TargetShape { size, sample_count: 1 },
    }
}

/// What is drawn over the game or title screen.
#[derive(Clone, Copy, Debug, PartialEq, Eq, Structural)]
pub enum OverlayKind {
    Menu,
    Console,
}

/// Which heads-up display is drawn in game.
#[derive(Clone, Copy, Debug, PartialEq, Eq, Structural)]
pub enum HudKind {
    /// The level is over: the intermission screen.
    Intermission,
    /// The status bar.
    InGame,
}

/// What the UI pass draws while connected.
#[derive(Clone, Copy, Debug, PartialEq, Eq, Structural)]
pub struct UiPlan {
    pub hud: HudKind,
    pub overlay: Option<OverlayKind>,
}

/// Decides what the UI pass draws: nothing unless connected; then the
/// intermission screen or the status bar, and over it the console or the
/// menu when it has focus and is there to draw.
pub fn ui_plan(
    connected: bool,
    intermission: bool,
    focus: InputFocus,
    has_console: bool,
    has_menu: bool,
) -> (r: Option<UiPlan>)
    ensures
        !connected ==> r is None,
        connected ==> r == Some(
            UiPlan {
                hud: if intermission {
                    HudKind::Intermission
                } else {
                    HudKind::InGame
                },
                overlay: match focus {
                    InputFocus::Console => if has_console {
                        Some(OverlayKind::Console)
                    } else {
                        None
                    },
                    InputFocus::Menu => if has_menu {
                        Some(OverlayKind::Menu)
                    } else {
                        None
                    },
                    InputFocus::Game => None,
                },
            },
        ),
{
    if !connected {
        return None;
    }
    let hud = if intermission {
        HudKind::Intermission
    } else {
        HudKind::InGame
    };
    let overlay = match focus {
        InputFocus::Console => if has_console {
            Some(OverlayKind::Console)
        } else {
            None
        },
        InputFocus::Menu => if has_menu {
            Some(OverlayKind::Menu)
        } else {
            None
        },
        InputFocus::Game => None,
    };
    Some(UiPlan { hud, overlay })
}

} // verus!
