//! Graph-appearance vocabulary: rendering mode, lighting and palette choices,
//! the editable custom color, the persistent option set, and the central
//! RGB565 graph palette.
//!
//! These are tiny value types; changing any of them never requires expression
//! recompilation or surface resampling (resolution aside, which is reported
//! separately by the Settings layer).
use vstd::prelude::*;
use crate::keys::Color;
use crate::surface::ResolutionPreset;

verus! {

/// Most tick values generated along one axis.
pub const MAX_TICKS: usize = 12;

/// Surface rasterization style selected from Settings.
#[derive(Clone, Copy, Debug, PartialEq, Eq, Structural)]
pub enum RenderingMode {
    /// Original low-cost row/column wire mesh.
    Wireframe,
    /// Lit, depth-tested filled triangles.
    Solid,
}

/// The other rendering mode: there are exactly two, so both directions agree.
pub open spec fn other_mode(mode: RenderingMode) -> RenderingMode {
    match mode {
        RenderingMode::Wireframe => RenderingMode::Solid,
        RenderingMode::Solid => RenderingMode::Wireframe,
    }
}

impl RenderingMode {
    /// Cycles forward through the two user-visible modes.
    pub fn next(self) -> (result: RenderingMode)
        ensures
            result == other_mode(self),
    {
        match self {
            RenderingMode::Wireframe => RenderingMode::Solid,
            RenderingMode::Solid => RenderingMode::Wireframe,
        }
    }

    /// Cycles backward through the two user-visible modes.
    pub fn previous(self) -> (result: RenderingMode)
        ensures
            result == other_mode(self),
    {
        match self {
            RenderingMode::Wireframe => RenderingMode::Solid,
            RenderingMode::Solid => RenderingMode::Wireframe,
        }
    }
}

/// Bounded tone mappings applied to the cached per-triangle diffuse light.
#[derive(Clone, Copy, Debug, PartialEq, Eq, Structural)]
pub enum LightingPreset {
    /// Restrained contrast suitable for the default calculator display view.
    Standard,
    /// Higher ambient light for gentler shadows.
    Soft,
    /// Lower ambient light for stronger shape definition.
    Strong,
}

/// Number of lighting presets.
pub const LIGHTING_PRESET_COUNT: usize = 3;

impl LightingPreset {
    /// Position in declaration order: Standard 0, Soft 1, Strong 2.
    pub open spec fn spec_index(self) -> int {
        match self {
            LightingPreset::Standard => 0,
            LightingPreset::Soft => 1,
            LightingPreset::Strong => 2,
        }
    }

    /// Preset at a position of the cyclic order (taken modulo the count).
    pub open spec fn at(index: int) -> LightingPreset {
        let i = index % 3;
        if i == 0 {
            LightingPreset::Standard
        } else if i == 1 {
            LightingPreset::Soft
        } else {
            LightingPreset::Strong
        }
    }

    /// Advances one step in the cyclic order Standard, Soft, Strong.
    pub fn next(self) -> (result: LightingPreset)
        ensures
            result == LightingPreset::at(self.spec_index() + 1),
    {
        match self {
            LightingPreset::Standard => LightingPreset::Soft,
            LightingPreset::Soft => LightingPreset::Strong,
            LightingPreset::Strong => LightingPreset::Standard,
        }
    }

    /// Steps back one position in the cyclic order.
    pub fn previous(self) -> (result: LightingPreset)
        ensures
            result == LightingPreset::at(self.spec_index() + 2),
    {
        match self {
            LightingPreset::Standard => LightingPreset::Strong,
            LightingPreset::Soft => LightingPreset::Standard,
            LightingPreset::Strong => LightingPreset::Soft,
        }
    }

    /// Stable table index of this preset.
    pub fn index(self) -> (index: usize)
        ensures
            index == self.spec_index(),
            index < LIGHTING_PRESET_COUNT,
    {
        match self {
            LightingPreset::Standard => 0,
            LightingPreset::Soft => 1,
            LightingPreset::Strong => 2,
        }
    }
}

/// An RGB888 color used only to configure Solid shading.
#[derive(Clone, Copy, Debug, PartialEq, Eq, Structural)]
pub struct Rgb888 {
    pub red: u8,
    pub green: u8,
    pub blue: u8,
}

/// RGB565 packing by truncation: the top 5, 6 and 5 bits of each channel.
pub open spec fn spec_rgb565(red: u8, green: u8, blue: u8) -> int {
    (red / 8) * 2048 + (green / 4) * 32 + blue / 8
}

impl Rgb888 {
    /// Initial editable color. It remains independent from the built-in Blue.
    pub open spec fn spec_default_custom() -> Rgb888 {
        Rgb888 { red: 128, green: 192, blue: 255 }
    }

    /// Initial editable color. It remains independent from the built-in Blue.
    pub fn default_custom() -> (color: Rgb888)
        ensures
            color == Rgb888::spec_default_custom(),
    {
        Rgb888 { red: 128, green: 192, blue: 255 }
    }

    /// Converts eight-bit channels to RGB565 using deterministic truncation.
    pub fn to_rgb565(self) -> (packed: u16)
        ensures
            packed == spec_rgb565(self.red, self.green, self.blue),
    {
        let red = self.red as u16;
        let green = self.green as u16;
        let blue = self.blue as u16;
        let packed = ((red & 0xf8) << 8) | ((green & 0xfc) << 3) | (blue >> 3);
        assert(packed == (red / 8) * 2048 + (green / 4) * 32 + blue / 8) by (bit_vector)
            requires
                red < 256,
                green < 256,
                blue < 256,
                packed == ((red & 0xf8) << 8) | ((green & 0xfc) << 3) | (blue >> 3),
        ;
        packed
    }

    /// Compact identity: `red * 65536 + green * 256 + blue`.
    pub fn packed(self) -> (packed: u32)
        ensures
            packed == self.red * 65536 + self.green * 256 + self.blue,
    {
        let red = self.red as u32;
        let green = self.green as u32;
        let blue = self.blue as u32;
        let packed = (red << 16) | (green << 8) | blue;
        assert(packed == red * 65536 + green * 256 + blue) by (bit_vector)
            requires
                red < 256,
                green < 256,
                blue < 256,
                packed == (red << 16) | (green << 8) | blue,
        ;
        packed
    }
}

/// Solid-only base colors. Wireframe deliberately retains its released color.
#[derive(Clone, Copy, Debug, PartialEq, Eq, Structural)]
pub enum SurfacePalette {
    Blue,
    Green,
    Orange,
    Purple,
    Gray,
    Red,
    Cyan,
    Yellow,
    White,
    Custom,
}

/// Number of built-in (table-backed) palettes; Custom follows them.
pub const BUILTIN_PALETTE_COUNT: usize = 9;
/// Number of palette choices, Custom included.
pub const PALETTE_COUNT: usize = 10;

impl SurfacePalette {
    /// Position in declaration order, Blue 0 through Custom 9.
    pub open spec fn spec_index(self) -> int {
        match self {
            SurfacePalette::Blue => 0,
            SurfacePalette::Green => 1,
            SurfacePalette::Orange => 2,
            SurfacePalette::Purple => 3,
            SurfacePalette::Gray => 4,
            SurfacePalette::Red => 5,
            SurfacePalette::Cyan => 6,
            SurfacePalette::Yellow => 7,
            SurfacePalette::White => 8,
            SurfacePalette::Custom => 9,
        }
    }

    /// Palette at a position of the cyclic order (taken modulo ten).
    pub open spec fn at(index: int) -> SurfacePalette {
        let i = index % 10;
        if i == 0 {
            SurfacePalette::Blue
        } else if i == 1 {
            SurfacePalette::Green
        } else if i == 2 {
            SurfacePalette::Orange
        } else if i == 3 {
            SurfacePalette::Purple
        } else if i == 4 {
            SurfacePalette::Gray
        } else if i == 5 {
            SurfacePalette::Red
        } else if i == 6 {
            SurfacePalette::Cyan
        } else if i == 7 {
            SurfacePalette::Yellow
        } else if i == 8 {
            SurfacePalette::White
        } else {
            SurfacePalette::Custom
        }
    }

    /// Advances one step in declaration order, wrapping from Custom to Blue.
    pub fn next(self) -> (result: SurfacePalette)
        ensures
            result == SurfacePalette::at(self.spec_index() + 1),
    {
        match self {
            SurfacePalette::Blue => SurfacePalette::Green,
            SurfacePalette::Green => SurfacePalette::Orange,
            SurfacePalette::Orange => SurfacePalette::Purple,
            SurfacePalette::Purple => SurfacePalette::Gray,
            SurfacePalette::Gray => SurfacePalette::Red,
            SurfacePalette::Red => SurfacePalette::Cyan,
            SurfacePalette::Cyan => SurfacePalette::Yellow,
            SurfacePalette::Yellow => SurfacePalette::White,
            SurfacePalette::White => SurfacePalette::Custom,
            SurfacePalette::Custom => SurfacePalette::Blue,
        }
    }

    /// Steps back one position, wrapping from Blue to Custom.
    pub fn previous(self) -> (result: SurfacePalette)
        ensures
            result == SurfacePalette::at(self.spec_index() + 9),
    {
        match self {
            SurfacePalette::Blue => SurfacePalette::Custom,
            SurfacePalette::Green => SurfacePalette::Blue,
            SurfacePalette::Orange => SurfacePalette::Green,
            SurfacePalette::Purple => SurfacePalette::Orange,
            SurfacePalette::Gray => SurfacePalette::Purple,
            SurfacePalette::Red => SurfacePalette::Gray,
            SurfacePalette::Cyan => SurfacePalette::Red,
            SurfacePalette::Yellow => SurfacePalette::Cyan,
            SurfacePalette::White => SurfacePalette::Yellow,
            SurfacePalette::Custom => SurfacePalette::White,
        }
    }

    /// Stable position of this palette.
    pub fn index(self) -> (index: usize)
        ensures
            index == self.spec_index(),
            index < PALETTE_COUNT,
    {
        match self {
            SurfacePalette::Blue => 0,
            SurfacePalette::Green => 1,
            SurfacePalette::Orange => 2,
            SurfacePalette::Purple => 3,
            SurfacePalette::Gray => 4,
            SurfacePalette::Red => 5,
            SurfacePalette::Cyan => 6,
            SurfacePalette::Yellow => 7,
            SurfacePalette::White => 8,
            SurfacePalette::Custom => 9,
        }
    }

    /// Index into the built-in tables, or `None` for Custom.
    pub fn builtin_index(self) -> (index: Option<usize>)
        ensures
            self.spec_index() < BUILTIN_PALETTE_COUNT ==> index == Some(self.spec_index() as usize),
            self.spec_index() >= BUILTIN_PALETTE_COUNT ==> index is None,
            index is None <==> self == SurfacePalette::Custom,
    {
        let index = self.index();
        if index < BUILTIN_PALETTE_COUNT {
            Some(index)
        } else {
            None
        }
    }
}

/// Every palette and lighting cycle is a bijection: one step forward then
/// one step back (and vice versa) returns the starting choice, and a full
/// round of steps visits every choice before repeating.
pub proof fn appearance_cycles_round_trip(palette: SurfacePalette, lighting: LightingPreset)
    ensures
        SurfacePalette::at(SurfacePalette::at(palette.spec_index() + 1).spec_index() + 9) == palette,
        SurfacePalette::at(SurfacePalette::at(palette.spec_index() + 9).spec_index() + 1) == palette,
        LightingPreset::at(LightingPreset::at(lighting.spec_index() + 1).spec_index() + 2) == lighting,
        LightingPreset::at(LightingPreset::at(lighting.spec_index() + 2).spec_index() + 1) == lighting,
        forall|i: int| 0 <= i < 10 ==> #[trigger] SurfacePalette::at(i).spec_index() == i,
        forall|i: int| 0 <= i < 3 ==> #[trigger] LightingPreset::at(i).spec_index() == i,
{
}

/// Solid base colors of the built-in palettes, in palette order.
pub const SOLID_SURFACE_COLORS: [u16; 9] = [
    0x2d9f,
    0x2da5,
    0xfd20,
    0x881f,
    0x9cf3,
    0xf800,
    0x07ff,
    0xffe0,
    0xffff,
];

/// Persistent graph-appearance options.
#[derive(Clone, Copy, Debug, PartialEq, Eq, Structural)]
pub struct GraphOptions {
    /// Height-field rasterization path.
    pub rendering_mode: RenderingMode,
    /// Solid-only ambient/diffuse response.
    pub lighting: LightingPreset,
    /// Solid-only RGB565 base tint.
    pub surface_palette: SurfacePalette,
    /// User-maintained RGB888 base used when `surface_palette` is Custom.
    pub custom_rgb: Rgb888,
    /// Fixed surface sampling density. Standard is the released 25x19 grid.
    pub resolution: ResolutionPreset,
    /// World-space grid on the XY plane.
    pub show_grid: bool,
    /// World-space X/Y/Z axes and origin.
    pub show_axes: bool,
    /// Short world-space marks along visible axes.
    pub show_ticks: bool,
    /// Numeric tick values and X/Y/Z bitmap labels.
    pub show_labels: bool,
    /// Shows the latest complete graph redraw duration in Settings.
    pub show_performance: bool,
}

impl GraphOptions {
    /// Released defaults: wireframe with full coordinate context.
    pub open spec fn spec_default() -> GraphOptions {
        GraphOptions {
            rendering_mode: RenderingMode::Wireframe,
            lighting: LightingPreset::Standard,
            surface_palette: SurfacePalette::Blue,
            custom_rgb: Rgb888::spec_default_custom(),
            resolution: ResolutionPreset::Standard,
            show_grid: true,
            show_axes: true,
            show_ticks: true,
            show_labels: true,
            show_performance: false,
        }
    }
}

impl Default for GraphOptions {
    /// Released defaults: wireframe with full coordinate context.
    fn default() -> (options: GraphOptions)
        ensures
            options == GraphOptions::spec_default(),
    {
        GraphOptions {
            rendering_mode: RenderingMode::Wireframe,
            lighting: LightingPreset::Standard,
            surface_palette: SurfacePalette::Blue,
            custom_rgb: Rgb888::default_custom(),
            resolution: ResolutionPreset::Standard,
            show_grid: true,
            show_axes: true,
            show_ticks: true,
            show_labels: true,
            show_performance: false,
        }
    }
}

/// Central RGB565 graph palette.
#[derive(Clone, Copy, Debug, PartialEq, Eq, Structural)]
pub struct GraphPalette {
    pub background: Color,
    pub surface: Color,
    pub grid: Color,
    pub x_axis: Color,
    pub y_axis: Color,
    pub z_axis: Color,
    pub origin: Color,
    pub text: Color,
}

/// Restrained default graph colors stored as 16-bit RGB565 values.
pub open spec fn spec_palette() -> GraphPalette {
    GraphPalette {
        background: Color { rgb565: 0xffff },
        surface: Color { rgb565: 0x001f },
        grid: Color { rgb565: 0xd69a },
        x_axis: Color { rgb565: 0xb800 },
        y_axis: Color { rgb565: 0x05a0 },
        z_axis: Color { rgb565: 0x001f },
        origin: Color { rgb565: 0xfd20 },
        text: Color { rgb565: 0x630c },
    }
}

/// Restrained default graph colors stored as 16-bit RGB565 values.
pub fn palette() -> (palette: GraphPalette)
    ensures
        palette == spec_palette(),
{
    GraphPalette {
        background: Color { rgb565: 0xffff },
        surface: Color { rgb565: 0x001f },
        grid: Color { rgb565: 0xd69a },
        x_axis: Color { rgb565: 0xb800 },
        y_axis: Color { rgb565: 0x05a0 },
        z_axis: Color { rgb565: 0x001f },
        origin: Color { rgb565: 0xfd20 },
        text: Color { rgb565: 0x630c },
    }
}

/// Axes that mathematically intersect the current XY domain.
#[derive(Clone, Copy, Debug, PartialEq, Eq, Structural)]
pub struct AxisVisibility {
    pub x: bool,
    pub y: bool,
    pub z: bool,
}

/// Axis visibility from the two facts that decide it: whether the domain's
/// X range contains zero (the Y axis `x = 0` crosses it) and whether its Y
/// range contains zero (the X axis `y = 0` crosses it). The Z axis stands at
/// the origin, so it needs both.
pub fn axis_visibility(x_range_has_zero: bool, y_range_has_zero: bool) -> (axes: AxisVisibility)
    ensures
        axes.x == y_range_has_zero,
        axes.y == x_range_has_zero,
        axes.z == (x_range_has_zero && y_range_has_zero),
{
    AxisVisibility { x: y_range_has_zero, y: x_range_has_zero, z: x_range_has_zero && y_range_has_zero }
}

} // verus!
