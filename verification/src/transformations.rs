//! Builtin transformations: shader selection and shader parameter
//! computation for the fixed scene operations.
//!
//! Compiling a shader is the compositing backend's work; a `Shader` here is
//! the handle the selection logic deals in, tagged with which builtin
//! operation it implements. Parameter computation (layout coordinates to
//! pixels) is plain arithmetic and verified exactly.

use vstd::prelude::*;

use crate::types::Resolution;

verus! {

broadcast use vstd::string::to_string_from_display_ensures_for_str;

/// A color as four 8-bit channels: red, green, blue, alpha.
#[derive(Clone, Copy, Debug, PartialEq, Eq, Structural)]
pub struct RGBAColor(pub u8, pub u8, pub u8, pub u8);

/// A rotation in whole degrees.
#[derive(Clone, Copy, Debug, PartialEq, Eq, Structural)]
pub struct Degree(pub i32);

/// A layout coordinate: absolute pixels, or percent of the output dimension.
#[derive(Clone, Copy, Debug, PartialEq, Eq, Structural)]
pub enum Coord {
    Pixel(i32),
    Percent(i32),
}

/// Placement of one input texture in a fixed-position layout.
#[derive(Clone, Copy, Debug, PartialEq, Eq, Structural)]
pub struct TextureLayout {
    pub top: Coord,
    pub left: Coord,
    pub rotation: Degree,
}

/// How an input is fitted to the output resolution.
#[derive(Clone, Copy, Debug, PartialEq, Eq, Structural)]
pub enum TransformToResolution {
    /// Stretch to fill, ignoring aspect ratio.
    Stretch,
    /// Fill, cropping what overflows.
    Fill,
    /// Fit inside, padding with a background color.
    Fit { background_color_rgba: RGBAColor },
}

/// One builtin transformation of the scene language.
pub enum BuiltinTransformationSpec {
    TransformToResolution(TransformToResolution),
    FixedPositionLayout {
        texture_layouts: Vec<TextureLayout>,
        background_color_rgba: RGBAColor,
    },
}

/// Which builtin operation a compiled shader implements.
#[derive(Clone, Copy, Debug, PartialEq, Eq, Structural)]
pub enum ShaderKind {
    StretchToResolution,
    FillToResolution,
    FitToResolution,
    FixedPositionLayout,
}

/// Handle to one compiled shader of the compositing backend.
#[derive(Clone, Copy, Debug, PartialEq, Eq, Structural)]
pub struct Shader {
    pub kind: ShaderKind,
}

/// Failure to compile a shader. Raised by the compositing backend outside
/// this library; the handles modeled here cannot fail to build.
#[derive(Clone, Copy, Debug, PartialEq, Eq, Structural)]
pub enum ShaderNewError {
    CompilationFailed,
}

/// A value handed to a shader.
pub enum ShaderParam {
    I32(i32),
    List(Vec<ShaderParam>),
    Struct(Vec<ShaderParamStructField>),
}

/// One named field of a struct-shaped shader parameter.
pub struct ShaderParamStructField {
    pub field_name: String,
    pub value: ShaderParam,
}

/// A coordinate resolved to signed pixels against the output dimension
/// `max_size`: pixels pass through; percent is `max_size * p / 100`, rounded
/// toward zero and clamped to the signed 32-bit range.
pub open spec fn pixels_spec(c: Coord, max_size: u32) -> int {
    match c {
        Coord::Pixel(p) => p as int,
        Coord::Percent(p) => {
            let mag = (max_size * (if p < 0 {
                -(p as int)
            } else {
                p as int
            })) / 100;
            let v = if p < 0 {
                -mag
            } else {
                mag
            };
            if v > i32::MAX {
                i32::MAX as int
            } else if v < i32::MIN {
                i32::MIN as int
            } else {
                v
            }
        },
    }
}

impl Coord {
    /// Resolve this coordinate against the output dimension `max_size`.
    pub fn pixels(&self, max_size: u32) -> (r: i32)
        ensures
            r == pixels_spec(*self, max_size),
    {
        match *self {
            Coord::Pixel(p) => p,
            Coord::Percent(p) => {
                let mag_in: u64 = if p < 0 {
                    (-(p as i64)) as u64
                } else {
                    p as u64
                };
                proof {
                    assert(mag_in as int <= 2147483648int);
                    assert((max_size as int) * (mag_in as int) <= 4294967295int * 2147483648int)
                        by (nonlinear_arith)
                        requires
                            0 <= max_size as int <= 4294967295int,
                            0 <= mag_in as int <= 2147483648int,
                    ;
                }
                let mag: u64 = (max_size as u64 * mag_in) / 100;
                if p < 0 {
                    if mag > 2147483648u64 {
                        i32::MIN
                    } else {
                        (-(mag as i64)) as i32
                    }
                } else {
                    if mag > i32::MAX as u64 {
                        i32::MAX
                    } else {
                        mag as i32
                    }
                }
            },
        }
    }
}

/// The builtin transformations, each holding the shader compiled for it.
pub struct BuiltinTransformations {
    pub transform_resolution: ConvertResolutionTransformations,
    pub fixed_position_layout: FixedPositionLayout,
}

impl BuiltinTransformations {
    /// Compile the shaders of all builtin transformations.
    pub fn new() -> (r: Result<BuiltinTransformations, ShaderNewError>)
        ensures
            r matches Ok(t) && {
                &&& t.transform_resolution.stretch.kind == ShaderKind::StretchToResolution
                &&& t.transform_resolution.fill.kind == ShaderKind::FillToResolution
                &&& t.transform_resolution.fit.kind == ShaderKind::FitToResolution
                &&& t.fixed_position_layout.0.kind == ShaderKind::FixedPositionLayout
            },
    {
        let transform_resolution = match ConvertResolutionTransformations::new() {
            Ok(t) => t,
            Err(e) => {
                return Err(e);
            },
        };
        let fixed_position_layout = match FixedPositionLayout::new() {
            Ok(t) => t,
            Err(e) => {
                return Err(e);
            },
        };
        Ok(BuiltinTransformations { transform_resolution, fixed_position_layout })
    }

    /// The shader that implements `transformation`.
    pub fn shader(&self, transformation: &BuiltinTransformationSpec) -> (r: Shader)
        ensures
            r.kind == match *transformation {
                BuiltinTransformationSpec::TransformToResolution(
                    TransformToResolution::Stretch,
                ) => self.transform_resolution.stretch.kind,
                BuiltinTransformationSpec::TransformToResolution(TransformToResolution::Fill) => self.transform_resolution.fill.kind,
                BuiltinTransformationSpec::TransformToResolution(
                    TransformToResolution::Fit { .. },
                ) => self.transform_resolution.fit.kind,
                BuiltinTransformationSpec::FixedPositionLayout { .. } => self.fixed_position_layout.0.kind,
            },
    {
        match transformation {
            BuiltinTransformationSpec::TransformToResolution(TransformToResolution::Stretch) => {
                self.transform_resolution.stretch
            },
            BuiltinTransformationSpec::TransformToResolution(TransformToResolution::Fill) => {
                self.transform_resolution.fill
            },
            BuiltinTransformationSpec::TransformToResolution(TransformToResolution::Fit { .. }) => {
                self.transform_resolution.fit
            },
            BuiltinTransformationSpec::FixedPositionLayout { .. } => self.fixed_position_layout.0,
        }
    }

    /// The shader parameters for `transformation` at `output_resolution`:
    /// nothing for the resolution transforms; for a fixed-position layout,
    /// one struct per texture layout with its `top` and `left` coordinates
    /// resolved to pixels, its rotation, and padding.
    pub fn params(
        transformation: &BuiltinTransformationSpec,
        output_resolution: &Resolution,
    ) -> (r: Option<ShaderParam>)
        requires
            output_resolution.width <= u32::MAX,
            output_resolution.height <= u32::MAX,
        ensures
            (*transformation matches BuiltinTransformationSpec::TransformToResolution(_))
                ==> r is None,
            *transformation matches BuiltinTransformationSpec::FixedPositionLayout {
                texture_layouts,
                ..
            } ==> (r matches Some(p) && p matches ShaderParam::List(items)
                && items@.len() == texture_layouts@.len() && (forall|k: int|
                0 <= k < items@.len() ==> layout_param_matches(
                    #[trigger] items@[k],
                    texture_layouts@[k],
                    output_resolution.width as u32,
                    output_resolution.height as u32,
                ))),
    {
        match transformation {
            BuiltinTransformationSpec::TransformToResolution(_) => None,
            BuiltinTransformationSpec::FixedPositionLayout { texture_layouts, .. } => {
                let width: u32 = output_resolution.width as u32;
                let height: u32 = output_resolution.height as u32;
                let mut layouts: Vec<ShaderParam> = Vec::new();
                let mut i: usize = 0;
                while i < texture_layouts.len()
                    invariant
                        0 <= i <= texture_layouts@.len(),
                        layouts@.len() == i,
                        forall|k: int|
                            0 <= k < i ==> layout_param_matches(
                                #[trigger] layouts@[k],
                                texture_layouts@[k],
                                width,
                                height,
                            ),
                    decreases texture_layouts@.len() - i,
                {
                    let layout = texture_layouts[i];
                    let mut fields: Vec<ShaderParamStructField> = Vec::new();
                    fields.push(
                        ShaderParamStructField {
                            field_name: "top".to_string(),
                            value: ShaderParam::I32(layout.top.pixels(height)),
                        },
                    );
                    fields.push(
                        ShaderParamStructField {
                            field_name: "left".to_string(),
                            value: ShaderParam::I32(layout.left.pixels(width)),
                        },
                    );
                    fields.push(
                        ShaderParamStructField {
                            field_name: "rotation".to_string(),
                            value: ShaderParam::I32(layout.rotation.0),
                        },
                    );
                    fields.push(
                        ShaderParamStructField {
                            field_name: "_padding".to_string(),
                            value: ShaderParam::I32(0),
                        },
                    );
                    layouts.push(ShaderParam::Struct(fields));
                    i += 1;
                }
                Some(ShaderParam::List(layouts))
            },
        }
    }
}

/// The struct-shaped parameter `p` is exactly the resolved form of `layout`
/// at the output dimensions `width` and `height`.
pub open spec fn layout_param_matches(
    p: ShaderParam,
    layout: TextureLayout,
    width: u32,
    height: u32,
) -> bool {
    &&& p matches ShaderParam::Struct(fs)
    &&& {
        let fs = p->Struct_0;
        &&& fs@.len() == 4
        &&& fs@[0].field_name@ == "top"@
        &&& fs@[0].value matches ShaderParam::I32(v) && v == pixels_spec(layout.top, height)
        &&& fs@[1].field_name@ == "left"@
        &&& fs@[1].value matches ShaderParam::I32(v) && v == pixels_spec(layout.left, width)
        &&& fs@[2].field_name@ == "rotation"@
        &&& fs@[2].value matches ShaderParam::I32(v) && v == layout.rotation.0
        &&& fs@[3].field_name@ == "_padding"@
        &&& fs@[3].value matches ShaderParam::I32(v) && v == 0
    }
}

/// The shaders fitting an input to the output resolution.
pub struct ConvertResolutionTransformations {
    pub stretch: Shader,
    pub fill: Shader,
    pub fit: Shader,
}

impl ConvertResolutionTransformations {
    /// Compile the three resolution-conversion shaders.
    pub fn new() -> (r: Result<ConvertResolutionTransformations, ShaderNewError>)
        ensures
            r matches Ok(t) && {
                &&& t.stretch.kind == ShaderKind::StretchToResolution
                &&& t.fill.kind == ShaderKind::FillToResolution
                &&& t.fit.kind == ShaderKind::FitToResolution
            },
    {
        Ok(
            ConvertResolutionTransformations {
                stretch: Shader { kind: ShaderKind::StretchToResolution },
                fill: Shader { kind: ShaderKind::FillToResolution },
                fit: Shader { kind: ShaderKind::FitToResolution },
            },
        )
    }
}

/// The shader placing inputs at fixed positions.
pub struct FixedPositionLayout(pub Shader);

impl FixedPositionLayout {
    /// Compile the fixed-position layout shader.
    pub fn new() -> (r: Result<FixedPositionLayout, ShaderNewError>)
        ensures
            r matches Ok(t) && t.0.kind == ShaderKind::FixedPositionLayout,
    {
        Ok(FixedPositionLayout(Shader { kind: ShaderKind::FixedPositionLayout }))
    }
}

} // verus!
