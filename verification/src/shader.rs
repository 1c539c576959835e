//! Where a shader program keeps the parameters that drawing the game needs.
//!
//! A renderer looks each parameter up by name in its shader program and
//! hands over what it found. The records here say which of the parameters
//! must be there, which may be missing, and which one is reported when
//! several are missing.

use vstd::prelude::*;

verus! {

/// Where a shader program keeps one parameter.
#[derive(Clone, Copy, Debug, PartialEq, Eq, Structural)]
pub struct ShaderParamInfo {
    pub index: usize,
}

/// A parameter that a shader program must have is missing.
#[derive(Clone, Debug, PartialEq, Eq)]
pub enum ShaderInfoError {
    /// The vertex attribute of this name.
    MissingAttribute(String),
    /// The uniform of this name.
    MissingUniform(String),
}

impl ShaderParamInfo {
    /// The vertex attribute `name`, given what looking it up brought.
    pub fn attribute(found: Option<ShaderParamInfo>, name: &str) -> (info: Result<
        ShaderParamInfo,
        ShaderInfoError,
    >)
        ensures
            match found {
                Some(param) => info == Ok::<ShaderParamInfo, ShaderInfoError>(param),
                None => info matches Err(ShaderInfoError::MissingAttribute(missing)) && missing@
                    == name@,
            },
    {
        match found {
            Some(param) => Ok(param),
            None => Err(ShaderInfoError::MissingAttribute(name.to_owned())),
        }
    }

    /// The uniform `name`, given what looking it up brought.
    pub fn uniform(found: Option<ShaderParamInfo>, name: &str) -> (info: Result<
        ShaderParamInfo,
        ShaderInfoError,
    >)
        ensures
            match found {
                Some(param) => info == Ok::<ShaderParamInfo, ShaderInfoError>(param),
                None => info matches Err(ShaderInfoError::MissingUniform(missing)) && missing@
                    == name@,
            },
    {
        match found {
            Some(param) => Ok(param),
            None => Err(ShaderInfoError::MissingUniform(name.to_owned())),
        }
    }
}

/// The uniforms of a light that shines from a point: `light.color` and
/// `light.position`.
#[derive(Clone, Copy, Debug, PartialEq, Eq, Structural)]
pub struct PointLightShaderInfo {
    pub color: ShaderParamInfo,
    pub position: ShaderParamInfo,
}

impl PointLightShaderInfo {
    /// The record of a program in which looking up the two uniforms brought
    /// `color` and `position`; `None` unless both are there.
    pub fn from_params(color: Option<ShaderParamInfo>, position: Option<ShaderParamInfo>) -> (info:
        Option<PointLightShaderInfo>)
        ensures
            info == match (color, position) {
                (Some(color), Some(position)) => Some(PointLightShaderInfo { color, position }),
                _ => None,
            },
    {
        match (color, position) {
            (Some(color), Some(position)) => Some(PointLightShaderInfo { color, position }),
            _ => None,
        }
    }
}

/// The uniforms of the sun's light: `sun.color` and `sun.direction`.
#[derive(Clone, Copy, Debug, PartialEq, Eq, Structural)]
pub struct SunLightShaderInfo {
    pub color: ShaderParamInfo,
    pub direction: ShaderParamInfo,
}

impl SunLightShaderInfo {
    /// The record of a program in which looking up the two uniforms brought
    /// `color` and `direction`; `None` unless both are there.
    pub fn from_params(color: Option<ShaderParamInfo>, direction: Option<ShaderParamInfo>) -> (info:
        Option<SunLightShaderInfo>)
        ensures
            info == match (color, direction) {
                (Some(color), Some(direction)) => Some(SunLightShaderInfo { color, direction }),
                _ => None,
            },
    {
        match (color, direction) {
            (Some(color), Some(direction)) => Some(SunLightShaderInfo { color, direction }),
            _ => None,
        }
    }
}

/// The uniforms of the world's light. A program may do without either.
#[derive(Clone, Copy, Debug, PartialEq, Eq)]
pub struct LightShaderInfo {
    pub sun: Option<SunLightShaderInfo>,
    /// The uniform `ambient`.
    pub ambient: Option<ShaderParamInfo>,
}

impl LightShaderInfo {
    /// The record of a program in which looking up the sun's uniforms and
    /// `ambient` brought these.
    pub fn from_params(
        sun_color: Option<ShaderParamInfo>,
        sun_direction: Option<ShaderParamInfo>,
        ambient: Option<ShaderParamInfo>,
    ) -> (info: LightShaderInfo)
        ensures
            info.ambient == ambient,
            info.sun == match (sun_color, sun_direction) {
                (Some(color), Some(direction)) => Some(SunLightShaderInfo { color, direction }),
                _ => None,
            },
    {
        LightShaderInfo { sun: SunLightShaderInfo::from_params(sun_color, sun_direction), ambient }
    }
}

/// What looking up the parameters of a line shader brought.
#[derive(Clone, Copy, Debug, PartialEq, Eq)]
pub struct LineShaderParams {
    /// The vertex attribute `position`.
    pub position: Option<ShaderParamInfo>,
    /// The uniform `color`.
    pub color: Option<ShaderParamInfo>,
    /// The uniform `projection`.
    pub projection: Option<ShaderParamInfo>,
    /// The uniform `view`.
    pub view_transform: Option<ShaderParamInfo>,
}

/// The parameters of the shader that draws lines. All of them must be there.
#[derive(Clone, Copy, Debug, PartialEq, Eq, Structural)]
pub struct LineShaderInfo {
    pub position: ShaderParamInfo,
    pub color: ShaderParamInfo,
    pub projection: ShaderParamInfo,
    pub view_transform: ShaderParamInfo,
}

impl LineShaderInfo {
    /// The record of a program whose parameters are `found`. If some are
    /// missing, the error names the first of them in the order `position`,
    /// `color`, `projection`, `view`.
    pub fn from_params(found: LineShaderParams) -> (info: Result<LineShaderInfo, ShaderInfoError>)
        ensures
            match (found.position, found.color, found.projection, found.view_transform) {
                (Some(position), Some(color), Some(projection), Some(view_transform)) => info
                    == Ok::<LineShaderInfo, ShaderInfoError>(
                    LineShaderInfo { position, color, projection, view_transform },
                ),
                (None, _, _, _) => info matches Err(ShaderInfoError::MissingAttribute(name))
                    && name@ == "position"@,
                (_, None, _, _) => info matches Err(ShaderInfoError::MissingUniform(name))
                    && name@ == "color"@,
                (_, _, None, _) => info matches Err(ShaderInfoError::MissingUniform(name))
                    && name@ == "projection"@,
                (_, _, _, None) => info matches Err(ShaderInfoError::MissingUniform(name))
                    && name@ == "view"@,
            },
    {
        let position = match ShaderParamInfo::attribute(found.position, "position") {
            Ok(param) => param,
            Err(error) => {
                return Err(error);
            },
        };
        let color = match ShaderParamInfo::uniform(found.color, "color") {
            Ok(param) => param,
            Err(error) => {
                return Err(error);
            },
        };
        let projection = match ShaderParamInfo::uniform(found.projection, "projection") {
            Ok(param) => param,
            Err(error) => {
                return Err(error);
            },
        };
        let view_transform = match ShaderParamInfo::uniform(found.view_transform, "view") {
            Ok(param) => param,
            Err(error) => {
                return Err(error);
            },
        };
        Ok(LineShaderInfo { position, color, projection, view_transform })
    }
}

/// What looking up the parameters of a material shader brought.
#[derive(Clone, Copy, Debug, PartialEq, Eq)]
pub struct MaterialShaderParams {
    /// The vertex attribute `position`.
    pub position: Option<ShaderParamInfo>,
    /// The vertex attribute `normal`.
    pub normal: Option<ShaderParamInfo>,
    /// The uniform `projection`.
    pub projection: Option<ShaderParamInfo>,
    /// The uniform `model`.
    pub model_transform: Option<ShaderParamInfo>,
    /// The uniform `view`.
    pub view_transform: Option<ShaderParamInfo>,
    /// The uniform `material.baseColor`.
    pub base_color: Option<ShaderParamInfo>,
    /// The uniform `material.metal`.
    pub metal_factor: Option<ShaderParamInfo>,
    /// The uniform `material.roughness`.
    pub roughness: Option<ShaderParamInfo>,
    /// The uniform `sun.color`.
    pub sun_color: Option<ShaderParamInfo>,
    /// The uniform `sun.direction`.
    pub sun_direction: Option<ShaderParamInfo>,
    /// The uniform `ambient`.
    pub ambient: Option<ShaderParamInfo>,
}

/// The parameters of the shader that draws bodies. The geometry and the
/// transforms must be there; the material and the lights may be missing.
#[derive(Clone, Copy, Debug, PartialEq, Eq)]
pub struct MaterialShaderInfo {
    pub position: ShaderParamInfo,
    pub normal: ShaderParamInfo,
    pub projection: ShaderParamInfo,
    pub model_transform: ShaderParamInfo,
    pub view_transform: ShaderParamInfo,
    pub base_color: Option<ShaderParamInfo>,
    pub metal_factor: Option<ShaderParamInfo>,
    pub roughness: Option<ShaderParamInfo>,
    pub lights: LightShaderInfo,
}

impl MaterialShaderParams {
    /// The record that these findings make, if nothing is missing that must
    /// be there.
    pub open spec fn info(self) -> Option<MaterialShaderInfo> {
        match (
            self.position,
            self.normal,
            self.projection,
            self.model_transform,
            self.view_transform,
        ) {
            (
                Some(position),
                Some(normal),
                Some(projection),
                Some(model_transform),
                Some(view_transform),
            ) => Some(
                MaterialShaderInfo {
                    position,
                    normal,
                    projection,
                    model_transform,
                    view_transform,
                    base_color: self.base_color,
                    metal_factor: self.metal_factor,
                    roughness: self.roughness,
                    lights: LightShaderInfo {
                        sun: match (self.sun_color, self.sun_direction) {
                            (Some(color), Some(direction)) => Some(
                                SunLightShaderInfo { color, direction },
                            ),
                            _ => None,
                        },
                        ambient: self.ambient,
                    },
                },
            ),
            _ => None,
        }
    }
}

impl MaterialShaderInfo {
    /// The record of a program whose parameters are `found`. If some that
    /// must be there are missing, the error names the first of them in the
    /// order `position`, `normal`, `projection`, `model`, `view`.
    pub fn from_params(found: MaterialShaderParams) -> (info: Result<
        MaterialShaderInfo,
        ShaderInfoError,
    >)
        ensures
            match found.info() {
                Some(complete) => info == Ok::<MaterialShaderInfo, ShaderInfoError>(complete),
                None => match (
                    found.position,
                    found.normal,
                    found.projection,
                    found.model_transform,
                ) {
                    (None, _, _, _) => info matches Err(ShaderInfoError::MissingAttribute(name))
                        && name@ == "position"@,
                    (_, None, _, _) => info matches Err(ShaderInfoError::MissingAttribute(name))
                        && name@ == "normal"@,
                    (_, _, None, _) => info matches Err(ShaderInfoError::MissingUniform(name))
                        && name@ == "projection"@,
                    (_, _, _, None) => info matches Err(ShaderInfoError::MissingUniform(name))
                        && name@ == "model"@,
                    _ => info matches Err(ShaderInfoError::MissingUniform(name)) && name@
                        == "view"@,
                },
            },
    {
        let position = match ShaderParamInfo::attribute(found.position, "position") {
            Ok(param) => param,
            Err(error) => {
                return Err(error);
            },
        };
        let normal = match ShaderParamInfo::attribute(found.normal, "normal") {
            Ok(param) => param,
            Err(error) => {
                return Err(error);
            },
        };
        let projection = match ShaderParamInfo::uniform(found.projection, "projection") {
            Ok(param) => param,
            Err(error) => {
                return Err(error);
            },
        };
        let model_transform = match ShaderParamInfo::uniform(found.model_transform, "model") {
            Ok(param) => param,
            Err(error) => {
                return Err(error);
            },
        };
        let view_transform = match ShaderParamInfo::uniform(found.view_transform, "view") {
            Ok(param) => param,
            Err(error) => {
                return Err(error);
            },
        };
        Ok(
            MaterialShaderInfo {
                position,
                normal,
                projection,
                model_transform,
                view_transform,
                base_color: found.base_color,
                metal_factor: found.metal_factor,
                roughness: found.roughness,
                lights: LightShaderInfo::from_params(
                    found.sun_color,
                    found.sun_direction,
                    found.ambient,
                ),
            },
        )
    }
}

} // verus!
