//! The lighting filter primitives, `feDiffuseLighting` and `feSpecularLighting`, and
//! their light sources: their parameters, read from the elements' attributes.

use vstd::prelude::*;

use crate::css::{
    number_spec, value_of, CssNumber, CssParseError, NonNegative, NumberOptionalNumber, Parse,
    ONE_BITS,
};
use crate::document::{NodeKindView, Tree};
use crate::filters::{standard_attributes, FilterResolveError, Input, InputView, Primitive};
use crate::rect::IRect;
use crate::strings::str_eq;
use crate::surface_utils::ImageChannel;

verus! {

/// A light that shines in one direction, given by two angles in degrees.
#[derive(Debug, Clone, Copy, PartialEq, Eq, Structural)]
pub struct FeDistantLight {
    pub azimuth: CssNumber,
    pub elevation: CssNumber,
}

/// A light that shines from a point in all directions.
#[derive(Debug, Clone, Copy, PartialEq, Eq, Structural)]
pub struct FePointLight {
    pub x: CssNumber,
    pub y: CssNumber,
    pub z: CssNumber,
}

/// A light that shines from a point towards another, in a cone.
#[derive(Debug, Clone, Copy, PartialEq, Eq, Structural)]
pub struct FeSpotLight {
    pub x: CssNumber,
    pub y: CssNumber,
    pub z: CssNumber,
    pub points_at_x: CssNumber,
    pub points_at_y: CssNumber,
    pub points_at_z: CssNumber,
    pub specular_exponent: CssNumber,
    pub limiting_cone_angle: Option<CssNumber>,
}

/// A light source before applying affine transformations, straight out of the SVG.
#[derive(Debug, Clone, Copy, PartialEq, Eq, Structural)]
pub enum UntransformedLightSource {
    Distant(FeDistantLight),
    Point(FePointLight),
    Spot(FeSpotLight),
}

/// The number read from `value`, if it starts with a finite one.
pub open spec fn number_value(value: Seq<char>) -> Option<CssNumber> {
    match number_spec(value) {
        Ok((n, _)) => Some(n),
        Err(_) => None,
    }
}

/// The distant light after the attribute `name="value"`, or `None` if the value is
/// invalid.
pub open spec fn distant_attribute(l: FeDistantLight, name: Seq<char>, value: Seq<char>) -> Option<FeDistantLight> {
    if name == "azimuth"@ {
        match number_value(value) {
            Some(n) => Some(FeDistantLight { azimuth: n, ..l }),
            None => None,
        }
    } else if name == "elevation"@ {
        match number_value(value) {
            Some(n) => Some(FeDistantLight { elevation: n, ..l }),
            None => None,
        }
    } else {
        Some(l)
    }
}

/// The point light after the attribute `name="value"`, or `None` if the value is invalid.
pub open spec fn point_attribute(l: FePointLight, name: Seq<char>, value: Seq<char>) -> Option<FePointLight> {
    if name == "x"@ || name == "y"@ || name == "z"@ {
        match number_value(value) {
            Some(n) => Some(
                if name == "x"@ {
                    FePointLight { x: n, ..l }
                } else if name == "y"@ {
                    FePointLight { y: n, ..l }
                } else {
                    FePointLight { z: n, ..l }
                },
            ),
            None => None,
        }
    } else {
        Some(l)
    }
}

/// The names of the numeric attributes of a spot light.
pub open spec fn is_spot_number_name(name: Seq<char>) -> bool {
    ||| name == "x"@
    ||| name == "y"@
    ||| name == "z"@
    ||| name == "pointsAtX"@
    ||| name == "pointsAtY"@
    ||| name == "pointsAtZ"@
    ||| name == "specularExponent"@
    ||| name == "limitingConeAngle"@
}

/// The spot light after the attribute `name="value"`, or `None` if the value is invalid.
pub open spec fn spot_attribute(l: FeSpotLight, name: Seq<char>, value: Seq<char>) -> Option<FeSpotLight> {
    if is_spot_number_name(name) {
        match number_value(value) {
            Some(n) => Some(
                if name == "x"@ {
                    FeSpotLight { x: n, ..l }
                } else if name == "y"@ {
                    FeSpotLight { y: n, ..l }
                } else if name == "z"@ {
                    FeSpotLight { z: n, ..l }
                } else if name == "pointsAtX"@ {
                    FeSpotLight { points_at_x: n, ..l }
                } else if name == "pointsAtY"@ {
                    FeSpotLight { points_at_y: n, ..l }
                } else if name == "pointsAtZ"@ {
                    FeSpotLight { points_at_z: n, ..l }
                } else if name == "specularExponent"@ {
                    FeSpotLight { specular_exponent: n, ..l }
                } else {
                    FeSpotLight { limiting_cone_angle: Some(n), ..l }
                },
            ),
            None => None,
        }
    } else {
        Some(l)
    }
}

/// The light source of kind `kind` (0 distant, 1 point, 2 spot) after the attribute
/// `name="value"`, or `None` if the value is invalid.
pub open spec fn light_attribute(s: UntransformedLightSource, name: Seq<char>, value: Seq<char>) -> Option<
    UntransformedLightSource,
> {
    match s {
        UntransformedLightSource::Distant(l) => match distant_attribute(l, name, value) {
            Some(m) => Some(UntransformedLightSource::Distant(m)),
            None => None,
        },
        UntransformedLightSource::Point(l) => match point_attribute(l, name, value) {
            Some(m) => Some(UntransformedLightSource::Point(m)),
            None => None,
        },
        UntransformedLightSource::Spot(l) => match spot_attribute(l, name, value) {
            Some(m) => Some(UntransformedLightSource::Spot(m)),
            None => None,
        },
    }
}

/// Reading an attribute of a light source sets exactly the parameter of that name to the
/// number that the value starts with, and leaves every other parameter and the kind of
/// light as they were; the attribute is refused only when it names a parameter of that
/// light and its value does not start with a number.
pub proof fn lemma_light_attribute_sets_its_parameter(
    s: UntransformedLightSource,
    name: Seq<char>,
    value: Seq<char>,
)
    ensures
        match (s, light_attribute(s, name, value)) {
            (UntransformedLightSource::Distant(l), Some(UntransformedLightSource::Distant(m))) => {
                &&& Some(m.azimuth) == (if name == "azimuth"@ { number_value(value) } else { Some(l.azimuth) })
                &&& Some(m.elevation) == (if name == "elevation"@ {
                    number_value(value)
                } else {
                    Some(l.elevation)
                })
            },
            (UntransformedLightSource::Point(l), Some(UntransformedLightSource::Point(m))) => {
                &&& Some(m.x) == (if name == "x"@ { number_value(value) } else { Some(l.x) })
                &&& Some(m.y) == (if name == "y"@ { number_value(value) } else { Some(l.y) })
                &&& Some(m.z) == (if name == "z"@ { number_value(value) } else { Some(l.z) })
            },
            (UntransformedLightSource::Spot(l), Some(UntransformedLightSource::Spot(m))) => {
                &&& Some(m.x) == (if name == "x"@ { number_value(value) } else { Some(l.x) })
                &&& Some(m.y) == (if name == "y"@ { number_value(value) } else { Some(l.y) })
                &&& Some(m.z) == (if name == "z"@ { number_value(value) } else { Some(l.z) })
                &&& Some(m.points_at_x) == (if name == "pointsAtX"@ {
                    number_value(value)
                } else {
                    Some(l.points_at_x)
                })
                &&& Some(m.points_at_y) == (if name == "pointsAtY"@ {
                    number_value(value)
                } else {
                    Some(l.points_at_y)
                })
                &&& Some(m.points_at_z) == (if name == "pointsAtZ"@ {
                    number_value(value)
                } else {
                    Some(l.points_at_z)
                })
                &&& Some(m.specular_exponent) == (if name == "specularExponent"@ {
                    number_value(value)
                } else {
                    Some(l.specular_exponent)
                })
                &&& m.limiting_cone_angle == (if name == "limitingConeAngle"@ {
                    number_value(value)
                } else {
                    l.limiting_cone_angle
                })
                &&& name == "limitingConeAngle"@ ==> number_value(value) is Some
            },
            (UntransformedLightSource::Distant(_), None) => (name == "azimuth"@ || name == "elevation"@)
                && number_value(value) is None,
            (UntransformedLightSource::Point(_), None) => (name == "x"@ || name == "y"@ || name == "z"@)
                && number_value(value) is None,
            (UntransformedLightSource::Spot(_), None) => (name == "x"@ || name == "y"@ || name == "z"@
                || name == "pointsAtX"@ || name == "pointsAtY"@ || name == "pointsAtZ"@ || name
                == "specularExponent"@ || name == "limitingConeAngle"@) && number_value(value) is None,
            _ => false,
        },
{
    reveal_strlit("azimuth");
    reveal_strlit("elevation");
    reveal_strlit("x");
    reveal_strlit("y");
    reveal_strlit("z");
    reveal_strlit("pointsAtX");
    reveal_strlit("pointsAtY");
    reveal_strlit("pointsAtZ");
    reveal_strlit("specularExponent");
    reveal_strlit("limitingConeAngle");
    assert("azimuth"@.len() == 7);
    assert("elevation"@.len() == 9);
    assert("x"@.len() == 1 && "x"@[0] == 'x');
    assert("y"@.len() == 1 && "y"@[0] == 'y');
    assert("z"@.len() == 1 && "z"@[0] == 'z');
    assert("pointsAtX"@.len() == 9 && "pointsAtX"@[8] == 'X');
    assert("pointsAtY"@.len() == 9 && "pointsAtY"@[8] == 'Y');
    assert("pointsAtZ"@.len() == 9 && "pointsAtZ"@[8] == 'Z');
    assert("specularExponent"@.len() == 16);
    assert("limitingConeAngle"@.len() == 17);
}

/// The light source after the attributes `attrs`, in order, up to the first invalid
/// one, and whether every one was valid.
pub open spec fn light_attributes(s: UntransformedLightSource, attrs: Seq<(Seq<char>, Seq<char>)>) -> (
    UntransformedLightSource,
    bool,
)
    decreases attrs.len(),
{
    if attrs.len() == 0 {
        (s, true)
    } else {
        match light_attribute(s, attrs[0].0, attrs[0].1) {
            Some(t) => light_attributes(t, attrs.drop_first()),
            None => (s, false),
        }
    }
}

/// A number, if `value` starts with a finite one.
fn read_number(value: &str) -> (r: Result<CssNumber, CssParseError>)
    ensures
        match number_value(value@) {
            Some(n) => r == Ok::<CssNumber, CssParseError>(n),
            None => r is Err,
        },
{
    match CssNumber::parse(value) {
        Ok((n, _)) => Ok(n),
        Err(e) => Err(e),
    }
}

/// The light source after the attribute `name="value"`.
fn set_light_attribute(s: UntransformedLightSource, name: &str, value: &str) -> (r: Result<
    UntransformedLightSource,
    CssParseError,
>)
    ensures
        match light_attribute(s, name@, value@) {
            Some(t) => r == Ok::<UntransformedLightSource, CssParseError>(t),
            None => r is Err,
        },
{
    match s {
        UntransformedLightSource::Distant(l) => {
            if str_eq(name, "azimuth") {
                let n = read_number(value)?;
                Ok(UntransformedLightSource::Distant(FeDistantLight { azimuth: n, ..l }))
            } else if str_eq(name, "elevation") {
                let n = read_number(value)?;
                Ok(UntransformedLightSource::Distant(FeDistantLight { elevation: n, ..l }))
            } else {
                Ok(s)
            }
        },
        UntransformedLightSource::Point(l) => {
            if str_eq(name, "x") {
                let n = read_number(value)?;
                Ok(UntransformedLightSource::Point(FePointLight { x: n, ..l }))
            } else if str_eq(name, "y") {
                let n = read_number(value)?;
                Ok(UntransformedLightSource::Point(FePointLight { y: n, ..l }))
            } else if str_eq(name, "z") {
                let n = read_number(value)?;
                Ok(UntransformedLightSource::Point(FePointLight { z: n, ..l }))
            } else {
                Ok(s)
            }
        },
        UntransformedLightSource::Spot(l) => {
            let m = if str_eq(name, "x") {
                FeSpotLight { x: read_number(value)?, ..l }
            } else if str_eq(name, "y") {
                FeSpotLight { y: read_number(value)?, ..l }
            } else if str_eq(name, "z") {
                FeSpotLight { z: read_number(value)?, ..l }
            } else if str_eq(name, "pointsAtX") {
                FeSpotLight { points_at_x: read_number(value)?, ..l }
            } else if str_eq(name, "pointsAtY") {
                FeSpotLight { points_at_y: read_number(value)?, ..l }
            } else if str_eq(name, "pointsAtZ") {
                FeSpotLight { points_at_z: read_number(value)?, ..l }
            } else if str_eq(name, "specularExponent") {
                FeSpotLight { specular_exponent: read_number(value)?, ..l }
            } else if str_eq(name, "limitingConeAngle") {
                FeSpotLight { limiting_cone_angle: Some(read_number(value)?), ..l }
            } else {
                l
            };
            Ok(UntransformedLightSource::Spot(m))
        },
    }
}

impl UntransformedLightSource {
    /// Reads the light's attributes, in order; an invalid value is an error, and the
    /// attributes after it are not read.
    pub fn set_attributes(&mut self, attrs: &Vec<(String, String)>) -> (r: Result<(), CssParseError>)
        ensures
            ({
                let (s, ok) = light_attributes(*old(self), attrs@.map_values(|a: (String, String)| (a.0@, a.1@)));
                &&& *final(self) == s
                &&& ok <==> r is Ok
            }),
    {
        let ghost av = attrs@.map_values(|a: (String, String)| (a.0@, a.1@));
        let mut i: usize = 0;
        assert(av.skip(0) =~= av);
        while i < attrs.len()
            invariant
                i <= attrs@.len(),
                av == attrs@.map_values(|a: (String, String)| (a.0@, a.1@)),
                light_attributes(*old(self), av) == light_attributes(*self, av.skip(i as int)),
            decreases attrs@.len() - i,
        {
            assert(av.skip(i as int)[0] == av[i as int]);
            assert(av.skip(i as int).drop_first() =~= av.skip(i + 1));
            *self = set_light_attribute(*self, attrs[i].0.as_str(), attrs[i].1.as_str())?;
            i = i + 1;
        }
        assert(av.skip(i as int).len() == 0);
        Ok(())
    }
}

/// The light source of the element named `name`, with no attribute read yet, if it is
/// one.
pub open spec fn default_light(name: Seq<char>) -> Option<UntransformedLightSource> {
    let zero = CssNumber(0);
    if name == "feDistantLight"@ {
        Some(UntransformedLightSource::Distant(FeDistantLight { azimuth: zero, elevation: zero }))
    } else if name == "fePointLight"@ {
        Some(UntransformedLightSource::Point(FePointLight { x: zero, y: zero, z: zero }))
    } else if name == "feSpotLight"@ {
        Some(
            UntransformedLightSource::Spot(
                FeSpotLight {
                    x: zero,
                    y: zero,
                    z: zero,
                    points_at_x: zero,
                    points_at_y: zero,
                    points_at_z: zero,
                    specular_exponent: zero,
                    limiting_cone_angle: None,
                },
            ),
        )
    } else {
        None
    }
}

/// The light source that an element named `name` starts from, if it is a light.
fn new_light(name: &str) -> (r: Option<UntransformedLightSource>)
    ensures
        r == default_light(name@),
{
    let zero = CssNumber(0);
    if str_eq(name, "feDistantLight") {
        Some(UntransformedLightSource::Distant(FeDistantLight { azimuth: zero, elevation: zero }))
    } else if str_eq(name, "fePointLight") {
        Some(UntransformedLightSource::Point(FePointLight { x: zero, y: zero, z: zero }))
    } else if str_eq(name, "feSpotLight") {
        Some(
            UntransformedLightSource::Spot(
                FeSpotLight {
                    x: zero,
                    y: zero,
                    z: zero,
                    points_at_x: zero,
                    points_at_y: zero,
                    points_at_z: zero,
                    specular_exponent: zero,
                    limiting_cone_angle: None,
                },
            ),
        )
    } else {
        None
    }
}

/// Whether node `i` is a light source element.
pub open spec fn is_light_node(t: Tree, i: int) -> bool {
    t.kind(i) matches NodeKindView::Element { name, .. } && default_light(name) is Some
}

/// The light source children among the child `c` and the children before it, in
/// document order.
pub open spec fn light_children_from(t: Tree, c: Option<usize>) -> Seq<usize>
    decreases (match c {
        Some(i) => i + 1,
        None => 0,
    }),
{
    match c {
        None => Seq::empty(),
        Some(i) => if i >= t.len() {
            Seq::empty()
        } else {
            let before = match t.prev_sibling(i as int) {
                Some(p) => if p < i {
                    light_children_from(t, Some(p))
                } else {
                    Seq::empty()
                },
                None => Seq::empty(),
            };
            if is_light_node(t, i as int) {
                before.push(i)
            } else {
                before
            }
        },
    }
}

/// The light source of the lighting primitive `node`: its only light source child,
/// with the child's attributes read.
pub open spec fn light_source_spec(t: Tree, node: usize) -> Result<UntransformedLightSource, FilterResolveError> {
    let lights = light_children_from(t, t.last_child(node as int));
    if lights.len() != 1 {
        Err(FilterResolveError::InvalidLightSourceCount)
    } else {
        let i = lights[0];
        match t.kind(i as int) {
            NodeKindView::Element { name, .. } => match light_attributes(
                default_light(name).unwrap(),
                t.attributes(i as int).unwrap(),
            ) {
                (s, true) => Ok(s),
                (_, false) => Err(FilterResolveError::ChildNodeInError),
            },
            _ => Err(FilterResolveError::InvalidLightSourceCount),
        }
    }
}

/// Finds the light source of the lighting primitive `node`: there must be exactly one
/// light source child, and its attributes must be valid.
pub fn light_source(t: &Tree, node: usize) -> (r: Result<UntransformedLightSource, FilterResolveError>)
    requires
        t.wf(),
        node < t.len(),
    ensures
        r == light_source_spec(*t, node),
{
    let mut found: Option<usize> = None;
    let mut c = t.last_child_of(node);
    assert(light_children_from(*t, c) + Seq::<usize>::empty() =~= light_children_from(*t, c));
    while c.is_some()
        invariant
            t.wf(),
            c matches Some(i) ==> i < t.len(),
            light_children_from(*t, t.last_child(node as int)) == light_children_from(*t, c) + match found {
                Some(j) => seq![j],
                None => Seq::<usize>::empty(),
            },
            found matches Some(j) ==> j < t.len() && is_light_node(*t, j as int),
        decreases (match c {
            Some(i) => i + 1,
            None => 0,
        }),
    {
        let i = c.unwrap();
        let prev = t.prev_sibling_of(i);
        let is_light = match t.element_name(i) {
            Some(name) => new_light(name.as_str()).is_some(),
            None => false,
        };
        if is_light {
            if found.is_some() {
                proof {
                    let total = light_children_from(*t, t.last_child(node as int));
                    assert(total.len() >= 2);
                }
                return Err(FilterResolveError::InvalidLightSourceCount);
            }
            assert(light_children_from(*t, prev).push(i) + Seq::<usize>::empty() =~= light_children_from(
                *t,
                prev,
            ) + seq![i]);
            found = Some(i);
        }
        c = prev;
    }
    let i = match found {
        Some(i) => i,
        None => return Err(FilterResolveError::InvalidLightSourceCount),
    };
    proof {
        let total = light_children_from(*t, t.last_child(node as int));
        assert(total =~= seq![i]);
    }
    let name = t.element_name(i).unwrap();
    let mut source = new_light(name.as_str()).unwrap();
    let attrs = t.element_attributes(i).unwrap();
    match source.set_attributes(attrs) {
        Ok(()) => Ok(source),
        Err(_) => Err(FilterResolveError::ChildNodeInError),
    }
}

/// Parameters of the `feDiffuseLighting` primitive, for rendering.
#[derive(Debug, PartialEq, Eq)]
pub struct DiffuseLightingParams {
    pub in1: Input,
    pub surface_scale: CssNumber,
    pub kernel_unit_length: Option<(CssNumber, CssNumber)>,
    pub diffuse_constant: CssNumber,
}

/// Parameters of the `feSpecularLighting` primitive, for rendering.
#[derive(Debug, PartialEq, Eq)]
pub struct SpecularLightingParams {
    pub in1: Input,
    pub surface_scale: CssNumber,
    pub kernel_unit_length: Option<(CssNumber, CssNumber)>,
    pub specular_constant: CssNumber,
    pub specular_exponent: CssNumber,
}

/// The numbers of a lighting primitive: the surface scale, the kernel unit length, the
/// constant (diffuse or specular) and the specular exponent.
pub struct LightingValues {
    pub surface_scale: CssNumber,
    pub kernel_unit_length: Option<(CssNumber, CssNumber)>,
    pub constant: CssNumber,
    pub specular_exponent: CssNumber,
}

/// The numbers after the attribute `name="value"` of a lighting primitive, or `None` if
/// the value is invalid; `constant_name` is `diffuseConstant` or `specularConstant`, and
/// `specularExponent` is read when `specular`.
pub open spec fn lighting_attribute(
    v: LightingValues,
    constant_name: Seq<char>,
    specular: bool,
    name: Seq<char>,
    value: Seq<char>,
) -> Option<LightingValues> {
    if name == "surfaceScale"@ {
        match number_value(value) {
            Some(n) => Some(LightingValues { surface_scale: n, ..v }),
            None => None,
        }
    } else if name == "kernelUnitLength"@ {
        match <NumberOptionalNumber<NonNegative> as Parse>::parse_spec(value) {
            Ok((NumberOptionalNumber(x, y), _)) => Some(LightingValues { kernel_unit_length: Some((x.0, y.0)), ..v }),
            Err(_) => None,
        }
    } else if name == constant_name {
        match <NonNegative as Parse>::parse_spec(value) {
            Ok((c, _)) => Some(LightingValues { constant: c.0, ..v }),
            Err(_) => None,
        }
    } else if specular && name == "specularExponent"@ {
        match number_value(value) {
            Some(n) => Some(LightingValues { specular_exponent: n, ..v }),
            None => None,
        }
    } else {
        Some(v)
    }
}

/// Reading an attribute of a lighting primitive sets exactly the number of that name to
/// the value read, and leaves the others as they were: `surfaceScale`, `kernelUnitLength`,
/// the primitive's own constant (`diffuseConstant` or `specularConstant`), and
/// `specularExponent` for specular lighting only; the attribute is refused only when it
/// is one of these and its value does not start with what that one is read from.
pub proof fn lemma_lighting_attribute_sets_its_parameter(
    v: LightingValues,
    constant_name: Seq<char>,
    specular: bool,
    name: Seq<char>,
    value: Seq<char>,
)
    requires
        constant_name == (if specular { "specularConstant"@ } else { "diffuseConstant"@ }),
    ensures
        match lighting_attribute(v, constant_name, specular, name, value) {
            Some(w) => {
                &&& Some(w.surface_scale) == (if name == "surfaceScale"@ {
                    number_value(value)
                } else {
                    Some(v.surface_scale)
                })
                &&& w.kernel_unit_length == (if name == "kernelUnitLength"@ {
                    match value_of::<NumberOptionalNumber<NonNegative>>(value) {
                        Some(NumberOptionalNumber(x, y)) => Some((x.0, y.0)),
                        None => None,
                    }
                } else {
                    v.kernel_unit_length
                })
                &&& name == "kernelUnitLength"@ ==> w.kernel_unit_length is Some
                &&& Some(w.constant) == (if name == constant_name {
                    match value_of::<NonNegative>(value) {
                        Some(c) => Some(c.0),
                        None => None,
                    }
                } else {
                    Some(v.constant)
                })
                &&& Some(w.specular_exponent) == (if specular && name == "specularExponent"@ {
                    number_value(value)
                } else {
                    Some(v.specular_exponent)
                })
            },
            None => {
                ||| name == "surfaceScale"@ && number_value(value) is None
                ||| name == "kernelUnitLength"@ && value_of::<NumberOptionalNumber<NonNegative>>(value) is None
                ||| name == constant_name && value_of::<NonNegative>(value) is None
                ||| specular && name == "specularExponent"@ && number_value(value) is None
            },
        },
{
    reveal_strlit("surfaceScale");
    reveal_strlit("kernelUnitLength");
    reveal_strlit("diffuseConstant");
    reveal_strlit("specularConstant");
    reveal_strlit("specularExponent");
    assert("surfaceScale"@.len() == 12);
    assert("kernelUnitLength"@.len() == 16 && "kernelUnitLength"@[0] == 'k');
    assert("diffuseConstant"@.len() == 15);
    assert("specularConstant"@.len() == 16 && "specularConstant"@[0] == 's' && "specularConstant"@[8] == 'C');
    assert("specularExponent"@.len() == 16 && "specularExponent"@[0] == 's' && "specularExponent"@[8] == 'E');
}

/// The lighting attributes applied in order, up to the first invalid one, and whether
/// every one was valid.
pub open spec fn lighting_attributes(
    v: LightingValues,
    constant_name: Seq<char>,
    specular: bool,
    attrs: Seq<(Seq<char>, Seq<char>)>,
) -> (LightingValues, bool)
    decreases attrs.len(),
{
    if attrs.len() == 0 {
        (v, true)
    } else {
        match lighting_attribute(v, constant_name, specular, attrs[0].0, attrs[0].1) {
            Some(w) => lighting_attributes(w, constant_name, specular, attrs.drop_first()),
            None => (v, false),
        }
    }
}

/// Reads the lighting attributes into the numbers of a lighting primitive.
fn read_lighting_attributes(
    surface_scale: &mut CssNumber,
    kernel_unit_length: &mut Option<(CssNumber, CssNumber)>,
    constant: &mut CssNumber,
    specular_exponent: &mut CssNumber,
    constant_name: &str,
    specular: bool,
    attrs: &Vec<(String, String)>,
) -> (r: Result<(), CssParseError>)
    ensures
        ({
            let (v, ok) = lighting_attributes(
                LightingValues {
                    surface_scale: *old(surface_scale),
                    kernel_unit_length: *old(kernel_unit_length),
                    constant: *old(constant),
                    specular_exponent: *old(specular_exponent),
                },
                constant_name@,
                specular,
                attrs@.map_values(|a: (String, String)| (a.0@, a.1@)),
            );
            &&& *final(surface_scale) == v.surface_scale
            &&& *final(kernel_unit_length) == v.kernel_unit_length
            &&& *final(constant) == v.constant
            &&& *final(specular_exponent) == v.specular_exponent
            &&& ok <==> r is Ok
        }),
{
    let ghost av = attrs@.map_values(|a: (String, String)| (a.0@, a.1@));
    let ghost v0 = LightingValues {
        surface_scale: *surface_scale,
        kernel_unit_length: *kernel_unit_length,
        constant: *constant,
        specular_exponent: *specular_exponent,
    };
    let mut i: usize = 0;
    assert(av.skip(0) =~= av);
    while i < attrs.len()
        invariant
            i <= attrs@.len(),
            av == attrs@.map_values(|a: (String, String)| (a.0@, a.1@)),
            lighting_attributes(v0, constant_name@, specular, av) == lighting_attributes(
                LightingValues {
                    surface_scale: *surface_scale,
                    kernel_unit_length: *kernel_unit_length,
                    constant: *constant,
                    specular_exponent: *specular_exponent,
                },
                constant_name@,
                specular,
                av.skip(i as int),
            ),
            v0 == (LightingValues {
                surface_scale: *old(surface_scale),
                kernel_unit_length: *old(kernel_unit_length),
                constant: *old(constant),
                specular_exponent: *old(specular_exponent),
            }),
        decreases attrs@.len() - i,
    {
        assert(av.skip(i as int)[0] == av[i as int]);
        assert(av.skip(i as int).drop_first() =~= av.skip(i + 1));
        let name = attrs[i].0.as_str();
        let value = attrs[i].1.as_str();
        if str_eq(name, "surfaceScale") {
            *surface_scale = read_number(value)?;
        } else if str_eq(name, "kernelUnitLength") {
            match NumberOptionalNumber::<NonNegative>::parse(value) {
                Ok((NumberOptionalNumber(x, y), _)) => *kernel_unit_length = Some((x.0, y.0)),
                Err(e) => return Err(e),
            }
        } else if str_eq(name, constant_name) {
            match NonNegative::parse(value) {
                Ok((c, _)) => *constant = c.0,
                Err(e) => return Err(e),
            }
        } else if specular && str_eq(name, "specularExponent") {
            *specular_exponent = read_number(value)?;
        }
        i = i + 1;
    }
    assert(av.skip(i as int).len() == 0);
    Ok(())
}

/// The `feDiffuseLighting` filter primitive.
#[derive(Debug, PartialEq, Eq)]
pub struct FeDiffuseLighting {
    pub base: Primitive,
    pub params: DiffuseLightingParams,
}

impl FeDiffuseLighting {
    /// A surface scale and a diffuse constant of 1, on an unspecified input.
    pub fn new() -> (f: FeDiffuseLighting)
        ensures
            f.params.in1 == Input::Unspecified,
            f.params.surface_scale == CssNumber(ONE_BITS),
            f.params.kernel_unit_length is None,
            f.params.diffuse_constant == CssNumber(ONE_BITS),
            f.base.x is None && f.base.y is None && f.base.width is None && f.base.height is None
                && f.base.result is None,
    {
        FeDiffuseLighting {
            base: Primitive::new(),
            params: DiffuseLightingParams {
                in1: Input::Unspecified,
                surface_scale: CssNumber(ONE_BITS),
                kernel_unit_length: None,
                diffuse_constant: CssNumber(ONE_BITS),
            },
        }
    }

    /// Reads the standard attributes with one input, then the surface scale, the kernel
    /// unit length and the diffuse constant, which must not be negative.
    pub fn set_attributes(&mut self, attrs: &Vec<(String, String)>) -> (r: Result<(), CssParseError>)
        ensures
            ({
                let av = attrs@.map_values(|a: (String, String)| (a.0@, a.1@));
                let (p, a, _, ok) = standard_attributes(
                    old(self).base.view(),
                    InputView::Unspecified,
                    InputView::Unspecified,
                    av,
                );
                let (v, rest_ok) = lighting_attributes(
                    LightingValues {
                        surface_scale: old(self).params.surface_scale,
                        kernel_unit_length: old(self).params.kernel_unit_length,
                        constant: old(self).params.diffuse_constant,
                        specular_exponent: CssNumber(0),
                    },
                    "diffuseConstant"@,
                    false,
                    av,
                );
                &&& final(self).base.view() == p
                &&& !ok ==> r is Err && final(self).params == old(self).params
                &&& ok ==> final(self).params.in1.view() == a && final(self).params.surface_scale
                    == v.surface_scale && final(self).params.kernel_unit_length
                    == v.kernel_unit_length && final(self).params.diffuse_constant == v.constant
                    && (r is Ok <==> rest_ok)
            }),
    {
        self.params.in1 = match self.base.parse_one_input(attrs) {
            Ok(i) => i,
            Err(e) => return Err(e),
        };
        let mut unused = CssNumber(0);
        proof {
            reveal_strlit("diffuseConstant");
        }
        read_lighting_attributes(
            &mut self.params.surface_scale,
            &mut self.params.kernel_unit_length,
            &mut self.params.diffuse_constant,
            &mut unused,
            "diffuseConstant",
            false,
            attrs,
        )
    }
}

/// The `feSpecularLighting` filter primitive.
#[derive(Debug, PartialEq, Eq)]
pub struct FeSpecularLighting {
    pub base: Primitive,
    pub params: SpecularLightingParams,
}

impl FeSpecularLighting {
    /// A surface scale, a specular constant and a specular exponent of 1, on an
    /// unspecified input.
    pub fn new() -> (f: FeSpecularLighting)
        ensures
            f.params.in1 == Input::Unspecified,
            f.params.surface_scale == CssNumber(ONE_BITS),
            f.params.kernel_unit_length is None,
            f.params.specular_constant == CssNumber(ONE_BITS),
            f.params.specular_exponent == CssNumber(ONE_BITS),
            f.base.x is None && f.base.y is None && f.base.width is None && f.base.height is None
                && f.base.result is None,
    {
        FeSpecularLighting {
            base: Primitive::new(),
            params: SpecularLightingParams {
                in1: Input::Unspecified,
                surface_scale: CssNumber(ONE_BITS),
                kernel_unit_length: None,
                specular_constant: CssNumber(ONE_BITS),
                specular_exponent: CssNumber(ONE_BITS),
            },
        }
    }

    /// Reads the standard attributes with one input, then the surface scale, the kernel
    /// unit length, the specular constant, which must not be negative, and the specular
    /// exponent.
    pub fn set_attributes(&mut self, attrs: &Vec<(String, String)>) -> (r: Result<(), CssParseError>)
        ensures
            ({
                let av = attrs@.map_values(|a: (String, String)| (a.0@, a.1@));
                let (p, a, _, ok) = standard_attributes(
                    old(self).base.view(),
                    InputView::Unspecified,
                    InputView::Unspecified,
                    av,
                );
                let (v, rest_ok) = lighting_attributes(
                    LightingValues {
                        surface_scale: old(self).params.surface_scale,
                        kernel_unit_length: old(self).params.kernel_unit_length,
                        constant: old(self).params.specular_constant,
                        specular_exponent: old(self).params.specular_exponent,
                    },
                    "specularConstant"@,
                    true,
                    av,
                );
                &&& final(self).base.view() == p
                &&& !ok ==> r is Err && final(self).params == old(self).params
                &&& ok ==> final(self).params.in1.view() == a && final(self).params.surface_scale
                    == v.surface_scale && final(self).params.kernel_unit_length
                    == v.kernel_unit_length && final(self).params.specular_constant == v.constant
                    && final(self).params.specular_exponent == v.specular_exponent && (r is Ok
                    <==> rest_ok)
            }),
    {
        self.params.in1 = match self.base.parse_one_input(attrs) {
            Ok(i) => i,
            Err(e) => return Err(e),
        };
        proof {
            reveal_strlit("specularConstant");
        }
        read_lighting_attributes(
            &mut self.params.surface_scale,
            &mut self.params.kernel_unit_length,
            &mut self.params.specular_constant,
            &mut self.params.specular_exponent,
            "specularConstant",
            true,
            attrs,
        )
    }
}

} // verus!

verus! {

/// A ratio of two whole numbers, `num / den`.
#[derive(Debug, Clone, Copy, PartialEq, Eq, Structural)]
pub struct Ratio {
    pub num: u32,
    pub den: u32,
}

/// The surface normal at a pixel of the input of a lighting filter, from the Sobel
/// kernels of the filter effects specification.  `normal` is the opacity gradient, with
/// both axes negated; the lighting multiplies it by `factor` (and by the surface scale,
/// over 255) and gives it 1 as its z component.
#[derive(Debug, Clone, Copy, PartialEq, Eq)]
pub struct Normal {
    pub factor: (Ratio, Ratio),
    pub normal: (i16, i16),
}

/// `bounds` lies within the image.
pub open spec fn bounds_inside(s: &ImageChannel, bounds: IRect) -> bool {
    &&& 0 <= bounds.x0 <= bounds.x1 <= s.width
    &&& 0 <= bounds.y0 <= bounds.y1 <= s.height
}

/// The ratio `num / den`.
pub open spec fn ratio(num: u32, den: u32) -> Ratio {
    Ratio { num, den }
}

/// The gradient of the top left pixel `(x, y)`, whose neighbours lie right and below.
pub open spec fn top_left_gradient(s: &ImageChannel, x: int, y: int) -> (int, int) {
    let a = |dx: int, dy: int| s.value_at(x + dx, y + dy);
    (-2 * a(0, 0) + 2 * a(1, 0) - a(0, 1) + a(1, 1), -2 * a(0, 0) - a(1, 0) + 2 * a(0, 1) + a(1, 1))
}

/// The gradient of a pixel `(x, y)` of the top row, not in a corner.
pub open spec fn top_row_gradient(s: &ImageChannel, x: int, y: int) -> (int, int) {
    let a = |dx: int, dy: int| s.value_at(x + dx, y + dy);
    (
        -2 * a(-1, 0) + 2 * a(1, 0) - a(-1, 1) + a(1, 1),
        -a(-1, 0) - 2 * a(0, 0) - a(1, 0) + a(-1, 1) + 2 * a(0, 1) + a(1, 1),
    )
}

/// The gradient of the top right pixel `(x, y)`, whose neighbours lie left and below.
pub open spec fn top_right_gradient(s: &ImageChannel, x: int, y: int) -> (int, int) {
    let a = |dx: int, dy: int| s.value_at(x + dx, y + dy);
    (-2 * a(-1, 0) + 2 * a(0, 0) - a(-1, 1) + a(0, 1), -a(-1, 0) - 2 * a(0, 0) + a(-1, 1) + 2 * a(0, 1))
}

/// The gradient of a pixel `(x, y)` of the left column, not in a corner.
pub open spec fn left_column_gradient(s: &ImageChannel, x: int, y: int) -> (int, int) {
    let a = |dx: int, dy: int| s.value_at(x + dx, y + dy);
    (
        -a(0, -1) + a(1, -1) - 2 * a(0, 0) + 2 * a(1, 0) - a(0, 1) + a(1, 1),
        -2 * a(0, -1) - a(1, -1) + 2 * a(0, 1) + a(1, 1),
    )
}

/// The gradient of an interior pixel `(x, y)`, with all eight neighbours.
pub open spec fn interior_gradient(s: &ImageChannel, x: int, y: int) -> (int, int) {
    let a = |dx: int, dy: int| s.value_at(x + dx, y + dy);
    (
        -a(-1, -1) + a(1, -1) - 2 * a(-1, 0) + 2 * a(1, 0) - a(-1, 1) + a(1, 1),
        -a(-1, -1) - 2 * a(0, -1) - a(1, -1) + a(-1, 1) + 2 * a(0, 1) + a(1, 1),
    )
}

/// The gradient of a pixel `(x, y)` of the right column, not in a corner.
pub open spec fn right_column_gradient(s: &ImageChannel, x: int, y: int) -> (int, int) {
    let a = |dx: int, dy: int| s.value_at(x + dx, y + dy);
    (
        -a(-1, -1) + a(0, -1) - 2 * a(-1, 0) + 2 * a(0, 0) - a(-1, 1) + a(0, 1),
        -a(-1, -1) - 2 * a(0, -1) + a(-1, 1) + 2 * a(0, 1),
    )
}

/// The gradient of the bottom left pixel `(x, y)`, whose neighbours lie right and above.
pub open spec fn bottom_left_gradient(s: &ImageChannel, x: int, y: int) -> (int, int) {
    let a = |dx: int, dy: int| s.value_at(x + dx, y + dy);
    (-a(0, -1) + a(1, -1) - 2 * a(0, 0) + 2 * a(1, 0), -2 * a(0, -1) - a(1, -1) + 2 * a(0, 0) + a(1, 0))
}

/// The gradient of a pixel `(x, y)` of the bottom row, not in a corner.
pub open spec fn bottom_row_gradient(s: &ImageChannel, x: int, y: int) -> (int, int) {
    let a = |dx: int, dy: int| s.value_at(x + dx, y + dy);
    (
        -a(-1, -1) + a(1, -1) - 2 * a(-1, 0) + 2 * a(1, 0),
        -a(-1, -1) - 2 * a(0, -1) - a(1, -1) + a(-1, 0) + 2 * a(0, 0) + a(1, 0),
    )
}

/// The gradient of the bottom right pixel `(x, y)`, whose neighbours lie left and above.
pub open spec fn bottom_right_gradient(s: &ImageChannel, x: int, y: int) -> (int, int) {
    let a = |dx: int, dy: int| s.value_at(x + dx, y + dy);
    (-a(-1, -1) + a(0, -1) - 2 * a(-1, 0) + 2 * a(0, 0), -a(-1, -1) - 2 * a(0, -1) + a(-1, 0) + 2 * a(0, 0))
}

/// `n` has the factors `fx` and `fy` and the negated gradient `g`.
pub open spec fn is_normal(n: Normal, fx: Ratio, fy: Ratio, g: (int, int)) -> bool {
    n.factor == (fx, fy) && n.normal.0 == -g.0 && n.normal.1 == -g.1
}

/// The opacity of a pixel, as a signed number.
fn alpha(s: &ImageChannel, x: u32, y: u32) -> (a: i16)
    requires
        s.wf(),
        x < s.width,
        y < s.height,
    ensures
        a == s.value_at(x as int, y as int),
        0 <= a <= 255,
{
    s.get_value(x, y) as i16
}

impl Normal {
    fn new(factor_x: Ratio, nx: i16, factor_y: Ratio, ny: i16) -> (n: Normal)
        requires
            nx > i16::MIN,
            ny > i16::MIN,
        ensures
            n.factor == (factor_x, factor_y),
            n.normal.0 == -nx && n.normal.1 == -ny,
    {
        // Negated to account for the different coordinate system.
        Normal { factor: (factor_x, factor_y), normal: (-nx, -ny) }
    }

    /// The normal of the top left pixel of `bounds`, which needs at least two rows and
    /// two columns.
    pub fn top_left(surface: &ImageChannel, bounds: IRect) -> (n: Normal)
        requires
            surface.wf(),
            bounds_inside(surface, bounds),
            bounds.x1 - bounds.x0 >= 2,
            bounds.y1 - bounds.y0 >= 2,
        ensures
            is_normal(n, ratio(2, 3), ratio(2, 3), top_left_gradient(surface, bounds.x0 as int, bounds.y0 as int)),
    {
        let (x, y) = (bounds.x0 as u32, bounds.y0 as u32);
        let center = alpha(surface, x, y);
        let right = alpha(surface, x + 1, y);
        let bottom = alpha(surface, x, y + 1);
        let bottom_right = alpha(surface, x + 1, y + 1);
        Self::new(
            Ratio { num: 2, den: 3 },
            2 * right - 2 * center - bottom + bottom_right,
            Ratio { num: 2, den: 3 },
            2 * bottom + bottom_right - 2 * center - right,
        )
    }

    /// The normal of the pixel in column `x` of the top row of `bounds`, away from the
    /// corners; `bounds` needs at least two rows.
    pub fn top_row(surface: &ImageChannel, bounds: IRect, x: u32) -> (n: Normal)
        requires
            surface.wf(),
            bounds_inside(surface, bounds),
            bounds.x0 < x,
            x + 1 < bounds.x1,
            bounds.y1 - bounds.y0 >= 2,
        ensures
            is_normal(n, ratio(1, 3), ratio(1, 2), top_row_gradient(surface, x as int, bounds.y0 as int)),
    {
        let y = bounds.y0 as u32;
        let left = alpha(surface, x - 1, y);
        let center = alpha(surface, x, y);
        let right = alpha(surface, x + 1, y);
        let bottom_left = alpha(surface, x - 1, y + 1);
        let bottom = alpha(surface, x, y + 1);
        let bottom_right = alpha(surface, x + 1, y + 1);
        Self::new(
            Ratio { num: 1, den: 3 },
            2 * right - 2 * left - bottom_left + bottom_right,
            Ratio { num: 1, den: 2 },
            -left - 2 * center - right + bottom_left + 2 * bottom + bottom_right,
        )
    }

    /// The normal of the top right pixel of `bounds`, which needs at least two rows and
    /// two columns.
    pub fn top_right(surface: &ImageChannel, bounds: IRect) -> (n: Normal)
        requires
            surface.wf(),
            bounds_inside(surface, bounds),
            bounds.x1 - bounds.x0 >= 2,
            bounds.y1 - bounds.y0 >= 2,
        ensures
            is_normal(n, ratio(2, 3), ratio(2, 3), top_right_gradient(surface, bounds.x1 - 1, bounds.y0 as int)),
    {
        let (x, y) = (bounds.x1 as u32 - 1, bounds.y0 as u32);
        let left = alpha(surface, x - 1, y);
        let center = alpha(surface, x, y);
        let bottom_left = alpha(surface, x - 1, y + 1);
        let bottom = alpha(surface, x, y + 1);
        Self::new(
            Ratio { num: 2, den: 3 },
            2 * center - 2 * left - bottom_left + bottom,
            Ratio { num: 2, den: 3 },
            -left - 2 * center + bottom_left + 2 * bottom,
        )
    }

    /// The normal of the pixel in row `y` of the left column of `bounds`, away from the
    /// corners; `bounds` needs at least two columns.
    pub fn left_column(surface: &ImageChannel, bounds: IRect, y: u32) -> (n: Normal)
        requires
            surface.wf(),
            bounds_inside(surface, bounds),
            bounds.y0 < y,
            y + 1 < bounds.y1,
            bounds.x1 - bounds.x0 >= 2,
        ensures
            is_normal(n, ratio(1, 2), ratio(1, 3), left_column_gradient(surface, bounds.x0 as int, y as int)),
    {
        let x = bounds.x0 as u32;
        let top = alpha(surface, x, y - 1);
        let top_right = alpha(surface, x + 1, y - 1);
        let center = alpha(surface, x, y);
        let right = alpha(surface, x + 1, y);
        let bottom = alpha(surface, x, y + 1);
        let bottom_right = alpha(surface, x + 1, y + 1);
        Self::new(
            Ratio { num: 1, den: 2 },
            -top + top_right - 2 * center + 2 * right - bottom + bottom_right,
            Ratio { num: 1, den: 3 },
            2 * bottom + bottom_right - 2 * top - top_right,
        )
    }

    /// The normal of the interior pixel `(x, y)` of `bounds`.
    pub fn interior(surface: &ImageChannel, bounds: IRect, x: u32, y: u32) -> (n: Normal)
        requires
            surface.wf(),
            bounds_inside(surface, bounds),
            bounds.x0 < x,
            x + 1 < bounds.x1,
            bounds.y0 < y,
            y + 1 < bounds.y1,
        ensures
            is_normal(n, ratio(1, 4), ratio(1, 4), interior_gradient(surface, x as int, y as int)),
    {
        let top_left = alpha(surface, x - 1, y - 1);
        let top = alpha(surface, x, y - 1);
        let top_right = alpha(surface, x + 1, y - 1);
        let left = alpha(surface, x - 1, y);
        let right = alpha(surface, x + 1, y);
        let bottom_left = alpha(surface, x - 1, y + 1);
        let bottom = alpha(surface, x, y + 1);
        let bottom_right = alpha(surface, x + 1, y + 1);
        Self::new(
            Ratio { num: 1, den: 4 },
            -top_left + top_right - 2 * left + 2 * right - bottom_left + bottom_right,
            Ratio { num: 1, den: 4 },
            -top_left - 2 * top - top_right + bottom_left + 2 * bottom + bottom_right,
        )
    }

    /// The normal of the pixel in row `y` of the right column of `bounds`, away from the
    /// corners; `bounds` needs at least two columns.
    pub fn right_column(surface: &ImageChannel, bounds: IRect, y: u32) -> (n: Normal)
        requires
            surface.wf(),
            bounds_inside(surface, bounds),
            bounds.y0 < y,
            y + 1 < bounds.y1,
            bounds.x1 - bounds.x0 >= 2,
        ensures
            is_normal(n, ratio(1, 2), ratio(1, 3), right_column_gradient(surface, bounds.x1 - 1, y as int)),
    {
        let x = bounds.x1 as u32 - 1;
        let top_left = alpha(surface, x - 1, y - 1);
        let top = alpha(surface, x, y - 1);
        let left = alpha(surface, x - 1, y);
        let center = alpha(surface, x, y);
        let bottom_left = alpha(surface, x - 1, y + 1);
        let bottom = alpha(surface, x, y + 1);
        Self::new(
            Ratio { num: 1, den: 2 },
            -top_left + top - 2 * left + 2 * center - bottom_left + bottom,
            Ratio { num: 1, den: 3 },
            -top_left - 2 * top + bottom_left + 2 * bottom,
        )
    }

    /// The normal of the bottom left pixel of `bounds`, which needs at least two rows and
    /// two columns.
    pub fn bottom_left(surface: &ImageChannel, bounds: IRect) -> (n: Normal)
        requires
            surface.wf(),
            bounds_inside(surface, bounds),
            bounds.x1 - bounds.x0 >= 2,
            bounds.y1 - bounds.y0 >= 2,
        ensures
            is_normal(n, ratio(2, 3), ratio(2, 3), bottom_left_gradient(surface, bounds.x0 as int, bounds.y1 - 1)),
    {
        let (x, y) = (bounds.x0 as u32, bounds.y1 as u32 - 1);
        let top = alpha(surface, x, y - 1);
        let top_right = alpha(surface, x + 1, y - 1);
        let center = alpha(surface, x, y);
        let right = alpha(surface, x + 1, y);
        Self::new(
            Ratio { num: 2, den: 3 },
            -top + top_right - 2 * center + 2 * right,
            Ratio { num: 2, den: 3 },
            2 * center + right - 2 * top - top_right,
        )
    }

    /// The normal of the pixel in column `x` of the bottom row of `bounds`, away from
    /// the corners; `bounds` needs at least two rows.
    pub fn bottom_row(surface: &ImageChannel, bounds: IRect, x: u32) -> (n: Normal)
        requires
            surface.wf(),
            bounds_inside(surface, bounds),
            bounds.x0 < x,
            x + 1 < bounds.x1,
            bounds.y1 - bounds.y0 >= 2,
        ensures
            is_normal(n, ratio(1, 3), ratio(1, 2), bottom_row_gradient(surface, x as int, bounds.y1 - 1)),
    {
        let y = bounds.y1 as u32 - 1;
        let top_left = alpha(surface, x - 1, y - 1);
        let top = alpha(surface, x, y - 1);
        let top_right = alpha(surface, x + 1, y - 1);
        let left = alpha(surface, x - 1, y);
        let center = alpha(surface, x, y);
        let right = alpha(surface, x + 1, y);
        Self::new(
            Ratio { num: 1, den: 3 },
            -top_left + top_right - 2 * left + 2 * right,
            Ratio { num: 1, den: 2 },
            -top_left - 2 * top - top_right + left + 2 * center + right,
        )
    }

    /// The normal of the bottom right pixel of `bounds`, which needs at least two rows
    /// and two columns.
    pub fn bottom_right(surface: &ImageChannel, bounds: IRect) -> (n: Normal)
        requires
            surface.wf(),
            bounds_inside(surface, bounds),
            bounds.x1 - bounds.x0 >= 2,
            bounds.y1 - bounds.y0 >= 2,
        ensures
            is_normal(n, ratio(2, 3), ratio(2, 3), bottom_right_gradient(surface, bounds.x1 - 1, bounds.y1 - 1)),
    {
        let (x, y) = (bounds.x1 as u32 - 1, bounds.y1 as u32 - 1);
        let top_left = alpha(surface, x - 1, y - 1);
        let top = alpha(surface, x, y - 1);
        let left = alpha(surface, x - 1, y);
        let center = alpha(surface, x, y);
        Self::new(
            Ratio { num: 2, den: 3 },
            -top_left + top - 2 * left + 2 * center,
            Ratio { num: 2, den: 3 },
            -top_left - 2 * top + left + 2 * center,
        )
    }
}

/// The factors and the gradient at the pixel `(x, y)` of `bounds`, with the kernel for
/// where the pixel lies: one of the four corners, one of the four edges, or the interior.
pub open spec fn pixel_normal(s: &ImageChannel, bounds: IRect, x: int, y: int) -> (Ratio, Ratio, (int, int)) {
    let (left, right) = (x == bounds.x0, x == bounds.x1 - 1);
    let (top, bottom) = (y == bounds.y0, y == bounds.y1 - 1);
    if top && left {
        (ratio(2, 3), ratio(2, 3), top_left_gradient(s, x, y))
    } else if top && right {
        (ratio(2, 3), ratio(2, 3), top_right_gradient(s, x, y))
    } else if bottom && left {
        (ratio(2, 3), ratio(2, 3), bottom_left_gradient(s, x, y))
    } else if bottom && right {
        (ratio(2, 3), ratio(2, 3), bottom_right_gradient(s, x, y))
    } else if top {
        (ratio(1, 3), ratio(1, 2), top_row_gradient(s, x, y))
    } else if bottom {
        (ratio(1, 3), ratio(1, 2), bottom_row_gradient(s, x, y))
    } else if left {
        (ratio(1, 2), ratio(1, 3), left_column_gradient(s, x, y))
    } else if right {
        (ratio(1, 2), ratio(1, 3), right_column_gradient(s, x, y))
    } else {
        (ratio(1, 4), ratio(1, 4), interior_gradient(s, x, y))
    }
}

/// The normal at the pixel `(x, y)` of `bounds`, which needs at least two rows and two
/// columns: the kernel for a corner, an edge or the interior, whichever holds the pixel,
/// as the lighting filters choose it for each pixel they light.
pub fn normal_at(surface: &ImageChannel, bounds: IRect, x: u32, y: u32) -> (n: Normal)
    requires
        surface.wf(),
        bounds_inside(surface, bounds),
        bounds.x1 - bounds.x0 >= 2,
        bounds.y1 - bounds.y0 >= 2,
        bounds.x0 <= x < bounds.x1,
        bounds.y0 <= y < bounds.y1,
    ensures
        ({
            let (fx, fy, g) = pixel_normal(surface, bounds, x as int, y as int);
            is_normal(n, fx, fy, g)
        }),
{
    let left = x == bounds.x0 as u32;
    let right = x == bounds.x1 as u32 - 1;
    let top = y == bounds.y0 as u32;
    let bottom = y == bounds.y1 as u32 - 1;
    if top && left {
        Normal::top_left(surface, bounds)
    } else if top && right {
        Normal::top_right(surface, bounds)
    } else if bottom && left {
        Normal::bottom_left(surface, bounds)
    } else if bottom && right {
        Normal::bottom_right(surface, bounds)
    } else if top {
        Normal::top_row(surface, bounds, x)
    } else if bottom {
        Normal::bottom_row(surface, bounds, x)
    } else if left {
        Normal::left_column(surface, bounds, y)
    } else if right {
        Normal::right_column(surface, bounds, y)
    } else {
        Normal::interior(surface, bounds, x, y)
    }
}

/// Where the whole of `bounds` has the same opacity, the surface is flat: every pixel of
/// it, whatever kernel applies to it, has a zero gradient.
pub proof fn lemma_uniform_opacity_has_zero_gradient(s: &ImageChannel, bounds: IRect, x: int, y: int, a: int)
    requires
        bounds.x1 - bounds.x0 >= 2,
        bounds.y1 - bounds.y0 >= 2,
        bounds.x0 <= x < bounds.x1,
        bounds.y0 <= y < bounds.y1,
        forall|i: int, j: int|
            bounds.x0 <= i < bounds.x1 && bounds.y0 <= j < bounds.y1 ==> #[trigger] s.value_at(i, j) == a,
    ensures
        pixel_normal(s, bounds, x, y).2 == (0int, 0int),
{
    assert forall|dx: int, dy: int|
        -1 <= dx <= 1 && -1 <= dy <= 1 && bounds.x0 <= x + dx < bounds.x1 && bounds.y0 <= y + dy
            < bounds.y1 implies #[trigger] s.value_at(x + dx, y + dy) == a by {}
    if x > bounds.x0 && y > bounds.y0 {
        assert(s.value_at(x + -1, y + -1) == a);
    }
    if y > bounds.y0 {
        assert(s.value_at(x + 0, y + -1) == a);
    }
    if x + 1 < bounds.x1 && y > bounds.y0 {
        assert(s.value_at(x + 1, y + -1) == a);
    }
    if x > bounds.x0 {
        assert(s.value_at(x + -1, y + 0) == a);
    }
    assert(s.value_at(x + 0, y + 0) == a);
    if x + 1 < bounds.x1 {
        assert(s.value_at(x + 1, y + 0) == a);
    }
    if x > bounds.x0 && y + 1 < bounds.y1 {
        assert(s.value_at(x + -1, y + 1) == a);
    }
    if y + 1 < bounds.y1 {
        assert(s.value_at(x + 0, y + 1) == a);
    }
    if x + 1 < bounds.x1 && y + 1 < bounds.y1 {
        assert(s.value_at(x + 1, y + 1) == a);
    }
}

/// The weight that a kernel gives along one axis to the neighbour at offset `d`: the
/// central difference `d` inside, and the one-sided difference `2d - 1` or `2d + 1` at
/// the first or last row or column of the bounds, where the other side is missing.
pub open spec fn difference_weight(d: int, at_first: bool, at_last: bool) -> int {
    if at_first {
        2 * d - 1
    } else if at_last {
        2 * d + 1
    } else {
        d
    }
}

/// The weight that a kernel gives across the other axis to the neighbour at offset `d`:
/// twice as much to the pixel's own row or column as to those beside it.
pub open spec fn smoothing_weight(d: int) -> int {
    if d == 0 {
        2
    } else {
        1
    }
}

/// Whether the opacity in the 3 × 3 window of `(x, y)`, within `bounds`, is `v` at offset
/// `(dx, dy)` and 0 everywhere else.
pub open spec fn is_impulse(s: &ImageChannel, bounds: IRect, x: int, y: int, dx: int, dy: int, v: int) -> bool {
    forall|i: int, j: int|
        bounds.x0 <= i < bounds.x1 && bounds.y0 <= j < bounds.y1 && x - 1 <= i <= x + 1 && y - 1 <= j
            <= y + 1 ==> #[trigger] s.value_at(i, j) == if i == x + dx && j == y + dy {
            v
        } else {
            0
        }
}

/// The weights of the Sobel kernels: at every pixel of the bounds, whichever kernel applies,
/// a neighbour within the bounds adds to the horizontal gradient its opacity times the
/// difference weight of its column and the smoothing weight of its row, and to the
/// vertical gradient its opacity times the difference weight of its row and the smoothing
/// weight of its column.  Shown here on a window that is opaque at one neighbour only;
/// the gradients add up over the neighbours.
#[verifier::rlimit(60)]
pub proof fn lemma_kernel_weights(s: &ImageChannel, bounds: IRect, x: int, y: int, dx: int, dy: int, v: int)
    requires
        bounds.x1 - bounds.x0 >= 2,
        bounds.y1 - bounds.y0 >= 2,
        bounds.x0 <= x < bounds.x1,
        bounds.y0 <= y < bounds.y1,
        -1 <= dx <= 1,
        -1 <= dy <= 1,
        bounds.x0 <= x + dx < bounds.x1,
        bounds.y0 <= y + dy < bounds.y1,
        is_impulse(s, bounds, x, y, dx, dy, v),
    ensures
        pixel_normal(s, bounds, x, y).2 == (
            difference_weight(dx, x == bounds.x0, x == bounds.x1 - 1) * smoothing_weight(dy) * v,
            difference_weight(dy, y == bounds.y0, y == bounds.y1 - 1) * smoothing_weight(dx) * v,
        ),
{
    let (l, r) = (x > bounds.x0, x < bounds.x1 - 1);
    let (t, b) = (y > bounds.y0, y < bounds.y1 - 1);
    if l && t { assert(s.value_at(x + -1, y + -1) == if dx == -1 && dy == -1 { v } else { 0 }) by { assert(s.value_at(x + -1, y + -1) == if x + -1 == x + dx && y + -1 == y + dy { v } else { 0 }); } }
    if t { assert(s.value_at(x + 0, y + -1) == if dx == 0 && dy == -1 { v } else { 0 }) by { assert(s.value_at(x + 0, y + -1) == if x + 0 == x + dx && y + -1 == y + dy { v } else { 0 }); } }
    if r && t { assert(s.value_at(x + 1, y + -1) == if dx == 1 && dy == -1 { v } else { 0 }) by { assert(s.value_at(x + 1, y + -1) == if x + 1 == x + dx && y + -1 == y + dy { v } else { 0 }); } }
    if l { assert(s.value_at(x + -1, y + 0) == if dx == -1 && dy == 0 { v } else { 0 }) by { assert(s.value_at(x + -1, y + 0) == if x + -1 == x + dx && y + 0 == y + dy { v } else { 0 }); } }
    assert(s.value_at(x + 0, y + 0) == if dx == 0 && dy == 0 { v } else { 0 }) by { assert(s.value_at(x + 0, y + 0) == if x + 0 == x + dx && y + 0 == y + dy { v } else { 0 }); }
    if r { assert(s.value_at(x + 1, y + 0) == if dx == 1 && dy == 0 { v } else { 0 }) by { assert(s.value_at(x + 1, y + 0) == if x + 1 == x + dx && y + 0 == y + dy { v } else { 0 }); } }
    if l && b { assert(s.value_at(x + -1, y + 1) == if dx == -1 && dy == 1 { v } else { 0 }) by { assert(s.value_at(x + -1, y + 1) == if x + -1 == x + dx && y + 1 == y + dy { v } else { 0 }); } }
    if b { assert(s.value_at(x + 0, y + 1) == if dx == 0 && dy == 1 { v } else { 0 }) by { assert(s.value_at(x + 0, y + 1) == if x + 0 == x + dx && y + 1 == y + dy { v } else { 0 }); } }
    if r && b { assert(s.value_at(x + 1, y + 1) == if dx == 1 && dy == 1 { v } else { 0 }) by { assert(s.value_at(x + 1, y + 1) == if x + 1 == x + dx && y + 1 == y + dy { v } else { 0 }); } }
    let wx = difference_weight(dx, x == bounds.x0, x == bounds.x1 - 1) * smoothing_weight(dy);
    let wy = difference_weight(dy, y == bounds.y0, y == bounds.y1 - 1) * smoothing_weight(dx);
    let g = pixel_normal(s, bounds, x, y).2;
    if dx == -1 && dy == -1 {
        if !l && !t {
            assert(wx == -3 && wy == -3);
            assert(g == (-3 * v, -3 * v));
        } else if !r && !t {
            assert(wx == -1 && wy == -3);
            assert(g == (-1 * v, -3 * v));
        } else if !l && !b {
            assert(wx == -3 && wy == -1);
            assert(g == (-3 * v, -1 * v));
        } else if !r && !b {
            assert(wx == -1 && wy == -1);
            assert(g == (-1 * v, -1 * v));
        } else if !t {
            assert(wx == -1 && wy == -3);
            assert(g == (-1 * v, -3 * v));
        } else if !b {
            assert(wx == -1 && wy == -1);
            assert(g == (-1 * v, -1 * v));
        } else if !l {
            assert(wx == -3 && wy == -1);
            assert(g == (-3 * v, -1 * v));
        } else if !r {
            assert(wx == -1 && wy == -1);
            assert(g == (-1 * v, -1 * v));
        } else {
            assert(wx == -1 && wy == -1);
            assert(g == (-1 * v, -1 * v));
        }
    } else if dx == -1 && dy == 0 {
        if !l && !t {
            assert(wx == -6 && wy == -1);
            assert(g == (-6 * v, -1 * v));
        } else if !r && !t {
            assert(wx == -2 && wy == -1);
            assert(g == (-2 * v, -1 * v));
        } else if !l && !b {
            assert(wx == -6 && wy == 1);
            assert(g == (-6 * v, 1 * v));
        } else if !r && !b {
            assert(wx == -2 && wy == 1);
            assert(g == (-2 * v, 1 * v));
        } else if !t {
            assert(wx == -2 && wy == -1);
            assert(g == (-2 * v, -1 * v));
        } else if !b {
            assert(wx == -2 && wy == 1);
            assert(g == (-2 * v, 1 * v));
        } else if !l {
            assert(wx == -6 && wy == 0);
            assert(g == (-6 * v, 0 * v));
        } else if !r {
            assert(wx == -2 && wy == 0);
            assert(g == (-2 * v, 0 * v));
        } else {
            assert(wx == -2 && wy == 0);
            assert(g == (-2 * v, 0 * v));
        }
    } else if dx == -1 && dy == 1 {
        if !l && !t {
            assert(wx == -3 && wy == 1);
            assert(g == (-3 * v, 1 * v));
        } else if !r && !t {
            assert(wx == -1 && wy == 1);
            assert(g == (-1 * v, 1 * v));
        } else if !l && !b {
            assert(wx == -3 && wy == 3);
            assert(g == (-3 * v, 3 * v));
        } else if !r && !b {
            assert(wx == -1 && wy == 3);
            assert(g == (-1 * v, 3 * v));
        } else if !t {
            assert(wx == -1 && wy == 1);
            assert(g == (-1 * v, 1 * v));
        } else if !b {
            assert(wx == -1 && wy == 3);
            assert(g == (-1 * v, 3 * v));
        } else if !l {
            assert(wx == -3 && wy == 1);
            assert(g == (-3 * v, 1 * v));
        } else if !r {
            assert(wx == -1 && wy == 1);
            assert(g == (-1 * v, 1 * v));
        } else {
            assert(wx == -1 && wy == 1);
            assert(g == (-1 * v, 1 * v));
        }
    } else if dx == 0 && dy == -1 {
        if !l && !t {
            assert(wx == -1 && wy == -6);
            assert(g == (-1 * v, -6 * v));
        } else if !r && !t {
            assert(wx == 1 && wy == -6);
            assert(g == (1 * v, -6 * v));
        } else if !l && !b {
            assert(wx == -1 && wy == -2);
            assert(g == (-1 * v, -2 * v));
        } else if !r && !b {
            assert(wx == 1 && wy == -2);
            assert(g == (1 * v, -2 * v));
        } else if !t {
            assert(wx == 0 && wy == -6);
            assert(g == (0 * v, -6 * v));
        } else if !b {
            assert(wx == 0 && wy == -2);
            assert(g == (0 * v, -2 * v));
        } else if !l {
            assert(wx == -1 && wy == -2);
            assert(g == (-1 * v, -2 * v));
        } else if !r {
            assert(wx == 1 && wy == -2);
            assert(g == (1 * v, -2 * v));
        } else {
            assert(wx == 0 && wy == -2);
            assert(g == (0 * v, -2 * v));
        }
    } else if dx == 0 && dy == 0 {
        if !l && !t {
            assert(wx == -2 && wy == -2);
            assert(g == (-2 * v, -2 * v));
        } else if !r && !t {
            assert(wx == 2 && wy == -2);
            assert(g == (2 * v, -2 * v));
        } else if !l && !b {
            assert(wx == -2 && wy == 2);
            assert(g == (-2 * v, 2 * v));
        } else if !r && !b {
            assert(wx == 2 && wy == 2);
            assert(g == (2 * v, 2 * v));
        } else if !t {
            assert(wx == 0 && wy == -2);
            assert(g == (0 * v, -2 * v));
        } else if !b {
            assert(wx == 0 && wy == 2);
            assert(g == (0 * v, 2 * v));
        } else if !l {
            assert(wx == -2 && wy == 0);
            assert(g == (-2 * v, 0 * v));
        } else if !r {
            assert(wx == 2 && wy == 0);
            assert(g == (2 * v, 0 * v));
        } else {
            assert(wx == 0 && wy == 0);
            assert(g == (0 * v, 0 * v));
        }
    } else if dx == 0 && dy == 1 {
        if !l && !t {
            assert(wx == -1 && wy == 2);
            assert(g == (-1 * v, 2 * v));
        } else if !r && !t {
            assert(wx == 1 && wy == 2);
            assert(g == (1 * v, 2 * v));
        } else if !l && !b {
            assert(wx == -1 && wy == 6);
            assert(g == (-1 * v, 6 * v));
        } else if !r && !b {
            assert(wx == 1 && wy == 6);
            assert(g == (1 * v, 6 * v));
        } else if !t {
            assert(wx == 0 && wy == 2);
            assert(g == (0 * v, 2 * v));
        } else if !b {
            assert(wx == 0 && wy == 6);
            assert(g == (0 * v, 6 * v));
        } else if !l {
            assert(wx == -1 && wy == 2);
            assert(g == (-1 * v, 2 * v));
        } else if !r {
            assert(wx == 1 && wy == 2);
            assert(g == (1 * v, 2 * v));
        } else {
            assert(wx == 0 && wy == 2);
            assert(g == (0 * v, 2 * v));
        }
    } else if dx == 1 && dy == -1 {
        if !l && !t {
            assert(wx == 1 && wy == -3);
            assert(g == (1 * v, -3 * v));
        } else if !r && !t {
            assert(wx == 3 && wy == -3);
            assert(g == (3 * v, -3 * v));
        } else if !l && !b {
            assert(wx == 1 && wy == -1);
            assert(g == (1 * v, -1 * v));
        } else if !r && !b {
            assert(wx == 3 && wy == -1);
            assert(g == (3 * v, -1 * v));
        } else if !t {
            assert(wx == 1 && wy == -3);
            assert(g == (1 * v, -3 * v));
        } else if !b {
            assert(wx == 1 && wy == -1);
            assert(g == (1 * v, -1 * v));
        } else if !l {
            assert(wx == 1 && wy == -1);
            assert(g == (1 * v, -1 * v));
        } else if !r {
            assert(wx == 3 && wy == -1);
            assert(g == (3 * v, -1 * v));
        } else {
            assert(wx == 1 && wy == -1);
            assert(g == (1 * v, -1 * v));
        }
    } else if dx == 1 && dy == 0 {
        if !l && !t {
            assert(wx == 2 && wy == -1);
            assert(g == (2 * v, -1 * v));
        } else if !r && !t {
            assert(wx == 6 && wy == -1);
            assert(g == (6 * v, -1 * v));
        } else if !l && !b {
            assert(wx == 2 && wy == 1);
            assert(g == (2 * v, 1 * v));
        } else if !r && !b {
            assert(wx == 6 && wy == 1);
            assert(g == (6 * v, 1 * v));
        } else if !t {
            assert(wx == 2 && wy == -1);
            assert(g == (2 * v, -1 * v));
        } else if !b {
            assert(wx == 2 && wy == 1);
            assert(g == (2 * v, 1 * v));
        } else if !l {
            assert(wx == 2 && wy == 0);
            assert(g == (2 * v, 0 * v));
        } else if !r {
            assert(wx == 6 && wy == 0);
            assert(g == (6 * v, 0 * v));
        } else {
            assert(wx == 2 && wy == 0);
            assert(g == (2 * v, 0 * v));
        }
    } else if dx == 1 && dy == 1 {
        if !l && !t {
            assert(wx == 1 && wy == 1);
            assert(g == (1 * v, 1 * v));
        } else if !r && !t {
            assert(wx == 3 && wy == 1);
            assert(g == (3 * v, 1 * v));
        } else if !l && !b {
            assert(wx == 1 && wy == 3);
            assert(g == (1 * v, 3 * v));
        } else if !r && !b {
            assert(wx == 3 && wy == 3);
            assert(g == (3 * v, 3 * v));
        } else if !t {
            assert(wx == 1 && wy == 1);
            assert(g == (1 * v, 1 * v));
        } else if !b {
            assert(wx == 1 && wy == 3);
            assert(g == (1 * v, 3 * v));
        } else if !l {
            assert(wx == 1 && wy == 1);
            assert(g == (1 * v, 1 * v));
        } else if !r {
            assert(wx == 3 && wy == 1);
            assert(g == (3 * v, 1 * v));
        } else {
            assert(wx == 1 && wy == 1);
            assert(g == (1 * v, 1 * v));
        }
    }
}

/// On a sloping plane of opacity, every kernel, with its factors, measures the same thing:
/// twice the slope along each axis.  So the normals of the corners, the edges and the
/// interior agree on a plane.
pub proof fn lemma_kernels_agree_on_a_plane(
    s: &ImageChannel,
    bounds: IRect,
    x: int,
    y: int,
    c: int,
    sx: int,
    sy: int,
)
    requires
        bounds.x1 - bounds.x0 >= 2,
        bounds.y1 - bounds.y0 >= 2,
        bounds.x0 <= x < bounds.x1,
        bounds.y0 <= y < bounds.y1,
        forall|i: int, j: int|
            bounds.x0 <= i < bounds.x1 && bounds.y0 <= j < bounds.y1 && x - 1 <= i <= x + 1 && y - 1 <= j
                <= y + 1 ==> #[trigger] s.value_at(i, j) == c + (i - x) * sx + (j - y) * sy,
    ensures
        ({
            let (fx, fy, g) = pixel_normal(s, bounds, x, y);
            &&& g.0 * fx.num == 2 * sx * fx.den
            &&& g.1 * fy.num == 2 * sy * fy.den
        }),
{
    let (l, r) = (x > bounds.x0, x < bounds.x1 - 1);
    let (t, b) = (y > bounds.y0, y < bounds.y1 - 1);
    if l && t { assert(s.value_at(x + -1, y + -1) == c - sx - sy) by (nonlinear_arith) requires s.value_at(x + -1, y + -1) == c + ((x + -1) - x) * sx + ((y + -1) - y) * sy; }
    if t { assert(s.value_at(x + 0, y + -1) == c - sy) by (nonlinear_arith) requires s.value_at(x + 0, y + -1) == c + ((x + 0) - x) * sx + ((y + -1) - y) * sy; }
    if r && t { assert(s.value_at(x + 1, y + -1) == c + sx - sy) by (nonlinear_arith) requires s.value_at(x + 1, y + -1) == c + ((x + 1) - x) * sx + ((y + -1) - y) * sy; }
    if l { assert(s.value_at(x + -1, y + 0) == c - sx) by (nonlinear_arith) requires s.value_at(x + -1, y + 0) == c + ((x + -1) - x) * sx + ((y + 0) - y) * sy; }
    assert(s.value_at(x + 0, y + 0) == c) by (nonlinear_arith) requires s.value_at(x + 0, y + 0) == c + ((x + 0) - x) * sx + ((y + 0) - y) * sy;
    if r { assert(s.value_at(x + 1, y + 0) == c + sx) by (nonlinear_arith) requires s.value_at(x + 1, y + 0) == c + ((x + 1) - x) * sx + ((y + 0) - y) * sy; }
    if l && b { assert(s.value_at(x + -1, y + 1) == c - sx + sy) by (nonlinear_arith) requires s.value_at(x + -1, y + 1) == c + ((x + -1) - x) * sx + ((y + 1) - y) * sy; }
    if b { assert(s.value_at(x + 0, y + 1) == c + sy) by (nonlinear_arith) requires s.value_at(x + 0, y + 1) == c + ((x + 0) - x) * sx + ((y + 1) - y) * sy; }
    if r && b { assert(s.value_at(x + 1, y + 1) == c + sx + sy) by (nonlinear_arith) requires s.value_at(x + 1, y + 1) == c + ((x + 1) - x) * sx + ((y + 1) - y) * sy; }
    let pn = pixel_normal(s, bounds, x, y);
    let g = pn.2;
    if !l && !t {
        assert(g == (3 * sx, 3 * sy) && pn.0 == ratio(2, 3) && pn.1 == ratio(2, 3));
    } else if !r && !t {
        assert(g == (3 * sx, 3 * sy) && pn.0 == ratio(2, 3) && pn.1 == ratio(2, 3));
    } else if !l && !b {
        assert(g == (3 * sx, 3 * sy) && pn.0 == ratio(2, 3) && pn.1 == ratio(2, 3));
    } else if !r && !b {
        assert(g == (3 * sx, 3 * sy) && pn.0 == ratio(2, 3) && pn.1 == ratio(2, 3));
    } else if !t {
        assert(g == (6 * sx, 4 * sy) && pn.0 == ratio(1, 3) && pn.1 == ratio(1, 2));
    } else if !b {
        assert(g == (6 * sx, 4 * sy) && pn.0 == ratio(1, 3) && pn.1 == ratio(1, 2));
    } else if !l {
        assert(g == (4 * sx, 6 * sy) && pn.0 == ratio(1, 2) && pn.1 == ratio(1, 3));
    } else if !r {
        assert(g == (4 * sx, 6 * sy) && pn.0 == ratio(1, 2) && pn.1 == ratio(1, 3));
    } else {
        assert(g == (8 * sx, 8 * sy) && pn.0 == ratio(1, 4) && pn.1 == ratio(1, 4));
    }
}

} // verus!
