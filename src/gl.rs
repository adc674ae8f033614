//! Numeric values of the WebGL2 enumerants that the backend hands to the driver.
use vstd::prelude::*;

verus! {

pub const NONE: u32 = 0;
pub const ZERO: u32 = 0;
pub const ONE: u32 = 1;

pub const POINTS: u32 = 0x0000;
pub const LINES: u32 = 0x0001;
pub const LINE_STRIP: u32 = 0x0003;
pub const TRIANGLES: u32 = 0x0004;
pub const TRIANGLE_STRIP: u32 = 0x0005;

pub const NEVER: u32 = 0x0200;
pub const LESS: u32 = 0x0201;
pub const EQUAL: u32 = 0x0202;
pub const LEQUAL: u32 = 0x0203;
pub const GREATER: u32 = 0x0204;
pub const NOTEQUAL: u32 = 0x0205;
pub const GEQUAL: u32 = 0x0206;
pub const ALWAYS: u32 = 0x0207;

pub const SRC_COLOR: u32 = 0x0300;
pub const ONE_MINUS_SRC_COLOR: u32 = 0x0301;
pub const SRC_ALPHA: u32 = 0x0302;
pub const ONE_MINUS_SRC_ALPHA: u32 = 0x0303;
pub const DST_ALPHA: u32 = 0x0304;
pub const ONE_MINUS_DST_ALPHA: u32 = 0x0305;
pub const DST_COLOR: u32 = 0x0306;
pub const ONE_MINUS_DST_COLOR: u32 = 0x0307;
pub const SRC_ALPHA_SATURATE: u32 = 0x0308;
pub const BLEND_COLOR: u32 = 0x8005;

pub const FUNC_ADD: u32 = 0x8006;
pub const MIN: u32 = 0x8007;
pub const MAX: u32 = 0x8008;
pub const FUNC_SUBTRACT: u32 = 0x800A;
pub const FUNC_REVERSE_SUBTRACT: u32 = 0x800B;

pub const FRONT: u32 = 0x0404;
pub const BACK: u32 = 0x0405;
pub const CW: u32 = 0x0900;
pub const CCW: u32 = 0x0901;

pub const BYTE: u32 = 0x1400;
pub const UNSIGNED_BYTE: u32 = 0x1401;
pub const SHORT: u32 = 0x1402;
pub const UNSIGNED_SHORT: u32 = 0x1403;
pub const INT: u32 = 0x1404;
pub const UNSIGNED_INT: u32 = 0x1405;
pub const FLOAT: u32 = 0x1406;
pub const HALF_FLOAT: u32 = 0x140B;
pub const UNSIGNED_INT_2_10_10_10_REV: u32 = 0x8368;
pub const UNSIGNED_INT_24_8: u32 = 0x84FA;
pub const UNSIGNED_INT_10F_11F_11F_REV: u32 = 0x8C3B;

pub const DEPTH_COMPONENT: u32 = 0x1902;
pub const RED: u32 = 0x1903;
pub const RGB: u32 = 0x1907;
pub const RGBA: u32 = 0x1908;
pub const RG: u32 = 0x8227;
pub const RG_INTEGER: u32 = 0x8228;
pub const DEPTH_STENCIL: u32 = 0x84F9;
pub const RED_INTEGER: u32 = 0x8D94;
pub const RGBA_INTEGER: u32 = 0x8D99;

pub const RGBA8: u32 = 0x8058;
pub const RGB10_A2: u32 = 0x8059;
pub const R8: u32 = 0x8229;
pub const RG8: u32 = 0x822B;
pub const R16F: u32 = 0x822D;
pub const R32F: u32 = 0x822E;
pub const RG16F: u32 = 0x822F;
pub const RG32F: u32 = 0x8230;
pub const R8I: u32 = 0x8231;
pub const R8UI: u32 = 0x8232;
pub const R16I: u32 = 0x8233;
pub const R16UI: u32 = 0x8234;
pub const R32I: u32 = 0x8235;
pub const R32UI: u32 = 0x8236;
pub const RG8I: u32 = 0x8237;
pub const RG8UI: u32 = 0x8238;
pub const RG16I: u32 = 0x8239;
pub const RG16UI: u32 = 0x823A;
pub const RG32I: u32 = 0x823B;
pub const RG32UI: u32 = 0x823C;
pub const RGBA32F: u32 = 0x8814;
pub const RGBA16F: u32 = 0x881A;
pub const DEPTH24_STENCIL8: u32 = 0x88F0;
pub const R11F_G11F_B10F: u32 = 0x8C3A;
pub const SRGB8_ALPHA8: u32 = 0x8C43;
pub const DEPTH_COMPONENT32F: u32 = 0x8CAC;
pub const RGBA32UI: u32 = 0x8D70;
pub const RGBA16UI: u32 = 0x8D76;
pub const RGBA8UI: u32 = 0x8D7C;
pub const RGBA32I: u32 = 0x8D82;
pub const RGBA16I: u32 = 0x8D88;
pub const RGBA8I: u32 = 0x8D8E;
pub const R8_SNORM: u32 = 0x8F94;
pub const RG8_SNORM: u32 = 0x8F95;
pub const RGBA8_SNORM: u32 = 0x8F97;

pub const FLOAT_VEC2: u32 = 0x8B50;
pub const FLOAT_VEC3: u32 = 0x8B51;
pub const FLOAT_VEC4: u32 = 0x8B52;
pub const INT_VEC2: u32 = 0x8B53;
pub const INT_VEC3: u32 = 0x8B54;
pub const INT_VEC4: u32 = 0x8B55;
pub const UNSIGNED_INT_VEC2: u32 = 0x8DC6;
pub const UNSIGNED_INT_VEC3: u32 = 0x8DC7;
pub const UNSIGNED_INT_VEC4: u32 = 0x8DC8;
pub const SAMPLER_2D: u32 = 0x8B5E;
pub const INT_SAMPLER_2D: u32 = 0x8DCA;
pub const UNSIGNED_INT_SAMPLER_2D: u32 = 0x8DD2;

pub const ARRAY_BUFFER: u32 = 0x8892;
pub const ELEMENT_ARRAY_BUFFER: u32 = 0x8893;
pub const PIXEL_UNPACK_BUFFER: u32 = 0x88EC;
pub const STREAM_READ: u32 = 0x88E1;
pub const DYNAMIC_DRAW: u32 = 0x88E8;

pub const COLOR_ATTACHMENT0: u32 = 0x8CE0;

pub const DEPTH_BUFFER_BIT: u32 = 0x0100;
pub const COLOR_BUFFER_BIT: u32 = 0x4000;


pub const FRAGMENT_SHADER: u32 = 0x8B30;
pub const VERTEX_SHADER: u32 = 0x8B31;

} // verus!
