//! Typed payload codecs: Linear (Q16.16 fixed point), Perlin noise and
//! fractal parameters.
//!
//! Floating-point wire fields are kept as their IEEE-754 bit patterns
//! (`*_bits`), which makes every parse/serialize pair bit-exact.

use vstd::arithmetic::div_mod::lemma_mul_mod_noop_general;
use vstd::prelude::*;
use vstd::string::*;

use crate::errors::AliceError;
use crate::floatfmt::{fmt_f32_bits, fmt_f64_bits, spec_fmt_f32, spec_fmt_f64};
use crate::numfmt::{dec_string, fixed_string, round_sig, spec_dec, spec_fixed, spec_round_sig};
use crate::wire::{i32_of_u32, le4, le8, push_u32_le, push_u64_le, read_u32_le, read_u64_le,
    i32_to_u32, u32_le, u32_of_i32, u32_to_i32, u64_le};

verus! {

/// Byte length of a serialized Linear payload (with sample count).
pub const LINEAR_PAYLOAD_SIZE: usize = 12;

/// Byte length of a serialized Perlin payload.
pub const PERLIN_PAYLOAD_SIZE: usize = 24;

/// Byte length of a serialized Fractal payload: the sum of its field
/// widths (1 + 4 + 4 + 8 + 8 + 8 + 8). This is the authoritative size;
/// serialization emits exactly these bytes and parsing requires no more.
pub const FRACTAL_PAYLOAD_SIZE: usize = 41;

/// Linear model payload: y = slope * x + intercept, both Q16.16.
#[derive(Debug, Clone, Copy, PartialEq, Eq, Structural)]
pub struct LinearPayload {
    /// Slope in Q16.16 fixed point.
    pub slope_q16: i32,
    /// Intercept in Q16.16 fixed point.
    pub intercept_q16: i32,
    /// Sample count (zero in the 8-byte legacy layout).
    pub sample_count: u32,
}

/// What Linear payload parsing returns on any byte region: the two fixed
/// 32-bit fields, and a sample count only when the 12-byte layout is
/// present.
pub open spec fn spec_parse_linear(data: Seq<u8>) -> Result<LinearPayload, AliceError> {
    if data.len() < 8 {
        Err(AliceError::PayloadTooShort)
    } else {
        Ok(
            LinearPayload {
                slope_q16: i32_of_u32(le4(data.subrange(0, 4)) as u32),
                intercept_q16: i32_of_u32(le4(data.subrange(4, 8)) as u32),
                sample_count: if data.len() >= 12 {
                    le4(data.subrange(8, 12)) as u32
                } else {
                    0
                },
            },
        )
    }
}

/// The 12 bytes a Linear payload serializes to.
pub open spec fn spec_linear_bytes(p: LinearPayload) -> Seq<u8> {
    u32_le(u32_of_i32(p.slope_q16)) + u32_le(u32_of_i32(p.intercept_q16)) + u32_le(p.sample_count)
}

/// Magnitude of a signed 32-bit value.
pub open spec fn abs_i32(i: i32) -> nat {
    if i >= 0 {
        i as nat
    } else {
        (-(i as int)) as nat
    }
}

/// The significand rounding a conversion to single-precision float
/// applies to a 32-bit magnitude.
pub open spec fn f32_sig(n: nat) -> nat {
    spec_round_sig(n, 0x1000000)
}

/// A Q16.16 magnitude rendered with `d` decimals and an optional sign,
/// exactly as formatting the converted single-precision value would.
pub open spec fn spec_signed_q16(negative: bool, k: nat, d: nat) -> Seq<char> {
    if negative {
        seq!['-'] + spec_fixed(k, 0x10000, d)
    } else {
        spec_fixed(k, 0x10000, d)
    }
}

/// The equation string of a Linear payload. Slope and intercept pass
/// through single-precision rounding first; a magnitude of at most
/// 6/65536 counts as zero (the float comparison against 0.0001), which
/// selects the constant, pure-slope, `+` or `-` form.
pub open spec fn spec_linear_equation(slope_q16: i32, intercept_q16: i32) -> Seq<char> {
    let sa = f32_sig(abs_i32(slope_q16));
    let ia = f32_sig(abs_i32(intercept_q16));
    if abs_i32(slope_q16) <= 6 {
        "y = "@ + spec_signed_q16(intercept_q16 < 0, ia, 4)
    } else if abs_i32(intercept_q16) <= 6 {
        "y = "@ + spec_signed_q16(slope_q16 < 0, sa, 6) + "x"@
    } else if intercept_q16 >= 0 {
        "y = "@ + spec_signed_q16(slope_q16 < 0, sa, 6) + "x + "@ + spec_signed_q16(false, ia, 4)
    } else {
        "y = "@ + spec_signed_q16(slope_q16 < 0, sa, 6) + "x - "@ + spec_signed_q16(false, ia, 4)
    }
}

/// Reduction of an integer into signed 32-bit two's-complement range.
pub open spec fn wrap_i32(x: int) -> int {
    ((x + 0x80000000) % 0x100000000) - 0x80000000
}

impl LinearPayload {
    /// Parse a Linear payload. Accepts both the 8-byte legacy layout
    /// (sample count reads as zero) and the 12-byte layout.
    pub fn parse(data: &[u8]) -> (r: Result<LinearPayload, AliceError>)
        ensures
            r == spec_parse_linear(data@),
    {
        if data.len() < 8 {
            return Err(AliceError::PayloadTooShort);
        }
        let slope_q16 = u32_to_i32(read_u32_le(data, 0));
        let intercept_q16 = u32_to_i32(read_u32_le(data, 4));
        let sample_count = if data.len() >= 12 {
            read_u32_le(data, 8)
        } else {
            0
        };
        Ok(LinearPayload { slope_q16, intercept_q16, sample_count })
    }

    /// Serialize to the 12-byte layout.
    pub fn to_bytes(&self) -> (r: Vec<u8>)
        ensures
            r@ == spec_linear_bytes(*self),
            r@.len() == LINEAR_PAYLOAD_SIZE,
    {
        let mut out: Vec<u8> = Vec::new();
        push_u32_le(&mut out, i32_to_u32(self.slope_q16));
        push_u32_le(&mut out, i32_to_u32(self.intercept_q16));
        push_u32_le(&mut out, self.sample_count);
        proof {
            assert(out@ =~= spec_linear_bytes(*self));
        }
        out
    }

    /// Evaluate the model at `x` in Q16.16: the slope product is taken in
    /// a wider type, and the combination with the intercept wraps on
    /// 32-bit overflow exactly like two's-complement arithmetic. Encoders
    /// rely on this wrap, so it is part of the contract.
    pub fn evaluate_q16(&self, x: i32) -> (r: i32)
        ensures
            r as int == wrap_i32(self.slope_q16 * x + self.intercept_q16),
    {
        let a: u64 = i32_to_u32(self.slope_q16) as u64;
        let b: u64 = i32_to_u32(x) as u64;
        let c: u64 = i32_to_u32(self.intercept_q16) as u64;
        proof {
            assert(a * b <= 0xFFFFFFFFu64 * 0xFFFFFFFFu64) by (nonlinear_arith)
                requires
                    a <= 0xFFFFFFFF,
                    b <= 0xFFFFFFFF,
            ;
        }
        let prod_low: u64 = (a * b) % 0x100000000;
        let sum: u64 = (prod_low + c) % 0x100000000;
        let r = u32_to_i32(sum as u32);
        proof {
            let m = 0x100000000int;
            let s = self.slope_q16 as int;
            let xx = x as int;
            let ic = self.intercept_q16 as int;
            lemma_mul_mod_noop_general(a as int, b as int, m);
            lemma_mul_mod_noop_general(s, xx, m);
            assert((a as int) % m == s % m);
            assert((b as int) % m == xx % m);
            lemma_mul_mod_noop_general(s % m, xx % m, m);
            assert((a as int * b as int) % m == (s * xx) % m);
            assert(sum as int == ((s * xx) % m + ic % m) % m) by {
                assert(prod_low as int == (s * xx) % m);
                assert((c as int) % m == ic % m);
            };
            assert(r as int == wrap_i32(s * xx + ic)) by {
                vstd::arithmetic::div_mod::lemma_add_mod_noop(s * xx, ic, m);
                vstd::arithmetic::div_mod::lemma_add_mod_noop((s * xx + ic) % m, 0x80000000int, m);
                vstd::arithmetic::div_mod::lemma_add_mod_noop(s * xx + ic, 0x80000000int, m);
                vstd::arithmetic::div_mod::lemma_mod_mod(s * xx + ic, m, m);
            };
        }
        r
    }

    /// The human-readable equation string, rendered from the fixed-point
    /// fields with the same rounding the single-precision display takes.
    pub fn equation_string(&self) -> (r: String)
        ensures
            r@ == spec_linear_equation(self.slope_q16, self.intercept_q16),
    {
        let slope_abs = abs_u64(self.slope_q16);
        let intercept_abs = abs_u64(self.intercept_q16);
        let sa = round_sig(slope_abs as u128, 0x1000000);
        let ia = round_sig(intercept_abs as u128, 0x1000000);
        let mut s = "y = ".to_owned();
        if slope_abs <= 6 {
            if self.intercept_q16 < 0 {
                s.append("-");
            }
            let num = fixed_string(ia, 0x10000, 4);
            s.append(num.as_str());
        } else {
            if self.slope_q16 < 0 {
                s.append("-");
            }
            let num = fixed_string(sa, 0x10000, 6);
            s.append(num.as_str());
            if intercept_abs <= 6 {
                s.append("x");
            } else if self.intercept_q16 >= 0 {
                s.append("x + ");
                let inum = fixed_string(ia, 0x10000, 4);
                s.append(inum.as_str());
            } else {
                s.append("x - ");
                let inum = fixed_string(ia, 0x10000, 4);
                s.append(inum.as_str());
            }
        }
        proof {
            reveal_strlit("-");
            assert(s@ =~= spec_linear_equation(self.slope_q16, self.intercept_q16));
        }
        s
    }
}

/// Evaluating a linear model at zero yields exactly the raw intercept:
/// the wrap-on-overflow combination cannot disturb it there.
pub proof fn lemma_evaluate_at_zero(p: LinearPayload)
    ensures
        wrap_i32(p.slope_q16 * 0 + p.intercept_q16) == p.intercept_q16,
{
    let ic = p.intercept_q16 as int;
    assert(wrap_i32(ic) == ic) by (nonlinear_arith)
        requires
            -0x80000000 <= ic < 0x80000000,
    ;
}

/// Magnitude of a signed 32-bit value, widened.
pub fn abs_u64(i: i32) -> (r: u64)
    ensures
        r as nat == abs_i32(i),
{
    if i >= 0 {
        i as u64
    } else if i == i32::MIN {
        0x80000000
    } else {
        (-i) as u64
    }
}

/// Perlin noise payload. `scale`, `persistence` and `lacunarity` are
/// single-precision bit patterns.
#[derive(Debug, Clone, Copy, PartialEq, Eq, Structural)]
pub struct PerlinPayload {
    pub seed: u64,
    pub scale_bits: u32,
    pub octaves: u32,
    pub persistence_bits: u32,
    pub lacunarity_bits: u32,
}

/// What Perlin payload parsing returns on any byte region.
pub open spec fn spec_parse_perlin(data: Seq<u8>) -> Result<PerlinPayload, AliceError> {
    if data.len() < 24 {
        Err(AliceError::PayloadTooShort)
    } else {
        Ok(
            PerlinPayload {
                seed: le8(data.subrange(0, 8)) as u64,
                scale_bits: le4(data.subrange(8, 12)) as u32,
                octaves: le4(data.subrange(12, 16)) as u32,
                persistence_bits: le4(data.subrange(16, 20)) as u32,
                lacunarity_bits: le4(data.subrange(20, 24)) as u32,
            },
        )
    }
}

/// The 24 bytes a Perlin payload serializes to.
pub open spec fn spec_perlin_bytes(p: PerlinPayload) -> Seq<u8> {
    u64_le(p.seed) + u32_le(p.scale_bits) + u32_le(p.octaves) + u32_le(p.persistence_bits)
        + u32_le(p.lacunarity_bits)
}

impl PerlinPayload {
    /// Parse a Perlin payload from its fixed 24-byte layout.
    pub fn parse(data: &[u8]) -> (r: Result<PerlinPayload, AliceError>)
        ensures
            r == spec_parse_perlin(data@),
    {
        if data.len() < PERLIN_PAYLOAD_SIZE {
            return Err(AliceError::PayloadTooShort);
        }
        Ok(
            PerlinPayload {
                seed: read_u64_le(data, 0),
                scale_bits: read_u32_le(data, 8),
                octaves: read_u32_le(data, 12),
                persistence_bits: read_u32_le(data, 16),
                lacunarity_bits: read_u32_le(data, 20),
            },
        )
    }

    /// Serialize to the fixed 24-byte layout.
    pub fn to_bytes(&self) -> (r: Vec<u8>)
        ensures
            r@ == spec_perlin_bytes(*self),
            r@.len() == PERLIN_PAYLOAD_SIZE,
    {
        let mut out: Vec<u8> = Vec::new();
        push_u64_le(&mut out, self.seed);
        push_u32_le(&mut out, self.scale_bits);
        push_u32_le(&mut out, self.octaves);
        push_u32_le(&mut out, self.persistence_bits);
        push_u32_le(&mut out, self.lacunarity_bits);
        proof {
            assert(out@ =~= spec_perlin_bytes(*self));
        }
        out
    }
}

/// The equation string of a Perlin payload: every parameter in order,
/// the floating-point ones with two decimals.
pub open spec fn spec_perlin_equation(p: PerlinPayload) -> Seq<char> {
    "FBM(seed="@ + spec_dec(p.seed as nat) + ", scale="@ + spec_fmt_f32(p.scale_bits, 2)
        + ", octaves="@ + spec_dec(p.octaves as nat) + ", persistence="@ + spec_fmt_f32(
        p.persistence_bits,
        2,
    ) + ", lacunarity="@ + spec_fmt_f32(p.lacunarity_bits, 2) + ")"@
}

impl PerlinPayload {
    /// The human-readable equation string.
    pub fn equation_string(&self) -> (r: String)
        ensures
            r@ == spec_perlin_equation(*self),
    {
        let mut s = "FBM(seed=".to_owned();
        let seed = dec_string(self.seed as u128);
        s.append(seed.as_str());
        s.append(", scale=");
        let scale = fmt_f32_bits(self.scale_bits, 2);
        s.append(scale.as_str());
        s.append(", octaves=");
        let oct = dec_string(self.octaves as u128);
        s.append(oct.as_str());
        s.append(", persistence=");
        let per = fmt_f32_bits(self.persistence_bits, 2);
        s.append(per.as_str());
        s.append(", lacunarity=");
        let lac = fmt_f32_bits(self.lacunarity_bits, 2);
        s.append(lac.as_str());
        s.append(")");
        proof {
            assert(s@ =~= spec_perlin_equation(*self));
        }
        s
    }
}

/// Fractal payload. `escape_radius` is a single-precision bit pattern;
/// centers and the Julia constant are double-precision bit patterns.
#[derive(Debug, Clone, Copy, PartialEq, Eq, Structural)]
pub struct FractalPayload {
    /// 0 = Mandelbrot, 1 = Julia, 2 = Burning Ship, 3 = Tricorn.
    pub fractal_type: u8,
    pub max_iterations: u32,
    pub escape_radius_bits: u32,
    pub center_x_bits: u64,
    pub center_y_bits: u64,
    pub julia_cx_bits: u64,
    pub julia_cy_bits: u64,
}

/// What Fractal payload parsing returns on any byte region.
pub open spec fn spec_parse_fractal(data: Seq<u8>) -> Result<FractalPayload, AliceError> {
    if data.len() < 41 {
        Err(AliceError::PayloadTooShort)
    } else {
        Ok(
            FractalPayload {
                fractal_type: data[0],
                max_iterations: le4(data.subrange(1, 5)) as u32,
                escape_radius_bits: le4(data.subrange(5, 9)) as u32,
                center_x_bits: le8(data.subrange(9, 17)) as u64,
                center_y_bits: le8(data.subrange(17, 25)) as u64,
                julia_cx_bits: le8(data.subrange(25, 33)) as u64,
                julia_cy_bits: le8(data.subrange(33, 41)) as u64,
            },
        )
    }
}

/// The 41 bytes a Fractal payload serializes to.
pub open spec fn spec_fractal_bytes(p: FractalPayload) -> Seq<u8> {
    seq![p.fractal_type] + u32_le(p.max_iterations) + u32_le(p.escape_radius_bits) + u64_le(
        p.center_x_bits,
    ) + u64_le(p.center_y_bits) + u64_le(p.julia_cx_bits) + u64_le(p.julia_cy_bits)
}

impl FractalPayload {
    /// Parse a Fractal payload from its fixed 41-byte layout.
    pub fn parse(data: &[u8]) -> (r: Result<FractalPayload, AliceError>)
        ensures
            r == spec_parse_fractal(data@),
    {
        if data.len() < FRACTAL_PAYLOAD_SIZE {
            return Err(AliceError::PayloadTooShort);
        }
        Ok(
            FractalPayload {
                fractal_type: data[0],
                max_iterations: read_u32_le(data, 1),
                escape_radius_bits: read_u32_le(data, 5),
                center_x_bits: read_u64_le(data, 9),
                center_y_bits: read_u64_le(data, 17),
                julia_cx_bits: read_u64_le(data, 25),
                julia_cy_bits: read_u64_le(data, 33),
            },
        )
    }

    /// Serialize to the fixed 41-byte layout.
    #[verifier::rlimit(50)]
    pub fn to_bytes(&self) -> (r: Vec<u8>)
        ensures
            r@ == spec_fractal_bytes(*self),
            r@.len() == FRACTAL_PAYLOAD_SIZE,
    {
        let mut out: Vec<u8> = Vec::new();
        out.push(self.fractal_type);
        push_u32_le(&mut out, self.max_iterations);
        push_u32_le(&mut out, self.escape_radius_bits);
        push_u64_le(&mut out, self.center_x_bits);
        push_u64_le(&mut out, self.center_y_bits);
        push_u64_le(&mut out, self.julia_cx_bits);
        push_u64_le(&mut out, self.julia_cy_bits);
        proof {
            assert(out@ =~= spec_fractal_bytes(*self));
        }
        out
    }

    /// Display name of the fractal kind.
    pub fn fractal_name(&self) -> (r: &'static str)
        ensures
            self.fractal_type == 0 ==> r@ == "Mandelbrot"@,
            self.fractal_type == 1 ==> r@ == "Julia"@,
            self.fractal_type == 2 ==> r@ == "Burning Ship"@,
            self.fractal_type == 3 ==> r@ == "Tricorn"@,
            self.fractal_type > 3 ==> r@ == "Unknown"@,
    {
        match self.fractal_type {
            0 => "Mandelbrot",
            1 => "Julia",
            2 => "Burning Ship",
            3 => "Tricorn",
            _ => "Unknown",
        }
    }
}

/// The equation string of a Fractal payload: one fixed form per kind,
/// centers with six decimals and the Julia constant with four.
pub open spec fn spec_fractal_equation(p: FractalPayload) -> Seq<char> {
    if p.fractal_type == 0 {
        "Mandelbrot: z = z² + c, iter="@ + spec_dec(p.max_iterations as nat) + ", center=("@
            + spec_fmt_f64(p.center_x_bits, 6) + ", "@ + spec_fmt_f64(p.center_y_bits, 6) + ")"@
    } else if p.fractal_type == 1 {
        "Julia: z = z² + ("@ + spec_fmt_f64(p.julia_cx_bits, 4) + ", "@ + spec_fmt_f64(
            p.julia_cy_bits,
            4,
        ) + "), iter="@ + spec_dec(p.max_iterations as nat)
    } else if p.fractal_type == 2 {
        "BurningShip: z = (|Re(z)| + i|Im(z)|)² + c, iter="@ + spec_dec(p.max_iterations as nat)
    } else if p.fractal_type == 3 {
        "Tricorn: z = conj(z)² + c, iter="@ + spec_dec(p.max_iterations as nat)
    } else {
        "Unknown fractal"@
    }
}

impl FractalPayload {
    /// The human-readable equation string.
    pub fn equation_string(&self) -> (r: String)
        ensures
            r@ == spec_fractal_equation(*self),
    {
        if self.fractal_type == 0 {
            let mut s = "Mandelbrot: z = z² + c, iter=".to_owned();
            let it = dec_string(self.max_iterations as u128);
            s.append(it.as_str());
            s.append(", center=(");
            let cx = fmt_f64_bits(self.center_x_bits, 6);
            s.append(cx.as_str());
            s.append(", ");
            let cy = fmt_f64_bits(self.center_y_bits, 6);
            s.append(cy.as_str());
            s.append(")");
            proof {
                assert(s@ =~= spec_fractal_equation(*self));
            }
            s
        } else if self.fractal_type == 1 {
            let mut s = "Julia: z = z² + (".to_owned();
            let cx = fmt_f64_bits(self.julia_cx_bits, 4);
            s.append(cx.as_str());
            s.append(", ");
            let cy = fmt_f64_bits(self.julia_cy_bits, 4);
            s.append(cy.as_str());
            s.append("), iter=");
            let it = dec_string(self.max_iterations as u128);
            s.append(it.as_str());
            proof {
                assert(s@ =~= spec_fractal_equation(*self));
            }
            s
        } else if self.fractal_type == 2 {
            let mut s = "BurningShip: z = (|Re(z)| + i|Im(z)|)² + c, iter=".to_owned();
            let it = dec_string(self.max_iterations as u128);
            s.append(it.as_str());
            proof {
                assert(s@ =~= spec_fractal_equation(*self));
            }
            s
        } else if self.fractal_type == 3 {
            let mut s = "Tricorn: z = conj(z)² + c, iter=".to_owned();
            let it = dec_string(self.max_iterations as u128);
            s.append(it.as_str());
            proof {
                assert(s@ =~= spec_fractal_equation(*self));
            }
            s
        } else {
            "Unknown fractal".to_owned()
        }
    }
}

/// The equation string of any payload.
pub open spec fn spec_payload_equation(p: AlicePayload) -> Seq<char> {
    match p {
        AlicePayload::Linear(q) => spec_linear_equation(q.slope_q16, q.intercept_q16),
        AlicePayload::Perlin(q) => spec_perlin_equation(q),
        AlicePayload::Fractal(q) => spec_fractal_equation(q),
    }
}

/// Serializing a Linear payload and parsing the bytes back gives the
/// same payload: the round trip is lossless for every field.
pub proof fn lemma_linear_roundtrip(p: LinearPayload)
    ensures
        spec_parse_linear(spec_linear_bytes(p)) == Ok::<LinearPayload, AliceError>(p),
{
    let bytes = spec_linear_bytes(p);
    assert(bytes.len() == 12);
    assert(bytes.subrange(0, 4) =~= u32_le(u32_of_i32(p.slope_q16)));
    assert(bytes.subrange(4, 8) =~= u32_le(u32_of_i32(p.intercept_q16)));
    assert(bytes.subrange(8, 12) =~= u32_le(p.sample_count));
    crate::wire::lemma_u32_le_roundtrip(u32_of_i32(p.slope_q16));
    crate::wire::lemma_u32_le_roundtrip(u32_of_i32(p.intercept_q16));
    crate::wire::lemma_u32_le_roundtrip(p.sample_count);
    crate::wire::lemma_i32_u32_roundtrip(p.slope_q16);
    crate::wire::lemma_i32_u32_roundtrip(p.intercept_q16);
}

/// Serializing a Perlin payload and parsing the bytes back gives the
/// same payload: the round trip is lossless for every field.
pub proof fn lemma_perlin_roundtrip(p: PerlinPayload)
    ensures
        spec_parse_perlin(spec_perlin_bytes(p)) == Ok::<PerlinPayload, AliceError>(p),
{
    let bytes = spec_perlin_bytes(p);
    assert(bytes.len() == 24);
    assert(bytes.subrange(0, 8) =~= u64_le(p.seed));
    assert(bytes.subrange(8, 12) =~= u32_le(p.scale_bits));
    assert(bytes.subrange(12, 16) =~= u32_le(p.octaves));
    assert(bytes.subrange(16, 20) =~= u32_le(p.persistence_bits));
    assert(bytes.subrange(20, 24) =~= u32_le(p.lacunarity_bits));
    crate::wire::lemma_u64_le_roundtrip(p.seed);
    crate::wire::lemma_u32_le_roundtrip(p.scale_bits);
    crate::wire::lemma_u32_le_roundtrip(p.octaves);
    crate::wire::lemma_u32_le_roundtrip(p.persistence_bits);
    crate::wire::lemma_u32_le_roundtrip(p.lacunarity_bits);
}

/// Serializing a Fractal payload and parsing the bytes back gives the
/// same payload: the round trip is lossless for every field.
pub proof fn lemma_fractal_roundtrip(p: FractalPayload)
    ensures
        spec_parse_fractal(spec_fractal_bytes(p)) == Ok::<FractalPayload, AliceError>(p),
{
    let bytes = spec_fractal_bytes(p);
    assert(bytes.len() == 41);
    assert(bytes[0] == p.fractal_type);
    assert(bytes.subrange(1, 5) =~= u32_le(p.max_iterations));
    assert(bytes.subrange(5, 9) =~= u32_le(p.escape_radius_bits));
    assert(bytes.subrange(9, 17) =~= u64_le(p.center_x_bits));
    assert(bytes.subrange(17, 25) =~= u64_le(p.center_y_bits));
    assert(bytes.subrange(25, 33) =~= u64_le(p.julia_cx_bits));
    assert(bytes.subrange(33, 41) =~= u64_le(p.julia_cy_bits));
    crate::wire::lemma_u32_le_roundtrip(p.max_iterations);
    crate::wire::lemma_u32_le_roundtrip(p.escape_radius_bits);
    crate::wire::lemma_u64_le_roundtrip(p.center_x_bits);
    crate::wire::lemma_u64_le_roundtrip(p.center_y_bits);
    crate::wire::lemma_u64_le_roundtrip(p.julia_cx_bits);
    crate::wire::lemma_u64_le_roundtrip(p.julia_cy_bits);
}

/// The typed payload of a container: one variant per implemented codec.
#[derive(Debug, Clone, Copy, PartialEq, Eq, Structural)]
pub enum AlicePayload {
    Linear(LinearPayload),
    Perlin(PerlinPayload),
    Fractal(FractalPayload),
}

/// The bytes any payload serializes to.
pub open spec fn spec_payload_bytes(p: AlicePayload) -> Seq<u8> {
    match p {
        AlicePayload::Linear(q) => spec_linear_bytes(q),
        AlicePayload::Perlin(q) => spec_perlin_bytes(q),
        AlicePayload::Fractal(q) => spec_fractal_bytes(q),
    }
}

impl AlicePayload {
    /// The human-readable equation string of whichever payload is held.
    pub fn equation_string(&self) -> (r: String)
        ensures
            r@ == spec_payload_equation(*self),
    {
        match self {
            AlicePayload::Linear(p) => p.equation_string(),
            AlicePayload::Perlin(p) => p.equation_string(),
            AlicePayload::Fractal(p) => p.equation_string(),
        }
    }

    /// Serialize whichever payload variant is held.
    pub fn to_bytes(&self) -> (r: Vec<u8>)
        ensures
            r@ == spec_payload_bytes(*self),
    {
        match self {
            AlicePayload::Linear(p) => p.to_bytes(),
            AlicePayload::Perlin(p) => p.to_bytes(),
            AlicePayload::Fractal(p) => p.to_bytes(),
        }
    }
}

} // verus!
