//! The command line: effect names, output-path defaulting, per-effect
//! parameter resolution, and the dispatch decision for one invocation.

use vstd::prelude::*;
use vstd::string::*;

use crate::crop::CropParamError;
use crate::crop::is_crop_quad;
use crate::crop::parse_crop_quad;
use crate::crop::quad_shape;
use crate::crop::quad_vals;
use crate::numerals::decimal_digits;
use crate::numerals::i32_numeral_val;
use crate::numerals::is_i32_numeral;
use crate::numerals::parse_i32;
use crate::numerals::u32_to_string;

verus! {

/// The sentinel the argument parser hands over when an optional
/// argument was not supplied.
pub const NO_VALUE: &'static str = "no_value";

/// The effects with a working handler.
#[derive(Debug, PartialEq, Eq, Clone, Copy)]
pub enum Effect {
    Blur,
    Brighten,
    Crop,
    Fractal,
}

/// Compares two strings character by character.
pub fn str_eq(a: &str, b: &str) -> (r: bool)
    ensures
        r == (a@ == b@),
{
    let alen = a.unicode_len();
    let blen = b.unicode_len();
    if alen != blen {
        return false;
    }
    let mut i: usize = 0;
    while i < alen
        invariant
            i <= alen,
            alen == a@.len(),
            alen == b@.len(),
            forall|t: int| 0 <= t < i ==> a@[t] == b@[t],
        decreases alen - i,
    {
        if a.get_char(i) != b.get_char(i) {
            return false;
        }
        i = i + 1;
    }
    proof {
        assert(a@ =~= b@);
    }
    true
}

/// Maps an effect name to its effect; `None` for every other name,
/// including the effects that have no working handler.
pub fn parse_effect(name: &str) -> (r: Option<Effect>)
    ensures
        (r == Some(Effect::Blur)) <==> name@ == "blur"@,
        (r == Some(Effect::Brighten)) <==> name@ == "brighten"@,
        (r == Some(Effect::Crop)) <==> name@ == "crop"@,
        (r == Some(Effect::Fractal)) <==> name@ == "fractal"@,
        (r is None) <==> (name@ != "blur"@ && name@ != "brighten"@ && name@ != "crop"@ && name@
            != "fractal"@),
{
    proof {
        reveal_strlit("blur");
        reveal_strlit("brighten");
        reveal_strlit("crop");
        reveal_strlit("fractal");
        assert("blur"@[0] == 'b' && "crop"@[0] == 'c' && "fractal"@[0] == 'f');
        assert("brighten"@.len() == 8);
        assert("blur"@ != "crop"@ && "blur"@ != "fractal"@ && "blur"@ != "brighten"@);
        assert("crop"@ != "fractal"@ && "crop"@ != "brighten"@);
        assert("fractal"@ != "brighten"@);
    }
    if str_eq(name, "blur") {
        Some(Effect::Blur)
    } else if str_eq(name, "brighten") {
        Some(Effect::Brighten)
    } else if str_eq(name, "crop") {
        Some(Effect::Crop)
    } else if str_eq(name, "fractal") {
        Some(Effect::Fractal)
    } else {
        None
    }
}

/// The output path of an invocation: the one given, or, where none was,
/// the input path prefixed with `out_`.
pub fn resolve_output(input: &str, output: &str) -> (r: String)
    ensures
        output@ == NO_VALUE@ ==> r@ == "out_"@ + input@,
        output@ != NO_VALUE@ ==> r@ == output@,
{
    if str_eq(output, NO_VALUE) {
        String::from_str("out_").concat(input)
    } else {
        output.to_owned()
    }
}

/// The blur parameter as text: the one given, or `2.0` where none was.
pub fn resolve_blur_param(param: &str) -> (r: String)
    ensures
        param@ == NO_VALUE@ ==> r@ == "2.0"@,
        param@ != NO_VALUE@ ==> r@ == param@,
{
    if str_eq(param, NO_VALUE) {
        String::from_str("2.0")
    } else {
        param.to_owned()
    }
}

/// The brightness delta: 100 where no parameter was given, otherwise the
/// parameter read as an `i32`; `None` exactly when that read fails.
pub fn resolve_brighten_amount(param: &str) -> (r: Option<i32>)
    ensures
        param@ == NO_VALUE@ ==> r == Some(100i32),
        param@ != NO_VALUE@ && is_i32_numeral(param@) ==> r == Some(i32_numeral_val(param@) as i32),
        param@ != NO_VALUE@ && !is_i32_numeral(param@) ==> r is None,
{
    if str_eq(param, NO_VALUE) {
        Some(100)
    } else {
        parse_i32(param)
    }
}

/// The one-line summary of the resolved invocation, printed before the
/// dispatch: the input path, the output path and the raw parameter.
pub fn summary_line(input: &str, output: &str, sigma: &str) -> (r: String)
    ensures
        r@ == "input "@ + input@ + " output "@ + output@ + " sigma "@ + sigma@,
{
    let mut s = String::from_str("input ");
    s.append(input);
    s.append(" output ");
    s.append(output);
    s.append(" sigma ");
    s.append(sigma);
    s
}

/// The line the crop handler prints: the rectangle it was asked for,
/// each component rendered in decimal.
pub fn crop_summary_line(x: u32, y: u32, width: u32, height: u32) -> (r: String)
    ensures
        r@ == "cropping x "@ + decimal_digits(x as int) + " y "@ + decimal_digits(y as int)
            + " width "@ + decimal_digits(width as int) + " height "@ + decimal_digits(
            height as int,
        ),
{
    let mut s = String::from_str("cropping x ");
    s.append(u32_to_string(x).as_str());
    s.append(" y ");
    s.append(u32_to_string(y).as_str());
    s.append(" width ");
    s.append(u32_to_string(width).as_str());
    s.append(" height ");
    s.append(u32_to_string(height).as_str());
    s
}

/// The usage text shown when the effect name is not recognised.
pub fn usage_text() -> (r: String)
    ensures
        r@ == "USAGE (when in doubt, use a .png extension on your filenames)\nblur INFILE OUTFILE"@,
{
    String::from_str("USAGE (when in doubt, use a .png extension on your filenames)\nblur INFILE OUTFILE")
}

/// What one invocation asks for, after every parameter is resolved.
#[derive(Debug, PartialEq, Eq)]
pub enum Plan {
    /// Blur the input by the sigma this text denotes.
    Blur { sigma: String },
    /// Brighten the input by this delta.
    Brighten { amount: i32 },
    /// The brighten parameter is not an integer.
    BrightenInvalid,
    /// Crop the input to this rectangle.
    Crop { x: u32, y: u32, width: u32, height: u32 },
    /// The crop parameter is not a usable quad.
    CropInvalid { error: CropParamError },
    /// Generate the fractal image.
    Fractal,
    /// The effect name is not recognised: show the usage text and fail.
    Usage,
}

/// The outcome owed for a well-shaped crop quad with commas at `i`, `j`, `k`:
/// the four components where they fit in `u32`, the oversize error otherwise.
pub open spec fn crop_plan_case(param: Seq<char>, r: Plan, i: int, j: int, k: int) -> bool {
    let q = quad_vals(param, i, j, k);
    if q.0 <= u32::MAX && q.1 <= u32::MAX && q.2 <= u32::MAX && q.3 <= u32::MAX {
        r == (Plan::Crop { x: q.0 as u32, y: q.1 as u32, width: q.2 as u32, height: q.3 as u32 })
    } else {
        r == (Plan::CropInvalid { error: CropParamError::TooLarge })
    }
}

/// Decides what one invocation does: exactly one effect handler for a
/// recognised effect name, with its parameter resolved, and the usage
/// path for every other name.
pub fn plan(effect: &str, param: &str) -> (r: Plan)
    ensures
        effect@ == "blur"@ && param@ == NO_VALUE@ ==> (r matches Plan::Blur { sigma } && sigma@
            == "2.0"@),
        effect@ == "blur"@ && param@ != NO_VALUE@ ==> (r matches Plan::Blur { sigma } && sigma@
            == param@),
        effect@ == "brighten"@ && param@ == NO_VALUE@ ==> r == (Plan::Brighten { amount: 100 }),
        effect@ == "brighten"@ && param@ != NO_VALUE@ && is_i32_numeral(param@) ==> r == (
        Plan::Brighten { amount: i32_numeral_val(param@) as i32 }),
        effect@ == "brighten"@ && param@ != NO_VALUE@ && !is_i32_numeral(param@) ==> r
            == Plan::BrightenInvalid,
        effect@ == "crop"@ ==> ((r == (Plan::CropInvalid { error: CropParamError::NotAQuad }))
            <==> !is_crop_quad(param@)),
        effect@ == "crop"@ ==> (forall|i: int, j: int, k: int|
            quad_shape(param@, i, j, k) ==> crop_plan_case(param@, r, i, j, k)),
        effect@ == "fractal"@ ==> r == Plan::Fractal,
        effect@ != "blur"@ && effect@ != "brighten"@ && effect@ != "crop"@ && effect@
            != "fractal"@ ==> r == Plan::Usage,
{
    match parse_effect(effect) {
        Some(Effect::Blur) => Plan::Blur { sigma: resolve_blur_param(param) },
        Some(Effect::Brighten) => {
            match resolve_brighten_amount(param) {
                Some(amount) => Plan::Brighten { amount },
                None => Plan::BrightenInvalid,
            }
        },
        Some(Effect::Crop) => {
            match parse_crop_quad(param) {
                Ok((x, y, width, height)) => Plan::Crop { x, y, width, height },
                Err(error) => Plan::CropInvalid { error },
            }
        },
        Some(Effect::Fractal) => Plan::Fractal,
        None => Plan::Usage,
    }
}

} // verus!
