//! The crop parameter: a `x,y,width,height` quad of decimal numerals,
//! recognised and read by a verified parser.

use vstd::prelude::*;
use vstd::string::*;

use crate::numerals::digits_to_u32;
use crate::numerals::digits_val;
use crate::numerals::is_digit;

verus! {

/// How a crop parameter can be rejected.
#[derive(Debug, PartialEq, Eq, Clone, Copy)]
pub enum CropParamError {
    /// The parameter is not four comma-separated runs of digits.
    NotAQuad,
    /// The shape is right, but a component does not fit in a `u32`.
    TooLarge,
}

/// `s` splits as digits, a comma, digits, a comma, digits, a comma, digits,
/// with the commas standing exactly at `i`, `j` and `k`.
pub open spec fn quad_shape(s: Seq<char>, i: int, j: int, k: int) -> bool {
    &&& 0 < i
    &&& i + 1 < j
    &&& j + 1 < k
    &&& k + 1 < s.len()
    &&& s[i] == ','
    &&& s[j] == ','
    &&& s[k] == ','
    &&& forall|t: int| 0 <= t < s.len() && t != i && t != j && t != k ==> is_digit(s[t])
}

/// `s` is a well-shaped quad of four comma-separated numerals.
pub open spec fn is_crop_quad(s: Seq<char>) -> bool {
    exists|i: int, j: int, k: int| quad_shape(s, i, j, k)
}

/// The four numbers a well-shaped quad denotes, given its comma positions.
pub open spec fn quad_vals(s: Seq<char>, i: int, j: int, k: int) -> (nat, nat, nat, nat) {
    (
        digits_val(s.subrange(0, i)),
        digits_val(s.subrange(i + 1, j)),
        digits_val(s.subrange(j + 1, k)),
        digits_val(s.subrange(k + 1, s.len() as int)),
    )
}

/// All four components of the quad fit in a `u32`.
pub open spec fn quad_fits(s: Seq<char>, i: int, j: int, k: int) -> bool {
    let q = quad_vals(s, i, j, k);
    q.0 <= u32::MAX && q.1 <= u32::MAX && q.2 <= u32::MAX && q.3 <= u32::MAX
}

/// A well-shaped quad splits in only one way: its commas are exactly the
/// commas of the string, so the split is determined by the string alone.
pub proof fn lemma_quad_split_determined(
    s: Seq<char>,
    a: int,
    b: int,
    c: int,
    c1: int,
    c2: int,
    c3: int,
)
    requires
        quad_shape(s, a, b, c),
        0 <= c1 < c2 < c3 < s.len(),
        s[c1] == ',',
        s[c2] == ',',
        s[c3] == ',',
        forall|t: int| 0 <= t < s.len() ==> is_digit(s[t]) || t == c1 || t == c2 || t == c3,
    ensures
        a == c1 && b == c2 && c == c3,
{
    assert(!is_digit(','));
    assert(a == c1 || a == c2 || a == c3);
    assert(b == c1 || b == c2 || b == c3);
    assert(c == c1 || c == c2 || c == c3);
    assert(c1 == a || c1 == b || c1 == c);
    assert(c2 == a || c2 == b || c2 == c);
    assert(c3 == a || c3 == b || c3 == c);
}

/// What `parse_crop_quad` promises of its result.
pub open spec fn crop_parse_ensures(
    s: Seq<char>,
    r: Result<(u32, u32, u32, u32), CropParamError>,
) -> bool {
    &&& ((r == Err::<(u32, u32, u32, u32), CropParamError>(
        CropParamError::NotAQuad,
    )) <==> !is_crop_quad(s))
    &&& (forall|i: int, j: int, k: int|
        quad_shape(s, i, j, k) ==> (
        {
            let q = quad_vals(s, i, j, k);
            if quad_fits(s, i, j, k) {
                r == Ok::<(u32, u32, u32, u32), CropParamError>(
                    (q.0 as u32, q.1 as u32, q.2 as u32, q.3 as u32),
                )
            } else {
                r == Err::<(u32, u32, u32, u32), CropParamError>(CropParamError::TooLarge)
            }
        }))
}

/// Reads a crop parameter of the form `x,y,width,height`.
/// `Err(NotAQuad)` exactly when the string is not four comma-separated
/// runs of digits; `Err(TooLarge)` exactly when it is, but a component
/// exceeds `u32::MAX`; otherwise the four components, in order.
pub fn parse_crop_quad(s: &str) -> (r: Result<(u32, u32, u32, u32), CropParamError>)
    ensures
        crop_parse_ensures(s@, r),
{
    let len = s.unicode_len();
    let mut c1: usize = 0;
    let mut c2: usize = 0;
    let mut c3: usize = 0;
    let mut ncommas: usize = 0;
    let mut i: usize = 0;
    while i < len
        invariant
            i <= len,
            len == s@.len(),
            ncommas <= 3,
            ncommas >= 1 ==> 0 <= c1 < i && s@[c1 as int] == ',',
            ncommas >= 2 ==> c1 < c2 < i && s@[c2 as int] == ',',
            ncommas >= 3 ==> c2 < c3 < i && s@[c3 as int] == ',',
            forall|t: int|
                0 <= t < i ==> is_digit(s@[t]) || (ncommas >= 1 && t == c1) || (ncommas >= 2 && t
                    == c2) || (ncommas >= 3 && t == c3),
        decreases len - i,
    {
        let c = s.get_char(i);
        let v = c as u32;
        if c == ',' {
            if ncommas == 3 {
                proof {
                    assert(!is_digit(','));
                    if is_crop_quad(s@) {
                        let (a, b, cc) = choose|a: int, b: int, cc: int| quad_shape(s@, a, b, cc);
                        assert(quad_shape(s@, a, b, cc));
                        assert(c1 as int == a || c1 as int == b || c1 as int == cc);
                        assert(c2 as int == a || c2 as int == b || c2 as int == cc);
                        assert(c3 as int == a || c3 as int == b || c3 as int == cc);
                        assert(i as int == a || i as int == b || i as int == cc);
                        assert(false);
                    }
                }
                return Err(CropParamError::NotAQuad);
            }
            if ncommas == 0 {
                c1 = i;
            } else if ncommas == 1 {
                c2 = i;
            } else {
                c3 = i;
            }
            ncommas = ncommas + 1;
        } else if !(48 <= v && v <= 57) {
            proof {
                assert(!is_digit(s@[i as int]));
                if is_crop_quad(s@) {
                    let (a, b, cc) = choose|a: int, b: int, cc: int| quad_shape(s@, a, b, cc);
                    assert(quad_shape(s@, a, b, cc));
                    assert(i as int == a || i as int == b || i as int == cc);
                    assert(false);
                }
            }
            return Err(CropParamError::NotAQuad);
        }
        i = i + 1;
    }
    if ncommas < 3 {
        proof {
            assert(!is_digit(','));
            if is_crop_quad(s@) {
                let (a, b, cc) = choose|a: int, b: int, cc: int| quad_shape(s@, a, b, cc);
                assert(quad_shape(s@, a, b, cc));
                assert(false);
            }
        }
        return Err(CropParamError::NotAQuad);
    }
    if c1 == 0 || c2 == c1 + 1 || c3 == c2 + 1 || c3 + 1 == len {
        proof {
            if is_crop_quad(s@) {
                let (a, b, cc) = choose|a: int, b: int, cc: int| quad_shape(s@, a, b, cc);
                lemma_quad_split_determined(s@, a, b, cc, c1 as int, c2 as int, c3 as int);
                assert(false);
            }
        }
        return Err(CropParamError::NotAQuad);
    }
    proof {
        assert(quad_shape(s@, c1 as int, c2 as int, c3 as int));
    }
    let x = digits_to_u32(s, 0, c1);
    let y = digits_to_u32(s, c1 + 1, c2);
    let w = digits_to_u32(s, c2 + 1, c3);
    let h = digits_to_u32(s, c3 + 1, len);
    proof {
        assert forall|a: int, b: int, cc: int| quad_shape(s@, a, b, cc) implies a == c1 as int && b
            == c2 as int && cc == c3 as int by {
            lemma_quad_split_determined(s@, a, b, cc, c1 as int, c2 as int, c3 as int);
        }
    }
    match (x, y, w, h) {
        (Some(xv), Some(yv), Some(wv), Some(hv)) => Ok((xv, yv, wv, hv)),
        _ => Err(CropParamError::TooLarge),
    }
}

} // verus!
