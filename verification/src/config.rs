//! The run configuration: which sink draws the frame, at what resolution,
//! and how the model is placed. Parsed from the command line's arguments,
//! handed in as byte strings; reading the process's arguments is the
//! shell's business.

use vstd::prelude::*;

use crate::fixed::FX_ONE;
use crate::model::{bytes_is, int_format, int_value_spec, parse_fixed, parse_int, split_bytes};

verus! {

/// Where a frame goes: an image file or the terminal.
#[derive(Debug)]
pub enum DrawMode {
    Picture,
    Console,
}

/// What went wrong with the command line.
#[derive(Debug)]
pub enum ConfigError {
    ParseError(Vec<u8>),
    InvalidArg(Vec<u8>),
    MissingValue(Vec<u8>),
    DimensionMissing,
    PathMissing,
}

/// The default camera distance: fifty units.
pub const DEFAULT_DISTANCE: i64 = 50 * FX_ONE;

/// The default model rotation: nine tenths of a radian.
pub const DEFAULT_ROTATION: i64 = 15099494;

/// The parsed run configuration.
#[derive(Debug)]
pub struct Config {
    pub model_path: Vec<u8>,
    pub draw_mode: DrawMode,
    pub size: Option<(usize, usize)>,
    pub distance: i64,
    pub rotation: i64,
    pub undeferred: bool,
}

/// An ASCII byte string lowered to lower case.
pub open spec fn lower_spec(s: Seq<u8>) -> Seq<u8> {
    s.map_values(
        |b: u8|
            if 65 <= b <= 90 {
                (b + 32) as u8
            } else {
                b
            },
    )
}

fn to_lower(v: &Vec<u8>) -> (r: Vec<u8>)
    ensures
        r@ == lower_spec(v@),
{
    let mut out: Vec<u8> = Vec::new();
    let mut i: usize = 0;
    while i < v.len()
        invariant
            i <= v@.len(),
            out@.len() == i,
            forall|j: int|
                0 <= j < i ==> out@[j] == (if 65 <= v@[j] <= 90 {
                    (v@[j] + 32) as u8
                } else {
                    v@[j]
                }),
        decreases v@.len() - i,
    {
        let b = v[i];
        out.push(
            if 65 <= b && b <= 90 {
                b + 32
            } else {
                b
            },
        );
        i = i + 1;
    }
    proof {
        assert(out@ =~= lower_spec(v@));
    }
    out
}

fn parse_usize(v: &Vec<u8>) -> (r: Option<usize>)
    ensures
        r matches Some(x) ==> int_format(v@) && x as int == int_value_spec(v@),
{
    match parse_int(v) {
        Some(x) => {
            if x < 0 || x as u64 > usize::MAX as u64 {
                None
            } else {
                Some(x as usize)
            }
        },
        None => None,
    }
}

impl Config {
    /// Parses the command line: the last argument names the model file, and
    /// the flags before it pick the sink, the resolution, the camera
    /// distance and the model rotation. An empty command line misses the
    /// model path; a single argument is the model path with every default.
    pub fn parse(args: Vec<Vec<u8>>) -> (r: Result<Config, ConfigError>)
        ensures
            args@.len() == 0 ==> (r matches Err(e) && e is PathMissing),
            args@.len() == 1 ==> (r matches Ok(c) && c.model_path@ == args@[0]@ && c.size is None
                && c.distance == DEFAULT_DISTANCE && c.rotation == DEFAULT_ROTATION
                && !c.undeferred && c.draw_mode is Picture),
    {
        let mut model_path: Option<Vec<u8>> = None;
        let mut draw_mode = DrawMode::Picture;
        let mut size: Option<(usize, usize)> = None;
        let mut distance: i64 = DEFAULT_DISTANCE;
        let mut rotation: i64 = DEFAULT_ROTATION;
        let mut undeferred = false;
        let n = args.len();
        let mut i: usize = 0;
        while i < n
            invariant_except_break
                n == args@.len(),
                i <= n,
                model_path is None,
                n == 1 ==> i == 0 && size is None && distance == DEFAULT_DISTANCE && rotation
                    == DEFAULT_ROTATION && !undeferred && draw_mode is Picture,
            ensures
                n == 0 ==> model_path is None,
                n == 1 ==> (model_path matches Some(p) && p@ == args@[0]@ && size is None
                    && distance == DEFAULT_DISTANCE && rotation == DEFAULT_ROTATION && !undeferred
                    && draw_mode is Picture),
            decreases n - i,
        {
            let arg = args[i].clone();
            if i + 1 >= n {
                model_path = Some(arg);
                break ;
            }
            if bytes_is(&arg, &[45u8, 109u8]) || bytes_is(
                &arg,
                &[45u8, 45u8, 109u8, 111u8, 100u8, 101u8],
            ) {
                // -m, --mode
                let value = args[i + 1].clone();
                i = i + 2;
                let lowered = to_lower(&value);
                if bytes_is(&lowered, &[112u8, 105u8, 99u8, 116u8, 117u8, 114u8, 101u8]) {
                    draw_mode = DrawMode::Picture;
                } else if bytes_is(&lowered, &[99u8, 111u8, 110u8, 115u8, 111u8, 108u8, 101u8]) {
                    draw_mode = DrawMode::Console;
                } else {
                    return Err(ConfigError::ParseError(value));
                }
            } else if bytes_is(&arg, &[45u8, 115u8]) || bytes_is(
                &arg,
                &[45u8, 45u8, 115u8, 105u8, 122u8, 101u8],
            ) {
                // -s, --size
                let value = args[i + 1].clone();
                i = i + 2;
                let pair = split_bytes(&value, 32);
                if pair.len() < 1 {
                    return Err(ConfigError::DimensionMissing);
                }
                let width = match parse_usize(&pair[0]) {
                    Some(w) => w,
                    None => {
                        return Err(ConfigError::ParseError(value));
                    },
                };
                if pair.len() < 2 {
                    return Err(ConfigError::DimensionMissing);
                }
                let height = match parse_usize(&pair[1]) {
                    Some(h) => h,
                    None => {
                        return Err(ConfigError::ParseError(value));
                    },
                };
                size = Some((width, height));
            } else if bytes_is(&arg, &[45u8, 100u8]) || bytes_is(
                &arg,
                &[45u8, 45u8, 100u8, 105u8, 115u8, 116u8, 97u8, 110u8, 99u8, 101u8],
            ) {
                // -d, --distance
                let value = args[i + 1].clone();
                i = i + 2;
                let trimmed = crate::model::trim_bytes(&value);
                distance = match parse_fixed(&trimmed) {
                    Some(d) => d,
                    None => {
                        return Err(ConfigError::ParseError(value));
                    },
                };
            } else if bytes_is(&arg, &[45u8, 114u8]) || bytes_is(
                &arg,
                &[45u8, 45u8, 114u8, 111u8, 116u8, 97u8, 116u8, 105u8, 111u8, 110u8],
            ) {
                // -r, --rotation
                let value = args[i + 1].clone();
                i = i + 2;
                let trimmed = crate::model::trim_bytes(&value);
                rotation = match parse_fixed(&trimmed) {
                    Some(d) => d,
                    None => {
                        return Err(ConfigError::ParseError(value));
                    },
                };
            } else if bytes_is(&arg, &[45u8, 117u8]) || bytes_is(
                &arg,
                &[
                    45u8,
                    45u8,
                    117u8,
                    110u8,
                    100u8,
                    101u8,
                    102u8,
                    101u8,
                    114u8,
                    114u8,
                    101u8,
                    100u8,
                ],
            ) {
                // -u, --undeferred
                undeferred = true;
                i = i + 1;
            } else {
                return Err(ConfigError::InvalidArg(arg));
            }
        }
        match model_path {
            Some(path) => Ok(
                Config { model_path: path, draw_mode, size, distance, rotation, undeferred },
            ),
            None => Err(ConfigError::PathMissing),
        }
    }
}

} // verus!
