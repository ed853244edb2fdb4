use imagefx::fractal::escape_continue;
use imagefx::fractal::fractal_pixels;
use imagefx::fractal::FRACTAL_HEIGHT;
use imagefx::fractal::FRACTAL_WIDTH;

/// The green channel of one pixel, driven by the library's loop decision:
/// iterate z := z * z + c from the pixel's starting point, c = (-0.4, 0.6),
/// while the count is below 255 and |z| stays within 2.0.
fn green_at(x: usize, y: usize) -> u8 {
    let scale_x: f32 = 3.0 / FRACTAL_WIDTH as f32;
    let scale_y: f32 = 3.0 / FRACTAL_HEIGHT as f32;
    let mut zr: f32 = y as f32 * scale_x - 1.5;
    let mut zi: f32 = x as f32 * scale_y - 1.5;
    let mut green: u8 = 0;
    while escape_continue(green, zr.hypot(zi) <= 2.0) {
        let nr: f32 = zr * zr - zi * zi + (-0.4);
        let ni: f32 = zr * zi + zi * zr + 0.6;
        zr = nr;
        zi = ni;
        green += 1;
    }
    green
}

/// The same counts for the whole image, row-major.
fn renderer_greens() -> Vec<u8> {
    let mut greens: Vec<u8> = Vec::with_capacity(FRACTAL_WIDTH * FRACTAL_HEIGHT);
    for y in 0..FRACTAL_HEIGHT {
        for x in 0..FRACTAL_WIDTH {
            greens.push(green_at(x, y));
        }
    }
    greens
}

/// Arbitrary green values, cheap to build, for tests of the assembly alone.
fn synthetic_greens() -> Vec<u8> {
    let mut greens: Vec<u8> = Vec::with_capacity(FRACTAL_WIDTH * FRACTAL_HEIGHT);
    for p in 0..FRACTAL_WIDTH * FRACTAL_HEIGHT {
        greens.push((p % 251) as u8);
    }
    greens
}

#[test]
fn raster_has_three_bytes_per_pixel() {
    let r = fractal_pixels(&synthetic_greens());
    assert_eq!(r.len(), 3 * FRACTAL_WIDTH * FRACTAL_HEIGHT);
}

#[test]
fn raster_channels_follow_the_formula() {
    let greens = synthetic_greens();
    let r = fractal_pixels(&greens);
    for y in 0..FRACTAL_HEIGHT {
        for x in 0..FRACTAL_WIDTH {
            let p: usize = y * FRACTAL_WIDTH + x;
            assert_eq!(r[3 * p], (3 * x / 10) as u8, "red at {},{}", x, y);
            assert_eq!(r[3 * p + 1], greens[p], "green at {},{}", x, y);
            assert_eq!(r[3 * p + 2], (3 * y / 10) as u8, "blue at {},{}", x, y);
        }
    }
}

#[test]
fn red_and_blue_match_the_float_gradient() {
    // the verified integer formula agrees with the gradient computed the
    // floating-point way: (0.3 * v) truncated to eight bits
    for v in 0..FRACTAL_WIDTH {
        assert_eq!((0.3f32 * v as f32) as u8, (3 * v / 10) as u8, "at {}", v);
    }
}

#[test]
fn gradient_channel_samples() {
    let r = fractal_pixels(&synthetic_greens());
    // exact expected values for a few pixels
    assert_eq!(r[0], 0); // red at x = 0
    assert_eq!(r[2], 0); // blue at y = 0
    let p: usize = 7 * FRACTAL_WIDTH + 10;
    assert_eq!(r[3 * p], 3); // red at x = 10
    assert_eq!(r[3 * p + 2], 2); // blue at y = 7
    let q: usize = 799 * FRACTAL_WIDTH + 799;
    assert_eq!(r[3 * q], 239); // red at x = 799
    assert_eq!(r[3 * q + 2], 239); // blue at y = 799
}

#[test]
fn loop_without_escape_saturates_at_255() {
    let mut green: u8 = 0;
    while escape_continue(green, true) {
        green += 1;
    }
    assert_eq!(green, 255);
}

#[test]
fn nonescaping_pixels_read_full_green() {
    // wherever an independent 255-step simulation never sees |z| exceed 2.0,
    // the library-driven loop must stop at a green of exactly 255
    for y in (0..FRACTAL_HEIGHT).step_by(20) {
        for x in (0..FRACTAL_WIDTH).step_by(20) {
            let scale: f32 = 3.0 / 800.0;
            let mut zr: f32 = y as f32 * scale - 1.5;
            let mut zi: f32 = x as f32 * scale - 1.5;
            let mut escaped = false;
            for _ in 0..255 {
                if zr.hypot(zi) > 2.0 {
                    escaped = true;
                    break;
                }
                let nr: f32 = zr * zr - zi * zi + (-0.4);
                let ni: f32 = zr * zi + zi * zr + 0.6;
                zr = nr;
                zi = ni;
            }
            if !escaped {
                assert_eq!(green_at(x, y), 255, "pixel {},{}", x, y);
            }
        }
    }
}

#[test]
fn library_driven_loop_matches_a_plain_loop() {
    // the loop driven by escape_continue computes the same count as one
    // written with the guard spelled out
    for y in (0..FRACTAL_HEIGHT).step_by(31) {
        for x in (0..FRACTAL_WIDTH).step_by(31) {
            let scale: f32 = 3.0 / 800.0;
            let mut zr: f32 = y as f32 * scale - 1.5;
            let mut zi: f32 = x as f32 * scale - 1.5;
            let mut green: u8 = 0;
            while green < 255 && zr.hypot(zi) <= 2.0 {
                let nr: f32 = zr * zr - zi * zi + (-0.4);
                let ni: f32 = zr * zi + zi * zr + 0.6;
                zr = nr;
                zi = ni;
                green += 1;
            }
            assert_eq!(green_at(x, y), green, "pixel {},{}", x, y);
        }
    }
}

#[test]
fn scenario_fractal_rerun_is_byte_identical() {
    // effect=fractal: the whole raster is a pure function of the pixel
    // coordinates, so rendering twice gives byte-identical output
    let first = fractal_pixels(&renderer_greens());
    let second = fractal_pixels(&renderer_greens());
    assert_eq!(first.len(), 3 * 800 * 800);
    assert_eq!(first, second);
}
