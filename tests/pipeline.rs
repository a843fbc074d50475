use std::io::Cursor;
use std::sync::Arc;

use cgmerge::cache::DecodeCache;
use cgmerge::compose::{combine, CombineError};
use cgmerge::manifest::split_tokens;
use cgmerge::pipeline::{component_file_name, output_file_name, LineFailure, LineJob, Step};
use cgmerge::progress::progress_due;
use cgmerge::raster::{Pixel, Raster};

const RED: Pixel = [255, 0, 0, 255];
const GREEN: Pixel = [0, 255, 0, 255];
const BLUE: Pixel = [0, 0, 255, 255];
const CLEAR: Pixel = [0, 0, 0, 0];

fn solid(w: u32, h: u32, p: Pixel) -> Raster {
    Raster::solid(w, h, p).unwrap()
}

fn layers(v: Vec<Raster>) -> Vec<Arc<Raster>> {
    v.into_iter().map(Arc::new).collect()
}

fn webp_of(img: &Raster) -> Vec<u8> {
    let raw: Vec<u8> = img.pixels.iter().flatten().copied().collect();
    let buf = image::RgbaImage::from_raw(img.width, img.height, raw).unwrap();
    let mut out = Cursor::new(Vec::new());
    buf.write_to(&mut out, image::ImageFormat::WebP).unwrap();
    out.into_inner()
}

fn png_pixels(bytes: &[u8]) -> (u32, u32, Vec<Pixel>) {
    let img = image::load_from_memory_with_format(bytes, image::ImageFormat::Png)
        .unwrap()
        .to_rgba8();
    (img.width(), img.height(), img.pixels().map(|p| p.0).collect())
}

/// Runs one line to the end, reading components from `files`; counts fetches.
fn run_line(
    line: &str,
    cache: &DecodeCache,
    files: &[(&str, Vec<u8>)],
    fetches: &mut Vec<String>,
) -> Result<(String, Vec<u8>), LineFailure> {
    let mut job = LineJob::start(line)?;
    loop {
        match job.advance(cache) {
            Step::Fetch(name) => {
                fetches.push(name.clone());
                let file = files.iter().find(|(n, _)| *n == name).map(|(_, b)| b.as_slice());
                if let Some(f) = job.supply(cache, file) {
                    return Err(f);
                }
            }
            Step::Write(name, bytes) => return Ok((name, bytes)),
            Step::Fail(f) => return Err(f),
        }
    }
}

#[test]
fn tokens_split_on_any_whitespace() {
    let t = split_tokens("  out1 a\tb \u{3000}c  ");
    assert_eq!(t, vec!["out1", "a", "b", "c"]);
    assert!(split_tokens(" \t ").is_empty());
    assert!(split_tokens("").is_empty());
}

#[test]
fn file_names_take_their_extensions() {
    assert_eq!(component_file_name("bg01"), "bg01.webp");
    assert_eq!(output_file_name("cg01"), "cg01.Png");
}

#[test]
fn blank_line_fails() {
    assert!(matches!(LineJob::start("   "), Err(LineFailure::Blank)));
}

#[test]
fn line_without_components_fails_without_output() {
    let cache = DecodeCache::new();
    let mut job = LineJob::start("lonely").unwrap();
    assert_eq!(job.output, "lonely");
    assert!(job.components.is_empty());
    assert!(matches!(job.advance(&cache), Step::Fail(LineFailure::NoComponents)));
}

#[test]
fn combine_of_nothing_is_empty_input() {
    assert!(matches!(combine(&Vec::new()), Err(CombineError::EmptyInput)));
}

#[test]
fn combine_of_one_layer_is_that_layer() {
    let mut a = solid(3, 2, [10, 20, 30, 128]);
    a.pixels[4] = [1, 2, 3, 4];
    let out = combine(&layers(vec![a.copy_of()])).unwrap();
    assert_eq!((out.width, out.height), (3, 2));
    assert_eq!(out.pixels, a.pixels);
}

#[test]
fn combine_is_a_left_fold() {
    let a = solid(4, 4, [200, 100, 50, 255]);
    let b = solid(4, 4, [0, 0, 255, 128]);
    let c = solid(2, 2, [0, 255, 0, 64]);
    let all = combine(&layers(vec![a.copy_of(), b.copy_of(), c.copy_of()])).unwrap();
    let ab = combine(&layers(vec![a, b])).unwrap();
    let stepwise = combine(&layers(vec![ab, c])).unwrap();
    assert_eq!(all.pixels, stepwise.pixels);
}

#[test]
fn combine_depends_on_order() {
    let ab = combine(&layers(vec![solid(2, 2, RED), solid(2, 2, GREEN)])).unwrap();
    let ba = combine(&layers(vec![solid(2, 2, GREEN), solid(2, 2, RED)])).unwrap();
    assert!(ab.pixels.iter().all(|p| *p == GREEN));
    assert!(ba.pixels.iter().all(|p| *p == RED));
    assert_ne!(ab.pixels, ba.pixels);
}

#[test]
fn overlay_clips_to_origin_and_skips_clear_pixels() {
    let base = solid(3, 3, RED);
    let mut top = solid(2, 5, BLUE);
    top.pixels[1] = CLEAR;
    let out = combine(&layers(vec![base, top])).unwrap();
    assert_eq!((out.width, out.height), (3, 3));
    let expect = vec![BLUE, RED, RED, BLUE, BLUE, RED, BLUE, BLUE, RED];
    assert_eq!(out.pixels, expect);
}

#[test]
fn half_transparent_layer_blends() {
    let out = combine(&layers(vec![solid(1, 1, [0, 0, 0, 255]), solid(1, 1, [255, 255, 255, 128])])).unwrap();
    let p = out.pixels[0];
    assert!(p[3] >= 254);
    assert!(p[0] > 100 && p[0] < 160);
}

#[test]
fn missing_component_fails_the_line_only() {
    let cache = DecodeCache::new();
    let files = vec![("a.webp", webp_of(&solid(2, 2, RED)))];
    let mut fetches = Vec::new();
    let r = run_line("out1 a ghost", &cache, &files, &mut fetches);
    assert!(matches!(r, Err(LineFailure::Missing(ref id)) if id == "ghost"));
    let r = run_line("out2 a", &cache, &files, &mut fetches);
    let (name, bytes) = r.unwrap();
    assert_eq!(name, "out2.Png");
    let (w, h, px) = png_pixels(&bytes);
    assert_eq!((w, h), (2, 2));
    assert!(px.iter().all(|p| *p == RED));
}

#[test]
fn undecodable_component_fails_the_line() {
    let cache = DecodeCache::new();
    let files = vec![("a.webp", b"not an image".to_vec())];
    let mut fetches = Vec::new();
    let r = run_line("out a", &cache, &files, &mut fetches);
    assert!(matches!(r, Err(LineFailure::Undecodable(ref id)) if id == "a"));
}

#[test]
fn shared_component_is_decoded_once() {
    let cache = DecodeCache::new();
    let files = vec![
        ("a.webp", webp_of(&solid(4, 3, RED))),
        ("b.webp", webp_of(&solid(4, 3, GREEN))),
        ("c.webp", webp_of(&solid(4, 3, BLUE))),
    ];
    let mut fetches = Vec::new();
    let (n1, out1) = run_line("out1 a b", &cache, &files, &mut fetches).unwrap();
    let (n2, out2) = run_line("out2 b c", &cache, &files, &mut fetches).unwrap();
    assert_eq!(n1, "out1.Png");
    assert_eq!(n2, "out2.Png");
    assert_eq!(fetches, vec!["a.webp", "b.webp", "c.webp"]);
    let (w, h, px1) = png_pixels(&out1);
    assert_eq!((w, h), (4, 3));
    assert!(px1.iter().all(|p| *p == GREEN));
    let (_, _, px2) = png_pixels(&out2);
    assert!(px2.iter().all(|p| *p == BLUE));
}

#[test]
fn supplied_file_decodes_to_its_pixels() {
    let cache = DecodeCache::new();
    let mut img = solid(2, 1, RED);
    img.pixels[1] = [9, 8, 7, 255];
    let files = vec![("x.webp", webp_of(&img))];
    let mut fetches = Vec::new();
    let (_, bytes) = run_line("o x", &cache, &files, &mut fetches).unwrap();
    let (w, h, px) = png_pixels(&bytes);
    assert_eq!((w, h), (2, 1));
    assert_eq!(px, img.pixels);
}

#[test]
fn same_results_whatever_the_order_of_lines() {
    let files = vec![
        ("a.webp", webp_of(&solid(2, 2, RED))),
        ("b.webp", webp_of(&solid(1, 1, [0, 0, 255, 100]))),
    ];
    let lines = ["x a b", "y b a", "z a"];
    let run = |order: &[usize]| {
        let cache = DecodeCache::new();
        let mut fetches = Vec::new();
        let mut outs: Vec<(String, Vec<u8>)> = order
            .iter()
            .map(|&i| run_line(lines[i], &cache, &files, &mut fetches).unwrap())
            .collect();
        outs.sort();
        outs
    };
    assert_eq!(run(&[0, 1, 2]), run(&[2, 1, 0]));
}

#[test]
fn progress_fires_every_ten_lines() {
    let due: Vec<usize> = (0..=35).filter(|&n| progress_due(n)).collect();
    assert_eq!(due, vec![10, 20, 30]);
}

#[test]
fn solid_and_well_formed() {
    let img = solid(3, 2, GREEN);
    assert_eq!(img.pixels.len(), 6);
    assert!(img.is_well_formed());
    let bad = Raster { width: 3, height: 2, pixels: vec![GREEN; 5] };
    assert!(!bad.is_well_formed());
}

#[test]
fn failed_lookup_leaves_no_trace() {
    let cache = DecodeCache::new();
    let files = vec![("q.webp", webp_of(&solid(2, 2, BLUE)))];
    let mut fetches = Vec::new();
    let r = run_line("first missing q", &cache, &files, &mut fetches);
    assert!(matches!(r, Err(LineFailure::Missing(ref id)) if id == "missing"));
    let (name, bytes) = run_line("second q", &cache, &files, &mut fetches).unwrap();
    assert_eq!(name, "second.Png");
    let (_, _, px) = png_pixels(&bytes);
    assert!(px.iter().all(|p| *p == BLUE));
    assert_eq!(fetches, vec!["missing.webp", "q.webp"]);
}
