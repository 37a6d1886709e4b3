//! Screen capture checks: where samples are kept, the luma statistics and
//! hash of an RGBA frame, stale-frame detection and monitor selection.
use vstd::prelude::*;
use crate::text::{decimal, joined, join_path, owned, push_char, push_decimal, push_str, text_eq};

verus! {

/// Where capture samples of an application data directory are kept.
pub open spec fn spec_capture_samples_dir(app_data_dir: Seq<char>) -> Seq<char> {
    joined(joined(app_data_dir, "captures"@), "samples"@)
}

/// Where capture samples of an application data directory are kept.
pub fn capture_samples_dir(app_data_dir: &str) -> (r: String)
    ensures
        r@ == spec_capture_samples_dir(app_data_dir@),
{
    let dir = join_path(app_data_dir, "captures");
    join_path(dir.as_str(), "samples")
}

/// Whether a frame repeats the previous one: both hashes known and equal.
pub open spec fn spec_is_stale_frame(previous: Option<Seq<char>>, current: Seq<char>) -> bool {
    match previous {
        Some(p) => p == current,
        None => false,
    }
}

/// Whether a frame repeats the previous one.
pub fn is_stale_frame(previous_hash: Option<&str>, current_hash: &str) -> (r: bool)
    ensures
        r == spec_is_stale_frame(
            match previous_hash {
                Some(p) => Some(p@),
                None => None,
            },
            current_hash@,
        ),
{
    match previous_hash {
        Some(p) => text_eq(p, current_hash),
        None => false,
    }
}

/// The luma of a pixel: (77 R + 150 G + 29 B) / 256.
pub open spec fn spec_luma(red: u8, green: u8, blue: u8) -> u8 {
    ((red * 77 + green * 150 + blue * 29) / 256) as u8
}

/// The luma of a pixel.
pub fn luma_from_rgb(red: u8, green: u8, blue: u8) -> (r: u8)
    ensures
        r == spec_luma(red, green, blue),
{
    let v: u32 = (red as u32) * 77 + (green as u32) * 150 + (blue as u32) * 29;
    assert(v / 256 <= 255);
    (v / 256) as u8
}

/// The lower-case hexadecimal digit of `d` (below sixteen).
pub open spec fn hex_digit(d: nat) -> char {
    if d < 10 {
        ((48 + d) as u8) as char
    } else {
        ((87 + d) as u8) as char
    }
}

/// Bytes as lower-case hexadecimal text, two digits per byte.
pub open spec fn hex_of(bytes: Seq<u8>) -> Seq<char>
    decreases bytes.len(),
{
    if bytes.len() == 0 {
        Seq::empty()
    } else {
        let b = bytes.last();
        hex_of(bytes.drop_last()) + seq![hex_digit((b / 16) as nat), hex_digit((b % 16) as nat)]
    }
}

fn exec_hex_digit(d: u8) -> (c: char)
    requires
        d < 16,
    ensures
        c == hex_digit(d as nat),
{
    if d < 10 {
        (48 + d) as char
    } else {
        (87 + d) as char
    }
}

/// Bytes as lower-case hexadecimal text.
pub fn bytes_to_hex(bytes: &[u8]) -> (r: String)
    ensures
        r@ == hex_of(bytes@),
        r@.len() == 2 * bytes@.len(),
{
    let mut out = String::new();
    let mut i: usize = 0;
    while i < bytes.len()
        invariant
            0 <= i <= bytes@.len(),
            out@ == hex_of(bytes@.take(i as int)),
            out@.len() == 2 * i,
        decreases bytes@.len() - i,
    {
        proof {
            assert(bytes@.take(i + 1).drop_last() =~= bytes@.take(i as int));
        }
        let b = bytes[i];
        push_char(&mut out, exec_hex_digit(b / 16));
        push_char(&mut out, exec_hex_digit(b % 16));
        assert(out@ =~= hex_of(bytes@.take(i + 1)));
        i = i + 1;
    }
    assert(bytes@.take(bytes@.len() as int) =~= bytes@);
    out
}

/// The SHA-256 digest of `data`, as `sha2` computes it.
pub uninterp spec fn sha256(data: Seq<u8>) -> Seq<u8>;

/// `sha2::Sha256::digest`: the 32-byte SHA-256 digest of `data`.
#[verifier::external_body]
pub(crate) fn sha256_digest(data: &[u8]) -> (r: Vec<u8>)
    ensures
        r@ == sha256(data@),
        r@.len() == 32,
{
    <sha2::Sha256 as sha2::Digest>::digest(data).to_vec()
}

/// The little-endian bytes of `v`.
pub open spec fn le_bytes(v: u32) -> Seq<u8> {
    seq![(v % 256) as u8, ((v / 256) % 256) as u8, ((v / 65536) % 256) as u8, ((v / 16777216) % 256) as u8]
}

fn push_le_bytes(out: &mut Vec<u8>, v: u32)
    ensures
        final(out)@ == old(out)@ + le_bytes(v),
{
    out.push((v % 256) as u8);
    out.push(((v / 256) % 256) as u8);
    out.push(((v / 65536) % 256) as u8);
    out.push(((v / 16777216) % 256) as u8);
    assert(final(out)@ =~= old(out)@ + le_bytes(v));
}

/// The luma of pixel `i` of an RGBA frame.
pub open spec fn pixel_luma(raw: Seq<u8>, i: int) -> u8 {
    spec_luma(raw[4 * i], raw[4 * i + 1], raw[4 * i + 2])
}

/// The sum of the lumas of the first `n` pixels.
pub open spec fn luma_sum(raw: Seq<u8>, n: nat) -> nat
    decreases n,
{
    if n == 0 {
        0
    } else {
        luma_sum(raw, (n - 1) as nat) + pixel_luma(raw, n - 1) as nat
    }
}

/// How many of the first `n` pixels are bright (luma above 32).
pub open spec fn bright_count(raw: Seq<u8>, n: nat) -> nat
    decreases n,
{
    if n == 0 {
        0
    } else {
        bright_count(raw, (n - 1) as nat) + if pixel_luma(raw, n - 1) > 32 {
            1nat
        } else {
            0nat
        }
    }
}

/// The lowest luma of the first `n` pixels (255 for none).
pub open spec fn min_luma(raw: Seq<u8>, n: nat) -> u8
    decreases n,
{
    if n == 0 {
        255
    } else {
        let m = min_luma(raw, (n - 1) as nat);
        let l = pixel_luma(raw, n - 1);
        if l < m {
            l
        } else {
            m
        }
    }
}

/// The highest luma of the first `n` pixels (0 for none).
pub open spec fn max_luma(raw: Seq<u8>, n: nat) -> u8
    decreases n,
{
    if n == 0 {
        0
    } else {
        let m = max_luma(raw, (n - 1) as nat);
        let l = pixel_luma(raw, n - 1);
        if l > m {
            l
        } else {
            m
        }
    }
}

/// The integer statistics of an RGBA frame: lowest and highest luma, the luma
/// sum, the bright pixels, the pixel count and the frame hash.
#[derive(Debug, Clone, PartialEq, Eq)]
pub struct FrameStats {
    pub min_luma: u8,
    pub max_luma: u8,
    pub luma_sum: u128,
    pub bright_pixels: usize,
    pub pixel_count: usize,
    pub frame_hash: String,
}

/// The bytes hashed for a frame: width and height little-endian, then the pixels.
pub open spec fn hashed_frame(raw: Seq<u8>, width: u32, height: u32) -> Seq<u8> {
    le_bytes(width) + le_bytes(height) + raw
}

/// Why an RGBA frame cannot be analysed: a length other than four bytes per
/// pixel, or an empty frame.
pub open spec fn frame_error(raw_len: nat, width: u32, height: u32) -> Option<Seq<char>> {
    let expected = width * height * 4;
    if raw_len != expected {
        Some("RGBA 数据长度不匹配: 期望 "@ + decimal(expected as nat) + " 字节，实际 "@ + decimal(raw_len) + " 字节"@)
    } else if width == 0 || height == 0 {
        Some("截图尺寸不能为 0"@)
    } else {
        None
    }
}

/// The integer statistics of an RGBA frame.
pub fn analyze_rgba_pixels(raw: &[u8], width: u32, height: u32) -> (r: Result<FrameStats, String>)
    ensures
        match (r, frame_error(raw@.len(), width, height)) {
            (Err(e), Some(m)) => e@ == m,
            (Ok(s), None) => {
                let n = (width * height) as nat;
                &&& s.pixel_count == n
                &&& s.min_luma == min_luma(raw@, n)
                &&& s.max_luma == max_luma(raw@, n)
                &&& s.luma_sum == luma_sum(raw@, n)
                &&& s.bright_pixels == bright_count(raw@, n)
                &&& s.frame_hash@ == hex_of(sha256(hashed_frame(raw@, width, height)))
                &&& s.frame_hash@.len() == 64
            },
            _ => false,
        },
{
    assert((width as u128) * (height as u128) <= 0xffff_ffff_ffff_ffff) by (nonlinear_arith);
    let expected: u128 = (width as u128) * (height as u128) * 4;
    let len = raw.len();
    if len as u128 != expected {
        let mut message = owned("RGBA 数据长度不匹配: 期望 ");
        push_decimal(&mut message, expected);
        push_str(&mut message, " 字节，实际 ");
        push_decimal(&mut message, len as u128);
        push_str(&mut message, " 字节");
        return Err(message);
    }
    if width == 0 || height == 0 {
        return Err(owned("截图尺寸不能为 0"));
    }
    let n: usize = len / 4;
    assert(n == width * height);
    let mut lo: u8 = 255;
    let mut hi: u8 = 0;
    let mut sum: u128 = 0;
    let mut bright: usize = 0;
    let mut i: usize = 0;
    while i < n
        invariant
            0 <= i <= n,
            n * 4 == len,
            len == raw@.len(),
            lo == min_luma(raw@, i as nat),
            hi == max_luma(raw@, i as nat),
            sum == luma_sum(raw@, i as nat),
            sum <= 255 * i,
            bright == bright_count(raw@, i as nat),
            bright <= i,
        decreases n - i,
    {
        let l = luma_from_rgb(raw[4 * i], raw[4 * i + 1], raw[4 * i + 2]);
        assert(l == pixel_luma(raw@, i as int));
        if l < lo {
            lo = l;
        }
        if l > hi {
            hi = l;
        }
        sum = sum + l as u128;
        if l > 32 {
            bright = bright + 1;
        }
        i = i + 1;
    }
    let mut data: Vec<u8> = Vec::new();
    push_le_bytes(&mut data, width);
    push_le_bytes(&mut data, height);
    let mut k: usize = 0;
    let ghost head = data@;
    while k < len
        invariant
            0 <= k <= len,
            len == raw@.len(),
            data@ == head + raw@.take(k as int),
        decreases len - k,
    {
        data.push(raw[k]);
        assert(data@ =~= head + raw@.take(k + 1));
        k = k + 1;
    }
    assert(raw@.take(len as int) =~= raw@);
    assert(data@ =~= hashed_frame(raw@, width, height));
    let digest = sha256_digest(data.as_slice());
    let hash = bytes_to_hex(digest.as_slice());
    Ok(FrameStats {
        min_luma: lo,
        max_luma: hi,
        luma_sum: sum,
        bright_pixels: bright,
        pixel_count: n,
        frame_hash: hash,
    })
}

/// The first position of a monitor with the given id.
pub open spec fn first_with_id(monitors: Seq<(u32, bool)>, id: u32) -> Option<int> {
    if exists|i: int| 0 <= i < monitors.len() && (#[trigger] monitors[i]).0 == id {
        Some(choose|i: int| 0 <= i < monitors.len() && monitors[i].0 == id && forall|k: int| 0 <= k < i ==> (#[trigger] monitors[k]).0 != id)
    } else {
        None
    }
}

/// The first position of a primary monitor.
pub open spec fn first_primary(monitors: Seq<(u32, bool)>) -> Option<int> {
    if exists|i: int| 0 <= i < monitors.len() && (#[trigger] monitors[i]).1 {
        Some(choose|i: int| 0 <= i < monitors.len() && monitors[i].1 && forall|k: int| 0 <= k < i ==> !(#[trigger] monitors[k]).1)
    } else {
        None
    }
}

/// The monitor to capture, by position in the list: the one with the
/// preferred id when one is preferred, else the first primary one, else the
/// first; an error when the list is empty or the preferred id is absent.
pub open spec fn spec_select_monitor(monitors: Seq<(u32, bool)>, preferred: Option<u32>) -> Result<int, Seq<char>> {
    if monitors.len() == 0 {
        Err("未发现可截图的显示器"@)
    } else {
        match preferred {
            Some(id) => match first_with_id(monitors, id) {
                Some(i) => Ok(i),
                None => Err("未找到指定显示器 ID "@ + decimal(id as nat)),
            },
            None => match first_primary(monitors) {
                Some(i) => Ok(i),
                None => Ok(0),
            },
        }
    }
}

/// The monitor to capture among monitors given by id and primary flag.
pub fn select_monitor_index(monitors: &Vec<(u32, bool)>, preferred_monitor_id: Option<u32>) -> (r: Result<usize, String>)
    ensures
        match (r, spec_select_monitor(monitors@, preferred_monitor_id)) {
            (Ok(i), Ok(j)) => i == j,
            (Err(e), Err(m)) => e@ == m,
            _ => false,
        },
{
    if monitors.len() == 0 {
        return Err(owned("未发现可截图的显示器"));
    }
    let ghost ms = monitors@;
    match preferred_monitor_id {
        Some(id) => {
            let mut i: usize = 0;
            while i < monitors.len()
                invariant
                    0 <= i <= ms.len(),
                    ms == monitors@,
                    ms.len() > 0,
                    preferred_monitor_id == Some(id),
                    forall|k: int| 0 <= k < i ==> (#[trigger] ms[k]).0 != id,
                decreases ms.len() - i,
            {
                if monitors[i].0 == id {
                    proof {
                        assert(ms[i as int].0 == id);
                        let w = choose|w: int| 0 <= w < ms.len() && ms[w].0 == id && forall|k: int| 0 <= k < w ==> (#[trigger] ms[k]).0 != id;
                        if w < i {
                            assert(ms[w].0 != id);
                        }
                        if w > i {
                            assert(ms[i as int].0 != id);
                        }
                        assert(first_with_id(ms, id) == Some(i as int));
                    }
                    return Ok(i);
                }
                i = i + 1;
            }
            proof {
                assert forall|k: int| 0 <= k < ms.len() implies (#[trigger] ms[k]).0 != id by {
                    assert(k < i);
                }
            }
            let mut message = owned("未找到指定显示器 ID ");
            push_decimal(&mut message, id as u128);
            Err(message)
        },
        None => {
            let mut i: usize = 0;
            while i < monitors.len()
                invariant
                    0 <= i <= ms.len(),
                    ms == monitors@,
                    ms.len() > 0,
                    preferred_monitor_id is None,
                    forall|k: int| 0 <= k < i ==> !(#[trigger] ms[k]).1,
                decreases ms.len() - i,
            {
                if monitors[i].1 {
                    proof {
                        assert(ms[i as int].1);
                        let w = choose|w: int| 0 <= w < ms.len() && ms[w].1 && forall|k: int| 0 <= k < w ==> !(#[trigger] ms[k]).1;
                        if w < i {
                            assert(!ms[w].1);
                        }
                        if w > i {
                            assert(!ms[i as int].1);
                        }
                        assert(first_primary(ms) == Some(i as int));
                    }
                    return Ok(i);
                }
                i = i + 1;
            }
            proof {
                assert forall|k: int| 0 <= k < ms.len() implies !(#[trigger] ms[k]).1 by {
                    assert(k < i);
                }
            }
            Ok(0)
        },
    }
}

/// The luma of pixel `i` of an RGBA frame weighs its red byte (at `4 i`) by
/// 77, its green byte (at `4 i + 1`) by 150 and its blue byte (at `4 i + 2`)
/// by 29, in 256ths, rounded down; the alpha byte (at `4 i + 3`) plays no part.
pub proof fn lemma_pixel_luma_weights(raw: Seq<u8>, i: int)
    requires
        0 <= i,
        4 * i + 3 < raw.len(),
    ensures
        pixel_luma(raw, i) as int == (77 * raw[4 * i] + 150 * raw[4 * i + 1] + 29 * raw[4 * i + 2]) / 256,
        forall|a: u8| #[trigger] pixel_luma(raw.update(4 * i + 3, a), i) == pixel_luma(raw, i),
{
    let v = 77 * raw[4 * i] + 150 * raw[4 * i + 1] + 29 * raw[4 * i + 2];
    assert(0 <= v <= 256 * 255);
    assert(0 <= v / 256 <= 255);
    assert forall|a: u8| #[trigger] pixel_luma(raw.update(4 * i + 3, a), i) == pixel_luma(raw, i) by {
        let r2 = raw.update(4 * i + 3, a);
        assert(r2[4 * i] == raw[4 * i]);
        assert(r2[4 * i + 1] == raw[4 * i + 1]);
        assert(r2[4 * i + 2] == raw[4 * i + 2]);
    }
}

proof fn lemma_min_luma_attained(raw: Seq<u8>, n: nat)
    requires
        n > 0,
    ensures
        forall|i: int| 0 <= i < n ==> min_luma(raw, n) <= #[trigger] pixel_luma(raw, i),
        exists|i: int| 0 <= i < n && #[trigger] pixel_luma(raw, i) == min_luma(raw, n),
    decreases n,
{
    if n == 1 {
        assert(min_luma(raw, 0) == 255);
        assert(pixel_luma(raw, 0) == min_luma(raw, 1));
    } else {
        let m = (n - 1) as nat;
        lemma_min_luma_attained(raw, m);
        assert forall|i: int| 0 <= i < n implies min_luma(raw, n) <= #[trigger] pixel_luma(raw, i) by {
            if i < m {
                assert(min_luma(raw, m) <= pixel_luma(raw, i));
            }
        }
        if pixel_luma(raw, m as int) < min_luma(raw, m) {
            assert(pixel_luma(raw, m as int) == min_luma(raw, n));
        } else {
            let w = choose|w: int| 0 <= w < m && #[trigger] pixel_luma(raw, w) == min_luma(raw, m);
            assert(pixel_luma(raw, w) == min_luma(raw, n));
        }
    }
}

proof fn lemma_max_luma_attained(raw: Seq<u8>, n: nat)
    requires
        n > 0,
    ensures
        forall|i: int| 0 <= i < n ==> #[trigger] pixel_luma(raw, i) <= max_luma(raw, n),
        exists|i: int| 0 <= i < n && #[trigger] pixel_luma(raw, i) == max_luma(raw, n),
    decreases n,
{
    if n == 1 {
        assert(max_luma(raw, 0) == 0);
        assert(pixel_luma(raw, 0) == max_luma(raw, 1));
    } else {
        let m = (n - 1) as nat;
        lemma_max_luma_attained(raw, m);
        assert forall|i: int| 0 <= i < n implies #[trigger] pixel_luma(raw, i) <= max_luma(raw, n) by {
            if i < m {
                assert(pixel_luma(raw, i) <= max_luma(raw, m));
            }
        }
        if pixel_luma(raw, m as int) > max_luma(raw, m) {
            assert(pixel_luma(raw, m as int) == max_luma(raw, n));
        } else {
            let w = choose|w: int| 0 <= w < m && #[trigger] pixel_luma(raw, w) == max_luma(raw, m);
            assert(pixel_luma(raw, w) == max_luma(raw, n));
        }
    }
}

proof fn lemma_luma_sum_between(raw: Seq<u8>, n: nat, lo: int, hi: int)
    requires
        forall|i: int| 0 <= i < n ==> lo <= #[trigger] pixel_luma(raw, i) <= hi,
    ensures
        n * lo <= luma_sum(raw, n) <= n * hi,
        bright_count(raw, n) <= n,
    decreases n,
{
    if n > 0 {
        let m = (n - 1) as nat;
        assert forall|i: int| 0 <= i < m implies lo <= #[trigger] pixel_luma(raw, i) <= hi by {
            assert(lo <= pixel_luma(raw, i) <= hi);
        }
        lemma_luma_sum_between(raw, m, lo, hi);
        assert(lo <= pixel_luma(raw, m as int) <= hi);
        assert(luma_sum(raw, n) == luma_sum(raw, m) + pixel_luma(raw, m as int) as nat);
        assert(bright_count(raw, n) <= bright_count(raw, m) + 1);
        assert(n * lo == m * lo + lo && n * hi == m * hi + hi) by (nonlinear_arith)
            requires
                n == m + 1,
        ;
    } else {
        assert(n * lo == 0 && n * hi == 0) by (nonlinear_arith)
            requires
                n == 0,
        ;
    }
}

/// The statistics over the first `n` pixels bound every pixel's luma: the
/// lowest is at most, and the highest at least, each pixel's luma, and both
/// are some pixel's luma; the luma sum lies between `n` times the lowest and
/// `n` times the highest; at most `n` pixels are bright.
pub proof fn lemma_frame_stats_bound_pixels(raw: Seq<u8>, n: nat)
    requires
        n > 0,
    ensures
        forall|i: int| 0 <= i < n ==> min_luma(raw, n) <= #[trigger] pixel_luma(raw, i) <= max_luma(raw, n),
        exists|i: int| 0 <= i < n && #[trigger] pixel_luma(raw, i) == min_luma(raw, n),
        exists|i: int| 0 <= i < n && #[trigger] pixel_luma(raw, i) == max_luma(raw, n),
        n * min_luma(raw, n) <= luma_sum(raw, n) <= n * max_luma(raw, n),
        bright_count(raw, n) <= n,
{
    lemma_min_luma_attained(raw, n);
    lemma_max_luma_attained(raw, n);
    lemma_luma_sum_between(raw, n, min_luma(raw, n) as int, max_luma(raw, n) as int);
}

/// Whether pixel `i` of an RGBA frame has red `r`, green `g` and blue `b`.
pub open spec fn pixel_has_colour(raw: Seq<u8>, i: int, r: u8, g: u8, b: u8) -> bool {
    raw[4 * i] == r && raw[4 * i + 1] == g && raw[4 * i + 2] == b
}

/// A frame whose first `n` pixels all share one colour (red `r`, green `g`,
/// blue `b`, any alpha) has that colour's luma (77 r + 150 g + 29 b) / 256 as
/// lowest and highest luma, `n` times it as luma sum, and all `n` pixels
/// bright when it exceeds 32, none otherwise.
pub proof fn lemma_uniform_frame_stats(raw: Seq<u8>, n: nat, r: u8, g: u8, b: u8)
    requires
        4 * n <= raw.len(),
        forall|i: int| 0 <= i < n ==> #[trigger] pixel_has_colour(raw, i, r, g, b),
    ensures
        ({
            let l = (77 * r + 150 * g + 29 * b) / 256;
            &&& n > 0 ==> min_luma(raw, n) as int == l && max_luma(raw, n) as int == l
            &&& luma_sum(raw, n) == n * l
            &&& bright_count(raw, n) == if l > 32 { n } else { 0 }
        }),
    decreases n,
{
    let l = (77 * r + 150 * g + 29 * b) / 256;
    if n > 0 {
        let m = (n - 1) as nat;
        assert forall|i: int| 0 <= i < m implies #[trigger] pixel_has_colour(raw, i, r, g, b) by {
            assert(pixel_has_colour(raw, i, r, g, b));
        }
        lemma_uniform_frame_stats(raw, m, r, g, b);
        assert(pixel_has_colour(raw, m as int, r, g, b));
        lemma_pixel_luma_weights(raw, m as int);
        assert(pixel_luma(raw, m as int) as int == l);
        assert(luma_sum(raw, n) == luma_sum(raw, m) + pixel_luma(raw, m as int) as nat);
        if m == 0 {
            assert(min_luma(raw, 0) == 255);
            assert(max_luma(raw, 0) == 0);
        }
        assert(n * l == m * l + l) by (nonlinear_arith)
            requires
                n == m + 1,
        ;
    }
}

/// The frame hash is always 64 hexadecimal characters.
pub proof fn lemma_frame_hash_length(bytes: Seq<u8>)
    ensures
        hex_of(bytes).len() == 2 * bytes.len(),
    decreases bytes.len(),
{
    if bytes.len() > 0 {
        lemma_frame_hash_length(bytes.drop_last());
    }
}

} // verus!
