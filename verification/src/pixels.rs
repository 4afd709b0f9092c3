//! Pixel-buffer kernels: stripping GPU row padding from a copied-out
//! framebuffer, and comparing two RGBA images channel by channel.

use vstd::prelude::*;

verus! {

use vstd::math::max;

/// Rows copied out of a texture are padded to 256-byte alignment.
pub open spec fn padded_row_v(width: u32) -> int {
    ((width * 4 + 255) / 256) * 256
}

/// The padded byte length of one output row of `width` RGBA pixels.
pub fn padded_bytes_per_row(width: u32) -> (r: u32)
    requires
        width as int * 4 + 255 <= u32::MAX as int,
    ensures
        r as int == padded_row_v(width),
        r as int >= width as int * 4,
{
    let unpadded: u32 = 4 * width;
    let r: u32 = ((unpadded + 255) / 256) * 256;
    proof {
        assert(r as int >= width as int * 4) by (nonlinear_arith)
            requires
                r as int == ((width as int * 4 + 255) / 256) * 256,
                width as int >= 0,
        ;
    }
    r
}

/// Strip the row padding: keep the first `4 * width` bytes of each of the
/// `height` rows of `bytes_per_row` bytes.
pub fn unpad_rows(data: &Vec<u8>, width: u32, height: u32, bytes_per_row: u32) -> (r: Vec<u8>)
    requires
        width as int * 4 <= bytes_per_row as int,
        height as int * bytes_per_row as int <= data@.len(),
        height as int * bytes_per_row as int <= usize::MAX as int,
    ensures
        r@.len() == height as int * (width as int * 4),
        forall|k: int|
            0 <= k < r@.len() ==> #[trigger] r@[k] == data@[(k / (width as int * 4))
                * bytes_per_row as int + k % (width as int * 4)],
{
    let row_len: usize = (width as usize) * 4;
    let mut out: Vec<u8> = Vec::new();
    let mut row: u32 = 0;
    while row < height
        invariant
            row <= height,
            row_len as int == width as int * 4,
            width as int * 4 <= bytes_per_row as int,
            height as int * bytes_per_row as int <= data@.len(),
            height as int * bytes_per_row as int <= usize::MAX as int,
            out@.len() == row as int * row_len as int,
            forall|k: int|
                0 <= k < out@.len() ==> #[trigger] out@[k] == data@[(k / row_len as int)
                    * bytes_per_row as int + k % row_len as int],
        decreases height - row,
    {
        proof {
            assert(row as int * bytes_per_row as int + bytes_per_row as int <= height as int
                * bytes_per_row as int && row as int * bytes_per_row as int >= 0 && (row as int
                + 1) * row_len as int == row as int * row_len as int + row_len as int
                && row as int * row_len as int + row_len as int <= row as int
                * bytes_per_row as int + bytes_per_row as int) by (nonlinear_arith)
                requires
                    0 <= row as int,
                    (row as int) < (height as int),
                    0 <= row_len as int,
                    row_len as int <= bytes_per_row as int,
            ;
        }
        let row_start: usize = (row as usize) * (bytes_per_row as usize);
        let mut j: usize = 0;
        while j < row_len
            invariant
                j <= row_len,
                row < height,
                row_len as int == width as int * 4,
                width as int * 4 <= bytes_per_row as int,
                height as int * bytes_per_row as int <= data@.len(),
                height as int * bytes_per_row as int <= usize::MAX as int,
                row_start as int == row as int * bytes_per_row as int,
                row_start as int + bytes_per_row as int <= data@.len(),
                row_start as int + bytes_per_row as int <= usize::MAX as int,
                out@.len() == row as int * row_len as int + j as int,
                forall|k: int|
                    0 <= k < out@.len() ==> #[trigger] out@[k] == data@[(k / row_len as int)
                        * bytes_per_row as int + k % row_len as int],
            decreases row_len - j,
        {
            out.push(data[row_start + j]);
            proof {
                let k0: int = row as int * row_len as int + j as int;
                vstd::arithmetic::div_mod::lemma_fundamental_div_mod_converse(
                    k0,
                    row_len as int,
                    row as int,
                    j as int,
                );
                assert(out@[k0] == data@[(k0 / row_len as int) * bytes_per_row as int + k0
                    % row_len as int]);
            }
            j = j + 1;
        }
        row = row + 1;
    }
    proof {
        assert(height as int * (width as int * 4) == height as int * row_len as int);
    }
    out
}

/// The larger of two channel values minus the smaller.
pub open spec fn absdiff(x: u8, y: u8) -> int {
    if x >= y {
        x - y
    } else {
        y - x
    }
}

/// The difference of one pixel: the largest channel difference over red,
/// green and blue; alpha is not compared.
pub open spec fn pix_diff(a: Seq<u8>, b: Seq<u8>, i: int) -> int {
    max(
        max(absdiff(a[4 * i], b[4 * i]), absdiff(a[4 * i + 1], b[4 * i + 1])),
        absdiff(a[4 * i + 2], b[4 * i + 2]),
    )
}

/// The summed pixel differences of the first `n` pixels.
pub open spec fn total_diff(a: Seq<u8>, b: Seq<u8>, n: int) -> int
    decreases n,
{
    if n <= 0 {
        0
    } else {
        total_diff(a, b, n - 1) + pix_diff(a, b, n - 1)
    }
}

/// The largest pixel difference among the first `n` pixels.
pub open spec fn max_diff(a: Seq<u8>, b: Seq<u8>, n: int) -> int
    decreases n,
{
    if n <= 0 {
        0
    } else {
        max(max_diff(a, b, n - 1), pix_diff(a, b, n - 1))
    }
}

/// How many of the first `n` pixels differ at all.
pub open spec fn count_diff(a: Seq<u8>, b: Seq<u8>, n: int) -> int
    decreases n,
{
    if n <= 0 {
        0
    } else {
        count_diff(a, b, n - 1) + (if pix_diff(a, b, n - 1) > 0 {
            1int
        } else {
            0int
        })
    }
}

/// Pixel differences lie in the channel range.
pub proof fn lemma_diff_bounds(a: Seq<u8>, b: Seq<u8>, n: int)
    requires
        0 <= n,
        4 * n <= a.len(),
        4 * n <= b.len(),
    ensures
        0 <= total_diff(a, b, n) <= 255 * n,
        0 <= max_diff(a, b, n) <= 255,
        0 <= count_diff(a, b, n) <= n,
    decreases n,
{
    if n == 0 {
    } else {
        lemma_diff_bounds(a, b, n - 1);
    }
}

/// Compare two RGBA images of the same size: the visualisation buffer (the
/// pixel difference tripled and clamped to 255, opaque), the summed
/// difference, the largest difference, and how many pixels differ.
pub fn diff_stats(a: &Vec<u8>, b: &Vec<u8>) -> (r: (Vec<u8>, u64, u8, u32))
    requires
        a@.len() == b@.len(),
        a@.len() % 4 == 0,
        a@.len() / 4 <= u32::MAX as int,
    ensures
        ({
            let n = a@.len() as int / 4;
            &&& r.0@.len() == a@.len()
            &&& forall|k: int|
                0 <= k < r.0@.len() ==> #[trigger] r.0@[k] == (if k % 4 == 3 {
                    255int
                } else if pix_diff(a@, b@, k / 4) * 3 > 255 {
                    255int
                } else {
                    pix_diff(a@, b@, k / 4) * 3
                })
            &&& r.1 as int == total_diff(a@, b@, n)
            &&& r.2 as int == max_diff(a@, b@, n)
            &&& r.3 as int == count_diff(a@, b@, n)
        }),
{
    let n: usize = a.len() / 4;
    let mut out: Vec<u8> = Vec::new();
    let mut total: u64 = 0;
    let mut maxd: u8 = 0;
    let mut count: u32 = 0;
    let mut i: usize = 0;
    while i < n
        invariant
            i <= n,
            n as int == a@.len() as int / 4,
            a@.len() <= usize::MAX as int,
            a@.len() == b@.len(),
            a@.len() % 4 == 0,
            a@.len() / 4 <= u32::MAX as int,
            out@.len() == 4 * i as int,
            forall|k: int|
                0 <= k < out@.len() ==> #[trigger] out@[k] == (if k % 4 == 3 {
                    255int
                } else if pix_diff(a@, b@, k / 4) * 3 > 255 {
                    255int
                } else {
                    pix_diff(a@, b@, k / 4) * 3
                }),
            total as int == total_diff(a@, b@, i as int),
            maxd as int == max_diff(a@, b@, i as int),
            count as int == count_diff(a@, b@, i as int),
        decreases n - i,
    {
        proof {
            lemma_diff_bounds(a@, b@, i as int);
            assert(4 * n as int <= a@.len());
            assert(4 * i as int + 3 < a@.len());
        }
        let ra = a[4 * i];
        let ga = a[4 * i + 1];
        let ba = a[4 * i + 2];
        let rb = b[4 * i];
        let gb = b[4 * i + 1];
        let bb = b[4 * i + 2];
        let rd: u8 = if ra >= rb {
            ra - rb
        } else {
            rb - ra
        };
        let gd: u8 = if ga >= gb {
            ga - gb
        } else {
            gb - ga
        };
        let bd: u8 = if ba >= bb {
            ba - bb
        } else {
            bb - ba
        };
        let mut pd: u8 = rd;
        if gd > pd {
            pd = gd;
        }
        if bd > pd {
            pd = bd;
        }
        proof {
            assert(pd as int == pix_diff(a@, b@, i as int));
        }
        let scaled: u8 = if (pd as u16) * 3 > 255 {
            255
        } else {
            (pd as u16 * 3) as u8
        };
        out.push(scaled);
        out.push(scaled);
        out.push(scaled);
        out.push(255);
        proof {
            assert(out@.len() == 4 * i as int + 4);
            vstd::arithmetic::div_mod::lemma_fundamental_div_mod_converse(
                4 * i as int,
                4,
                i as int,
                0,
            );
            vstd::arithmetic::div_mod::lemma_fundamental_div_mod_converse(
                4 * i as int + 1,
                4,
                i as int,
                1,
            );
            vstd::arithmetic::div_mod::lemma_fundamental_div_mod_converse(
                4 * i as int + 2,
                4,
                i as int,
                2,
            );
            vstd::arithmetic::div_mod::lemma_fundamental_div_mod_converse(
                4 * i as int + 3,
                4,
                i as int,
                3,
            );
            assert(scaled as int == (if pix_diff(a@, b@, i as int) * 3 > 255 {
                255int
            } else {
                pix_diff(a@, b@, i as int) * 3
            }));
            assert forall|k: int| 0 <= k < out@.len() implies #[trigger] out@[k] == (if k % 4
                == 3 {
                255int
            } else if pix_diff(a@, b@, k / 4) * 3 > 255 {
                255int
            } else {
                pix_diff(a@, b@, k / 4) * 3
            }) by {
                if k >= 4 * i as int {
                    vstd::arithmetic::div_mod::lemma_fundamental_div_mod_converse(
                        k,
                        4,
                        i as int,
                        k - 4 * i as int,
                    );
                }
            }
        }
        total = total + (pd as u64);
        if pd > maxd {
            maxd = pd;
        }
        count = count + (if pd > 0 {
            1
        } else {
            0
        });
        i = i + 1;
    }
    proof {
        assert(n as int == a@.len() as int / 4);
    }
    (out, total, maxd, count)
}

} // verus!
