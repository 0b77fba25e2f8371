//! Sines and cosines of angles in tenths of a degree, as integers.
//!
//! The value of a sine or cosine is a whole number of millionths: `SCALE`
//! stands for one. Of the two coordinates of a direction, the shorter one is
//! read from a table of the first eighth of the circle and the longer one is
//! the integer square root of what the shorter one leaves of `SCALE * SCALE`.
//! So the pair never lies outside the circle of radius `SCALE`, and lies only
//! a rounding step inside it (`lemma_unit_vector`).
use vstd::prelude::*;
use crate::params::{FULL_TURN, QUARTER_TURN, SCALE};

verus! {

/// The sines of 0.0, 0.1, ..., 45.0 degrees, in millionths, rounded to the
/// nearest.
pub const SINE_TABLE: [u32; 451] = [
    0, 1745, 3491, 5236, 6981, 8727, 10472, 12217,
    13962, 15707, 17452, 19197, 20942, 22687, 24432, 26177,
    27922, 29666, 31411, 33155, 34899, 36644, 38388, 40132,
    41876, 43619, 45363, 47106, 48850, 50593, 52336, 54079,
    55822, 57564, 59306, 61049, 62791, 64532, 66274, 68015,
    69756, 71497, 73238, 74979, 76719, 78459, 80199, 81939,
    83678, 85417, 87156, 88894, 90633, 92371, 94108, 95846,
    97583, 99320, 101056, 102793, 104528, 106264, 107999, 109734,
    111469, 113203, 114937, 116671, 118404, 120137, 121869, 123601,
    125333, 127065, 128796, 130526, 132256, 133986, 135716, 137445,
    139173, 140901, 142629, 144356, 146083, 147809, 149535, 151261,
    152986, 154710, 156434, 158158, 159881, 161604, 163326, 165048,
    166769, 168489, 170209, 171929, 173648, 175367, 177085, 178802,
    180519, 182236, 183951, 185667, 187381, 189095, 190809, 192522,
    194234, 195946, 197657, 199368, 201078, 202787, 204496, 206204,
    207912, 209619, 211325, 213030, 214735, 216440, 218143, 219846,
    221548, 223250, 224951, 226651, 228351, 230050, 231748, 233445,
    235142, 236838, 238533, 240228, 241922, 243615, 245307, 246999,
    248690, 250380, 252069, 253758, 255446, 257133, 258819, 260505,
    262189, 263873, 265556, 267238, 268920, 270600, 272280, 273959,
    275637, 277315, 278991, 280667, 282341, 284015, 285688, 287361,
    289032, 290702, 292372, 294040, 295708, 297375, 299041, 300706,
    302370, 304033, 305695, 307357, 309017, 310676, 312335, 313992,
    315649, 317305, 318959, 320613, 322266, 323917, 325568, 327218,
    328867, 330514, 332161, 333807, 335452, 337095, 338738, 340380,
    342020, 343660, 345298, 346936, 348572, 350207, 351842, 353475,
    355107, 356738, 358368, 359997, 361625, 363251, 364877, 366501,
    368125, 369747, 371368, 372988, 374607, 376224, 377841, 379456,
    381070, 382683, 384295, 385906, 387516, 389124, 390731, 392337,
    393942, 395546, 397148, 398749, 400349, 401948, 403545, 405142,
    406737, 408330, 409923, 411514, 413104, 414693, 416281, 417867,
    419452, 421036, 422618, 424199, 425779, 427358, 428935, 430511,
    432086, 433659, 435231, 436802, 438371, 439939, 441506, 443071,
    444635, 446198, 447759, 449319, 450878, 452435, 453990, 455545,
    457098, 458650, 460200, 461749, 463296, 464842, 466387, 467930,
    469472, 471012, 472551, 474088, 475624, 477159, 478692, 480223,
    481754, 483282, 484810, 486335, 487860, 489382, 490904, 492424,
    493942, 495459, 496974, 498488, 500000, 501511, 503020, 504528,
    506034, 507538, 509041, 510543, 512043, 513541, 515038, 516533,
    518027, 519519, 521010, 522499, 523986, 525472, 526956, 528438,
    529919, 531399, 532876, 534352, 535827, 537300, 538771, 540240,
    541708, 543174, 544639, 546102, 547563, 549023, 550481, 551937,
    553392, 554844, 556296, 557745, 559193, 560639, 562083, 563526,
    564967, 566406, 567844, 569280, 570714, 572146, 573576, 575005,
    576432, 577858, 579281, 580703, 582123, 583541, 584958, 586372,
    587785, 589196, 590606, 592013, 593419, 594823, 596225, 597625,
    599024, 600420, 601815, 603208, 604599, 605988, 607376, 608761,
    610145, 611527, 612907, 614285, 615661, 617036, 618408, 619779,
    621148, 622515, 623880, 625243, 626604, 627963, 629320, 630676,
    632029, 633381, 634731, 636078, 637424, 638768, 640110, 641450,
    642788, 644124, 645458, 646790, 648120, 649448, 650774, 652098,
    653421, 654741, 656059, 657375, 658689, 660002, 661312, 662620,
    663926, 665230, 666532, 667833, 669131, 670427, 671721, 673013,
    674302, 675590, 676876, 678160, 679441, 680721, 681998, 683274,
    684547, 685818, 687088, 688355, 689620, 690882, 692143, 693402,
    694658, 695913, 697165, 698415, 699663, 700909, 702153, 703395,
    704634, 705872, 707107,
];

/// The greatest `r` with `r * r <= n`.
pub open spec fn floor_sqrt(n: nat) -> nat
    decreases n,
{
    if n == 0 {
        0
    } else {
        let r = floor_sqrt((n - 1) as nat);
        if (r + 1) * (r + 1) <= n {
            r + 1
        } else {
            r
        }
    }
}

/// `floor_sqrt(n)` is a root of `n` rounded down.
pub proof fn lemma_floor_sqrt(n: nat)
    ensures
        floor_sqrt(n) * floor_sqrt(n) <= n < (floor_sqrt(n) + 1) * (floor_sqrt(n) + 1),
    decreases n,
{
    let s = floor_sqrt(n);
    if n == 0 {
        assert(s * s <= n < (s + 1) * (s + 1)) by (nonlinear_arith)
            requires
                s == 0,
                n == 0,
        ;
    } else {
        let r = floor_sqrt((n - 1) as nat);
        lemma_floor_sqrt((n - 1) as nat);
        assert(s * s <= n < (s + 1) * (s + 1)) by (nonlinear_arith)
            requires
                r * r <= n - 1 < (r + 1) * (r + 1),
                s == if (r + 1) * (r + 1) <= n {
                    r + 1
                } else {
                    r
                },
        ;
    }
}

/// Only one number is a root of `n` rounded down.
pub proof fn lemma_floor_sqrt_unique(n: nat, r: nat)
    requires
        r * r <= n < (r + 1) * (r + 1),
    ensures
        r == floor_sqrt(n),
{
    let s = floor_sqrt(n);
    lemma_floor_sqrt(n);
    assert(r == s) by (nonlinear_arith)
        requires
            r * r <= n < (r + 1) * (r + 1),
            s * s <= n < (s + 1) * (s + 1),
    ;
}

/// The integer square root of `n`, rounded down.
pub fn isqrt(n: u64) -> (r: u64)
    ensures
        r == floor_sqrt(n as nat),
{
    let mut low: u64 = 0;
    let mut high: u64 = 0x1_0000_0000;
    while high - low > 1
        invariant
            low < high <= 0x1_0000_0000,
            low * low <= n < high * high,
        decreases high - low,
    {
        let mid: u64 = low + (high - low) / 2;
        assert(mid * mid <= 0xffff_ffff * 0xffff_ffff) by (nonlinear_arith)
            requires
                mid <= 0xffff_ffff,
        ;
        if mid * mid <= n {
            low = mid;
        } else {
            high = mid;
        }
    }
    proof {
        lemma_floor_sqrt_unique(n as nat, low as nat);
    }
    low
}

/// The table's entry for `tenths` tenths of a degree, `0 <= tenths <= 450`.
pub open spec fn table_sine(tenths: int) -> int {
    SINE_TABLE[tenths] as int
}

/// The longer coordinate that goes with the shorter coordinate `short`.
pub open spec fn long_side(short: int) -> int {
    floor_sqrt((SCALE * SCALE - short * short) as nat) as int
}

/// The sine of an angle of the first quarter, `0 <= tenths < 900`.
pub open spec fn quarter_sine(tenths: int) -> int {
    if tenths <= 450 {
        table_sine(tenths)
    } else {
        long_side(table_sine(900 - tenths))
    }
}

/// The cosine of an angle of the first quarter, `0 <= tenths < 900`.
pub open spec fn quarter_cosine(tenths: int) -> int {
    if tenths <= 450 {
        long_side(table_sine(tenths))
    } else {
        table_sine(900 - tenths)
    }
}

/// The sine of `angle` tenths of a degree, in millionths. Angles are taken
/// modulo a full turn.
pub open spec fn sine_of(angle: int) -> int {
    let a = angle % 3600;
    let r = a % 900;
    if a < 900 {
        quarter_sine(r)
    } else if a < 1800 {
        quarter_cosine(r)
    } else if a < 2700 {
        -quarter_sine(r)
    } else {
        -quarter_cosine(r)
    }
}

/// The cosine of `angle` tenths of a degree, in millionths. Angles are taken
/// modulo a full turn.
pub open spec fn cosine_of(angle: int) -> int {
    let a = angle % 3600;
    let r = a % 900;
    if a < 900 {
        quarter_cosine(r)
    } else if a < 1800 {
        -quarter_sine(r)
    } else if a < 2700 {
        -quarter_cosine(r)
    } else {
        quarter_sine(r)
    }
}

/// Every entry of the table lies between 0 and the sine of 45 degrees; only
/// the first is 0.
pub proof fn lemma_table_range(tenths: int)
    requires
        0 <= tenths <= 450,
    ensures
        0 <= table_sine(tenths) <= 707107,
        tenths > 0 ==> table_sine(tenths) >= 1745,
        table_sine(0) == 0,
{
}

/// The longer coordinate is at least as long as the sine of 45 degrees, less
/// a rounding step, and completes the shorter one to a vector of length
/// `SCALE`, rounded down.
pub proof fn lemma_long_side(short: int)
    requires
        0 <= short <= 707107,
    ensures
        707106 <= long_side(short) <= SCALE,
        short == 0 ==> long_side(short) == SCALE,
        long_side(short) * long_side(short) + short * short <= SCALE * SCALE,
        SCALE * SCALE < (long_side(short) + 1) * (long_side(short) + 1) + short * short,
{
    let rest = (SCALE * SCALE - short * short) as nat;
    let long = floor_sqrt(rest);
    assert(short * short <= 707107 * 707107) by (nonlinear_arith)
        requires
            0 <= short <= 707107,
    ;
    lemma_floor_sqrt(rest);
    assert(long >= 707106) by (nonlinear_arith)
        requires
            rest >= 707106 * 707106,
            rest < (long + 1) * (long + 1),
    ;
    assert(long <= 1_000_000) by (nonlinear_arith)
        requires
            rest <= 1_000_000 * 1_000_000,
            long * long <= rest,
    ;
    if short == 0 {
        assert(rest == 1_000_000 * 1_000_000) by (nonlinear_arith)
            requires
                rest == SCALE * SCALE - short * short,
                short == 0,
                SCALE == 1_000_000,
        ;
        assert(1_000_000 * 1_000_000 < (1_000_000 + 1) * (1_000_000 + 1)) by (nonlinear_arith);
        lemma_floor_sqrt_unique(rest, 1_000_000);
    }
}

/// The pair `(cosine, sine)` of an angle of the first quarter.
fn quarter(tenths: u32) -> (pair: (i64, i64))
    requires
        tenths < QUARTER_TURN,
    ensures
        pair.0 == quarter_cosine(tenths as int),
        pair.1 == quarter_sine(tenths as int),
        0 <= pair.0 <= SCALE,
        0 <= pair.1 <= SCALE,
{
    let index: usize = if tenths <= 450 {
        tenths as usize
    } else {
        (900 - tenths) as usize
    };
    let short: u64 = SINE_TABLE[index] as u64;
    proof {
        lemma_table_range(index as int);
        lemma_long_side(short as int);
        assert(short * short <= 707107 * 707107) by (nonlinear_arith)
            requires
                0 <= short <= 707107,
        ;
    }
    let long: u64 = isqrt(1_000_000_000_000 - short * short);
    if tenths <= 450 {
        (long as i64, short as i64)
    } else {
        (short as i64, long as i64)
    }
}

/// The sine of `angle` tenths of a degree, in millionths.
pub fn sine(angle: u32) -> (s: i64)
    ensures
        s == sine_of(angle as int),
        -SCALE <= s <= SCALE,
{
    let a: u32 = angle % FULL_TURN;
    let (c, s) = quarter(a % QUARTER_TURN);
    if a < 900 {
        s
    } else if a < 1800 {
        c
    } else if a < 2700 {
        -s
    } else {
        -c
    }
}

/// The cosine of `angle` tenths of a degree, in millionths.
pub fn cosine(angle: u32) -> (c: i64)
    ensures
        c == cosine_of(angle as int),
        -SCALE <= c <= SCALE,
{
    let a: u32 = angle % FULL_TURN;
    let (c, s) = quarter(a % QUARTER_TURN);
    if a < 900 {
        c
    } else if a < 1800 {
        -s
    } else if a < 2700 {
        -c
    } else {
        s
    }
}

/// The pair of `cosine_of` and `sine_of` is a vector of length `SCALE`,
/// rounded towards the centre: neither coordinate is longer than `SCALE`, the
/// squared length never exceeds `SCALE * SCALE`, and it falls short of it by
/// less than `2 * SCALE`.
pub proof fn lemma_unit_vector(angle: int)
    ensures
        -SCALE <= cosine_of(angle) <= SCALE,
        -SCALE <= sine_of(angle) <= SCALE,
        cosine_of(angle) * cosine_of(angle) + sine_of(angle) * sine_of(angle) <= SCALE * SCALE,
        cosine_of(angle) * cosine_of(angle) + sine_of(angle) * sine_of(angle) > SCALE * SCALE - 2
            * SCALE,
{
    let r = (angle % 3600) % 900;
    let index = if r <= 450 {
        r
    } else {
        900 - r
    };
    let short = table_sine(index);
    let long = long_side(short);
    lemma_table_range(index);
    lemma_long_side(short);
    let c = cosine_of(angle);
    let s = sine_of(angle);
    assert((c == long || c == -long) && (s == short || s == -short) || (c == short || c == -short)
        && (s == long || s == -long));
    assert(c * c + s * s == long * long + short * short) by (nonlinear_arith)
        requires
            (c == long || c == -long) && (s == short || s == -short) || (c == short || c == -short)
                && (s == long || s == -long),
    ;
    assert((long + 1) * (long + 1) == long * long + 2 * long + 1) by (nonlinear_arith);
}

/// On the four axes the sine and cosine are exact.
pub proof fn lemma_axes()
    ensures
        cosine_of(0) == SCALE && sine_of(0) == 0,
        cosine_of(900) == 0 && sine_of(900) == SCALE,
        cosine_of(1800) == -SCALE && sine_of(1800) == 0,
        cosine_of(2700) == 0 && sine_of(2700) == -SCALE,
{
    lemma_table_range(0);
    lemma_long_side(0);
}

/// Strictly inside a quarter neither coordinate is 0, and the quarter decides
/// the signs: the cosine is positive in the first and the last quarter, the
/// sine in the first and the second.
pub proof fn lemma_signs(angle: int)
    requires
        (angle % 3600) % 900 != 0,
    ensures
        (cosine_of(angle) > 0) == (angle % 3600 < 900 || angle % 3600 > 2700),
        (cosine_of(angle) < 0) == (900 < angle % 3600 < 2700),
        (sine_of(angle) > 0) == (angle % 3600 < 1800),
        (sine_of(angle) < 0) == (angle % 3600 > 1800),
{
    let r = (angle % 3600) % 900;
    let index = if r <= 450 {
        r
    } else {
        900 - r
    };
    lemma_table_range(index);
    lemma_long_side(table_sine(index));
}

} // verus!
