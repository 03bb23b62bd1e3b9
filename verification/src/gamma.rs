//! The transfer from gamma-encoded to linear colour channels, as a table, and
//! the proof that the table holds the values of the transfer function.

use vstd::prelude::*;

verus! {

/// The linear value of every gamma-encoded channel value.
pub const LINEAR_GAMMA: [u8; 256] = [
    0, 0, 0, 0, 0, 0, 0, 0, 0, 0, 0, 0, 0, 1, 1, 1,
    1, 1, 1, 1, 1, 1, 2, 2, 2, 2, 2, 2, 2, 3, 3, 3,
    3, 3, 4, 4, 4, 4, 4, 5, 5, 5, 5, 6, 6, 6, 6, 7,
    7, 7, 8, 8, 8, 9, 9, 9, 10, 10, 10, 11, 11, 11, 12, 12,
    13, 13, 13, 14, 14, 15, 15, 16, 16, 16, 17, 17, 18, 18, 19, 19,
    20, 20, 21, 22, 22, 23, 23, 24, 24, 25, 26, 26, 27, 27, 28, 29,
    29, 30, 31, 31, 32, 33, 33, 34, 35, 36, 36, 37, 38, 38, 39, 40,
    41, 42, 42, 43, 44, 45, 46, 47, 47, 48, 49, 50, 51, 52, 53, 54,
    55, 55, 56, 57, 58, 59, 60, 61, 62, 63, 64, 65, 66, 67, 68, 70,
    71, 72, 73, 74, 75, 76, 77, 78, 80, 81, 82, 83, 84, 85, 87, 88,
    89, 90, 92, 93, 94, 95, 97, 98, 99, 101, 102, 103, 105, 106, 107, 109,
    110, 112, 113, 114, 116, 117, 119, 120, 122, 123, 125, 126, 128, 129, 131, 132,
    134, 135, 137, 139, 140, 142, 144, 145, 147, 148, 150, 152, 153, 155, 157, 159,
    160, 162, 164, 166, 167, 169, 171, 173, 175, 176, 178, 180, 182, 184, 186, 188,
    190, 192, 193, 195, 197, 199, 201, 203, 205, 207, 209, 211, 213, 215, 218, 220,
    222, 224, 226, 228, 230, 232, 235, 237, 239, 241, 243, 245, 248, 250, 252, 254,
];

/// The fifth power of `n`.
pub open spec fn pow5(n: int) -> int {
    n * n * n * n * n
}

/// The twelfth power of `n`.
pub open spec fn pow12(n: int) -> int {
    let square = n * n;
    let fourth = square * square;
    fourth * fourth * fourth
}

/// Whether the channel value `c`, as a share of 255, is above 0.04045, where
/// the transfer function leaves its linear part.
pub open spec fn above_linear_part(c: int) -> bool {
    c * 100_000 > 255 * 4045
}

/// The numerator of `c / 255 / 1.055 + 0.0521327` over `gamma_base_den()`.
pub open spec fn gamma_base_num(c: int) -> int {
    c * 10_000_000_000 + 140_249_996_175
}

/// The denominator that goes with `gamma_base_num`: `255 * 1.055 * 10^10`.
pub open spec fn gamma_base_den() -> int {
    2_690_250_000_000
}

/// Whether `r` is the linear value of the gamma-encoded channel value `c`:
/// the whole part of `255 * (c / 255 / 1.055 + 0.0521327)^2.4` above the
/// linear part, and of `c / 12.192` within it.
///
/// With `x = num / den` for the base, `r <= 255 * x^(12/5) < r + 1` is stated
/// free of roots and fractions as `r^5 * den^12 <= 255^5 * num^12 < (r + 1)^5
/// * den^12`.
pub open spec fn is_linear_gamma(c: int, r: int) -> bool {
    if above_linear_part(c) {
        &&& pow5(r) * pow12(gamma_base_den()) <= pow5(255) * pow12(gamma_base_num(c))
        &&& pow5(255) * pow12(gamma_base_num(c)) < pow5(r + 1) * pow12(gamma_base_den())
    } else {
        r * 12192 <= c * 1000 < (r + 1) * 12192
    }
}

/// The first sixteen rows of the table.
proof fn lemma_rows_from_0(c: int)
    requires
        0 <= c < 16,
    ensures
        is_linear_gamma(c, LINEAR_GAMMA[c] as int),
{
    if c == 0 {
        assert(is_linear_gamma(0, 0)) by (nonlinear_arith);
    } else if c == 1 {
        assert(is_linear_gamma(1, 0)) by (nonlinear_arith);
    } else if c == 2 {
        assert(is_linear_gamma(2, 0)) by (nonlinear_arith);
    } else if c == 3 {
        assert(is_linear_gamma(3, 0)) by (nonlinear_arith);
    } else if c == 4 {
        assert(is_linear_gamma(4, 0)) by (nonlinear_arith);
    } else if c == 5 {
        assert(is_linear_gamma(5, 0)) by (nonlinear_arith);
    } else if c == 6 {
        assert(is_linear_gamma(6, 0)) by (nonlinear_arith);
    } else if c == 7 {
        assert(is_linear_gamma(7, 0)) by (nonlinear_arith);
    } else if c == 8 {
        assert(is_linear_gamma(8, 0)) by (nonlinear_arith);
    } else if c == 9 {
        assert(is_linear_gamma(9, 0)) by (nonlinear_arith);
    } else if c == 10 {
        assert(is_linear_gamma(10, 0)) by (nonlinear_arith);
    } else if c == 11 {
        assert(is_linear_gamma(11, 0)) by (nonlinear_arith);
    } else if c == 12 {
        assert(is_linear_gamma(12, 0)) by (nonlinear_arith);
    } else if c == 13 {
        assert(is_linear_gamma(13, 1)) by (nonlinear_arith);
    } else if c == 14 {
        assert(is_linear_gamma(14, 1)) by (nonlinear_arith);
    } else {
        assert(is_linear_gamma(15, 1)) by (nonlinear_arith);
    }
}

/// The second sixteen rows of the table.
proof fn lemma_rows_from_16(c: int)
    requires
        16 <= c < 32,
    ensures
        is_linear_gamma(c, LINEAR_GAMMA[c] as int),
{
    if c == 16 {
        assert(is_linear_gamma(16, 1)) by (nonlinear_arith);
    } else if c == 17 {
        assert(is_linear_gamma(17, 1)) by (nonlinear_arith);
    } else if c == 18 {
        assert(is_linear_gamma(18, 1)) by (nonlinear_arith);
    } else if c == 19 {
        assert(is_linear_gamma(19, 1)) by (nonlinear_arith);
    } else if c == 20 {
        assert(is_linear_gamma(20, 1)) by (nonlinear_arith);
    } else if c == 21 {
        assert(is_linear_gamma(21, 1)) by (nonlinear_arith);
    } else if c == 22 {
        assert(is_linear_gamma(22, 2)) by (nonlinear_arith);
    } else if c == 23 {
        assert(is_linear_gamma(23, 2)) by (nonlinear_arith);
    } else if c == 24 {
        assert(is_linear_gamma(24, 2)) by (nonlinear_arith);
    } else if c == 25 {
        assert(is_linear_gamma(25, 2)) by (nonlinear_arith);
    } else if c == 26 {
        assert(is_linear_gamma(26, 2)) by (nonlinear_arith);
    } else if c == 27 {
        assert(is_linear_gamma(27, 2)) by (nonlinear_arith);
    } else if c == 28 {
        assert(is_linear_gamma(28, 2)) by (nonlinear_arith);
    } else if c == 29 {
        assert(is_linear_gamma(29, 3)) by (nonlinear_arith);
    } else if c == 30 {
        assert(is_linear_gamma(30, 3)) by (nonlinear_arith);
    } else {
        assert(is_linear_gamma(31, 3)) by (nonlinear_arith);
    }
}

/// The third sixteen rows of the table.
proof fn lemma_rows_from_32(c: int)
    requires
        32 <= c < 48,
    ensures
        is_linear_gamma(c, LINEAR_GAMMA[c] as int),
{
    if c == 32 {
        assert(is_linear_gamma(32, 3)) by (nonlinear_arith);
    } else if c == 33 {
        assert(is_linear_gamma(33, 3)) by (nonlinear_arith);
    } else if c == 34 {
        assert(is_linear_gamma(34, 4)) by (nonlinear_arith);
    } else if c == 35 {
        assert(is_linear_gamma(35, 4)) by (nonlinear_arith);
    } else if c == 36 {
        assert(is_linear_gamma(36, 4)) by (nonlinear_arith);
    } else if c == 37 {
        assert(is_linear_gamma(37, 4)) by (nonlinear_arith);
    } else if c == 38 {
        assert(is_linear_gamma(38, 4)) by (nonlinear_arith);
    } else if c == 39 {
        assert(is_linear_gamma(39, 5)) by (nonlinear_arith);
    } else if c == 40 {
        assert(is_linear_gamma(40, 5)) by (nonlinear_arith);
    } else if c == 41 {
        assert(is_linear_gamma(41, 5)) by (nonlinear_arith);
    } else if c == 42 {
        assert(is_linear_gamma(42, 5)) by (nonlinear_arith);
    } else if c == 43 {
        assert(is_linear_gamma(43, 6)) by (nonlinear_arith);
    } else if c == 44 {
        assert(is_linear_gamma(44, 6)) by (nonlinear_arith);
    } else if c == 45 {
        assert(is_linear_gamma(45, 6)) by (nonlinear_arith);
    } else if c == 46 {
        assert(is_linear_gamma(46, 6)) by (nonlinear_arith);
    } else {
        assert(is_linear_gamma(47, 7)) by (nonlinear_arith);
    }
}

/// The fourth sixteen rows of the table.
proof fn lemma_rows_from_48(c: int)
    requires
        48 <= c < 64,
    ensures
        is_linear_gamma(c, LINEAR_GAMMA[c] as int),
{
    if c == 48 {
        assert(is_linear_gamma(48, 7)) by (nonlinear_arith);
    } else if c == 49 {
        assert(is_linear_gamma(49, 7)) by (nonlinear_arith);
    } else if c == 50 {
        assert(is_linear_gamma(50, 8)) by (nonlinear_arith);
    } else if c == 51 {
        assert(is_linear_gamma(51, 8)) by (nonlinear_arith);
    } else if c == 52 {
        assert(is_linear_gamma(52, 8)) by (nonlinear_arith);
    } else if c == 53 {
        assert(is_linear_gamma(53, 9)) by (nonlinear_arith);
    } else if c == 54 {
        assert(is_linear_gamma(54, 9)) by (nonlinear_arith);
    } else if c == 55 {
        assert(is_linear_gamma(55, 9)) by (nonlinear_arith);
    } else if c == 56 {
        assert(is_linear_gamma(56, 10)) by (nonlinear_arith);
    } else if c == 57 {
        assert(is_linear_gamma(57, 10)) by (nonlinear_arith);
    } else if c == 58 {
        assert(is_linear_gamma(58, 10)) by (nonlinear_arith);
    } else if c == 59 {
        assert(is_linear_gamma(59, 11)) by (nonlinear_arith);
    } else if c == 60 {
        assert(is_linear_gamma(60, 11)) by (nonlinear_arith);
    } else if c == 61 {
        assert(is_linear_gamma(61, 11)) by (nonlinear_arith);
    } else if c == 62 {
        assert(is_linear_gamma(62, 12)) by (nonlinear_arith);
    } else {
        assert(is_linear_gamma(63, 12)) by (nonlinear_arith);
    }
}

/// The fifth sixteen rows of the table.
proof fn lemma_rows_from_64(c: int)
    requires
        64 <= c < 80,
    ensures
        is_linear_gamma(c, LINEAR_GAMMA[c] as int),
{
    if c == 64 {
        assert(is_linear_gamma(64, 13)) by (nonlinear_arith);
    } else if c == 65 {
        assert(is_linear_gamma(65, 13)) by (nonlinear_arith);
    } else if c == 66 {
        assert(is_linear_gamma(66, 13)) by (nonlinear_arith);
    } else if c == 67 {
        assert(is_linear_gamma(67, 14)) by (nonlinear_arith);
    } else if c == 68 {
        assert(is_linear_gamma(68, 14)) by (nonlinear_arith);
    } else if c == 69 {
        assert(is_linear_gamma(69, 15)) by (nonlinear_arith);
    } else if c == 70 {
        assert(is_linear_gamma(70, 15)) by (nonlinear_arith);
    } else if c == 71 {
        assert(is_linear_gamma(71, 16)) by (nonlinear_arith);
    } else if c == 72 {
        assert(is_linear_gamma(72, 16)) by (nonlinear_arith);
    } else if c == 73 {
        assert(is_linear_gamma(73, 16)) by (nonlinear_arith);
    } else if c == 74 {
        assert(is_linear_gamma(74, 17)) by (nonlinear_arith);
    } else if c == 75 {
        assert(is_linear_gamma(75, 17)) by (nonlinear_arith);
    } else if c == 76 {
        assert(is_linear_gamma(76, 18)) by (nonlinear_arith);
    } else if c == 77 {
        assert(is_linear_gamma(77, 18)) by (nonlinear_arith);
    } else if c == 78 {
        assert(is_linear_gamma(78, 19)) by (nonlinear_arith);
    } else {
        assert(is_linear_gamma(79, 19)) by (nonlinear_arith);
    }
}

/// The sixth sixteen rows of the table.
proof fn lemma_rows_from_80(c: int)
    requires
        80 <= c < 96,
    ensures
        is_linear_gamma(c, LINEAR_GAMMA[c] as int),
{
    if c == 80 {
        assert(is_linear_gamma(80, 20)) by (nonlinear_arith);
    } else if c == 81 {
        assert(is_linear_gamma(81, 20)) by (nonlinear_arith);
    } else if c == 82 {
        assert(is_linear_gamma(82, 21)) by (nonlinear_arith);
    } else if c == 83 {
        assert(is_linear_gamma(83, 22)) by (nonlinear_arith);
    } else if c == 84 {
        assert(is_linear_gamma(84, 22)) by (nonlinear_arith);
    } else if c == 85 {
        assert(is_linear_gamma(85, 23)) by (nonlinear_arith);
    } else if c == 86 {
        assert(is_linear_gamma(86, 23)) by (nonlinear_arith);
    } else if c == 87 {
        assert(is_linear_gamma(87, 24)) by (nonlinear_arith);
    } else if c == 88 {
        assert(is_linear_gamma(88, 24)) by (nonlinear_arith);
    } else if c == 89 {
        assert(is_linear_gamma(89, 25)) by (nonlinear_arith);
    } else if c == 90 {
        assert(is_linear_gamma(90, 26)) by (nonlinear_arith);
    } else if c == 91 {
        assert(is_linear_gamma(91, 26)) by (nonlinear_arith);
    } else if c == 92 {
        assert(is_linear_gamma(92, 27)) by (nonlinear_arith);
    } else if c == 93 {
        assert(is_linear_gamma(93, 27)) by (nonlinear_arith);
    } else if c == 94 {
        assert(is_linear_gamma(94, 28)) by (nonlinear_arith);
    } else {
        assert(is_linear_gamma(95, 29)) by (nonlinear_arith);
    }
}

/// The seventh sixteen rows of the table.
proof fn lemma_rows_from_96(c: int)
    requires
        96 <= c < 112,
    ensures
        is_linear_gamma(c, LINEAR_GAMMA[c] as int),
{
    if c == 96 {
        assert(is_linear_gamma(96, 29)) by (nonlinear_arith);
    } else if c == 97 {
        assert(is_linear_gamma(97, 30)) by (nonlinear_arith);
    } else if c == 98 {
        assert(is_linear_gamma(98, 31)) by (nonlinear_arith);
    } else if c == 99 {
        assert(is_linear_gamma(99, 31)) by (nonlinear_arith);
    } else if c == 100 {
        assert(is_linear_gamma(100, 32)) by (nonlinear_arith);
    } else if c == 101 {
        assert(is_linear_gamma(101, 33)) by (nonlinear_arith);
    } else if c == 102 {
        assert(is_linear_gamma(102, 33)) by (nonlinear_arith);
    } else if c == 103 {
        assert(is_linear_gamma(103, 34)) by (nonlinear_arith);
    } else if c == 104 {
        assert(is_linear_gamma(104, 35)) by (nonlinear_arith);
    } else if c == 105 {
        assert(is_linear_gamma(105, 36)) by (nonlinear_arith);
    } else if c == 106 {
        assert(is_linear_gamma(106, 36)) by (nonlinear_arith);
    } else if c == 107 {
        assert(is_linear_gamma(107, 37)) by (nonlinear_arith);
    } else if c == 108 {
        assert(is_linear_gamma(108, 38)) by (nonlinear_arith);
    } else if c == 109 {
        assert(is_linear_gamma(109, 38)) by (nonlinear_arith);
    } else if c == 110 {
        assert(is_linear_gamma(110, 39)) by (nonlinear_arith);
    } else {
        assert(is_linear_gamma(111, 40)) by (nonlinear_arith);
    }
}

/// The eighth sixteen rows of the table.
proof fn lemma_rows_from_112(c: int)
    requires
        112 <= c < 128,
    ensures
        is_linear_gamma(c, LINEAR_GAMMA[c] as int),
{
    if c == 112 {
        assert(is_linear_gamma(112, 41)) by (nonlinear_arith);
    } else if c == 113 {
        assert(is_linear_gamma(113, 42)) by (nonlinear_arith);
    } else if c == 114 {
        assert(is_linear_gamma(114, 42)) by (nonlinear_arith);
    } else if c == 115 {
        assert(is_linear_gamma(115, 43)) by (nonlinear_arith);
    } else if c == 116 {
        assert(is_linear_gamma(116, 44)) by (nonlinear_arith);
    } else if c == 117 {
        assert(is_linear_gamma(117, 45)) by (nonlinear_arith);
    } else if c == 118 {
        assert(is_linear_gamma(118, 46)) by (nonlinear_arith);
    } else if c == 119 {
        assert(is_linear_gamma(119, 47)) by (nonlinear_arith);
    } else if c == 120 {
        assert(is_linear_gamma(120, 47)) by (nonlinear_arith);
    } else if c == 121 {
        assert(is_linear_gamma(121, 48)) by (nonlinear_arith);
    } else if c == 122 {
        assert(is_linear_gamma(122, 49)) by (nonlinear_arith);
    } else if c == 123 {
        assert(is_linear_gamma(123, 50)) by (nonlinear_arith);
    } else if c == 124 {
        assert(is_linear_gamma(124, 51)) by (nonlinear_arith);
    } else if c == 125 {
        assert(is_linear_gamma(125, 52)) by (nonlinear_arith);
    } else if c == 126 {
        assert(is_linear_gamma(126, 53)) by (nonlinear_arith);
    } else {
        assert(is_linear_gamma(127, 54)) by (nonlinear_arith);
    }
}

/// The ninth sixteen rows of the table.
proof fn lemma_rows_from_128(c: int)
    requires
        128 <= c < 144,
    ensures
        is_linear_gamma(c, LINEAR_GAMMA[c] as int),
{
    if c == 128 {
        assert(is_linear_gamma(128, 55)) by (nonlinear_arith);
    } else if c == 129 {
        assert(is_linear_gamma(129, 55)) by (nonlinear_arith);
    } else if c == 130 {
        assert(is_linear_gamma(130, 56)) by (nonlinear_arith);
    } else if c == 131 {
        assert(is_linear_gamma(131, 57)) by (nonlinear_arith);
    } else if c == 132 {
        assert(is_linear_gamma(132, 58)) by (nonlinear_arith);
    } else if c == 133 {
        assert(is_linear_gamma(133, 59)) by (nonlinear_arith);
    } else if c == 134 {
        assert(is_linear_gamma(134, 60)) by (nonlinear_arith);
    } else if c == 135 {
        assert(is_linear_gamma(135, 61)) by (nonlinear_arith);
    } else if c == 136 {
        assert(is_linear_gamma(136, 62)) by (nonlinear_arith);
    } else if c == 137 {
        assert(is_linear_gamma(137, 63)) by (nonlinear_arith);
    } else if c == 138 {
        assert(is_linear_gamma(138, 64)) by (nonlinear_arith);
    } else if c == 139 {
        assert(is_linear_gamma(139, 65)) by (nonlinear_arith);
    } else if c == 140 {
        assert(is_linear_gamma(140, 66)) by (nonlinear_arith);
    } else if c == 141 {
        assert(is_linear_gamma(141, 67)) by (nonlinear_arith);
    } else if c == 142 {
        assert(is_linear_gamma(142, 68)) by (nonlinear_arith);
    } else {
        assert(is_linear_gamma(143, 70)) by (nonlinear_arith);
    }
}

/// The tenth sixteen rows of the table.
proof fn lemma_rows_from_144(c: int)
    requires
        144 <= c < 160,
    ensures
        is_linear_gamma(c, LINEAR_GAMMA[c] as int),
{
    if c == 144 {
        assert(is_linear_gamma(144, 71)) by (nonlinear_arith);
    } else if c == 145 {
        assert(is_linear_gamma(145, 72)) by (nonlinear_arith);
    } else if c == 146 {
        assert(is_linear_gamma(146, 73)) by (nonlinear_arith);
    } else if c == 147 {
        assert(is_linear_gamma(147, 74)) by (nonlinear_arith);
    } else if c == 148 {
        assert(is_linear_gamma(148, 75)) by (nonlinear_arith);
    } else if c == 149 {
        assert(is_linear_gamma(149, 76)) by (nonlinear_arith);
    } else if c == 150 {
        assert(is_linear_gamma(150, 77)) by (nonlinear_arith);
    } else if c == 151 {
        assert(is_linear_gamma(151, 78)) by (nonlinear_arith);
    } else if c == 152 {
        assert(is_linear_gamma(152, 80)) by (nonlinear_arith);
    } else if c == 153 {
        assert(is_linear_gamma(153, 81)) by (nonlinear_arith);
    } else if c == 154 {
        assert(is_linear_gamma(154, 82)) by (nonlinear_arith);
    } else if c == 155 {
        assert(is_linear_gamma(155, 83)) by (nonlinear_arith);
    } else if c == 156 {
        assert(is_linear_gamma(156, 84)) by (nonlinear_arith);
    } else if c == 157 {
        assert(is_linear_gamma(157, 85)) by (nonlinear_arith);
    } else if c == 158 {
        assert(is_linear_gamma(158, 87)) by (nonlinear_arith);
    } else {
        assert(is_linear_gamma(159, 88)) by (nonlinear_arith);
    }
}

/// The eleventh sixteen rows of the table.
proof fn lemma_rows_from_160(c: int)
    requires
        160 <= c < 176,
    ensures
        is_linear_gamma(c, LINEAR_GAMMA[c] as int),
{
    if c == 160 {
        assert(is_linear_gamma(160, 89)) by (nonlinear_arith);
    } else if c == 161 {
        assert(is_linear_gamma(161, 90)) by (nonlinear_arith);
    } else if c == 162 {
        assert(is_linear_gamma(162, 92)) by (nonlinear_arith);
    } else if c == 163 {
        assert(is_linear_gamma(163, 93)) by (nonlinear_arith);
    } else if c == 164 {
        assert(is_linear_gamma(164, 94)) by (nonlinear_arith);
    } else if c == 165 {
        assert(is_linear_gamma(165, 95)) by (nonlinear_arith);
    } else if c == 166 {
        assert(is_linear_gamma(166, 97)) by (nonlinear_arith);
    } else if c == 167 {
        assert(is_linear_gamma(167, 98)) by (nonlinear_arith);
    } else if c == 168 {
        assert(is_linear_gamma(168, 99)) by (nonlinear_arith);
    } else if c == 169 {
        assert(is_linear_gamma(169, 101)) by (nonlinear_arith);
    } else if c == 170 {
        assert(is_linear_gamma(170, 102)) by (nonlinear_arith);
    } else if c == 171 {
        assert(is_linear_gamma(171, 103)) by (nonlinear_arith);
    } else if c == 172 {
        assert(is_linear_gamma(172, 105)) by (nonlinear_arith);
    } else if c == 173 {
        assert(is_linear_gamma(173, 106)) by (nonlinear_arith);
    } else if c == 174 {
        assert(is_linear_gamma(174, 107)) by (nonlinear_arith);
    } else {
        assert(is_linear_gamma(175, 109)) by (nonlinear_arith);
    }
}

/// The twelfth sixteen rows of the table.
proof fn lemma_rows_from_176(c: int)
    requires
        176 <= c < 192,
    ensures
        is_linear_gamma(c, LINEAR_GAMMA[c] as int),
{
    if c == 176 {
        assert(is_linear_gamma(176, 110)) by (nonlinear_arith);
    } else if c == 177 {
        assert(is_linear_gamma(177, 112)) by (nonlinear_arith);
    } else if c == 178 {
        assert(is_linear_gamma(178, 113)) by (nonlinear_arith);
    } else if c == 179 {
        assert(is_linear_gamma(179, 114)) by (nonlinear_arith);
    } else if c == 180 {
        assert(is_linear_gamma(180, 116)) by (nonlinear_arith);
    } else if c == 181 {
        assert(is_linear_gamma(181, 117)) by (nonlinear_arith);
    } else if c == 182 {
        assert(is_linear_gamma(182, 119)) by (nonlinear_arith);
    } else if c == 183 {
        assert(is_linear_gamma(183, 120)) by (nonlinear_arith);
    } else if c == 184 {
        assert(is_linear_gamma(184, 122)) by (nonlinear_arith);
    } else if c == 185 {
        assert(is_linear_gamma(185, 123)) by (nonlinear_arith);
    } else if c == 186 {
        assert(is_linear_gamma(186, 125)) by (nonlinear_arith);
    } else if c == 187 {
        assert(is_linear_gamma(187, 126)) by (nonlinear_arith);
    } else if c == 188 {
        assert(is_linear_gamma(188, 128)) by (nonlinear_arith);
    } else if c == 189 {
        assert(is_linear_gamma(189, 129)) by (nonlinear_arith);
    } else if c == 190 {
        assert(is_linear_gamma(190, 131)) by (nonlinear_arith);
    } else {
        assert(is_linear_gamma(191, 132)) by (nonlinear_arith);
    }
}

/// The thirteenth sixteen rows of the table.
proof fn lemma_rows_from_192(c: int)
    requires
        192 <= c < 208,
    ensures
        is_linear_gamma(c, LINEAR_GAMMA[c] as int),
{
    if c == 192 {
        assert(is_linear_gamma(192, 134)) by (nonlinear_arith);
    } else if c == 193 {
        assert(is_linear_gamma(193, 135)) by (nonlinear_arith);
    } else if c == 194 {
        assert(is_linear_gamma(194, 137)) by (nonlinear_arith);
    } else if c == 195 {
        assert(is_linear_gamma(195, 139)) by (nonlinear_arith);
    } else if c == 196 {
        assert(is_linear_gamma(196, 140)) by (nonlinear_arith);
    } else if c == 197 {
        assert(is_linear_gamma(197, 142)) by (nonlinear_arith);
    } else if c == 198 {
        assert(is_linear_gamma(198, 144)) by (nonlinear_arith);
    } else if c == 199 {
        assert(is_linear_gamma(199, 145)) by (nonlinear_arith);
    } else if c == 200 {
        assert(is_linear_gamma(200, 147)) by (nonlinear_arith);
    } else if c == 201 {
        assert(is_linear_gamma(201, 148)) by (nonlinear_arith);
    } else if c == 202 {
        assert(is_linear_gamma(202, 150)) by (nonlinear_arith);
    } else if c == 203 {
        assert(is_linear_gamma(203, 152)) by (nonlinear_arith);
    } else if c == 204 {
        assert(is_linear_gamma(204, 153)) by (nonlinear_arith);
    } else if c == 205 {
        assert(is_linear_gamma(205, 155)) by (nonlinear_arith);
    } else if c == 206 {
        assert(is_linear_gamma(206, 157)) by (nonlinear_arith);
    } else {
        assert(is_linear_gamma(207, 159)) by (nonlinear_arith);
    }
}

/// The fourteenth sixteen rows of the table.
proof fn lemma_rows_from_208(c: int)
    requires
        208 <= c < 224,
    ensures
        is_linear_gamma(c, LINEAR_GAMMA[c] as int),
{
    if c == 208 {
        assert(is_linear_gamma(208, 160)) by (nonlinear_arith);
    } else if c == 209 {
        assert(is_linear_gamma(209, 162)) by (nonlinear_arith);
    } else if c == 210 {
        assert(is_linear_gamma(210, 164)) by (nonlinear_arith);
    } else if c == 211 {
        assert(is_linear_gamma(211, 166)) by (nonlinear_arith);
    } else if c == 212 {
        assert(is_linear_gamma(212, 167)) by (nonlinear_arith);
    } else if c == 213 {
        assert(is_linear_gamma(213, 169)) by (nonlinear_arith);
    } else if c == 214 {
        assert(is_linear_gamma(214, 171)) by (nonlinear_arith);
    } else if c == 215 {
        assert(is_linear_gamma(215, 173)) by (nonlinear_arith);
    } else if c == 216 {
        assert(is_linear_gamma(216, 175)) by (nonlinear_arith);
    } else if c == 217 {
        assert(is_linear_gamma(217, 176)) by (nonlinear_arith);
    } else if c == 218 {
        assert(is_linear_gamma(218, 178)) by (nonlinear_arith);
    } else if c == 219 {
        assert(is_linear_gamma(219, 180)) by (nonlinear_arith);
    } else if c == 220 {
        assert(is_linear_gamma(220, 182)) by (nonlinear_arith);
    } else if c == 221 {
        assert(is_linear_gamma(221, 184)) by (nonlinear_arith);
    } else if c == 222 {
        assert(is_linear_gamma(222, 186)) by (nonlinear_arith);
    } else {
        assert(is_linear_gamma(223, 188)) by (nonlinear_arith);
    }
}

/// The fifteenth sixteen rows of the table.
proof fn lemma_rows_from_224(c: int)
    requires
        224 <= c < 240,
    ensures
        is_linear_gamma(c, LINEAR_GAMMA[c] as int),
{
    if c == 224 {
        assert(is_linear_gamma(224, 190)) by (nonlinear_arith);
    } else if c == 225 {
        assert(is_linear_gamma(225, 192)) by (nonlinear_arith);
    } else if c == 226 {
        assert(is_linear_gamma(226, 193)) by (nonlinear_arith);
    } else if c == 227 {
        assert(is_linear_gamma(227, 195)) by (nonlinear_arith);
    } else if c == 228 {
        assert(is_linear_gamma(228, 197)) by (nonlinear_arith);
    } else if c == 229 {
        assert(is_linear_gamma(229, 199)) by (nonlinear_arith);
    } else if c == 230 {
        assert(is_linear_gamma(230, 201)) by (nonlinear_arith);
    } else if c == 231 {
        assert(is_linear_gamma(231, 203)) by (nonlinear_arith);
    } else if c == 232 {
        assert(is_linear_gamma(232, 205)) by (nonlinear_arith);
    } else if c == 233 {
        assert(is_linear_gamma(233, 207)) by (nonlinear_arith);
    } else if c == 234 {
        assert(is_linear_gamma(234, 209)) by (nonlinear_arith);
    } else if c == 235 {
        assert(is_linear_gamma(235, 211)) by (nonlinear_arith);
    } else if c == 236 {
        assert(is_linear_gamma(236, 213)) by (nonlinear_arith);
    } else if c == 237 {
        assert(is_linear_gamma(237, 215)) by (nonlinear_arith);
    } else if c == 238 {
        assert(is_linear_gamma(238, 218)) by (nonlinear_arith);
    } else {
        assert(is_linear_gamma(239, 220)) by (nonlinear_arith);
    }
}

/// The sixteenth sixteen rows of the table.
proof fn lemma_rows_from_240(c: int)
    requires
        240 <= c < 256,
    ensures
        is_linear_gamma(c, LINEAR_GAMMA[c] as int),
{
    if c == 240 {
        assert(is_linear_gamma(240, 222)) by (nonlinear_arith);
    } else if c == 241 {
        assert(is_linear_gamma(241, 224)) by (nonlinear_arith);
    } else if c == 242 {
        assert(is_linear_gamma(242, 226)) by (nonlinear_arith);
    } else if c == 243 {
        assert(is_linear_gamma(243, 228)) by (nonlinear_arith);
    } else if c == 244 {
        assert(is_linear_gamma(244, 230)) by (nonlinear_arith);
    } else if c == 245 {
        assert(is_linear_gamma(245, 232)) by (nonlinear_arith);
    } else if c == 246 {
        assert(is_linear_gamma(246, 235)) by (nonlinear_arith);
    } else if c == 247 {
        assert(is_linear_gamma(247, 237)) by (nonlinear_arith);
    } else if c == 248 {
        assert(is_linear_gamma(248, 239)) by (nonlinear_arith);
    } else if c == 249 {
        assert(is_linear_gamma(249, 241)) by (nonlinear_arith);
    } else if c == 250 {
        assert(is_linear_gamma(250, 243)) by (nonlinear_arith);
    } else if c == 251 {
        assert(is_linear_gamma(251, 245)) by (nonlinear_arith);
    } else if c == 252 {
        assert(is_linear_gamma(252, 248)) by (nonlinear_arith);
    } else if c == 253 {
        assert(is_linear_gamma(253, 250)) by (nonlinear_arith);
    } else if c == 254 {
        assert(is_linear_gamma(254, 252)) by (nonlinear_arith);
    } else {
        assert(is_linear_gamma(255, 254)) by (nonlinear_arith);
    }
}

/// Every row of the table holds the linear value of its index.
pub proof fn lemma_linear_gamma_table(c: int)
    requires
        0 <= c < 256,
    ensures
        is_linear_gamma(c, LINEAR_GAMMA[c] as int),
{
    if c < 16 {
        lemma_rows_from_0(c);
    } else if c < 32 {
        lemma_rows_from_16(c);
    } else if c < 48 {
        lemma_rows_from_32(c);
    } else if c < 64 {
        lemma_rows_from_48(c);
    } else if c < 80 {
        lemma_rows_from_64(c);
    } else if c < 96 {
        lemma_rows_from_80(c);
    } else if c < 112 {
        lemma_rows_from_96(c);
    } else if c < 128 {
        lemma_rows_from_112(c);
    } else if c < 144 {
        lemma_rows_from_128(c);
    } else if c < 160 {
        lemma_rows_from_144(c);
    } else if c < 176 {
        lemma_rows_from_160(c);
    } else if c < 192 {
        lemma_rows_from_176(c);
    } else if c < 208 {
        lemma_rows_from_192(c);
    } else if c < 224 {
        lemma_rows_from_208(c);
    } else if c < 240 {
        lemma_rows_from_224(c);
    } else {
        lemma_rows_from_240(c);
    }
}

/// Fifth powers of numbers that are not negative keep their order.
proof fn lemma_pow5_monotone(a: int, b: int)
    requires
        0 <= a <= b,
    ensures
        0 <= pow5(a) <= pow5(b),
{
    let a2 = a * a;
    let b2 = b * b;
    assert(0 <= a2 <= b2) by (nonlinear_arith)
        requires
            0 <= a <= b,
            a2 == a * a,
            b2 == b * b,
    ;
    let a3 = a2 * a;
    let b3 = b2 * b;
    assert(0 <= a3 <= b3) by (nonlinear_arith)
        requires
            0 <= a <= b,
            0 <= a2 <= b2,
            a3 == a2 * a,
            b3 == b2 * b,
    ;
    let a4 = a3 * a;
    let b4 = b3 * b;
    assert(0 <= a4 <= b4) by (nonlinear_arith)
        requires
            0 <= a <= b,
            0 <= a3 <= b3,
            a4 == a3 * a,
            b4 == b3 * b,
    ;
    assert(0 <= a4 * a <= b4 * b) by (nonlinear_arith)
        requires
            0 <= a <= b,
            0 <= a4 <= b4,
    ;
}

/// At most one number is the linear value of a channel value: the relation
/// is a function.
pub proof fn lemma_linear_gamma_unique(c: int, r: int, s: int)
    requires
        0 <= r,
        0 <= s,
        is_linear_gamma(c, r),
        is_linear_gamma(c, s),
    ensures
        r == s,
{
    if above_linear_part(c) {
        let scale = pow12(gamma_base_den());
        assert(scale > 0) by (nonlinear_arith)
            requires
                scale == pow12(2_690_250_000_000),
        ;
        if r < s {
            lemma_pow5_monotone(r + 1, s);
            assert(pow5(r + 1) * scale <= pow5(s) * scale) by (nonlinear_arith)
                requires
                    pow5(r + 1) <= pow5(s),
                    scale > 0,
            ;
        }
        if s < r {
            lemma_pow5_monotone(s + 1, r);
            assert(pow5(s + 1) * scale <= pow5(r) * scale) by (nonlinear_arith)
                requires
                    pow5(s + 1) <= pow5(r),
                    scale > 0,
            ;
        }
    }
}

/// The table never falls: a brighter channel value is no darker when linear.
pub proof fn lemma_linear_gamma_monotone(a: int, b: int)
    requires
        0 <= a <= b < 256,
    ensures
        LINEAR_GAMMA[a] <= LINEAR_GAMMA[b],
    decreases b - a,
{
    if a < b {
        lemma_linear_gamma_monotone(a, b - 1);
        lemma_linear_gamma_step(b);
    }
}

/// No row of the table is below the row before it, nor above its own index.
proof fn lemma_linear_gamma_step(c: int)
    requires
        0 <= c < 256,
    ensures
        c >= 1 ==> LINEAR_GAMMA[c - 1] <= LINEAR_GAMMA[c],
        LINEAR_GAMMA[c] <= c,
{
}

/// The linear value of a channel is never above its gamma-encoded value.
pub proof fn lemma_linear_gamma_darkens(c: int)
    requires
        0 <= c < 256,
    ensures
        LINEAR_GAMMA[c] <= c,
{
    lemma_linear_gamma_step(c);
}

} // verus!
