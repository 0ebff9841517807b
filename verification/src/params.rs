//! The evaluation parameters: tapered piece-square tables, written from
//! White's side with the eighth rank first, with the piece values already
//! folded in, and the bishop-pair bonus.

use vstd::prelude::*;
use crate::piece::PieceKind;

verus! {

pub const PAWN_MG: [i16; 64] = [
    115, 115, 115, 115, 115, 115, 115, 115,
    197, 229, 198, 240, 215, 192, 97, 60,
    85, 104, 151, 158, 162, 194, 166, 105,
    63, 98, 103, 105, 135, 124, 130, 96,
    48, 87, 85, 108, 109, 98, 110, 78,
    46, 81, 81, 83, 104, 88, 130, 88,
    47, 82, 76, 62, 90, 111, 143, 77,
    115, 115, 115, 115, 115, 115, 115, 115,
];

pub const PAWN_EG: [i16; 64] = [
    222, 222, 222, 222, 222, 222, 222, 222,
    403, 392, 393, 325, 318, 333, 397, 417,
    320, 331, 282, 253, 241, 220, 286, 283,
    220, 206, 178, 166, 153, 157, 184, 185,
    186, 182, 157, 153, 150, 152, 169, 158,
    177, 180, 155, 173, 163, 158, 166, 153,
    184, 186, 166, 176, 182, 165, 165, 154,
    222, 222, 222, 222, 222, 222, 222, 222,
];

pub const KNIGHT_MG: [i16; 64] = [
    186, 232, 325, 372, 417, 336, 258, 267,
    374, 398, 435, 456, 434, 523, 396, 429,
    394, 442, 467, 483, 535, 536, 476, 431,
    388, 407, 441, 472, 446, 480, 422, 436,
    370, 391, 412, 414, 427, 419, 417, 384,
    343, 375, 394, 398, 414, 400, 405, 366,
    324, 342, 365, 381, 383, 386, 367, 363,
    263, 339, 321, 341, 348, 365, 342, 306,
];

pub const KNIGHT_EG: [i16; 64] = [
    380, 460, 478, 468, 472, 439, 468, 346,
    450, 480, 492, 490, 479, 457, 474, 427,
    472, 494, 517, 519, 496, 488, 478, 457,
    489, 519, 533, 536, 538, 529, 517, 478,
    492, 504, 537, 537, 541, 527, 506, 479,
    470, 496, 511, 528, 526, 505, 489, 471,
    457, 478, 492, 498, 497, 489, 465, 470,
    446, 429, 471, 475, 477, 460, 439, 428,
];

pub const BISHOP_MG: [i16; 64] = [
    374, 350, 363, 303, 321, 345, 384, 335,
    397, 430, 421, 397, 440, 438, 426, 412,
    411, 444, 444, 476, 458, 503, 471, 452,
    399, 418, 450, 464, 460, 454, 419, 400,
    389, 408, 416, 445, 441, 419, 409, 400,
    404, 414, 414, 418, 420, 413, 416, 422,
    407, 409, 425, 394, 405, 423, 432, 413,
    375, 405, 382, 371, 377, 375, 410, 390,
];

pub const BISHOP_EG: [i16; 64] = [
    495, 507, 505, 523, 515, 501, 495, 488,
    473, 501, 506, 512, 497, 498, 507, 472,
    513, 508, 523, 506, 514, 515, 505, 504,
    507, 531, 524, 545, 530, 529, 525, 507,
    501, 527, 538, 533, 535, 530, 523, 488,
    500, 516, 526, 527, 532, 528, 504, 487,
    494, 493, 491, 512, 514, 499, 503, 466,
    469, 494, 466, 495, 491, 492, 474, 450,
];

pub const ROOK_MG: [i16; 64] = [
    597, 582, 592, 600, 626, 650, 623, 654,
    569, 569, 596, 623, 603, 644, 627, 669,
    540, 570, 572, 577, 617, 618, 671, 639,
    518, 538, 540, 552, 560, 563, 575, 577,
    491, 495, 509, 527, 527, 505, 539, 528,
    482, 495, 507, 505, 514, 511, 560, 529,
    478, 495, 516, 511, 517, 520, 546, 503,
    504, 507, 520, 527, 533, 519, 540, 507,
];

pub const ROOK_EG: [i16; 64] = [
    915, 927, 939, 933, 920, 905, 909, 901,
    916, 932, 938, 926, 926, 906, 900, 881,
    917, 920, 922, 920, 901, 893, 881, 873,
    920, 917, 930, 925, 903, 895, 890, 881,
    909, 916, 919, 917, 910, 908, 889, 882,
    903, 903, 902, 909, 902, 891, 862, 863,
    896, 900, 902, 905, 893, 887, 873, 881,
    889, 902, 914, 912, 901, 894, 887, 877,
];

pub const QUEEN_MG: [i16; 64] = [
    1125, 1134, 1180, 1227, 1223, 1238, 1262, 1185,
    1177, 1146, 1154, 1144, 1153, 1206, 1177, 1239,
    1177, 1174, 1171, 1194, 1201, 1259, 1262, 1258,
    1154, 1160, 1165, 1164, 1167, 1186, 1185, 1194,
    1156, 1153, 1152, 1164, 1163, 1161, 1177, 1181,
    1153, 1163, 1156, 1155, 1159, 1169, 1187, 1178,
    1150, 1158, 1172, 1172, 1170, 1182, 1190, 1206,
    1147, 1133, 1143, 1165, 1152, 1133, 1167, 1155,
];

pub const QUEEN_EG: [i16; 64] = [
    1671, 1692, 1714, 1694, 1693, 1676, 1616, 1661,
    1622, 1683, 1732, 1756, 1780, 1722, 1698, 1662,
    1637, 1663, 1721, 1725, 1744, 1715, 1661, 1644,
    1652, 1684, 1706, 1737, 1757, 1736, 1715, 1683,
    1647, 1689, 1701, 1730, 1726, 1713, 1686, 1668,
    1632, 1655, 1689, 1683, 1689, 1678, 1646, 1628,
    1624, 1631, 1626, 1640, 1644, 1607, 1566, 1524,
    1617, 1627, 1631, 1618, 1625, 1625, 1580, 1581,
];

pub const KING_MG: [i16; 64] = [
    5, -22, 27, -168, -89, -16, 55, 150,
    -150, -91, -152, -2, -73, -67, -10, -40,
    -176, -30, -125, -152, -97, 11, -17, -67,
    -129, -146, -166, -230, -213, -159, -157, -191,
    -117, -134, -176, -215, -211, -160, -164, -198,
    -57, -35, -115, -133, -124, -121, -56, -80,
    70, 10, -10, -58, -61, -36, 34, 47,
    62, 96, 58, -85, 7, -49, 68, 70,
];

pub const KING_EG: [i16; 64] = [
    -111, -42, -29, 41, 12, 16, 4, -135,
    18, 59, 77, 50, 79, 96, 81, 37,
    39, 65, 92, 107, 106, 95, 94, 53,
    25, 73, 98, 116, 116, 107, 95, 59,
    8, 52, 86, 106, 105, 87, 70, 47,
    -8, 26, 56, 74, 73, 61, 33, 16,
    -38, 1, 19, 35, 39, 26, -1, -26,
    -87, -60, -32, -6, -42, -8, -46, -87,
];

pub const BISHOP_PAIR_MG: i16 = 28;

pub const BISHOP_PAIR_EG: i16 = 92;

/// The middlegame worth of `kind` standing on visual index `i` (rank
/// eight first), piece value included. Opaque: the proofs depend only on
/// the table being fixed, never on its entries.
#[verifier::opaque]
pub open spec fn table_mg(kind: PieceKind, i: int) -> int {
    match kind {
        PieceKind::Pawn => PAWN_MG@[i] as int,
        PieceKind::Knight => KNIGHT_MG@[i] as int,
        PieceKind::Bishop => BISHOP_MG@[i] as int,
        PieceKind::Rook => ROOK_MG@[i] as int,
        PieceKind::Queen => QUEEN_MG@[i] as int,
        PieceKind::King => KING_MG@[i] as int,
    }
}

/// The endgame worth of `kind` standing on visual index `i`.
#[verifier::opaque]
pub open spec fn table_eg(kind: PieceKind, i: int) -> int {
    match kind {
        PieceKind::Pawn => PAWN_EG@[i] as int,
        PieceKind::Knight => KNIGHT_EG@[i] as int,
        PieceKind::Bishop => BISHOP_EG@[i] as int,
        PieceKind::Rook => ROOK_EG@[i] as int,
        PieceKind::Queen => QUEEN_EG@[i] as int,
        PieceKind::King => KING_EG@[i] as int,
    }
}

/// Read the middlegame table.
pub fn lookup_mg(kind: PieceKind, i: usize) -> (r: i16)
    requires
        i < 64,
    ensures
        r as int == table_mg(kind, i as int),
{
    proof {
        reveal(table_mg);
    }
    match kind {
        PieceKind::Pawn => PAWN_MG[i],
        PieceKind::Knight => KNIGHT_MG[i],
        PieceKind::Bishop => BISHOP_MG[i],
        PieceKind::Rook => ROOK_MG[i],
        PieceKind::Queen => QUEEN_MG[i],
        PieceKind::King => KING_MG[i],
    }
}

/// Read the endgame table.
pub fn lookup_eg(kind: PieceKind, i: usize) -> (r: i16)
    requires
        i < 64,
    ensures
        r as int == table_eg(kind, i as int),
{
    proof {
        reveal(table_eg);
    }
    match kind {
        PieceKind::Pawn => PAWN_EG[i],
        PieceKind::Knight => KNIGHT_EG[i],
        PieceKind::Bishop => BISHOP_EG[i],
        PieceKind::Rook => ROOK_EG[i],
        PieceKind::Queen => QUEEN_EG[i],
        PieceKind::King => KING_EG[i],
    }
}

/// Every table entry is small; the totals over a board fit comfortably in
/// 32 bits.
pub proof fn lemma_table_bounds(kind: PieceKind, i: int)
    requires
        0 <= i < 64,
    ensures
        -4000 < table_mg(kind, i) < 4000,
        -4000 < table_eg(kind, i) < 4000,
{
    reveal(table_mg);
    reveal(table_eg);
}

} // verus!
