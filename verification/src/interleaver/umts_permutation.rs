//! Every interleaver of the UMTS table is a permutation of its block.
//!
//! For each entry the table below names the inverse of `f1` modulo the block
//! length and the second and fourth power of `f2`, reduced modulo the block
//! length; the eighth power of `f2` is a multiple of the block length in
//! every entry.
use vstd::prelude::*;
use super::{deinterleaved, interleaved, permutation};
use super::permutation::{
    lemma_interleave_round_trip,
    lemma_permutation_multiset,
    lemma_qpp_is_permutation,
    qpp_is_permutation,
    qpp_permutation,
};
use super::qpp::QppInterleaver;
use super::umts::{lemma_umts_table_index, umts_interleaver, umts_table_index, umts_table_length, UMTS_COEFFICIENTS};

verus! {

/// The interleaver at a position of the table is a permutation of its block.
pub open spec fn umts_entry_is_permutation(index: int) -> bool {
    qpp_is_permutation(
        umts_table_length(index),
        UMTS_COEFFICIENTS[index].0 as int,
        UMTS_COEFFICIENTS[index].1 as int,
    )
}


proof fn lemma_umts_entries_0_to_46(index: int)
    requires
        0 <= index < 47,
    ensures
        umts_entry_is_permutation(index),
{
    if index == 0 {
        lemma_qpp_is_permutation(40, 3, 10, 27, 20, 0);
    } else if index == 1 {
        lemma_qpp_is_permutation(48, 7, 12, 7, 0, 0);
    } else if index == 2 {
        lemma_qpp_is_permutation(56, 19, 42, 3, 28, 0);
    } else if index == 3 {
        lemma_qpp_is_permutation(64, 7, 16, 55, 0, 0);
    } else if index == 4 {
        lemma_qpp_is_permutation(72, 7, 18, 31, 36, 0);
    } else if index == 5 {
        lemma_qpp_is_permutation(80, 11, 20, 51, 0, 0);
    } else if index == 6 {
        lemma_qpp_is_permutation(88, 5, 22, 53, 44, 0);
    } else if index == 7 {
        lemma_qpp_is_permutation(96, 11, 24, 35, 0, 0);
    } else if index == 8 {
        lemma_qpp_is_permutation(104, 7, 26, 15, 52, 0);
    } else if index == 9 {
        lemma_qpp_is_permutation(112, 41, 84, 41, 0, 0);
    } else if index == 10 {
        lemma_qpp_is_permutation(120, 103, 90, 7, 60, 0);
    } else if index == 11 {
        lemma_qpp_is_permutation(128, 15, 32, 111, 0, 0);
    } else if index == 12 {
        lemma_qpp_is_permutation(136, 9, 34, 121, 68, 0);
    } else if index == 13 {
        lemma_qpp_is_permutation(144, 17, 108, 17, 0, 0);
    } else if index == 14 {
        lemma_qpp_is_permutation(152, 9, 38, 17, 76, 0);
    } else if index == 15 {
        lemma_qpp_is_permutation(160, 21, 120, 61, 0, 0);
    } else if index == 16 {
        lemma_qpp_is_permutation(168, 101, 84, 5, 0, 0);
    } else if index == 17 {
        lemma_qpp_is_permutation(176, 21, 44, 109, 0, 0);
    } else if index == 18 {
        lemma_qpp_is_permutation(184, 57, 46, 113, 92, 0);
    } else if index == 19 {
        lemma_qpp_is_permutation(192, 23, 48, 167, 0, 0);
    } else if index == 20 {
        lemma_qpp_is_permutation(200, 13, 50, 77, 100, 0);
    } else if index == 21 {
        lemma_qpp_is_permutation(208, 27, 52, 131, 0, 0);
    } else if index == 22 {
        lemma_qpp_is_permutation(216, 11, 36, 59, 0, 0);
    } else if index == 23 {
        lemma_qpp_is_permutation(224, 27, 56, 83, 0, 0);
    } else if index == 24 {
        lemma_qpp_is_permutation(232, 85, 58, 101, 116, 0);
    } else if index == 25 {
        lemma_qpp_is_permutation(240, 29, 60, 149, 0, 0);
    } else if index == 26 {
        lemma_qpp_is_permutation(248, 33, 62, 233, 124, 0);
    } else if index == 27 {
        lemma_qpp_is_permutation(256, 15, 32, 239, 0, 0);
    } else if index == 28 {
        lemma_qpp_is_permutation(264, 17, 198, 233, 132, 0);
    } else if index == 29 {
        lemma_qpp_is_permutation(272, 33, 68, 33, 0, 0);
    } else if index == 30 {
        lemma_qpp_is_permutation(280, 103, 210, 87, 140, 0);
    } else if index == 31 {
        lemma_qpp_is_permutation(288, 19, 36, 91, 144, 0);
    } else if index == 32 {
        lemma_qpp_is_permutation(296, 19, 74, 187, 148, 0);
    } else if index == 33 {
        lemma_qpp_is_permutation(304, 37, 76, 189, 0, 0);
    } else if index == 34 {
        lemma_qpp_is_permutation(312, 19, 78, 115, 156, 0);
    } else if index == 35 {
        lemma_qpp_is_permutation(320, 21, 120, 61, 0, 0);
    } else if index == 36 {
        lemma_qpp_is_permutation(328, 21, 82, 125, 164, 0);
    } else if index == 37 {
        lemma_qpp_is_permutation(336, 115, 84, 187, 0, 0);
    } else if index == 38 {
        lemma_qpp_is_permutation(344, 193, 86, 41, 172, 0);
    } else if index == 39 {
        lemma_qpp_is_permutation(352, 21, 44, 285, 176, 0);
    } else if index == 40 {
        lemma_qpp_is_permutation(360, 133, 90, 157, 180, 0);
    } else if index == 41 {
        lemma_qpp_is_permutation(368, 81, 46, 209, 276, 0);
    } else if index == 42 {
        lemma_qpp_is_permutation(376, 45, 94, 117, 188, 0);
    } else if index == 43 {
        lemma_qpp_is_permutation(384, 23, 48, 167, 0, 0);
    } else if index == 44 {
        lemma_qpp_is_permutation(392, 243, 98, 171, 196, 0);
    } else if index == 45 {
        lemma_qpp_is_permutation(400, 151, 40, 151, 0, 0);
    } else if index == 46 {
        lemma_qpp_is_permutation(408, 155, 102, 179, 204, 0);
    }
}

proof fn lemma_umts_entries_47_to_93(index: int)
    requires
        47 <= index < 94,
    ensures
        umts_entry_is_permutation(index),
{
    if index == 47 {
        lemma_qpp_is_permutation(416, 25, 52, 233, 208, 0);
    } else if index == 48 {
        lemma_qpp_is_permutation(424, 51, 106, 291, 212, 0);
    } else if index == 49 {
        lemma_qpp_is_permutation(432, 47, 72, 239, 0, 0);
    } else if index == 50 {
        lemma_qpp_is_permutation(440, 91, 110, 411, 220, 0);
    } else if index == 51 {
        lemma_qpp_is_permutation(448, 29, 168, 309, 0, 0);
    } else if index == 52 {
        lemma_qpp_is_permutation(456, 29, 114, 173, 228, 0);
    } else if index == 53 {
        lemma_qpp_is_permutation(464, 247, 58, 263, 116, 0);
    } else if index == 54 {
        lemma_qpp_is_permutation(472, 29, 118, 293, 236, 0);
    } else if index == 55 {
        lemma_qpp_is_permutation(480, 89, 180, 329, 240, 0);
    } else if index == 56 {
        lemma_qpp_is_permutation(488, 91, 122, 59, 244, 0);
    } else if index == 57 {
        lemma_qpp_is_permutation(496, 157, 62, 357, 372, 0);
    } else if index == 58 {
        lemma_qpp_is_permutation(504, 55, 84, 55, 0, 0);
    } else if index == 59 {
        lemma_qpp_is_permutation(512, 31, 64, 479, 0, 0);
    } else if index == 60 {
        lemma_qpp_is_permutation(528, 17, 66, 497, 132, 0);
    } else if index == 61 {
        lemma_qpp_is_permutation(544, 35, 68, 171, 272, 0);
    } else if index == 62 {
        lemma_qpp_is_permutation(560, 227, 420, 523, 0, 0);
    } else if index == 63 {
        lemma_qpp_is_permutation(576, 65, 96, 257, 0, 0);
    } else if index == 64 {
        lemma_qpp_is_permutation(592, 19, 74, 187, 148, 0);
    } else if index == 65 {
        lemma_qpp_is_permutation(608, 37, 76, 493, 304, 0);
    } else if index == 66 {
        lemma_qpp_is_permutation(624, 41, 234, 137, 468, 0);
    } else if index == 67 {
        lemma_qpp_is_permutation(640, 39, 80, 279, 0, 0);
    } else if index == 68 {
        lemma_qpp_is_permutation(656, 185, 82, 617, 164, 0);
    } else if index == 69 {
        lemma_qpp_is_permutation(672, 43, 252, 547, 336, 0);
    } else if index == 70 {
        lemma_qpp_is_permutation(688, 21, 86, 557, 516, 0);
    } else if index == 71 {
        lemma_qpp_is_permutation(704, 155, 44, 595, 528, 0);
    } else if index == 72 {
        lemma_qpp_is_permutation(720, 79, 120, 319, 0, 0);
    } else if index == 73 {
        lemma_qpp_is_permutation(736, 139, 92, 323, 368, 0);
    } else if index == 74 {
        lemma_qpp_is_permutation(752, 23, 94, 327, 564, 0);
    } else if index == 75 {
        lemma_qpp_is_permutation(768, 217, 48, 361, 0, 0);
    } else if index == 76 {
        lemma_qpp_is_permutation(784, 25, 98, 345, 196, 0);
    } else if index == 77 {
        lemma_qpp_is_permutation(800, 17, 80, 753, 0, 0);
    } else if index == 78 {
        lemma_qpp_is_permutation(816, 127, 102, 559, 612, 0);
    } else if index == 79 {
        lemma_qpp_is_permutation(832, 25, 52, 233, 208, 0);
    } else if index == 80 {
        lemma_qpp_is_permutation(848, 239, 106, 479, 212, 0);
    } else if index == 81 {
        lemma_qpp_is_permutation(864, 17, 48, 305, 576, 0);
    } else if index == 82 {
        lemma_qpp_is_permutation(880, 137, 110, 713, 660, 0);
    } else if index == 83 {
        lemma_qpp_is_permutation(896, 215, 112, 871, 0, 0);
    } else if index == 84 {
        lemma_qpp_is_permutation(912, 29, 114, 629, 228, 0);
    } else if index == 85 {
        lemma_qpp_is_permutation(928, 15, 58, 495, 580, 464);
    } else if index == 86 {
        lemma_qpp_is_permutation(944, 147, 118, 411, 708, 0);
    } else if index == 87 {
        lemma_qpp_is_permutation(960, 29, 60, 629, 720, 0);
    } else if index == 88 {
        lemma_qpp_is_permutation(976, 59, 122, 579, 244, 0);
    } else if index == 89 {
        lemma_qpp_is_permutation(992, 65, 124, 641, 496, 0);
    } else if index == 90 {
        lemma_qpp_is_permutation(1008, 55, 84, 55, 0, 0);
    } else if index == 91 {
        lemma_qpp_is_permutation(1024, 31, 64, 991, 0, 0);
    } else if index == 92 {
        lemma_qpp_is_permutation(1056, 17, 66, 497, 132, 528);
    } else if index == 93 {
        lemma_qpp_is_permutation(1088, 171, 204, 579, 272, 0);
    }
}

proof fn lemma_umts_entries_94_to_140(index: int)
    requires
        94 <= index < 141,
    ensures
        umts_entry_is_permutation(index),
{
    if index == 94 {
        lemma_qpp_is_permutation(1120, 67, 140, 1003, 560, 0);
    } else if index == 95 {
        lemma_qpp_is_permutation(1152, 35, 72, 395, 576, 0);
    } else if index == 96 {
        lemma_qpp_is_permutation(1184, 19, 74, 187, 740, 592);
    } else if index == 97 {
        lemma_qpp_is_permutation(1216, 39, 76, 343, 912, 0);
    } else if index == 98 {
        lemma_qpp_is_permutation(1248, 19, 78, 1051, 1092, 624);
    } else if index == 99 {
        lemma_qpp_is_permutation(1280, 199, 240, 759, 0, 0);
    } else if index == 100 {
        lemma_qpp_is_permutation(1312, 21, 82, 125, 164, 656);
    } else if index == 101 {
        lemma_qpp_is_permutation(1344, 211, 252, 1051, 336, 0);
    } else if index == 102 {
        lemma_qpp_is_permutation(1376, 21, 86, 1245, 516, 688);
    } else if index == 103 {
        lemma_qpp_is_permutation(1408, 43, 88, 131, 704, 0);
    } else if index == 104 {
        lemma_qpp_is_permutation(1440, 149, 60, 29, 720, 0);
    } else if index == 105 {
        lemma_qpp_is_permutation(1472, 45, 92, 229, 1104, 0);
    } else if index == 106 {
        lemma_qpp_is_permutation(1504, 49, 846, 1105, 1316, 752);
    } else if index == 107 {
        lemma_qpp_is_permutation(1536, 71, 48, 887, 768, 0);
    } else if index == 108 {
        lemma_qpp_is_permutation(1568, 13, 28, 965, 784, 0);
    } else if index == 109 {
        lemma_qpp_is_permutation(1600, 17, 80, 753, 0, 0);
    } else if index == 110 {
        lemma_qpp_is_permutation(1632, 25, 102, 457, 612, 816);
    } else if index == 111 {
        lemma_qpp_is_permutation(1664, 183, 104, 391, 832, 0);
    } else if index == 112 {
        lemma_qpp_is_permutation(1696, 55, 954, 1511, 1060, 848);
    } else if index == 113 {
        lemma_qpp_is_permutation(1728, 127, 96, 1279, 576, 0);
    } else if index == 114 {
        lemma_qpp_is_permutation(1760, 27, 110, 1043, 1540, 880);
    } else if index == 115 {
        lemma_qpp_is_permutation(1792, 29, 112, 309, 0, 0);
    } else if index == 116 {
        lemma_qpp_is_permutation(1824, 29, 114, 629, 228, 912);
    } else if index == 117 {
        lemma_qpp_is_permutation(1856, 57, 116, 521, 464, 0);
    } else if index == 118 {
        lemma_qpp_is_permutation(1888, 45, 354, 965, 708, 944);
    } else if index == 119 {
        lemma_qpp_is_permutation(1920, 31, 120, 991, 960, 0);
    } else if index == 120 {
        lemma_qpp_is_permutation(1952, 59, 610, 1555, 1220, 976);
    } else if index == 121 {
        lemma_qpp_is_permutation(1984, 185, 124, 1673, 1488, 0);
    } else if index == 122 {
        lemma_qpp_is_permutation(2016, 113, 420, 785, 1008, 0);
    } else if index == 123 {
        lemma_qpp_is_permutation(2048, 31, 64, 991, 0, 0);
    } else if index == 124 {
        lemma_qpp_is_permutation(2112, 17, 66, 497, 132, 528);
    } else if index == 125 {
        lemma_qpp_is_permutation(2176, 171, 136, 1667, 1088, 0);
    } else if index == 126 {
        lemma_qpp_is_permutation(2240, 209, 420, 1329, 1680, 0);
    } else if index == 127 {
        lemma_qpp_is_permutation(2304, 253, 216, 1621, 576, 0);
    } else if index == 128 {
        lemma_qpp_is_permutation(2368, 367, 444, 271, 592, 0);
    } else if index == 129 {
        lemma_qpp_is_permutation(2432, 265, 456, 569, 1216, 0);
    } else if index == 130 {
        lemma_qpp_is_permutation(2496, 181, 468, 1117, 1872, 0);
    } else if index == 131 {
        lemma_qpp_is_permutation(2560, 39, 80, 919, 1280, 0);
    } else if index == 132 {
        lemma_qpp_is_permutation(2624, 27, 164, 1555, 656, 0);
    } else if index == 133 {
        lemma_qpp_is_permutation(2688, 127, 504, 127, 1344, 0);
    } else if index == 134 {
        lemma_qpp_is_permutation(2752, 143, 172, 943, 2064, 0);
    } else if index == 135 {
        lemma_qpp_is_permutation(2816, 43, 88, 131, 2112, 0);
    } else if index == 136 {
        lemma_qpp_is_permutation(2880, 29, 300, 1589, 720, 0);
    } else if index == 137 {
        lemma_qpp_is_permutation(2944, 45, 92, 1701, 2576, 0);
    } else if index == 138 {
        lemma_qpp_is_permutation(3008, 157, 188, 2165, 2256, 0);
    } else if index == 139 {
        lemma_qpp_is_permutation(3072, 47, 96, 719, 0, 0);
    } else if index == 140 {
        lemma_qpp_is_permutation(3136, 13, 28, 965, 784, 0);
    }
}

proof fn lemma_umts_entries_141_to_187(index: int)
    requires
        141 <= index < 188,
    ensures
        umts_entry_is_permutation(index),
{
    if index == 141 {
        lemma_qpp_is_permutation(3200, 111, 240, 2191, 0, 0);
    } else if index == 142 {
        lemma_qpp_is_permutation(3264, 443, 204, 2483, 2448, 0);
    } else if index == 143 {
        lemma_qpp_is_permutation(3328, 51, 104, 3067, 832, 0);
    } else if index == 144 {
        lemma_qpp_is_permutation(3392, 51, 212, 3259, 848, 0);
    } else if index == 145 {
        lemma_qpp_is_permutation(3456, 451, 192, 1387, 2304, 0);
    } else if index == 146 {
        lemma_qpp_is_permutation(3520, 257, 220, 2753, 2640, 0);
    } else if index == 147 {
        lemma_qpp_is_permutation(3584, 57, 336, 3081, 1792, 0);
    } else if index == 148 {
        lemma_qpp_is_permutation(3648, 313, 228, 1993, 912, 0);
    } else if index == 149 {
        lemma_qpp_is_permutation(3712, 271, 232, 2671, 1856, 0);
    } else if index == 150 {
        lemma_qpp_is_permutation(3776, 179, 236, 443, 2832, 0);
    } else if index == 151 {
        lemma_qpp_is_permutation(3840, 331, 120, 1891, 2880, 0);
    } else if index == 152 {
        lemma_qpp_is_permutation(3904, 363, 244, 1667, 976, 0);
    } else if index == 153 {
        lemma_qpp_is_permutation(3968, 375, 248, 455, 1984, 0);
    } else if index == 154 {
        lemma_qpp_is_permutation(4032, 127, 168, 127, 0, 0);
    } else if index == 155 {
        lemma_qpp_is_permutation(4096, 31, 64, 3039, 0, 0);
    } else if index == 156 {
        lemma_qpp_is_permutation(4160, 33, 130, 2017, 260, 1040);
    } else if index == 157 {
        lemma_qpp_is_permutation(4224, 43, 264, 2947, 2112, 0);
    } else if index == 158 {
        lemma_qpp_is_permutation(4288, 33, 134, 2209, 804, 3216);
    } else if index == 159 {
        lemma_qpp_is_permutation(4352, 477, 408, 885, 1088, 0);
    } else if index == 160 {
        lemma_qpp_is_permutation(4416, 35, 138, 3659, 1380, 1104);
    } else if index == 161 {
        lemma_qpp_is_permutation(4480, 233, 280, 4057, 2240, 0);
    } else if index == 162 {
        lemma_qpp_is_permutation(4544, 357, 142, 3373, 1988, 3408);
    } else if index == 163 {
        lemma_qpp_is_permutation(4608, 337, 480, 1969, 0, 0);
    } else if index == 164 {
        lemma_qpp_is_permutation(4672, 37, 146, 1389, 2628, 1168);
    } else if index == 165 {
        lemma_qpp_is_permutation(4736, 71, 444, 2935, 2960, 0);
    } else if index == 166 {
        lemma_qpp_is_permutation(4800, 71, 120, 2231, 0, 0);
    } else if index == 167 {
        lemma_qpp_is_permutation(4864, 37, 152, 1709, 3648, 0);
    } else if index == 168 {
        lemma_qpp_is_permutation(4928, 39, 462, 3159, 1540, 1232);
    } else if index == 169 {
        lemma_qpp_is_permutation(4992, 127, 234, 511, 4836, 4368);
    } else if index == 170 {
        lemma_qpp_is_permutation(5056, 39, 158, 1815, 4740, 3792);
    } else if index == 171 {
        lemma_qpp_is_permutation(5120, 39, 80, 919, 1280, 0);
    } else if index == 172 {
        lemma_qpp_is_permutation(5184, 31, 96, 3679, 4032, 0);
    } else if index == 173 {
        lemma_qpp_is_permutation(5248, 113, 902, 2833, 164, 656);
    } else if index == 174 {
        lemma_qpp_is_permutation(5312, 41, 166, 2073, 996, 3984);
    } else if index == 175 {
        lemma_qpp_is_permutation(5376, 251, 336, 2099, 0, 0);
    } else if index == 176 {
        lemma_qpp_is_permutation(5440, 43, 170, 5187, 1700, 1360);
    } else if index == 177 {
        lemma_qpp_is_permutation(5504, 21, 86, 2621, 1892, 2064);
    } else if index == 178 {
        lemma_qpp_is_permutation(5568, 43, 174, 259, 2436, 4176);
    } else if index == 179 {
        lemma_qpp_is_permutation(5632, 45, 176, 4005, 2816, 0);
    } else if index == 180 {
        lemma_qpp_is_permutation(5696, 45, 178, 2405, 3204, 1424);
    } else if index == 181 {
        lemma_qpp_is_permutation(5760, 161, 120, 3041, 2880, 0);
    } else if index == 182 {
        lemma_qpp_is_permutation(5824, 89, 182, 4777, 4004, 4368);
    } else if index == 183 {
        lemma_qpp_is_permutation(5888, 323, 184, 875, 4416, 0);
    } else if index == 184 {
        lemma_qpp_is_permutation(5952, 47, 186, 4559, 4836, 1488);
    } else if index == 185 {
        lemma_qpp_is_permutation(6016, 23, 94, 1831, 2820, 5264);
    } else if index == 186 {
        lemma_qpp_is_permutation(6080, 47, 190, 1423, 5700, 4560);
    } else if index == 187 {
        lemma_qpp_is_permutation(6144, 263, 480, 5303, 3072, 0);
    }
}

/// The interleaver of every supported block length maps the
/// indices of the block to themselves, no two to the same one, and reaches
/// each of them.
pub proof fn lemma_umts_interleaver_is_permutation(length: int)
    requires
        umts_interleaver(length).is_some(),
    ensures
        qpp_is_permutation(
            length,
            umts_interleaver(length).unwrap().f1 as int,
            umts_interleaver(length).unwrap().f2 as int,
        ),
{
    lemma_umts_table_index(length);
    let index = umts_table_index(length).unwrap();
    if index < 47 {
        lemma_umts_entries_0_to_46(index);
    } else if index < 94 {
        lemma_umts_entries_47_to_93(index);
    } else if index < 141 {
        lemma_umts_entries_94_to_140(index);
    } else {
        lemma_umts_entries_141_to_187(index);
    }
}

/// The interleaved indices of a supported block length and the indices of
/// the block are the same multiset.
pub proof fn lemma_umts_interleaver_multiset(length: int)
    requires
        umts_interleaver(length).is_some(),
    ensures
        qpp_permutation(
            length,
            umts_interleaver(length).unwrap().f1 as int,
            umts_interleaver(length).unwrap().f2 as int,
        ).to_multiset() == Seq::new(length as nat, |i: int| i).to_multiset(),
{
    lemma_umts_interleaver_is_permutation(length);
    lemma_permutation_multiset(
        qpp_permutation(
            length,
            umts_interleaver(length).unwrap().f1 as int,
            umts_interleaver(length).unwrap().f2 as int,
        ),
    );
}

/// With the interleaver of a supported block length,
/// deinterleaving an interleaved buffer gives the buffer back, whatever the
/// target buffer held before.
pub proof fn lemma_umts_interleave_round_trip<T>(interleaver: QppInterleaver, buffer: Seq<T>, target: Seq<T>)
    requires
        umts_interleaver(interleaver@.length as int) == Some(interleaver@),
        buffer.len() == interleaver@.length,
        target.len() == interleaver@.length,
    ensures
        deinterleaved(
            permutation(&interleaver),
            interleaved(permutation(&interleaver), buffer),
            target,
            buffer.len(),
        ) == buffer,
{
    let k = interleaver@.length as int;
    lemma_umts_interleaver_is_permutation(k);
    assert(permutation(&interleaver) =~= qpp_permutation(
        k,
        interleaver@.f1 as int,
        interleaver@.f2 as int,
    ));
    lemma_interleave_round_trip(permutation(&interleaver), buffer, target);
}

} // verus!
