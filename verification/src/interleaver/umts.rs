//! The interleavers of the UMTS/LTE turbo code.
//!
//! The supported block lengths are 40 to 504 in steps of 8, 512 to 1008 in
//! steps of 16, 1024 to 2016 in steps of 32 and 2048 to 6144 in steps of 64:
//! 188 lengths, each with its own pair of coefficients `(f1, f2)`.
use vstd::prelude::*;
use super::qpp::{QppInterleaver, QppParameters};

verus! {

/// The coefficients `(f1, f2)` of each supported block length, in rising order of the length.
pub const UMTS_COEFFICIENTS: [(u16, u16); 188] = [
    (3, 10), (7, 12), (19, 42), (7, 16), (7, 18), (11, 20),
    (5, 22), (11, 24), (7, 26), (41, 84), (103, 90), (15, 32),
    (9, 34), (17, 108), (9, 38), (21, 120), (101, 84), (21, 44),
    (57, 46), (23, 48), (13, 50), (27, 52), (11, 36), (27, 56),
    (85, 58), (29, 60), (33, 62), (15, 32), (17, 198), (33, 68),
    (103, 210), (19, 36), (19, 74), (37, 76), (19, 78), (21, 120),
    (21, 82), (115, 84), (193, 86), (21, 44), (133, 90), (81, 46),
    (45, 94), (23, 48), (243, 98), (151, 40), (155, 102), (25, 52),
    (51, 106), (47, 72), (91, 110), (29, 168), (29, 114), (247, 58),
    (29, 118), (89, 180), (91, 122), (157, 62), (55, 84), (31, 64),
    (17, 66), (35, 68), (227, 420), (65, 96), (19, 74), (37, 76),
    (41, 234), (39, 80), (185, 82), (43, 252), (21, 86), (155, 44),
    (79, 120), (139, 92), (23, 94), (217, 48), (25, 98), (17, 80),
    (127, 102), (25, 52), (239, 106), (17, 48), (137, 110), (215, 112),
    (29, 114), (15, 58), (147, 118), (29, 60), (59, 122), (65, 124),
    (55, 84), (31, 64), (17, 66), (171, 204), (67, 140), (35, 72),
    (19, 74), (39, 76), (19, 78), (199, 240), (21, 82), (211, 252),
    (21, 86), (43, 88), (149, 60), (45, 92), (49, 846), (71, 48),
    (13, 28), (17, 80), (25, 102), (183, 104), (55, 954), (127, 96),
    (27, 110), (29, 112), (29, 114), (57, 116), (45, 354), (31, 120),
    (59, 610), (185, 124), (113, 420), (31, 64), (17, 66), (171, 136),
    (209, 420), (253, 216), (367, 444), (265, 456), (181, 468), (39, 80),
    (27, 164), (127, 504), (143, 172), (43, 88), (29, 300), (45, 92),
    (157, 188), (47, 96), (13, 28), (111, 240), (443, 204), (51, 104),
    (51, 212), (451, 192), (257, 220), (57, 336), (313, 228), (271, 232),
    (179, 236), (331, 120), (363, 244), (375, 248), (127, 168), (31, 64),
    (33, 130), (43, 264), (33, 134), (477, 408), (35, 138), (233, 280),
    (357, 142), (337, 480), (37, 146), (71, 444), (71, 120), (37, 152),
    (39, 462), (127, 234), (39, 158), (39, 80), (31, 96), (113, 902),
    (41, 166), (251, 336), (43, 170), (21, 86), (43, 174), (45, 176),
    (45, 178), (161, 120), (89, 182), (323, 184), (47, 186), (23, 94),
    (47, 190), (263, 480),
];

/// The position of a block length in the table, if the length is supported.
pub open spec fn umts_table_index(length: int) -> Option<int> {
    if 40 <= length <= 504 && length % 8 == 0 {
        Some((length - 40) / 8)
    } else if 512 <= length <= 1008 && length % 16 == 0 {
        Some(59 + (length - 512) / 16)
    } else if 1024 <= length <= 2016 && length % 32 == 0 {
        Some(91 + (length - 1024) / 32)
    } else if 2048 <= length <= 6144 && length % 64 == 0 {
        Some(123 + (length - 2048) / 64)
    } else {
        None
    }
}

/// The block length at a position of the table.
pub open spec fn umts_table_length(index: int) -> int {
    if index < 59 {
        40 + 8 * index
    } else if index < 91 {
        512 + 16 * (index - 59)
    } else if index < 123 {
        1024 + 32 * (index - 91)
    } else {
        2048 + 64 * (index - 123)
    }
}

/// The interleaver of the UMTS turbo code for a block length, if the length is supported.
pub open spec fn umts_interleaver(length: int) -> Option<QppParameters> {
    match umts_table_index(length) {
        Some(index) => Some(
            QppParameters {
                length: length as nat,
                f1: UMTS_COEFFICIENTS[index].0 as nat,
                f2: UMTS_COEFFICIENTS[index].1 as nat,
            },
        ),
        None => None,
    }
}

/// The table positions and the supported lengths correspond one to one.
pub proof fn lemma_umts_table_index(length: int)
    ensures
        match umts_table_index(length) {
            Some(index) => 0 <= index < 188 && umts_table_length(index) == length,
            None => forall|index: int| 0 <= index < 188 ==> umts_table_length(index) != length,
        },
{
}

/// Create the interleaver for a block of `length` bits.
///
/// Gives `None` for a length that the UMTS turbo code does not support.
pub fn create(length: usize) -> (interleaver: Option<QppInterleaver>)
    ensures
        match umts_interleaver(length as int) {
            Some(parameters) => interleaver.is_some() && interleaver.unwrap()@ == parameters,
            None => interleaver.is_none(),
        },
{
    let index = if 40 <= length && length <= 504 && length % 8 == 0 {
        (length - 40) / 8
    } else if 512 <= length && length <= 1008 && length % 16 == 0 {
        59 + (length - 512) / 16
    } else if 1024 <= length && length <= 2016 && length % 32 == 0 {
        91 + (length - 1024) / 32
    } else if 2048 <= length && length <= 6144 && length % 64 == 0 {
        123 + (length - 2048) / 64
    } else {
        return None;
    };
    let (f1, f2) = UMTS_COEFFICIENTS[index];
    Some(QppInterleaver::new(length, f1, f2))
}

} // verus!
