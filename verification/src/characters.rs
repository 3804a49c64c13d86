//! The keysyms of characters. Layouts carry most letters by keysyms that are older than
//! the ones which are made of the character's number; both count.

use vstd::prelude::*;

verus! {

/// Latin letters and accents beyond Latin-1.
pub open spec fn latin(unit: u16) -> Option<u32> {
    match unit {
        0x0100 => Some(0x3c0),
        0x0101 => Some(0x3e0),
        0x0102 => Some(0x1c3),
        0x0103 => Some(0x1e3),
        0x0104 => Some(0x1a1),
        0x0105 => Some(0x1b1),
        0x0106 => Some(0x1c6),
        0x0107 => Some(0x1e6),
        0x0108 => Some(0x2c6),
        0x0109 => Some(0x2e6),
        0x010a => Some(0x2c5),
        0x010b => Some(0x2e5),
        0x010c => Some(0x1c8),
        0x010d => Some(0x1e8),
        0x010e => Some(0x1cf),
        0x010f => Some(0x1ef),
        0x0110 => Some(0x1d0),
        0x0111 => Some(0x1f0),
        0x0112 => Some(0x3aa),
        0x0113 => Some(0x3ba),
        0x0116 => Some(0x3cc),
        0x0117 => Some(0x3ec),
        0x0118 => Some(0x1ca),
        0x0119 => Some(0x1ea),
        0x011a => Some(0x1cc),
        0x011b => Some(0x1ec),
        0x011c => Some(0x2d8),
        0x011d => Some(0x2f8),
        0x011e => Some(0x2ab),
        0x011f => Some(0x2bb),
        0x0120 => Some(0x2d5),
        0x0121 => Some(0x2f5),
        0x0122 => Some(0x3ab),
        0x0123 => Some(0x3bb),
        0x0124 => Some(0x2a6),
        0x0125 => Some(0x2b6),
        0x0126 => Some(0x2a1),
        0x0127 => Some(0x2b1),
        0x0128 => Some(0x3a5),
        0x0129 => Some(0x3b5),
        0x012a => Some(0x3cf),
        0x012b => Some(0x3ef),
        0x012e => Some(0x3c7),
        0x012f => Some(0x3e7),
        0x0130 => Some(0x2a9),
        0x0131 => Some(0x2b9),
        0x0134 => Some(0x2ac),
        0x0135 => Some(0x2bc),
        0x0136 => Some(0x3d3),
        0x0137 => Some(0x3f3),
        0x0138 => Some(0x3a2),
        0x0139 => Some(0x1c5),
        0x013a => Some(0x1e5),
        0x013b => Some(0x3a6),
        0x013c => Some(0x3b6),
        0x013d => Some(0x1a5),
        0x013e => Some(0x1b5),
        0x0141 => Some(0x1a3),
        0x0142 => Some(0x1b3),
        0x0143 => Some(0x1d1),
        0x0144 => Some(0x1f1),
        0x0145 => Some(0x3d1),
        0x0146 => Some(0x3f1),
        0x0147 => Some(0x1d2),
        0x0148 => Some(0x1f2),
        0x014a => Some(0x3bd),
        0x014b => Some(0x3bf),
        0x014c => Some(0x3d2),
        0x014d => Some(0x3f2),
        0x0150 => Some(0x1d5),
        0x0151 => Some(0x1f5),
        0x0152 => Some(0x13bc),
        0x0153 => Some(0x13bd),
        0x0154 => Some(0x1c0),
        0x0155 => Some(0x1e0),
        0x0156 => Some(0x3a3),
        0x0157 => Some(0x3b3),
        0x0158 => Some(0x1d8),
        0x0159 => Some(0x1f8),
        0x015a => Some(0x1a6),
        0x015b => Some(0x1b6),
        0x015c => Some(0x2de),
        0x015d => Some(0x2fe),
        0x015e => Some(0x1aa),
        0x015f => Some(0x1ba),
        0x0160 => Some(0x1a9),
        0x0161 => Some(0x1b9),
        0x0162 => Some(0x1de),
        0x0163 => Some(0x1fe),
        0x0164 => Some(0x1ab),
        0x0165 => Some(0x1bb),
        0x0166 => Some(0x3ac),
        0x0167 => Some(0x3bc),
        0x0168 => Some(0x3dd),
        0x0169 => Some(0x3fd),
        0x016a => Some(0x3de),
        0x016b => Some(0x3fe),
        0x016c => Some(0x2dd),
        0x016d => Some(0x2fd),
        0x016e => Some(0x1d9),
        0x016f => Some(0x1f9),
        0x0170 => Some(0x1db),
        0x0171 => Some(0x1fb),
        0x0172 => Some(0x3d9),
        0x0173 => Some(0x3f9),
        0x0178 => Some(0x13be),
        0x0179 => Some(0x1ac),
        0x017a => Some(0x1bc),
        0x017b => Some(0x1af),
        0x017c => Some(0x1bf),
        0x017d => Some(0x1ae),
        0x017e => Some(0x1be),
        0x02c7 => Some(0x1b7),
        0x02d8 => Some(0x1a2),
        0x02d9 => Some(0x1ff),
        0x02db => Some(0x1b2),
        0x02dd => Some(0x1bd),
        _ => None,
    }
}

fn latin_keysym(unit: u16) -> (r: Option<u32>)
    ensures
        r == latin(unit),
{
    match unit {
        0x0100 => Some(0x3c0),
        0x0101 => Some(0x3e0),
        0x0102 => Some(0x1c3),
        0x0103 => Some(0x1e3),
        0x0104 => Some(0x1a1),
        0x0105 => Some(0x1b1),
        0x0106 => Some(0x1c6),
        0x0107 => Some(0x1e6),
        0x0108 => Some(0x2c6),
        0x0109 => Some(0x2e6),
        0x010a => Some(0x2c5),
        0x010b => Some(0x2e5),
        0x010c => Some(0x1c8),
        0x010d => Some(0x1e8),
        0x010e => Some(0x1cf),
        0x010f => Some(0x1ef),
        0x0110 => Some(0x1d0),
        0x0111 => Some(0x1f0),
        0x0112 => Some(0x3aa),
        0x0113 => Some(0x3ba),
        0x0116 => Some(0x3cc),
        0x0117 => Some(0x3ec),
        0x0118 => Some(0x1ca),
        0x0119 => Some(0x1ea),
        0x011a => Some(0x1cc),
        0x011b => Some(0x1ec),
        0x011c => Some(0x2d8),
        0x011d => Some(0x2f8),
        0x011e => Some(0x2ab),
        0x011f => Some(0x2bb),
        0x0120 => Some(0x2d5),
        0x0121 => Some(0x2f5),
        0x0122 => Some(0x3ab),
        0x0123 => Some(0x3bb),
        0x0124 => Some(0x2a6),
        0x0125 => Some(0x2b6),
        0x0126 => Some(0x2a1),
        0x0127 => Some(0x2b1),
        0x0128 => Some(0x3a5),
        0x0129 => Some(0x3b5),
        0x012a => Some(0x3cf),
        0x012b => Some(0x3ef),
        0x012e => Some(0x3c7),
        0x012f => Some(0x3e7),
        0x0130 => Some(0x2a9),
        0x0131 => Some(0x2b9),
        0x0134 => Some(0x2ac),
        0x0135 => Some(0x2bc),
        0x0136 => Some(0x3d3),
        0x0137 => Some(0x3f3),
        0x0138 => Some(0x3a2),
        0x0139 => Some(0x1c5),
        0x013a => Some(0x1e5),
        0x013b => Some(0x3a6),
        0x013c => Some(0x3b6),
        0x013d => Some(0x1a5),
        0x013e => Some(0x1b5),
        0x0141 => Some(0x1a3),
        0x0142 => Some(0x1b3),
        0x0143 => Some(0x1d1),
        0x0144 => Some(0x1f1),
        0x0145 => Some(0x3d1),
        0x0146 => Some(0x3f1),
        0x0147 => Some(0x1d2),
        0x0148 => Some(0x1f2),
        0x014a => Some(0x3bd),
        0x014b => Some(0x3bf),
        0x014c => Some(0x3d2),
        0x014d => Some(0x3f2),
        0x0150 => Some(0x1d5),
        0x0151 => Some(0x1f5),
        0x0152 => Some(0x13bc),
        0x0153 => Some(0x13bd),
        0x0154 => Some(0x1c0),
        0x0155 => Some(0x1e0),
        0x0156 => Some(0x3a3),
        0x0157 => Some(0x3b3),
        0x0158 => Some(0x1d8),
        0x0159 => Some(0x1f8),
        0x015a => Some(0x1a6),
        0x015b => Some(0x1b6),
        0x015c => Some(0x2de),
        0x015d => Some(0x2fe),
        0x015e => Some(0x1aa),
        0x015f => Some(0x1ba),
        0x0160 => Some(0x1a9),
        0x0161 => Some(0x1b9),
        0x0162 => Some(0x1de),
        0x0163 => Some(0x1fe),
        0x0164 => Some(0x1ab),
        0x0165 => Some(0x1bb),
        0x0166 => Some(0x3ac),
        0x0167 => Some(0x3bc),
        0x0168 => Some(0x3dd),
        0x0169 => Some(0x3fd),
        0x016a => Some(0x3de),
        0x016b => Some(0x3fe),
        0x016c => Some(0x2dd),
        0x016d => Some(0x2fd),
        0x016e => Some(0x1d9),
        0x016f => Some(0x1f9),
        0x0170 => Some(0x1db),
        0x0171 => Some(0x1fb),
        0x0172 => Some(0x3d9),
        0x0173 => Some(0x3f9),
        0x0178 => Some(0x13be),
        0x0179 => Some(0x1ac),
        0x017a => Some(0x1bc),
        0x017b => Some(0x1af),
        0x017c => Some(0x1bf),
        0x017d => Some(0x1ae),
        0x017e => Some(0x1be),
        0x02c7 => Some(0x1b7),
        0x02d8 => Some(0x1a2),
        0x02d9 => Some(0x1ff),
        0x02db => Some(0x1b2),
        0x02dd => Some(0x1bd),
        _ => None,
    }
}

/// Cyrillic letters.
pub open spec fn cyrillic(unit: u16) -> Option<u32> {
    if 0x0404 <= unit <= 0x040c {
        Some((0x6b4 + (unit - 0x0404)) as u32)
    } else if 0x0418 <= unit <= 0x041f {
        Some((0x6e9 + (unit - 0x0418)) as u32)
    } else if 0x0420 <= unit <= 0x0423 {
        Some((0x6f2 + (unit - 0x0420)) as u32)
    } else if 0x0438 <= unit <= 0x043f {
        Some((0x6c9 + (unit - 0x0438)) as u32)
    } else if 0x0440 <= unit <= 0x0443 {
        Some((0x6d2 + (unit - 0x0440)) as u32)
    } else if 0x0454 <= unit <= 0x045c {
        Some((0x6a4 + (unit - 0x0454)) as u32)
    } else {
        match unit {
            0x0401 => Some(0x6b3),
            0x0402 => Some(0x6b1),
            0x0403 => Some(0x6b2),
            0x040e => Some(0x6be),
            0x040f => Some(0x6bf),
            0x0410 => Some(0x6e1),
            0x0411 => Some(0x6e2),
            0x0412 => Some(0x6f7),
            0x0413 => Some(0x6e7),
            0x0414 => Some(0x6e4),
            0x0415 => Some(0x6e5),
            0x0416 => Some(0x6f6),
            0x0417 => Some(0x6fa),
            0x0424 => Some(0x6e6),
            0x0425 => Some(0x6e8),
            0x0426 => Some(0x6e3),
            0x0427 => Some(0x6fe),
            0x0428 => Some(0x6fb),
            0x0429 => Some(0x6fd),
            0x042a => Some(0x6ff),
            0x042b => Some(0x6f9),
            0x042c => Some(0x6f8),
            0x042d => Some(0x6fc),
            0x042e => Some(0x6e0),
            0x042f => Some(0x6f1),
            0x0430 => Some(0x6c1),
            0x0431 => Some(0x6c2),
            0x0432 => Some(0x6d7),
            0x0433 => Some(0x6c7),
            0x0434 => Some(0x6c4),
            0x0435 => Some(0x6c5),
            0x0436 => Some(0x6d6),
            0x0437 => Some(0x6da),
            0x0444 => Some(0x6c6),
            0x0445 => Some(0x6c8),
            0x0446 => Some(0x6c3),
            0x0447 => Some(0x6de),
            0x0448 => Some(0x6db),
            0x0449 => Some(0x6dd),
            0x044a => Some(0x6df),
            0x044b => Some(0x6d9),
            0x044c => Some(0x6d8),
            0x044d => Some(0x6dc),
            0x044e => Some(0x6c0),
            0x044f => Some(0x6d1),
            0x0451 => Some(0x6a3),
            0x0452 => Some(0x6a1),
            0x0453 => Some(0x6a2),
            0x045e => Some(0x6ae),
            0x045f => Some(0x6af),
            0x0490 => Some(0x6bd),
            0x0491 => Some(0x6ad),
            0x2116 => Some(0x6b0),
            _ => None,
        }
    }
}

fn cyrillic_keysym(unit: u16) -> (r: Option<u32>)
    ensures
        r == cyrillic(unit),
{
    if 0x0404 <= unit && unit <= 0x040c {
        Some(0x6b4 + (unit - 0x0404) as u32)
    } else if 0x0418 <= unit && unit <= 0x041f {
        Some(0x6e9 + (unit - 0x0418) as u32)
    } else if 0x0420 <= unit && unit <= 0x0423 {
        Some(0x6f2 + (unit - 0x0420) as u32)
    } else if 0x0438 <= unit && unit <= 0x043f {
        Some(0x6c9 + (unit - 0x0438) as u32)
    } else if 0x0440 <= unit && unit <= 0x0443 {
        Some(0x6d2 + (unit - 0x0440) as u32)
    } else if 0x0454 <= unit && unit <= 0x045c {
        Some(0x6a4 + (unit - 0x0454) as u32)
    } else {
        match unit {
            0x0401 => Some(0x6b3),
            0x0402 => Some(0x6b1),
            0x0403 => Some(0x6b2),
            0x040e => Some(0x6be),
            0x040f => Some(0x6bf),
            0x0410 => Some(0x6e1),
            0x0411 => Some(0x6e2),
            0x0412 => Some(0x6f7),
            0x0413 => Some(0x6e7),
            0x0414 => Some(0x6e4),
            0x0415 => Some(0x6e5),
            0x0416 => Some(0x6f6),
            0x0417 => Some(0x6fa),
            0x0424 => Some(0x6e6),
            0x0425 => Some(0x6e8),
            0x0426 => Some(0x6e3),
            0x0427 => Some(0x6fe),
            0x0428 => Some(0x6fb),
            0x0429 => Some(0x6fd),
            0x042a => Some(0x6ff),
            0x042b => Some(0x6f9),
            0x042c => Some(0x6f8),
            0x042d => Some(0x6fc),
            0x042e => Some(0x6e0),
            0x042f => Some(0x6f1),
            0x0430 => Some(0x6c1),
            0x0431 => Some(0x6c2),
            0x0432 => Some(0x6d7),
            0x0433 => Some(0x6c7),
            0x0434 => Some(0x6c4),
            0x0435 => Some(0x6c5),
            0x0436 => Some(0x6d6),
            0x0437 => Some(0x6da),
            0x0444 => Some(0x6c6),
            0x0445 => Some(0x6c8),
            0x0446 => Some(0x6c3),
            0x0447 => Some(0x6de),
            0x0448 => Some(0x6db),
            0x0449 => Some(0x6dd),
            0x044a => Some(0x6df),
            0x044b => Some(0x6d9),
            0x044c => Some(0x6d8),
            0x044d => Some(0x6dc),
            0x044e => Some(0x6c0),
            0x044f => Some(0x6d1),
            0x0451 => Some(0x6a3),
            0x0452 => Some(0x6a1),
            0x0453 => Some(0x6a2),
            0x045e => Some(0x6ae),
            0x045f => Some(0x6af),
            0x0490 => Some(0x6bd),
            0x0491 => Some(0x6ad),
            0x2116 => Some(0x6b0),
            _ => None,
        }
    }
}

/// Greek letters.
pub open spec fn greek(unit: u16) -> Option<u32> {
    if 0x0391 <= unit <= 0x03a1 {
        Some((0x7c1 + (unit - 0x0391)) as u32)
    } else if 0x03a4 <= unit <= 0x03a9 {
        Some((0x7d4 + (unit - 0x03a4)) as u32)
    } else if 0x03ac <= unit <= 0x03af {
        Some((0x7b1 + (unit - 0x03ac)) as u32)
    } else if 0x03b1 <= unit <= 0x03c1 {
        Some((0x7e1 + (unit - 0x03b1)) as u32)
    } else if 0x03c4 <= unit <= 0x03c9 {
        Some((0x7f4 + (unit - 0x03c4)) as u32)
    } else {
        match unit {
            0x0385 => Some(0x7ae),
            0x0386 => Some(0x7a1),
            0x0388 => Some(0x7a2),
            0x0389 => Some(0x7a3),
            0x038a => Some(0x7a4),
            0x038c => Some(0x7a7),
            0x038e => Some(0x7a8),
            0x038f => Some(0x7ab),
            0x0390 => Some(0x7b6),
            0x03a3 => Some(0x7d2),
            0x03aa => Some(0x7a5),
            0x03ab => Some(0x7a9),
            0x03b0 => Some(0x7ba),
            0x03c2 => Some(0x7f3),
            0x03c3 => Some(0x7f2),
            0x03ca => Some(0x7b5),
            0x03cb => Some(0x7b9),
            0x03cc => Some(0x7b7),
            0x03cd => Some(0x7b8),
            0x03ce => Some(0x7bb),
            0x2015 => Some(0x7af),
            _ => None,
        }
    }
}

fn greek_keysym(unit: u16) -> (r: Option<u32>)
    ensures
        r == greek(unit),
{
    if 0x0391 <= unit && unit <= 0x03a1 {
        Some(0x7c1 + (unit - 0x0391) as u32)
    } else if 0x03a4 <= unit && unit <= 0x03a9 {
        Some(0x7d4 + (unit - 0x03a4) as u32)
    } else if 0x03ac <= unit && unit <= 0x03af {
        Some(0x7b1 + (unit - 0x03ac) as u32)
    } else if 0x03b1 <= unit && unit <= 0x03c1 {
        Some(0x7e1 + (unit - 0x03b1) as u32)
    } else if 0x03c4 <= unit && unit <= 0x03c9 {
        Some(0x7f4 + (unit - 0x03c4) as u32)
    } else {
        match unit {
            0x0385 => Some(0x7ae),
            0x0386 => Some(0x7a1),
            0x0388 => Some(0x7a2),
            0x0389 => Some(0x7a3),
            0x038a => Some(0x7a4),
            0x038c => Some(0x7a7),
            0x038e => Some(0x7a8),
            0x038f => Some(0x7ab),
            0x0390 => Some(0x7b6),
            0x03a3 => Some(0x7d2),
            0x03aa => Some(0x7a5),
            0x03ab => Some(0x7a9),
            0x03b0 => Some(0x7ba),
            0x03c2 => Some(0x7f3),
            0x03c3 => Some(0x7f2),
            0x03ca => Some(0x7b5),
            0x03cb => Some(0x7b9),
            0x03cc => Some(0x7b7),
            0x03cd => Some(0x7b8),
            0x03ce => Some(0x7bb),
            0x2015 => Some(0x7af),
            _ => None,
        }
    }
}

/// Hebrew and Arabic letters.
pub open spec fn semitic(unit: u16) -> Option<u32> {
    if 0x05d0 <= unit <= 0x05ea {
        Some((0xce0 + (unit - 0x05d0)) as u32)
    } else if 0x0621 <= unit <= 0x063a {
        Some((0x5c1 + (unit - 0x0621)) as u32)
    } else if 0x0640 <= unit <= 0x0652 {
        Some((0x5e0 + (unit - 0x0640)) as u32)
    } else {
        match unit {
            0x060c => Some(0x5ac),
            0x061b => Some(0x5bb),
            0x061f => Some(0x5bf),
            0x2017 => Some(0xcdf),
            _ => None,
        }
    }
}

fn semitic_keysym(unit: u16) -> (r: Option<u32>)
    ensures
        r == semitic(unit),
{
    if 0x05d0 <= unit && unit <= 0x05ea {
        Some(0xce0 + (unit - 0x05d0) as u32)
    } else if 0x0621 <= unit && unit <= 0x063a {
        Some(0x5c1 + (unit - 0x0621) as u32)
    } else if 0x0640 <= unit && unit <= 0x0652 {
        Some(0x5e0 + (unit - 0x0640) as u32)
    } else {
        match unit {
            0x060c => Some(0x5ac),
            0x061b => Some(0x5bb),
            0x061f => Some(0x5bf),
            0x2017 => Some(0xcdf),
            _ => None,
        }
    }
}

/// Thai letters, Japanese kana and Korean jamo.
pub open spec fn eastern(unit: u16) -> Option<u32> {
    if 0x0e01 <= unit <= 0x0e3a {
        Some((0xda1 + (unit - 0x0e01)) as u32)
    } else if 0x0e3f <= unit <= 0x0e4d {
        Some((0xddf + (unit - 0x0e3f)) as u32)
    } else if 0x0e50 <= unit <= 0x0e59 {
        Some((0xdf0 + (unit - 0x0e50)) as u32)
    } else if 0x11a8 <= unit <= 0x11c2 {
        Some((0xed4 + (unit - 0x11a8)) as u32)
    } else if 0x30ca <= unit <= 0x30cf {
        Some((0x4c5 + (unit - 0x30ca)) as u32)
    } else if 0x30de <= unit <= 0x30e2 {
        Some((0x4cf + (unit - 0x30de)) as u32)
    } else if 0x30e8 <= unit <= 0x30ed {
        Some((0x4d6 + (unit - 0x30e8)) as u32)
    } else if 0x3131 <= unit <= 0x3163 {
        Some((0xea1 + (unit - 0x3131)) as u32)
    } else {
        match unit {
            0x11eb => Some(0xef8),
            0x11f0 => Some(0xef9),
            0x11f9 => Some(0xefa),
            0x203e => Some(0x47e),
            0x3001 => Some(0x4a4),
            0x3002 => Some(0x4a1),
            0x300c => Some(0x4a2),
            0x300d => Some(0x4a3),
            0x309b => Some(0x4de),
            0x309c => Some(0x4df),
            0x30a1 => Some(0x4a7),
            0x30a2 => Some(0x4b1),
            0x30a3 => Some(0x4a8),
            0x30a4 => Some(0x4b2),
            0x30a5 => Some(0x4a9),
            0x30a6 => Some(0x4b3),
            0x30a7 => Some(0x4aa),
            0x30a8 => Some(0x4b4),
            0x30a9 => Some(0x4ab),
            0x30aa => Some(0x4b5),
            0x30ab => Some(0x4b6),
            0x30ad => Some(0x4b7),
            0x30af => Some(0x4b8),
            0x30b1 => Some(0x4b9),
            0x30b3 => Some(0x4ba),
            0x30b5 => Some(0x4bb),
            0x30b7 => Some(0x4bc),
            0x30b9 => Some(0x4bd),
            0x30bb => Some(0x4be),
            0x30bd => Some(0x4bf),
            0x30bf => Some(0x4c0),
            0x30c1 => Some(0x4c1),
            0x30c3 => Some(0x4af),
            0x30c4 => Some(0x4c2),
            0x30c6 => Some(0x4c3),
            0x30c8 => Some(0x4c4),
            0x30d2 => Some(0x4cb),
            0x30d5 => Some(0x4cc),
            0x30d8 => Some(0x4cd),
            0x30db => Some(0x4ce),
            0x30e3 => Some(0x4ac),
            0x30e4 => Some(0x4d4),
            0x30e5 => Some(0x4ad),
            0x30e6 => Some(0x4d5),
            0x30e7 => Some(0x4ae),
            0x30ef => Some(0x4dc),
            0x30f2 => Some(0x4a6),
            0x30f3 => Some(0x4dd),
            0x30fb => Some(0x4a5),
            0x30fc => Some(0x4b0),
            0x316d => Some(0xeef),
            0x3171 => Some(0xef0),
            0x3178 => Some(0xef1),
            0x317f => Some(0xef2),
            0x3181 => Some(0xef3),
            0x3184 => Some(0xef4),
            0x3186 => Some(0xef5),
            0x318d => Some(0xef6),
            0x318e => Some(0xef7),
            _ => None,
        }
    }
}

fn eastern_keysym(unit: u16) -> (r: Option<u32>)
    ensures
        r == eastern(unit),
{
    if 0x0e01 <= unit && unit <= 0x0e3a {
        Some(0xda1 + (unit - 0x0e01) as u32)
    } else if 0x0e3f <= unit && unit <= 0x0e4d {
        Some(0xddf + (unit - 0x0e3f) as u32)
    } else if 0x0e50 <= unit && unit <= 0x0e59 {
        Some(0xdf0 + (unit - 0x0e50) as u32)
    } else if 0x11a8 <= unit && unit <= 0x11c2 {
        Some(0xed4 + (unit - 0x11a8) as u32)
    } else if 0x30ca <= unit && unit <= 0x30cf {
        Some(0x4c5 + (unit - 0x30ca) as u32)
    } else if 0x30de <= unit && unit <= 0x30e2 {
        Some(0x4cf + (unit - 0x30de) as u32)
    } else if 0x30e8 <= unit && unit <= 0x30ed {
        Some(0x4d6 + (unit - 0x30e8) as u32)
    } else if 0x3131 <= unit && unit <= 0x3163 {
        Some(0xea1 + (unit - 0x3131) as u32)
    } else {
        match unit {
            0x11eb => Some(0xef8),
            0x11f0 => Some(0xef9),
            0x11f9 => Some(0xefa),
            0x203e => Some(0x47e),
            0x3001 => Some(0x4a4),
            0x3002 => Some(0x4a1),
            0x300c => Some(0x4a2),
            0x300d => Some(0x4a3),
            0x309b => Some(0x4de),
            0x309c => Some(0x4df),
            0x30a1 => Some(0x4a7),
            0x30a2 => Some(0x4b1),
            0x30a3 => Some(0x4a8),
            0x30a4 => Some(0x4b2),
            0x30a5 => Some(0x4a9),
            0x30a6 => Some(0x4b3),
            0x30a7 => Some(0x4aa),
            0x30a8 => Some(0x4b4),
            0x30a9 => Some(0x4ab),
            0x30aa => Some(0x4b5),
            0x30ab => Some(0x4b6),
            0x30ad => Some(0x4b7),
            0x30af => Some(0x4b8),
            0x30b1 => Some(0x4b9),
            0x30b3 => Some(0x4ba),
            0x30b5 => Some(0x4bb),
            0x30b7 => Some(0x4bc),
            0x30b9 => Some(0x4bd),
            0x30bb => Some(0x4be),
            0x30bd => Some(0x4bf),
            0x30bf => Some(0x4c0),
            0x30c1 => Some(0x4c1),
            0x30c3 => Some(0x4af),
            0x30c4 => Some(0x4c2),
            0x30c6 => Some(0x4c3),
            0x30c8 => Some(0x4c4),
            0x30d2 => Some(0x4cb),
            0x30d5 => Some(0x4cc),
            0x30d8 => Some(0x4cd),
            0x30db => Some(0x4ce),
            0x30e3 => Some(0x4ac),
            0x30e4 => Some(0x4d4),
            0x30e5 => Some(0x4ad),
            0x30e6 => Some(0x4d5),
            0x30e7 => Some(0x4ae),
            0x30ef => Some(0x4dc),
            0x30f2 => Some(0x4a6),
            0x30f3 => Some(0x4dd),
            0x30fb => Some(0x4a5),
            0x30fc => Some(0x4b0),
            0x316d => Some(0xeef),
            0x3171 => Some(0xef0),
            0x3178 => Some(0xef1),
            0x317f => Some(0xef2),
            0x3181 => Some(0xef3),
            0x3184 => Some(0xef4),
            0x3186 => Some(0xef5),
            0x318d => Some(0xef6),
            0x318e => Some(0xef7),
            _ => None,
        }
    }
}

/// Signs of currency, typography and mathematics.
pub open spec fn symbol(unit: u16) -> Option<u32> {
    if 0x2007 <= unit <= 0x200a {
        Some((0xaa5 + (unit - 0x2007)) as u32)
    } else if 0x20a0 <= unit <= 0x20ac {
        Some((0x20a0 + (unit - 0x20a0)) as u32)
    } else if 0x2153 <= unit <= 0x215a {
        Some((0xab0 + (unit - 0x2153)) as u32)
    } else if 0x215b <= unit <= 0x215e {
        Some((0xac3 + (unit - 0x215b)) as u32)
    } else if 0x2190 <= unit <= 0x2193 {
        Some((0x8fb + (unit - 0x2190)) as u32)
    } else {
        match unit {
            0x0192 => Some(0x8f6),
            0x2002 => Some(0xaa2),
            0x2003 => Some(0xaa1),
            0x2004 => Some(0xaa3),
            0x2005 => Some(0xaa4),
            0x2012 => Some(0xabb),
            0x2013 => Some(0xaaa),
            0x2014 => Some(0xaa9),
            0x2018 => Some(0xad0),
            0x2019 => Some(0xad1),
            0x201a => Some(0xafd),
            0x201c => Some(0xad2),
            0x201d => Some(0xad3),
            0x201e => Some(0xafe),
            0x2020 => Some(0xaf1),
            0x2021 => Some(0xaf2),
            0x2025 => Some(0xaaf),
            0x2026 => Some(0xaae),
            0x2032 => Some(0xad6),
            0x2033 => Some(0xad7),
            0x2038 => Some(0xafc),
            0x2105 => Some(0xab8),
            0x2117 => Some(0xafb),
            0x211e => Some(0xad4),
            0x2122 => Some(0xac9),
            0x21d2 => Some(0x8ce),
            0x21d4 => Some(0x8cd),
            0x2202 => Some(0x8ef),
            0x2207 => Some(0x8c5),
            0x2218 => Some(0xbca),
            0x221a => Some(0x8d6),
            0x221d => Some(0x8c1),
            0x221e => Some(0x8c2),
            0x2227 => Some(0x8de),
            0x2228 => Some(0x8df),
            0x2229 => Some(0x8dc),
            0x222a => Some(0x8dd),
            0x222b => Some(0x8bf),
            0x2234 => Some(0x8c0),
            0x223c => Some(0x8c8),
            0x2243 => Some(0x8c9),
            0x2260 => Some(0x8bd),
            0x2261 => Some(0x8cf),
            0x2264 => Some(0x8bc),
            0x2265 => Some(0x8be),
            0x2282 => Some(0x8da),
            0x2283 => Some(0x8db),
            0x2308 => Some(0xbd3),
            0x230a => Some(0xbc4),
            0x2315 => Some(0xafa),
            0x2320 => Some(0x8a4),
            0x2321 => Some(0x8a5),
            0x2395 => Some(0xbcc),
            0x239b => Some(0x8ab),
            0x239d => Some(0x8ac),
            0x239e => Some(0x8ad),
            0x23a0 => Some(0x8ae),
            0x23a1 => Some(0x8a7),
            0x23a3 => Some(0x8a8),
            0x23a4 => Some(0x8a9),
            0x23a6 => Some(0x8aa),
            0x23a8 => Some(0x8af),
            0x23ac => Some(0x8b0),
            0x23b7 => Some(0x8a1),
            0x23ba => Some(0x9ef),
            0x23bb => Some(0x9f0),
            0x23bc => Some(0x9f2),
            0x23bd => Some(0x9f3),
            0x2409 => Some(0x9e2),
            0x240a => Some(0x9e5),
            0x240b => Some(0x9e9),
            0x240c => Some(0x9e3),
            0x240d => Some(0x9e4),
            0x2423 => Some(0xaac),
            0x2424 => Some(0x9e8),
            0x2500 => Some(0x9f1),
            0x2502 => Some(0x9f8),
            0x250c => Some(0x9ec),
            0x2510 => Some(0x9eb),
            0x2514 => Some(0x9ed),
            0x2518 => Some(0x9ea),
            0x251c => Some(0x9f4),
            0x2524 => Some(0x9f5),
            0x252c => Some(0x9f7),
            0x2534 => Some(0x9f6),
            0x253c => Some(0x9ee),
            0x2592 => Some(0x9e1),
            0x25c6 => Some(0x9e0),
            0x25cb => Some(0xbcf),
            0x260e => Some(0xaf9),
            0x2640 => Some(0xaf8),
            0x2642 => Some(0xaf7),
            0x2663 => Some(0xaec),
            0x2665 => Some(0xaee),
            0x2666 => Some(0xaed),
            0x266d => Some(0xaf6),
            0x266f => Some(0xaf5),
            0x2713 => Some(0xaf3),
            0x2717 => Some(0xaf4),
            0x271d => Some(0xad9),
            0x2720 => Some(0xaf0),
            _ => None,
        }
    }
}

fn symbol_keysym(unit: u16) -> (r: Option<u32>)
    ensures
        r == symbol(unit),
{
    if 0x2007 <= unit && unit <= 0x200a {
        Some(0xaa5 + (unit - 0x2007) as u32)
    } else if 0x20a0 <= unit && unit <= 0x20ac {
        Some(0x20a0 + (unit - 0x20a0) as u32)
    } else if 0x2153 <= unit && unit <= 0x215a {
        Some(0xab0 + (unit - 0x2153) as u32)
    } else if 0x215b <= unit && unit <= 0x215e {
        Some(0xac3 + (unit - 0x215b) as u32)
    } else if 0x2190 <= unit && unit <= 0x2193 {
        Some(0x8fb + (unit - 0x2190) as u32)
    } else {
        match unit {
            0x0192 => Some(0x8f6),
            0x2002 => Some(0xaa2),
            0x2003 => Some(0xaa1),
            0x2004 => Some(0xaa3),
            0x2005 => Some(0xaa4),
            0x2012 => Some(0xabb),
            0x2013 => Some(0xaaa),
            0x2014 => Some(0xaa9),
            0x2018 => Some(0xad0),
            0x2019 => Some(0xad1),
            0x201a => Some(0xafd),
            0x201c => Some(0xad2),
            0x201d => Some(0xad3),
            0x201e => Some(0xafe),
            0x2020 => Some(0xaf1),
            0x2021 => Some(0xaf2),
            0x2025 => Some(0xaaf),
            0x2026 => Some(0xaae),
            0x2032 => Some(0xad6),
            0x2033 => Some(0xad7),
            0x2038 => Some(0xafc),
            0x2105 => Some(0xab8),
            0x2117 => Some(0xafb),
            0x211e => Some(0xad4),
            0x2122 => Some(0xac9),
            0x21d2 => Some(0x8ce),
            0x21d4 => Some(0x8cd),
            0x2202 => Some(0x8ef),
            0x2207 => Some(0x8c5),
            0x2218 => Some(0xbca),
            0x221a => Some(0x8d6),
            0x221d => Some(0x8c1),
            0x221e => Some(0x8c2),
            0x2227 => Some(0x8de),
            0x2228 => Some(0x8df),
            0x2229 => Some(0x8dc),
            0x222a => Some(0x8dd),
            0x222b => Some(0x8bf),
            0x2234 => Some(0x8c0),
            0x223c => Some(0x8c8),
            0x2243 => Some(0x8c9),
            0x2260 => Some(0x8bd),
            0x2261 => Some(0x8cf),
            0x2264 => Some(0x8bc),
            0x2265 => Some(0x8be),
            0x2282 => Some(0x8da),
            0x2283 => Some(0x8db),
            0x2308 => Some(0xbd3),
            0x230a => Some(0xbc4),
            0x2315 => Some(0xafa),
            0x2320 => Some(0x8a4),
            0x2321 => Some(0x8a5),
            0x2395 => Some(0xbcc),
            0x239b => Some(0x8ab),
            0x239d => Some(0x8ac),
            0x239e => Some(0x8ad),
            0x23a0 => Some(0x8ae),
            0x23a1 => Some(0x8a7),
            0x23a3 => Some(0x8a8),
            0x23a4 => Some(0x8a9),
            0x23a6 => Some(0x8aa),
            0x23a8 => Some(0x8af),
            0x23ac => Some(0x8b0),
            0x23b7 => Some(0x8a1),
            0x23ba => Some(0x9ef),
            0x23bb => Some(0x9f0),
            0x23bc => Some(0x9f2),
            0x23bd => Some(0x9f3),
            0x2409 => Some(0x9e2),
            0x240a => Some(0x9e5),
            0x240b => Some(0x9e9),
            0x240c => Some(0x9e3),
            0x240d => Some(0x9e4),
            0x2423 => Some(0xaac),
            0x2424 => Some(0x9e8),
            0x2500 => Some(0x9f1),
            0x2502 => Some(0x9f8),
            0x250c => Some(0x9ec),
            0x2510 => Some(0x9eb),
            0x2514 => Some(0x9ed),
            0x2518 => Some(0x9ea),
            0x251c => Some(0x9f4),
            0x2524 => Some(0x9f5),
            0x252c => Some(0x9f7),
            0x2534 => Some(0x9f6),
            0x253c => Some(0x9ee),
            0x2592 => Some(0x9e1),
            0x25c6 => Some(0x9e0),
            0x25cb => Some(0xbcf),
            0x260e => Some(0xaf9),
            0x2640 => Some(0xaf8),
            0x2642 => Some(0xaf7),
            0x2663 => Some(0xaec),
            0x2665 => Some(0xaee),
            0x2666 => Some(0xaed),
            0x266d => Some(0xaf6),
            0x266f => Some(0xaf5),
            0x2713 => Some(0xaf3),
            0x2717 => Some(0xaf4),
            0x271d => Some(0xad9),
            0x2720 => Some(0xaf0),
            _ => None,
        }
    }
}

/// The keysym that a character has from before keysyms were made of numbers.
pub open spec fn older(unit: u16) -> Option<u32> {
    if latin(unit) is Some {
        latin(unit)
    } else if cyrillic(unit) is Some {
        cyrillic(unit)
    } else if greek(unit) is Some {
        greek(unit)
    } else if semitic(unit) is Some {
        semitic(unit)
    } else if eastern(unit) is Some {
        eastern(unit)
    } else {
        symbol(unit)
    }
}

fn older_keysym(unit: u16) -> (r: Option<u32>)
    ensures
        r == older(unit),
{
    if let Some(ks) = latin_keysym(unit) {
        return Some(ks);
    }
    if let Some(ks) = cyrillic_keysym(unit) {
        return Some(ks);
    }
    if let Some(ks) = greek_keysym(unit) {
        return Some(ks);
    }
    if let Some(ks) = semitic_keysym(unit) {
        return Some(ks);
    }
    if let Some(ks) = eastern_keysym(unit) {
        return Some(ks);
    }
    symbol_keysym(unit)
}

/// Keysym of the won sign among the Korean letters; it has another one among the signs of
/// currency.
pub const KOREAN_WON: u32 = 0xeff;

/// The keysym by which a character is bound to a key. Latin-1 is as it is, a few control
/// characters have keys of their own, and the rest is offset. What is no character, as half
/// a surrogate pair, has none.
pub open spec fn own(c: u32) -> Option<u32> {
    if 0x20 <= c < 0x7f || 0xa0 <= c < 0x100 {
        Some(c)
    } else if c == 0x08 || c == 0x09 || c == 0x0d || c == 0x1b {
        Some((0xff00 + c) as u32)
    } else if c < 0xa0 || 0xd800 <= c < 0xe000 || c > 0x10_ffff {
        None
    } else {
        Some((0x0100_0000 + c) as u32)
    }
}

/// The keysyms of a character, by its number: the one by which it is bound to a key first;
/// none where it is not a character.
pub open spec fn character_keysyms(c: u32) -> Seq<u32> {
    match own(c) {
        None => Seq::empty(),
        Some(ks) => seq![ks] + (match (if c <= 0xffff {
            older(c as u16)
        } else {
            None
        }) {
            Some(old) => seq![old],
            None => Seq::empty(),
        }) + (if c == 0x20a9 {
            seq![KOREAN_WON]
        } else {
            Seq::empty()
        }),
    }
}

fn own_keysym(c: u32) -> (r: Option<u32>)
    ensures
        r == own(c),
{
    if (0x20 <= c && c < 0x7f) || (0xa0 <= c && c < 0x100) {
        Some(c)
    } else if c == 0x08 || c == 0x09 || c == 0x0d || c == 0x1b {
        Some(0xff00 + c)
    } else if c < 0xa0 || (0xd800 <= c && c < 0xe000) || c > 0x10_ffff {
        None
    } else {
        Some(0x0100_0000 + c)
    }
}

/// Finds the keysyms of a character.
pub fn keysyms_of(c: u32) -> (r: Vec<u32>)
    ensures
        r@ == character_keysyms(c),
{
    let mut v: Vec<u32> = Vec::new();
    if let Some(ks) = own_keysym(c) {
        v.push(ks);
        if c <= 0xffff {
            if let Some(old) = older_keysym(c as u16) {
                v.push(old);
            }
        }
        if c == 0x20a9 {
            v.push(KOREAN_WON);
        }
    }
    proof {
        assert(v@ =~= character_keysyms(c));
    }
    v
}

// ------------------------------------------------------------ UTF-16

/// Whether a unit is the first half of a character.
pub open spec fn is_first(unit: u16) -> bool {
    0xd800 <= unit < 0xdc00
}

/// Whether a unit is the second half of a character.
pub open spec fn is_second(unit: u16) -> bool {
    0xdc00 <= unit < 0xe000
}

/// The character that two halves make.
pub open spec fn joined(first: u16, second: u16) -> u32 {
    (0x1_0000 + (first - 0xd800) * 0x400 + (second - 0xdc00)) as u32
}

/// What a unit comes to behind the half that waits, if one does: the half that waits from
/// then on, and the character that is there. A second half that nothing waits for is taken
/// for itself, and is no character; a first half that something else follows is dropped.
pub open spec fn assembled(waiting: Option<u16>, unit: u16) -> (Option<u16>, Option<u32>) {
    if is_first(unit) {
        (Some(unit), None)
    } else {
        match waiting {
            Some(first) if is_second(unit) => (None, Some(joined(first, unit))),
            _ => (None, Some(unit as u32)),
        }
    }
}

/// Puts the units of characters together.
pub fn assemble(waiting: Option<u16>, unit: u16) -> (r: (Option<u16>, Option<u32>))
    requires
        waiting matches Some(first) ==> is_first(first),
    ensures
        r == assembled(waiting, unit),
        r.0 matches Some(first) ==> is_first(first),
{
    if 0xd800 <= unit && unit < 0xdc00 {
        return (Some(unit), None);
    }
    if let Some(first) = waiting {
        if 0xdc00 <= unit && unit < 0xe000 {
            let high: u32 = (first - 0xd800) as u32;
            let low: u32 = (unit - 0xdc00) as u32;
            return (None, Some(0x1_0000 + high * 0x400 + low));
        }
    }
    (None, Some(unit as u32))
}

/// The units of a character.
pub open spec fn units(c: u32) -> Seq<u16> {
    if c <= 0xffff {
        seq![c as u16]
    } else {
        seq![
            (0xd800 + (c - 0x1_0000) / 0x400) as u16,
            (0xdc00 + (c - 0x1_0000) % 0x400) as u16,
        ]
    }
}

/// Every character comes out of its units, whatever came before them: one of two units
/// with the second of them and not before.
pub proof fn law_characters_come_out_of_their_units(waiting: Option<u16>, c: u32)
    requires
        c <= 0x10_ffff,
        !(0xd800 <= c < 0xe000),
        waiting matches Some(first) ==> is_first(first),
    ensures
        units(c).len() == 1 ==> assembled(waiting, units(c)[0]) == (None::<u16>, Some(c)),
        units(c).len() == 2 ==> {
            let half = assembled(waiting, units(c)[0]);
            half.1 is None && assembled(half.0, units(c)[1]) == (None::<u16>, Some(c))
        },
{
    if c > 0xffff {
        let d = c - 0x1_0000;
        assert(0 <= d / 0x400 < 0x400);
        assert(d == d / 0x400 * 0x400 + d % 0x400);
        assert(is_first(units(c)[0]));
        assert(is_second(units(c)[1]));
        assert(joined(units(c)[0], units(c)[1]) == c);
    }
}

// ------------------------------------------------------------ pages of keysyms

/// The characters of the keysyms for Latin-2.
pub open spec fn page_latin_2(ks: u32) -> Option<u16> {
    match ks {
        0x1a1 => Some(0x0104),
        0x1a2 => Some(0x02d8),
        0x1a3 => Some(0x0141),
        0x1a5 => Some(0x013d),
        0x1a6 => Some(0x015a),
        0x1a9 => Some(0x0160),
        0x1aa => Some(0x015e),
        0x1ab => Some(0x0164),
        0x1ac => Some(0x0179),
        0x1ae => Some(0x017d),
        0x1af => Some(0x017b),
        0x1b1 => Some(0x0105),
        0x1b2 => Some(0x02db),
        0x1b3 => Some(0x0142),
        0x1b5 => Some(0x013e),
        0x1b6 => Some(0x015b),
        0x1b7 => Some(0x02c7),
        0x1b9 => Some(0x0161),
        0x1ba => Some(0x015f),
        0x1bb => Some(0x0165),
        0x1bc => Some(0x017a),
        0x1bd => Some(0x02dd),
        0x1be => Some(0x017e),
        0x1bf => Some(0x017c),
        0x1c0 => Some(0x0154),
        0x1c3 => Some(0x0102),
        0x1c5 => Some(0x0139),
        0x1c6 => Some(0x0106),
        0x1c8 => Some(0x010c),
        0x1ca => Some(0x0118),
        0x1cc => Some(0x011a),
        0x1cf => Some(0x010e),
        0x1d0 => Some(0x0110),
        0x1d1 => Some(0x0143),
        0x1d2 => Some(0x0147),
        0x1d5 => Some(0x0150),
        0x1d8 => Some(0x0158),
        0x1d9 => Some(0x016e),
        0x1db => Some(0x0170),
        0x1de => Some(0x0162),
        0x1e0 => Some(0x0155),
        0x1e3 => Some(0x0103),
        0x1e5 => Some(0x013a),
        0x1e6 => Some(0x0107),
        0x1e8 => Some(0x010d),
        0x1ea => Some(0x0119),
        0x1ec => Some(0x011b),
        0x1ef => Some(0x010f),
        0x1f0 => Some(0x0111),
        0x1f1 => Some(0x0144),
        0x1f2 => Some(0x0148),
        0x1f5 => Some(0x0151),
        0x1f8 => Some(0x0159),
        0x1f9 => Some(0x016f),
        0x1fb => Some(0x0171),
        0x1fe => Some(0x0163),
        0x1ff => Some(0x02d9),
        _ => None,
    }
}

/// The characters of the keysyms for Latin-3.
pub open spec fn page_latin_3(ks: u32) -> Option<u16> {
    match ks {
        0x2a1 => Some(0x0126),
        0x2a6 => Some(0x0124),
        0x2a9 => Some(0x0130),
        0x2ab => Some(0x011e),
        0x2ac => Some(0x0134),
        0x2b1 => Some(0x0127),
        0x2b6 => Some(0x0125),
        0x2b9 => Some(0x0131),
        0x2bb => Some(0x011f),
        0x2bc => Some(0x0135),
        0x2c5 => Some(0x010a),
        0x2c6 => Some(0x0108),
        0x2d5 => Some(0x0120),
        0x2d8 => Some(0x011c),
        0x2dd => Some(0x016c),
        0x2de => Some(0x015c),
        0x2e5 => Some(0x010b),
        0x2e6 => Some(0x0109),
        0x2f5 => Some(0x0121),
        0x2f8 => Some(0x011d),
        0x2fd => Some(0x016d),
        0x2fe => Some(0x015d),
        _ => None,
    }
}

/// The characters of the keysyms for Latin-4.
pub open spec fn page_latin_4(ks: u32) -> Option<u16> {
    match ks {
        0x3a2 => Some(0x0138),
        0x3a3 => Some(0x0156),
        0x3a5 => Some(0x0128),
        0x3a6 => Some(0x013b),
        0x3aa => Some(0x0112),
        0x3ab => Some(0x0122),
        0x3ac => Some(0x0166),
        0x3b3 => Some(0x0157),
        0x3b5 => Some(0x0129),
        0x3b6 => Some(0x013c),
        0x3ba => Some(0x0113),
        0x3bb => Some(0x0123),
        0x3bc => Some(0x0167),
        0x3bd => Some(0x014a),
        0x3bf => Some(0x014b),
        0x3c0 => Some(0x0100),
        0x3c7 => Some(0x012e),
        0x3cc => Some(0x0116),
        0x3cf => Some(0x012a),
        0x3d1 => Some(0x0145),
        0x3d2 => Some(0x014c),
        0x3d3 => Some(0x0136),
        0x3d9 => Some(0x0172),
        0x3dd => Some(0x0168),
        0x3de => Some(0x016a),
        0x3e0 => Some(0x0101),
        0x3e7 => Some(0x012f),
        0x3ec => Some(0x0117),
        0x3ef => Some(0x012b),
        0x3f1 => Some(0x0146),
        0x3f2 => Some(0x014d),
        0x3f3 => Some(0x0137),
        0x3f9 => Some(0x0173),
        0x3fd => Some(0x0169),
        0x3fe => Some(0x016b),
        _ => None,
    }
}

/// The characters of the keysyms for kana.
pub open spec fn page_kana(ks: u32) -> Option<u16> {
    if 0x4c5 <= ks <= 0x4ca {
        Some((0x30ca + (ks - 0x4c5)) as u16)
    } else if 0x4cf <= ks <= 0x4d3 {
        Some((0x30de + (ks - 0x4cf)) as u16)
    } else if 0x4d6 <= ks <= 0x4db {
        Some((0x30e8 + (ks - 0x4d6)) as u16)
    } else {
        match ks {
            0x47e => Some(0x203e),
            0x4a1 => Some(0x3002),
            0x4a2 => Some(0x300c),
            0x4a3 => Some(0x300d),
            0x4a4 => Some(0x3001),
            0x4a5 => Some(0x30fb),
            0x4a6 => Some(0x30f2),
            0x4a7 => Some(0x30a1),
            0x4a8 => Some(0x30a3),
            0x4a9 => Some(0x30a5),
            0x4aa => Some(0x30a7),
            0x4ab => Some(0x30a9),
            0x4ac => Some(0x30e3),
            0x4ad => Some(0x30e5),
            0x4ae => Some(0x30e7),
            0x4af => Some(0x30c3),
            0x4b0 => Some(0x30fc),
            0x4b1 => Some(0x30a2),
            0x4b2 => Some(0x30a4),
            0x4b3 => Some(0x30a6),
            0x4b4 => Some(0x30a8),
            0x4b5 => Some(0x30aa),
            0x4b6 => Some(0x30ab),
            0x4b7 => Some(0x30ad),
            0x4b8 => Some(0x30af),
            0x4b9 => Some(0x30b1),
            0x4ba => Some(0x30b3),
            0x4bb => Some(0x30b5),
            0x4bc => Some(0x30b7),
            0x4bd => Some(0x30b9),
            0x4be => Some(0x30bb),
            0x4bf => Some(0x30bd),
            0x4c0 => Some(0x30bf),
            0x4c1 => Some(0x30c1),
            0x4c2 => Some(0x30c4),
            0x4c3 => Some(0x30c6),
            0x4c4 => Some(0x30c8),
            0x4cb => Some(0x30d2),
            0x4cc => Some(0x30d5),
            0x4cd => Some(0x30d8),
            0x4ce => Some(0x30db),
            0x4d4 => Some(0x30e4),
            0x4d5 => Some(0x30e6),
            0x4dc => Some(0x30ef),
            0x4dd => Some(0x30f3),
            0x4de => Some(0x309b),
            0x4df => Some(0x309c),
            _ => None,
        }
    }
}

/// The characters of the keysyms for Arabic.
pub open spec fn page_arabic(ks: u32) -> Option<u16> {
    if 0x5c1 <= ks <= 0x5da {
        Some((0x0621 + (ks - 0x5c1)) as u16)
    } else if 0x5e0 <= ks <= 0x5f2 {
        Some((0x0640 + (ks - 0x5e0)) as u16)
    } else {
        match ks {
            0x5ac => Some(0x060c),
            0x5bb => Some(0x061b),
            0x5bf => Some(0x061f),
            _ => None,
        }
    }
}

/// The characters of the keysyms for Cyrillic.
pub open spec fn page_cyrillic(ks: u32) -> Option<u16> {
    if 0x6a4 <= ks <= 0x6ac {
        Some((0x0454 + (ks - 0x6a4)) as u16)
    } else if 0x6b4 <= ks <= 0x6bc {
        Some((0x0404 + (ks - 0x6b4)) as u16)
    } else if 0x6c9 <= ks <= 0x6d0 {
        Some((0x0438 + (ks - 0x6c9)) as u16)
    } else if 0x6d2 <= ks <= 0x6d5 {
        Some((0x0440 + (ks - 0x6d2)) as u16)
    } else if 0x6e9 <= ks <= 0x6f0 {
        Some((0x0418 + (ks - 0x6e9)) as u16)
    } else if 0x6f2 <= ks <= 0x6f5 {
        Some((0x0420 + (ks - 0x6f2)) as u16)
    } else {
        match ks {
            0x6a1 => Some(0x0452),
            0x6a2 => Some(0x0453),
            0x6a3 => Some(0x0451),
            0x6ad => Some(0x0491),
            0x6ae => Some(0x045e),
            0x6af => Some(0x045f),
            0x6b0 => Some(0x2116),
            0x6b1 => Some(0x0402),
            0x6b2 => Some(0x0403),
            0x6b3 => Some(0x0401),
            0x6bd => Some(0x0490),
            0x6be => Some(0x040e),
            0x6bf => Some(0x040f),
            0x6c0 => Some(0x044e),
            0x6c1 => Some(0x0430),
            0x6c2 => Some(0x0431),
            0x6c3 => Some(0x0446),
            0x6c4 => Some(0x0434),
            0x6c5 => Some(0x0435),
            0x6c6 => Some(0x0444),
            0x6c7 => Some(0x0433),
            0x6c8 => Some(0x0445),
            0x6d1 => Some(0x044f),
            0x6d6 => Some(0x0436),
            0x6d7 => Some(0x0432),
            0x6d8 => Some(0x044c),
            0x6d9 => Some(0x044b),
            0x6da => Some(0x0437),
            0x6db => Some(0x0448),
            0x6dc => Some(0x044d),
            0x6dd => Some(0x0449),
            0x6de => Some(0x0447),
            0x6df => Some(0x044a),
            0x6e0 => Some(0x042e),
            0x6e1 => Some(0x0410),
            0x6e2 => Some(0x0411),
            0x6e3 => Some(0x0426),
            0x6e4 => Some(0x0414),
            0x6e5 => Some(0x0415),
            0x6e6 => Some(0x0424),
            0x6e7 => Some(0x0413),
            0x6e8 => Some(0x0425),
            0x6f1 => Some(0x042f),
            0x6f6 => Some(0x0416),
            0x6f7 => Some(0x0412),
            0x6f8 => Some(0x042c),
            0x6f9 => Some(0x042b),
            0x6fa => Some(0x0417),
            0x6fb => Some(0x0428),
            0x6fc => Some(0x042d),
            0x6fd => Some(0x0429),
            0x6fe => Some(0x0427),
            0x6ff => Some(0x042a),
            _ => None,
        }
    }
}

/// The characters of the keysyms for Greek.
pub open spec fn page_greek(ks: u32) -> Option<u16> {
    if 0x7b1 <= ks <= 0x7b4 {
        Some((0x03ac + (ks - 0x7b1)) as u16)
    } else if 0x7c1 <= ks <= 0x7d1 {
        Some((0x0391 + (ks - 0x7c1)) as u16)
    } else if 0x7d4 <= ks <= 0x7d9 {
        Some((0x03a4 + (ks - 0x7d4)) as u16)
    } else if 0x7e1 <= ks <= 0x7f1 {
        Some((0x03b1 + (ks - 0x7e1)) as u16)
    } else if 0x7f4 <= ks <= 0x7f9 {
        Some((0x03c4 + (ks - 0x7f4)) as u16)
    } else {
        match ks {
            0x7a1 => Some(0x0386),
            0x7a2 => Some(0x0388),
            0x7a3 => Some(0x0389),
            0x7a4 => Some(0x038a),
            0x7a5 => Some(0x03aa),
            0x7a7 => Some(0x038c),
            0x7a8 => Some(0x038e),
            0x7a9 => Some(0x03ab),
            0x7ab => Some(0x038f),
            0x7ae => Some(0x0385),
            0x7af => Some(0x2015),
            0x7b5 => Some(0x03ca),
            0x7b6 => Some(0x0390),
            0x7b7 => Some(0x03cc),
            0x7b8 => Some(0x03cd),
            0x7b9 => Some(0x03cb),
            0x7ba => Some(0x03b0),
            0x7bb => Some(0x03ce),
            0x7d2 => Some(0x03a3),
            0x7f2 => Some(0x03c3),
            0x7f3 => Some(0x03c2),
            _ => None,
        }
    }
}

/// The characters of the keysyms for technical signs.
pub open spec fn page_technical(ks: u32) -> Option<u16> {
    if 0x8fb <= ks <= 0x8fe {
        Some((0x2190 + (ks - 0x8fb)) as u16)
    } else {
        match ks {
            0x8a1 => Some(0x23b7),
            0x8a4 => Some(0x2320),
            0x8a5 => Some(0x2321),
            0x8a7 => Some(0x23a1),
            0x8a8 => Some(0x23a3),
            0x8a9 => Some(0x23a4),
            0x8aa => Some(0x23a6),
            0x8ab => Some(0x239b),
            0x8ac => Some(0x239d),
            0x8ad => Some(0x239e),
            0x8ae => Some(0x23a0),
            0x8af => Some(0x23a8),
            0x8b0 => Some(0x23ac),
            0x8bc => Some(0x2264),
            0x8bd => Some(0x2260),
            0x8be => Some(0x2265),
            0x8bf => Some(0x222b),
            0x8c0 => Some(0x2234),
            0x8c1 => Some(0x221d),
            0x8c2 => Some(0x221e),
            0x8c5 => Some(0x2207),
            0x8c8 => Some(0x223c),
            0x8c9 => Some(0x2243),
            0x8cd => Some(0x21d4),
            0x8ce => Some(0x21d2),
            0x8cf => Some(0x2261),
            0x8d6 => Some(0x221a),
            0x8da => Some(0x2282),
            0x8db => Some(0x2283),
            0x8dc => Some(0x2229),
            0x8dd => Some(0x222a),
            0x8de => Some(0x2227),
            0x8df => Some(0x2228),
            0x8ef => Some(0x2202),
            0x8f6 => Some(0x0192),
            _ => None,
        }
    }
}

/// The characters of the keysyms for line drawing.
pub open spec fn page_drawing(ks: u32) -> Option<u16> {
    match ks {
        0x9e0 => Some(0x25c6),
        0x9e1 => Some(0x2592),
        0x9e2 => Some(0x2409),
        0x9e3 => Some(0x240c),
        0x9e4 => Some(0x240d),
        0x9e5 => Some(0x240a),
        0x9e8 => Some(0x2424),
        0x9e9 => Some(0x240b),
        0x9ea => Some(0x2518),
        0x9eb => Some(0x2510),
        0x9ec => Some(0x250c),
        0x9ed => Some(0x2514),
        0x9ee => Some(0x253c),
        0x9ef => Some(0x23ba),
        0x9f0 => Some(0x23bb),
        0x9f1 => Some(0x2500),
        0x9f2 => Some(0x23bc),
        0x9f3 => Some(0x23bd),
        0x9f4 => Some(0x251c),
        0x9f5 => Some(0x2524),
        0x9f6 => Some(0x2534),
        0x9f7 => Some(0x252c),
        0x9f8 => Some(0x2502),
        _ => None,
    }
}

/// The characters of the keysyms for publishing.
pub open spec fn page_publishing(ks: u32) -> Option<u16> {
    if 0xaa5 <= ks <= 0xaa8 {
        Some((0x2007 + (ks - 0xaa5)) as u16)
    } else if 0xab0 <= ks <= 0xab7 {
        Some((0x2153 + (ks - 0xab0)) as u16)
    } else if 0xac3 <= ks <= 0xac6 {
        Some((0x215b + (ks - 0xac3)) as u16)
    } else {
        match ks {
            0xaa1 => Some(0x2003),
            0xaa2 => Some(0x2002),
            0xaa3 => Some(0x2004),
            0xaa4 => Some(0x2005),
            0xaa9 => Some(0x2014),
            0xaaa => Some(0x2013),
            0xaac => Some(0x2423),
            0xaae => Some(0x2026),
            0xaaf => Some(0x2025),
            0xab8 => Some(0x2105),
            0xabb => Some(0x2012),
            0xac9 => Some(0x2122),
            0xad0 => Some(0x2018),
            0xad1 => Some(0x2019),
            0xad2 => Some(0x201c),
            0xad3 => Some(0x201d),
            0xad4 => Some(0x211e),
            0xad6 => Some(0x2032),
            0xad7 => Some(0x2033),
            0xad9 => Some(0x271d),
            0xaec => Some(0x2663),
            0xaed => Some(0x2666),
            0xaee => Some(0x2665),
            0xaf0 => Some(0x2720),
            0xaf1 => Some(0x2020),
            0xaf2 => Some(0x2021),
            0xaf3 => Some(0x2713),
            0xaf4 => Some(0x2717),
            0xaf5 => Some(0x266f),
            0xaf6 => Some(0x266d),
            0xaf7 => Some(0x2642),
            0xaf8 => Some(0x2640),
            0xaf9 => Some(0x260e),
            0xafa => Some(0x2315),
            0xafb => Some(0x2117),
            0xafc => Some(0x2038),
            0xafd => Some(0x201a),
            0xafe => Some(0x201e),
            _ => None,
        }
    }
}

/// The characters of the keysyms for APL.
pub open spec fn page_apl(ks: u32) -> Option<u16> {
    match ks {
        0xbc4 => Some(0x230a),
        0xbca => Some(0x2218),
        0xbcc => Some(0x2395),
        0xbcf => Some(0x25cb),
        0xbd3 => Some(0x2308),
        _ => None,
    }
}

/// The characters of the keysyms for Hebrew.
pub open spec fn page_hebrew(ks: u32) -> Option<u16> {
    if 0xce0 <= ks <= 0xcfa {
        Some((0x05d0 + (ks - 0xce0)) as u16)
    } else {
        match ks {
            0xcdf => Some(0x2017),
            _ => None,
        }
    }
}

/// The characters of the keysyms for Thai.
pub open spec fn page_thai(ks: u32) -> Option<u16> {
    if 0xda1 <= ks <= 0xdda {
        Some((0x0e01 + (ks - 0xda1)) as u16)
    } else if 0xddf <= ks <= 0xded {
        Some((0x0e3f + (ks - 0xddf)) as u16)
    } else if 0xdf0 <= ks <= 0xdf9 {
        Some((0x0e50 + (ks - 0xdf0)) as u16)
    } else {
        None
    }
}

/// The characters of the keysyms for Korean.
pub open spec fn page_korean(ks: u32) -> Option<u16> {
    if 0xea1 <= ks <= 0xed3 {
        Some((0x3131 + (ks - 0xea1)) as u16)
    } else if 0xed4 <= ks <= 0xeee {
        Some((0x11a8 + (ks - 0xed4)) as u16)
    } else {
        match ks {
            0xeef => Some(0x316d),
            0xef0 => Some(0x3171),
            0xef1 => Some(0x3178),
            0xef2 => Some(0x317f),
            0xef3 => Some(0x3181),
            0xef4 => Some(0x3184),
            0xef5 => Some(0x3186),
            0xef6 => Some(0x318d),
            0xef7 => Some(0x318e),
            0xef8 => Some(0x11eb),
            0xef9 => Some(0x11f0),
            0xefa => Some(0x11f9),
            _ => None,
        }
    }
}

/// The characters of the keysyms for Latin-9.
pub open spec fn page_latin_9(ks: u32) -> Option<u16> {
    match ks {
        0x13bc => Some(0x0152),
        0x13bd => Some(0x0153),
        0x13be => Some(0x0178),
        _ => None,
    }
}

/// The characters of the keysyms for currency.
pub open spec fn page_currency(ks: u32) -> Option<u16> {
    if 0x20a0 <= ks <= 0x20ac {
        Some((0x20a0 + (ks - 0x20a0)) as u16)
    } else {
        None
    }
}

/// The character of an older keysym: its high byte says the page.
pub open spec fn character_of(ks: u32) -> Option<u16> {
    match ks / 0x100 {
        0x1 => page_latin_2(ks),
        0x2 => page_latin_3(ks),
        0x3 => page_latin_4(ks),
        0x4 => page_kana(ks),
        0x5 => page_arabic(ks),
        0x6 => page_cyrillic(ks),
        0x7 => page_greek(ks),
        0x8 => page_technical(ks),
        0x9 => page_drawing(ks),
        0xa => page_publishing(ks),
        0xb => page_apl(ks),
        0xc => page_hebrew(ks),
        0xd => page_thai(ks),
        0xe => page_korean(ks),
        0x13 => page_latin_9(ks),
        0x20 => page_currency(ks),
        _ => None,
    }
}

proof fn lemma_page_latin_2(ks: u32, unit: u16)
    requires
        page_latin_2(ks) == Some(unit),
    ensures
        older(unit) == Some(ks),
{
}

proof fn lemma_page_latin_3(ks: u32, unit: u16)
    requires
        page_latin_3(ks) == Some(unit),
    ensures
        older(unit) == Some(ks),
{
}

proof fn lemma_page_latin_4(ks: u32, unit: u16)
    requires
        page_latin_4(ks) == Some(unit),
    ensures
        older(unit) == Some(ks),
{
}

proof fn lemma_page_kana(ks: u32, unit: u16)
    requires
        page_kana(ks) == Some(unit),
    ensures
        older(unit) == Some(ks),
{
}

proof fn lemma_page_arabic(ks: u32, unit: u16)
    requires
        page_arabic(ks) == Some(unit),
    ensures
        older(unit) == Some(ks),
{
}

proof fn lemma_page_cyrillic(ks: u32, unit: u16)
    requires
        page_cyrillic(ks) == Some(unit),
    ensures
        older(unit) == Some(ks),
{
}

proof fn lemma_page_greek(ks: u32, unit: u16)
    requires
        page_greek(ks) == Some(unit),
    ensures
        older(unit) == Some(ks),
{
}

proof fn lemma_page_technical(ks: u32, unit: u16)
    requires
        page_technical(ks) == Some(unit),
    ensures
        older(unit) == Some(ks),
{
}

proof fn lemma_page_drawing(ks: u32, unit: u16)
    requires
        page_drawing(ks) == Some(unit),
    ensures
        older(unit) == Some(ks),
{
}

proof fn lemma_page_publishing(ks: u32, unit: u16)
    requires
        page_publishing(ks) == Some(unit),
    ensures
        older(unit) == Some(ks),
{
}

proof fn lemma_page_apl(ks: u32, unit: u16)
    requires
        page_apl(ks) == Some(unit),
    ensures
        older(unit) == Some(ks),
{
}

proof fn lemma_page_hebrew(ks: u32, unit: u16)
    requires
        page_hebrew(ks) == Some(unit),
    ensures
        older(unit) == Some(ks),
{
}

proof fn lemma_page_thai(ks: u32, unit: u16)
    requires
        page_thai(ks) == Some(unit),
    ensures
        older(unit) == Some(ks),
{
}

proof fn lemma_page_korean(ks: u32, unit: u16)
    requires
        page_korean(ks) == Some(unit),
    ensures
        older(unit) == Some(ks),
{
}

proof fn lemma_page_latin_9(ks: u32, unit: u16)
    requires
        page_latin_9(ks) == Some(unit),
    ensures
        older(unit) == Some(ks),
{
}

proof fn lemma_page_currency(ks: u32, unit: u16)
    requires
        page_currency(ks) == Some(unit),
    ensures
        older(unit) == Some(ks),
{
}

proof fn lemma_of_latin(unit: u16, ks: u32)
    requires
        latin(unit) == Some(ks),
    ensures
        character_of(ks) == Some(unit),
{
}

proof fn lemma_of_cyrillic(unit: u16, ks: u32)
    requires
        cyrillic(unit) == Some(ks),
    ensures
        character_of(ks) == Some(unit),
{
}

proof fn lemma_of_greek(unit: u16, ks: u32)
    requires
        greek(unit) == Some(ks),
    ensures
        character_of(ks) == Some(unit),
{
}

proof fn lemma_of_semitic(unit: u16, ks: u32)
    requires
        semitic(unit) == Some(ks),
    ensures
        character_of(ks) == Some(unit),
{
}

proof fn lemma_of_eastern(unit: u16, ks: u32)
    requires
        eastern(unit) == Some(ks),
    ensures
        character_of(ks) == Some(unit),
{
}

proof fn lemma_of_symbol(unit: u16, ks: u32)
    requires
        symbol(unit) == Some(ks),
    ensures
        character_of(ks) == Some(unit),
{
}

/// An older keysym stands for the character that its page has at its place, and a character
/// has an older keysym exactly if one of the pages has it: the one that stands there.
pub proof fn law_older_keysyms_are_places_on_a_page(unit: u16, ks: u32)
    ensures
        older(unit) == Some(ks) <==> character_of(ks) == Some(unit),
{
    if older(unit) == Some(ks) {
        if latin(unit) is Some {
            lemma_of_latin(unit, ks);
        } else if cyrillic(unit) is Some {
            lemma_of_cyrillic(unit, ks);
        } else if greek(unit) is Some {
            lemma_of_greek(unit, ks);
        } else if semitic(unit) is Some {
            lemma_of_semitic(unit, ks);
        } else if eastern(unit) is Some {
            lemma_of_eastern(unit, ks);
        } else {
            lemma_of_symbol(unit, ks);
        }
    }
    if character_of(ks) == Some(unit) {
        match ks / 0x100 {
            0x1 => lemma_page_latin_2(ks, unit),
            0x2 => lemma_page_latin_3(ks, unit),
            0x3 => lemma_page_latin_4(ks, unit),
            0x4 => lemma_page_kana(ks, unit),
            0x5 => lemma_page_arabic(ks, unit),
            0x6 => lemma_page_cyrillic(ks, unit),
            0x7 => lemma_page_greek(ks, unit),
            0x8 => lemma_page_technical(ks, unit),
            0x9 => lemma_page_drawing(ks, unit),
            0xa => lemma_page_publishing(ks, unit),
            0xb => lemma_page_apl(ks, unit),
            0xc => lemma_page_hebrew(ks, unit),
            0xd => lemma_page_thai(ks, unit),
            0xe => lemma_page_korean(ks, unit),
            0x13 => lemma_page_latin_9(ks, unit),
            0x20 => lemma_page_currency(ks, unit),
            _ => {},
        }
    }
}

/// A capital letter and its small letter stand in the same column of a page of Latin
/// letters: sixteen places on where the capital is among the first sixteen, and else 32
/// places on.
pub proof fn law_small_letters_stand_below_capitals(unit: u16)
    requires
        0x100 <= unit < 0x130 && unit % 2 == 0 || 0x132 <= unit < 0x138 && unit % 2 == 0 || 0x139
            <= unit < 0x149 && unit % 2 == 1 || 0x14c <= unit < 0x152 && unit % 2 == 0 || 0x154
            <= unit < 0x178 && unit % 2 == 0 || 0x179 <= unit < 0x17f && unit % 2 == 1,
    ensures
        older(unit) is Some <==> older((unit + 1) as u16) is Some,
        older(unit) matches Some(ks) ==> older((unit + 1) as u16) == Some(
            (ks + if ks % 0x100 < 0xb0 {
                0x10int
            } else {
                0x20int
            }) as u32,
        ),
{
}

/// The letters of the Russian alphabet have their capitals 32 places behind the small ones.
pub proof fn law_cyrillic_capitals_stand_behind(unit: u16)
    requires
        0x410 <= unit < 0x430,
    ensures
        older(unit) is Some,
        older((unit + 0x20) as u16) is Some,
        older(unit)->0 == older((unit + 0x20) as u16)->0 + 0x20,
{
}

/// The first keysym of a character: Latin-1 as it is, four control characters as the keys
/// that make them, and the rest by their number behind a one in the fourth byte. Control
/// characters without a key, halves of pairs and numbers beyond the last character have
/// none. The second is the older one, and the won sign has a third.
pub proof fn law_keysyms_of_a_character(c: u32)
    ensures
        0x20 <= c <= 0x7e || 0xa0 <= c <= 0xff ==> character_keysyms(c)[0] == c,
        c == 8 || c == 9 || c == 13 || c == 27 ==> character_keysyms(c) =~= seq![
            (0xff00 + c) as u32,
        ],
        0x100 <= c <= 0xd7ff || 0xe000 <= c <= 0x10_ffff ==> character_keysyms(c)[0] == 0x0100_0000
            + c,
        character_keysyms(c).len() == 0 <==> c < 8 || 10 <= c < 13 || 14 <= c < 27 || 28 <= c < 32
            || 0x7f <= c < 0xa0 || 0xd800 <= c < 0xe000 || c > 0x10_ffff,
        character_keysyms(c).len() > 1 <==> c <= 0xffff && exists|ks: u32| #[trigger]
            character_of(ks) == Some(c as u16),
        character_keysyms(c).len() > 1 ==> character_of(character_keysyms(c)[1]) == Some(
            c as u16,
        ),
        character_keysyms(c).len() > 2 <==> c == 0x20a9,
        c == 0x20a9 ==> character_keysyms(c)[2] == 0xeff,
{
    if c <= 0xffff {
        let unit = c as u16;
        if older(unit) is Some {
            law_older_keysyms_are_places_on_a_page(unit, older(unit)->0);
        }
        assert forall|ks: u32| #[trigger] character_of(ks) == Some(unit) implies older(unit) == Some(
            ks,
        ) by {
            law_older_keysyms_are_places_on_a_page(unit, ks);
        }
    }
}

/// A character beyond the first 65536 comes in two units: the ten high bits of what is
/// beyond, behind 0xd800, and then the ten low ones, behind 0xdc00.
pub proof fn law_two_units_make_a_character(first: u16, second: u16)
    requires
        0xd800 <= first < 0xdc00,
    ensures
        assembled(None, first) == (Some(first), None::<u32>),
        0xdc00 <= second < 0xe000 ==> assembled(Some(first), second) == (
            None::<u16>,
            Some((0x1_0000 + (first - 0xd800) * 1024 + (second - 0xdc00)) as u32),
        ),
        second < 0xd800 || 0xe000 <= second ==> assembled(Some(first), second) == (
            None::<u16>,
            Some(second as u32),
        ),
        second < 0xd800 || 0xdc00 <= second ==> assembled(None, second) == (
            None::<u16>,
            Some(second as u32),
        ),
        0xd800 <= second < 0xdc00 ==> assembled(Some(first), second) == (
            Some(second),
            None::<u32>,
        ),
{
}

} // verus!
