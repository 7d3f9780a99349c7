use vstd::prelude::*;

verus! {

/// The closed set of geographic zone codes the service accepts, as they
/// appear upper-case on the wire.
#[derive(Clone, Copy, PartialEq, Eq, Structural, Debug, Hash)]
pub enum Zones {
    JHR01,
    JHR02,
    JHR03,
    JHR04,
    KDH01,
    KDH02,
    KDH03,
    KDH04,
    KDH05,
    KDH06,
    KDH07,
    KTN01,
    KTN03,
    MLK01,
    NGS01,
    NGS02,
    PHG01,
    PHGO2,
    PHGO3,
    PHGO4,
    PHGO5,
    PHGO6,
    PLS01,
    PNG01,
    PRK01,
    PRK02,
    PRK03,
    PRK04,
    PRK05,
    PRK06,
    PRK07,
    SBH01,
    SBH02,
    SBH03,
    SBH04,
    SBH05,
    SBH06,
    SBH07,
    SBH08,
    SBH09,
    SGR01,
    SGR02,
    SGR03,
    SWK01,
    SWK02,
    SWK03,
    SWK04,
    SWK05,
    SWK06,
    SWK07,
    SWK08,
    SWK09,
    TRG01,
    TRG02,
    TRG03,
    TRG04,
    WLY01,
    WLY02,
}

/// The five-byte upper-case wire code of a zone.
pub open spec fn zone_code(z: Zones) -> Seq<u8> {
    match z {
        Zones::JHR01 => seq!['J' as u8, 'H' as u8, 'R' as u8, '0' as u8, '1' as u8],
        Zones::JHR02 => seq!['J' as u8, 'H' as u8, 'R' as u8, '0' as u8, '2' as u8],
        Zones::JHR03 => seq!['J' as u8, 'H' as u8, 'R' as u8, '0' as u8, '3' as u8],
        Zones::JHR04 => seq!['J' as u8, 'H' as u8, 'R' as u8, '0' as u8, '4' as u8],
        Zones::KDH01 => seq!['K' as u8, 'D' as u8, 'H' as u8, '0' as u8, '1' as u8],
        Zones::KDH02 => seq!['K' as u8, 'D' as u8, 'H' as u8, '0' as u8, '2' as u8],
        Zones::KDH03 => seq!['K' as u8, 'D' as u8, 'H' as u8, '0' as u8, '3' as u8],
        Zones::KDH04 => seq!['K' as u8, 'D' as u8, 'H' as u8, '0' as u8, '4' as u8],
        Zones::KDH05 => seq!['K' as u8, 'D' as u8, 'H' as u8, '0' as u8, '5' as u8],
        Zones::KDH06 => seq!['K' as u8, 'D' as u8, 'H' as u8, '0' as u8, '6' as u8],
        Zones::KDH07 => seq!['K' as u8, 'D' as u8, 'H' as u8, '0' as u8, '7' as u8],
        Zones::KTN01 => seq!['K' as u8, 'T' as u8, 'N' as u8, '0' as u8, '1' as u8],
        Zones::KTN03 => seq!['K' as u8, 'T' as u8, 'N' as u8, '0' as u8, '3' as u8],
        Zones::MLK01 => seq!['M' as u8, 'L' as u8, 'K' as u8, '0' as u8, '1' as u8],
        Zones::NGS01 => seq!['N' as u8, 'G' as u8, 'S' as u8, '0' as u8, '1' as u8],
        Zones::NGS02 => seq!['N' as u8, 'G' as u8, 'S' as u8, '0' as u8, '2' as u8],
        Zones::PHG01 => seq!['P' as u8, 'H' as u8, 'G' as u8, '0' as u8, '1' as u8],
        Zones::PHGO2 => seq!['P' as u8, 'H' as u8, 'G' as u8, 'O' as u8, '2' as u8],
        Zones::PHGO3 => seq!['P' as u8, 'H' as u8, 'G' as u8, 'O' as u8, '3' as u8],
        Zones::PHGO4 => seq!['P' as u8, 'H' as u8, 'G' as u8, 'O' as u8, '4' as u8],
        Zones::PHGO5 => seq!['P' as u8, 'H' as u8, 'G' as u8, 'O' as u8, '5' as u8],
        Zones::PHGO6 => seq!['P' as u8, 'H' as u8, 'G' as u8, 'O' as u8, '6' as u8],
        Zones::PLS01 => seq!['P' as u8, 'L' as u8, 'S' as u8, '0' as u8, '1' as u8],
        Zones::PNG01 => seq!['P' as u8, 'N' as u8, 'G' as u8, '0' as u8, '1' as u8],
        Zones::PRK01 => seq!['P' as u8, 'R' as u8, 'K' as u8, '0' as u8, '1' as u8],
        Zones::PRK02 => seq!['P' as u8, 'R' as u8, 'K' as u8, '0' as u8, '2' as u8],
        Zones::PRK03 => seq!['P' as u8, 'R' as u8, 'K' as u8, '0' as u8, '3' as u8],
        Zones::PRK04 => seq!['P' as u8, 'R' as u8, 'K' as u8, '0' as u8, '4' as u8],
        Zones::PRK05 => seq!['P' as u8, 'R' as u8, 'K' as u8, '0' as u8, '5' as u8],
        Zones::PRK06 => seq!['P' as u8, 'R' as u8, 'K' as u8, '0' as u8, '6' as u8],
        Zones::PRK07 => seq!['P' as u8, 'R' as u8, 'K' as u8, '0' as u8, '7' as u8],
        Zones::SBH01 => seq!['S' as u8, 'B' as u8, 'H' as u8, '0' as u8, '1' as u8],
        Zones::SBH02 => seq!['S' as u8, 'B' as u8, 'H' as u8, '0' as u8, '2' as u8],
        Zones::SBH03 => seq!['S' as u8, 'B' as u8, 'H' as u8, '0' as u8, '3' as u8],
        Zones::SBH04 => seq!['S' as u8, 'B' as u8, 'H' as u8, '0' as u8, '4' as u8],
        Zones::SBH05 => seq!['S' as u8, 'B' as u8, 'H' as u8, '0' as u8, '5' as u8],
        Zones::SBH06 => seq!['S' as u8, 'B' as u8, 'H' as u8, '0' as u8, '6' as u8],
        Zones::SBH07 => seq!['S' as u8, 'B' as u8, 'H' as u8, '0' as u8, '7' as u8],
        Zones::SBH08 => seq!['S' as u8, 'B' as u8, 'H' as u8, '0' as u8, '8' as u8],
        Zones::SBH09 => seq!['S' as u8, 'B' as u8, 'H' as u8, '0' as u8, '9' as u8],
        Zones::SGR01 => seq!['S' as u8, 'G' as u8, 'R' as u8, '0' as u8, '1' as u8],
        Zones::SGR02 => seq!['S' as u8, 'G' as u8, 'R' as u8, '0' as u8, '2' as u8],
        Zones::SGR03 => seq!['S' as u8, 'G' as u8, 'R' as u8, '0' as u8, '3' as u8],
        Zones::SWK01 => seq!['S' as u8, 'W' as u8, 'K' as u8, '0' as u8, '1' as u8],
        Zones::SWK02 => seq!['S' as u8, 'W' as u8, 'K' as u8, '0' as u8, '2' as u8],
        Zones::SWK03 => seq!['S' as u8, 'W' as u8, 'K' as u8, '0' as u8, '3' as u8],
        Zones::SWK04 => seq!['S' as u8, 'W' as u8, 'K' as u8, '0' as u8, '4' as u8],
        Zones::SWK05 => seq!['S' as u8, 'W' as u8, 'K' as u8, '0' as u8, '5' as u8],
        Zones::SWK06 => seq!['S' as u8, 'W' as u8, 'K' as u8, '0' as u8, '6' as u8],
        Zones::SWK07 => seq!['S' as u8, 'W' as u8, 'K' as u8, '0' as u8, '7' as u8],
        Zones::SWK08 => seq!['S' as u8, 'W' as u8, 'K' as u8, '0' as u8, '8' as u8],
        Zones::SWK09 => seq!['S' as u8, 'W' as u8, 'K' as u8, '0' as u8, '9' as u8],
        Zones::TRG01 => seq!['T' as u8, 'R' as u8, 'G' as u8, '0' as u8, '1' as u8],
        Zones::TRG02 => seq!['T' as u8, 'R' as u8, 'G' as u8, '0' as u8, '2' as u8],
        Zones::TRG03 => seq!['T' as u8, 'R' as u8, 'G' as u8, '0' as u8, '3' as u8],
        Zones::TRG04 => seq!['T' as u8, 'R' as u8, 'G' as u8, '0' as u8, '4' as u8],
        Zones::WLY01 => seq!['W' as u8, 'L' as u8, 'Y' as u8, '0' as u8, '1' as u8],
        Zones::WLY02 => seq!['W' as u8, 'L' as u8, 'Y' as u8, '0' as u8, '2' as u8],
    }
}

/// Recognizes a five-byte zone code.
pub open spec fn spec_parse_zone5(a: u8, b: u8, c: u8, d: u8, e: u8) -> Option<Zones> {
    if a == ('J' as u8) && b == ('H' as u8) && c == ('R' as u8) && d == ('0' as u8) && e == ('1' as u8) {
        Some(Zones::JHR01)
    } else if a == ('J' as u8) && b == ('H' as u8) && c == ('R' as u8) && d == ('0' as u8) && e == ('2' as u8) {
        Some(Zones::JHR02)
    } else if a == ('J' as u8) && b == ('H' as u8) && c == ('R' as u8) && d == ('0' as u8) && e == ('3' as u8) {
        Some(Zones::JHR03)
    } else if a == ('J' as u8) && b == ('H' as u8) && c == ('R' as u8) && d == ('0' as u8) && e == ('4' as u8) {
        Some(Zones::JHR04)
    } else if a == ('K' as u8) && b == ('D' as u8) && c == ('H' as u8) && d == ('0' as u8) && e == ('1' as u8) {
        Some(Zones::KDH01)
    } else if a == ('K' as u8) && b == ('D' as u8) && c == ('H' as u8) && d == ('0' as u8) && e == ('2' as u8) {
        Some(Zones::KDH02)
    } else if a == ('K' as u8) && b == ('D' as u8) && c == ('H' as u8) && d == ('0' as u8) && e == ('3' as u8) {
        Some(Zones::KDH03)
    } else if a == ('K' as u8) && b == ('D' as u8) && c == ('H' as u8) && d == ('0' as u8) && e == ('4' as u8) {
        Some(Zones::KDH04)
    } else if a == ('K' as u8) && b == ('D' as u8) && c == ('H' as u8) && d == ('0' as u8) && e == ('5' as u8) {
        Some(Zones::KDH05)
    } else if a == ('K' as u8) && b == ('D' as u8) && c == ('H' as u8) && d == ('0' as u8) && e == ('6' as u8) {
        Some(Zones::KDH06)
    } else if a == ('K' as u8) && b == ('D' as u8) && c == ('H' as u8) && d == ('0' as u8) && e == ('7' as u8) {
        Some(Zones::KDH07)
    } else if a == ('K' as u8) && b == ('T' as u8) && c == ('N' as u8) && d == ('0' as u8) && e == ('1' as u8) {
        Some(Zones::KTN01)
    } else if a == ('K' as u8) && b == ('T' as u8) && c == ('N' as u8) && d == ('0' as u8) && e == ('3' as u8) {
        Some(Zones::KTN03)
    } else if a == ('M' as u8) && b == ('L' as u8) && c == ('K' as u8) && d == ('0' as u8) && e == ('1' as u8) {
        Some(Zones::MLK01)
    } else if a == ('N' as u8) && b == ('G' as u8) && c == ('S' as u8) && d == ('0' as u8) && e == ('1' as u8) {
        Some(Zones::NGS01)
    } else if a == ('N' as u8) && b == ('G' as u8) && c == ('S' as u8) && d == ('0' as u8) && e == ('2' as u8) {
        Some(Zones::NGS02)
    } else if a == ('P' as u8) && b == ('H' as u8) && c == ('G' as u8) && d == ('0' as u8) && e == ('1' as u8) {
        Some(Zones::PHG01)
    } else if a == ('P' as u8) && b == ('H' as u8) && c == ('G' as u8) && d == ('O' as u8) && e == ('2' as u8) {
        Some(Zones::PHGO2)
    } else if a == ('P' as u8) && b == ('H' as u8) && c == ('G' as u8) && d == ('O' as u8) && e == ('3' as u8) {
        Some(Zones::PHGO3)
    } else if a == ('P' as u8) && b == ('H' as u8) && c == ('G' as u8) && d == ('O' as u8) && e == ('4' as u8) {
        Some(Zones::PHGO4)
    } else if a == ('P' as u8) && b == ('H' as u8) && c == ('G' as u8) && d == ('O' as u8) && e == ('5' as u8) {
        Some(Zones::PHGO5)
    } else if a == ('P' as u8) && b == ('H' as u8) && c == ('G' as u8) && d == ('O' as u8) && e == ('6' as u8) {
        Some(Zones::PHGO6)
    } else if a == ('P' as u8) && b == ('L' as u8) && c == ('S' as u8) && d == ('0' as u8) && e == ('1' as u8) {
        Some(Zones::PLS01)
    } else if a == ('P' as u8) && b == ('N' as u8) && c == ('G' as u8) && d == ('0' as u8) && e == ('1' as u8) {
        Some(Zones::PNG01)
    } else if a == ('P' as u8) && b == ('R' as u8) && c == ('K' as u8) && d == ('0' as u8) && e == ('1' as u8) {
        Some(Zones::PRK01)
    } else if a == ('P' as u8) && b == ('R' as u8) && c == ('K' as u8) && d == ('0' as u8) && e == ('2' as u8) {
        Some(Zones::PRK02)
    } else if a == ('P' as u8) && b == ('R' as u8) && c == ('K' as u8) && d == ('0' as u8) && e == ('3' as u8) {
        Some(Zones::PRK03)
    } else if a == ('P' as u8) && b == ('R' as u8) && c == ('K' as u8) && d == ('0' as u8) && e == ('4' as u8) {
        Some(Zones::PRK04)
    } else if a == ('P' as u8) && b == ('R' as u8) && c == ('K' as u8) && d == ('0' as u8) && e == ('5' as u8) {
        Some(Zones::PRK05)
    } else if a == ('P' as u8) && b == ('R' as u8) && c == ('K' as u8) && d == ('0' as u8) && e == ('6' as u8) {
        Some(Zones::PRK06)
    } else if a == ('P' as u8) && b == ('R' as u8) && c == ('K' as u8) && d == ('0' as u8) && e == ('7' as u8) {
        Some(Zones::PRK07)
    } else if a == ('S' as u8) && b == ('B' as u8) && c == ('H' as u8) && d == ('0' as u8) && e == ('1' as u8) {
        Some(Zones::SBH01)
    } else if a == ('S' as u8) && b == ('B' as u8) && c == ('H' as u8) && d == ('0' as u8) && e == ('2' as u8) {
        Some(Zones::SBH02)
    } else if a == ('S' as u8) && b == ('B' as u8) && c == ('H' as u8) && d == ('0' as u8) && e == ('3' as u8) {
        Some(Zones::SBH03)
    } else if a == ('S' as u8) && b == ('B' as u8) && c == ('H' as u8) && d == ('0' as u8) && e == ('4' as u8) {
        Some(Zones::SBH04)
    } else if a == ('S' as u8) && b == ('B' as u8) && c == ('H' as u8) && d == ('0' as u8) && e == ('5' as u8) {
        Some(Zones::SBH05)
    } else if a == ('S' as u8) && b == ('B' as u8) && c == ('H' as u8) && d == ('0' as u8) && e == ('6' as u8) {
        Some(Zones::SBH06)
    } else if a == ('S' as u8) && b == ('B' as u8) && c == ('H' as u8) && d == ('0' as u8) && e == ('7' as u8) {
        Some(Zones::SBH07)
    } else if a == ('S' as u8) && b == ('B' as u8) && c == ('H' as u8) && d == ('0' as u8) && e == ('8' as u8) {
        Some(Zones::SBH08)
    } else if a == ('S' as u8) && b == ('B' as u8) && c == ('H' as u8) && d == ('0' as u8) && e == ('9' as u8) {
        Some(Zones::SBH09)
    } else if a == ('S' as u8) && b == ('G' as u8) && c == ('R' as u8) && d == ('0' as u8) && e == ('1' as u8) {
        Some(Zones::SGR01)
    } else if a == ('S' as u8) && b == ('G' as u8) && c == ('R' as u8) && d == ('0' as u8) && e == ('2' as u8) {
        Some(Zones::SGR02)
    } else if a == ('S' as u8) && b == ('G' as u8) && c == ('R' as u8) && d == ('0' as u8) && e == ('3' as u8) {
        Some(Zones::SGR03)
    } else if a == ('S' as u8) && b == ('W' as u8) && c == ('K' as u8) && d == ('0' as u8) && e == ('1' as u8) {
        Some(Zones::SWK01)
    } else if a == ('S' as u8) && b == ('W' as u8) && c == ('K' as u8) && d == ('0' as u8) && e == ('2' as u8) {
        Some(Zones::SWK02)
    } else if a == ('S' as u8) && b == ('W' as u8) && c == ('K' as u8) && d == ('0' as u8) && e == ('3' as u8) {
        Some(Zones::SWK03)
    } else if a == ('S' as u8) && b == ('W' as u8) && c == ('K' as u8) && d == ('0' as u8) && e == ('4' as u8) {
        Some(Zones::SWK04)
    } else if a == ('S' as u8) && b == ('W' as u8) && c == ('K' as u8) && d == ('0' as u8) && e == ('5' as u8) {
        Some(Zones::SWK05)
    } else if a == ('S' as u8) && b == ('W' as u8) && c == ('K' as u8) && d == ('0' as u8) && e == ('6' as u8) {
        Some(Zones::SWK06)
    } else if a == ('S' as u8) && b == ('W' as u8) && c == ('K' as u8) && d == ('0' as u8) && e == ('7' as u8) {
        Some(Zones::SWK07)
    } else if a == ('S' as u8) && b == ('W' as u8) && c == ('K' as u8) && d == ('0' as u8) && e == ('8' as u8) {
        Some(Zones::SWK08)
    } else if a == ('S' as u8) && b == ('W' as u8) && c == ('K' as u8) && d == ('0' as u8) && e == ('9' as u8) {
        Some(Zones::SWK09)
    } else if a == ('T' as u8) && b == ('R' as u8) && c == ('G' as u8) && d == ('0' as u8) && e == ('1' as u8) {
        Some(Zones::TRG01)
    } else if a == ('T' as u8) && b == ('R' as u8) && c == ('G' as u8) && d == ('0' as u8) && e == ('2' as u8) {
        Some(Zones::TRG02)
    } else if a == ('T' as u8) && b == ('R' as u8) && c == ('G' as u8) && d == ('0' as u8) && e == ('3' as u8) {
        Some(Zones::TRG03)
    } else if a == ('T' as u8) && b == ('R' as u8) && c == ('G' as u8) && d == ('0' as u8) && e == ('4' as u8) {
        Some(Zones::TRG04)
    } else if a == ('W' as u8) && b == ('L' as u8) && c == ('Y' as u8) && d == ('0' as u8) && e == ('1' as u8) {
        Some(Zones::WLY01)
    } else if a == ('W' as u8) && b == ('L' as u8) && c == ('Y' as u8) && d == ('0' as u8) && e == ('2' as u8) {
        Some(Zones::WLY02)
    } else {
        None
    }
}

/// Recognizes a whole byte string as a zone code.
pub open spec fn spec_parse_zone(s: Seq<u8>) -> Option<Zones> {
    if s.len() == 5 {
        spec_parse_zone5(s[0], s[1], s[2], s[3], s[4])
    } else {
        None
    }
}

/// Every zone, in declaration order.
pub open spec fn all_zones_seq() -> Seq<Zones> {
    seq![
        Zones::JHR01,
        Zones::JHR02,
        Zones::JHR03,
        Zones::JHR04,
        Zones::KDH01,
        Zones::KDH02,
        Zones::KDH03,
        Zones::KDH04,
        Zones::KDH05,
        Zones::KDH06,
        Zones::KDH07,
        Zones::KTN01,
        Zones::KTN03,
        Zones::MLK01,
        Zones::NGS01,
        Zones::NGS02,
        Zones::PHG01,
        Zones::PHGO2,
        Zones::PHGO3,
        Zones::PHGO4,
        Zones::PHGO5,
        Zones::PHGO6,
        Zones::PLS01,
        Zones::PNG01,
        Zones::PRK01,
        Zones::PRK02,
        Zones::PRK03,
        Zones::PRK04,
        Zones::PRK05,
        Zones::PRK06,
        Zones::PRK07,
        Zones::SBH01,
        Zones::SBH02,
        Zones::SBH03,
        Zones::SBH04,
        Zones::SBH05,
        Zones::SBH06,
        Zones::SBH07,
        Zones::SBH08,
        Zones::SBH09,
        Zones::SGR01,
        Zones::SGR02,
        Zones::SGR03,
        Zones::SWK01,
        Zones::SWK02,
        Zones::SWK03,
        Zones::SWK04,
        Zones::SWK05,
        Zones::SWK06,
        Zones::SWK07,
        Zones::SWK08,
        Zones::SWK09,
        Zones::TRG01,
        Zones::TRG02,
        Zones::TRG03,
        Zones::TRG04,
        Zones::WLY01,
        Zones::WLY02,
    ]
}

impl Zones {
    /// The wire code of this zone, as bytes.
    pub fn code_bytes(&self) -> (r: Vec<u8>)
        ensures
            r@ == zone_code(*self),
    {
        let mut v: Vec<u8> = Vec::new();
        match *self {
        Zones::JHR01 => {
            v.push('J' as u8);
            v.push('H' as u8);
            v.push('R' as u8);
            v.push('0' as u8);
            v.push('1' as u8);
        },
        Zones::JHR02 => {
            v.push('J' as u8);
            v.push('H' as u8);
            v.push('R' as u8);
            v.push('0' as u8);
            v.push('2' as u8);
        },
        Zones::JHR03 => {
            v.push('J' as u8);
            v.push('H' as u8);
            v.push('R' as u8);
            v.push('0' as u8);
            v.push('3' as u8);
        },
        Zones::JHR04 => {
            v.push('J' as u8);
            v.push('H' as u8);
            v.push('R' as u8);
            v.push('0' as u8);
            v.push('4' as u8);
        },
        Zones::KDH01 => {
            v.push('K' as u8);
            v.push('D' as u8);
            v.push('H' as u8);
            v.push('0' as u8);
            v.push('1' as u8);
        },
        Zones::KDH02 => {
            v.push('K' as u8);
            v.push('D' as u8);
            v.push('H' as u8);
            v.push('0' as u8);
            v.push('2' as u8);
        },
        Zones::KDH03 => {
            v.push('K' as u8);
            v.push('D' as u8);
            v.push('H' as u8);
            v.push('0' as u8);
            v.push('3' as u8);
        },
        Zones::KDH04 => {
            v.push('K' as u8);
            v.push('D' as u8);
            v.push('H' as u8);
            v.push('0' as u8);
            v.push('4' as u8);
        },
        Zones::KDH05 => {
            v.push('K' as u8);
            v.push('D' as u8);
            v.push('H' as u8);
            v.push('0' as u8);
            v.push('5' as u8);
        },
        Zones::KDH06 => {
            v.push('K' as u8);
            v.push('D' as u8);
            v.push('H' as u8);
            v.push('0' as u8);
            v.push('6' as u8);
        },
        Zones::KDH07 => {
            v.push('K' as u8);
            v.push('D' as u8);
            v.push('H' as u8);
            v.push('0' as u8);
            v.push('7' as u8);
        },
        Zones::KTN01 => {
            v.push('K' as u8);
            v.push('T' as u8);
            v.push('N' as u8);
            v.push('0' as u8);
            v.push('1' as u8);
        },
        Zones::KTN03 => {
            v.push('K' as u8);
            v.push('T' as u8);
            v.push('N' as u8);
            v.push('0' as u8);
            v.push('3' as u8);
        },
        Zones::MLK01 => {
            v.push('M' as u8);
            v.push('L' as u8);
            v.push('K' as u8);
            v.push('0' as u8);
            v.push('1' as u8);
        },
        Zones::NGS01 => {
            v.push('N' as u8);
            v.push('G' as u8);
            v.push('S' as u8);
            v.push('0' as u8);
            v.push('1' as u8);
        },
        Zones::NGS02 => {
            v.push('N' as u8);
            v.push('G' as u8);
            v.push('S' as u8);
            v.push('0' as u8);
            v.push('2' as u8);
        },
        Zones::PHG01 => {
            v.push('P' as u8);
            v.push('H' as u8);
            v.push('G' as u8);
            v.push('0' as u8);
            v.push('1' as u8);
        },
        Zones::PHGO2 => {
            v.push('P' as u8);
            v.push('H' as u8);
            v.push('G' as u8);
            v.push('O' as u8);
            v.push('2' as u8);
        },
        Zones::PHGO3 => {
            v.push('P' as u8);
            v.push('H' as u8);
            v.push('G' as u8);
            v.push('O' as u8);
            v.push('3' as u8);
        },
        Zones::PHGO4 => {
            v.push('P' as u8);
            v.push('H' as u8);
            v.push('G' as u8);
            v.push('O' as u8);
            v.push('4' as u8);
        },
        Zones::PHGO5 => {
            v.push('P' as u8);
            v.push('H' as u8);
            v.push('G' as u8);
            v.push('O' as u8);
            v.push('5' as u8);
        },
        Zones::PHGO6 => {
            v.push('P' as u8);
            v.push('H' as u8);
            v.push('G' as u8);
            v.push('O' as u8);
            v.push('6' as u8);
        },
        Zones::PLS01 => {
            v.push('P' as u8);
            v.push('L' as u8);
            v.push('S' as u8);
            v.push('0' as u8);
            v.push('1' as u8);
        },
        Zones::PNG01 => {
            v.push('P' as u8);
            v.push('N' as u8);
            v.push('G' as u8);
            v.push('0' as u8);
            v.push('1' as u8);
        },
        Zones::PRK01 => {
            v.push('P' as u8);
            v.push('R' as u8);
            v.push('K' as u8);
            v.push('0' as u8);
            v.push('1' as u8);
        },
        Zones::PRK02 => {
            v.push('P' as u8);
            v.push('R' as u8);
            v.push('K' as u8);
            v.push('0' as u8);
            v.push('2' as u8);
        },
        Zones::PRK03 => {
            v.push('P' as u8);
            v.push('R' as u8);
            v.push('K' as u8);
            v.push('0' as u8);
            v.push('3' as u8);
        },
        Zones::PRK04 => {
            v.push('P' as u8);
            v.push('R' as u8);
            v.push('K' as u8);
            v.push('0' as u8);
            v.push('4' as u8);
        },
        Zones::PRK05 => {
            v.push('P' as u8);
            v.push('R' as u8);
            v.push('K' as u8);
            v.push('0' as u8);
            v.push('5' as u8);
        },
        Zones::PRK06 => {
            v.push('P' as u8);
            v.push('R' as u8);
            v.push('K' as u8);
            v.push('0' as u8);
            v.push('6' as u8);
        },
        Zones::PRK07 => {
            v.push('P' as u8);
            v.push('R' as u8);
            v.push('K' as u8);
            v.push('0' as u8);
            v.push('7' as u8);
        },
        Zones::SBH01 => {
            v.push('S' as u8);
            v.push('B' as u8);
            v.push('H' as u8);
            v.push('0' as u8);
            v.push('1' as u8);
        },
        Zones::SBH02 => {
            v.push('S' as u8);
            v.push('B' as u8);
            v.push('H' as u8);
            v.push('0' as u8);
            v.push('2' as u8);
        },
        Zones::SBH03 => {
            v.push('S' as u8);
            v.push('B' as u8);
            v.push('H' as u8);
            v.push('0' as u8);
            v.push('3' as u8);
        },
        Zones::SBH04 => {
            v.push('S' as u8);
            v.push('B' as u8);
            v.push('H' as u8);
            v.push('0' as u8);
            v.push('4' as u8);
        },
        Zones::SBH05 => {
            v.push('S' as u8);
            v.push('B' as u8);
            v.push('H' as u8);
            v.push('0' as u8);
            v.push('5' as u8);
        },
        Zones::SBH06 => {
            v.push('S' as u8);
            v.push('B' as u8);
            v.push('H' as u8);
            v.push('0' as u8);
            v.push('6' as u8);
        },
        Zones::SBH07 => {
            v.push('S' as u8);
            v.push('B' as u8);
            v.push('H' as u8);
            v.push('0' as u8);
            v.push('7' as u8);
        },
        Zones::SBH08 => {
            v.push('S' as u8);
            v.push('B' as u8);
            v.push('H' as u8);
            v.push('0' as u8);
            v.push('8' as u8);
        },
        Zones::SBH09 => {
            v.push('S' as u8);
            v.push('B' as u8);
            v.push('H' as u8);
            v.push('0' as u8);
            v.push('9' as u8);
        },
        Zones::SGR01 => {
            v.push('S' as u8);
            v.push('G' as u8);
            v.push('R' as u8);
            v.push('0' as u8);
            v.push('1' as u8);
        },
        Zones::SGR02 => {
            v.push('S' as u8);
            v.push('G' as u8);
            v.push('R' as u8);
            v.push('0' as u8);
            v.push('2' as u8);
        },
        Zones::SGR03 => {
            v.push('S' as u8);
            v.push('G' as u8);
            v.push('R' as u8);
            v.push('0' as u8);
            v.push('3' as u8);
        },
        Zones::SWK01 => {
            v.push('S' as u8);
            v.push('W' as u8);
            v.push('K' as u8);
            v.push('0' as u8);
            v.push('1' as u8);
        },
        Zones::SWK02 => {
            v.push('S' as u8);
            v.push('W' as u8);
            v.push('K' as u8);
            v.push('0' as u8);
            v.push('2' as u8);
        },
        Zones::SWK03 => {
            v.push('S' as u8);
            v.push('W' as u8);
            v.push('K' as u8);
            v.push('0' as u8);
            v.push('3' as u8);
        },
        Zones::SWK04 => {
            v.push('S' as u8);
            v.push('W' as u8);
            v.push('K' as u8);
            v.push('0' as u8);
            v.push('4' as u8);
        },
        Zones::SWK05 => {
            v.push('S' as u8);
            v.push('W' as u8);
            v.push('K' as u8);
            v.push('0' as u8);
            v.push('5' as u8);
        },
        Zones::SWK06 => {
            v.push('S' as u8);
            v.push('W' as u8);
            v.push('K' as u8);
            v.push('0' as u8);
            v.push('6' as u8);
        },
        Zones::SWK07 => {
            v.push('S' as u8);
            v.push('W' as u8);
            v.push('K' as u8);
            v.push('0' as u8);
            v.push('7' as u8);
        },
        Zones::SWK08 => {
            v.push('S' as u8);
            v.push('W' as u8);
            v.push('K' as u8);
            v.push('0' as u8);
            v.push('8' as u8);
        },
        Zones::SWK09 => {
            v.push('S' as u8);
            v.push('W' as u8);
            v.push('K' as u8);
            v.push('0' as u8);
            v.push('9' as u8);
        },
        Zones::TRG01 => {
            v.push('T' as u8);
            v.push('R' as u8);
            v.push('G' as u8);
            v.push('0' as u8);
            v.push('1' as u8);
        },
        Zones::TRG02 => {
            v.push('T' as u8);
            v.push('R' as u8);
            v.push('G' as u8);
            v.push('0' as u8);
            v.push('2' as u8);
        },
        Zones::TRG03 => {
            v.push('T' as u8);
            v.push('R' as u8);
            v.push('G' as u8);
            v.push('0' as u8);
            v.push('3' as u8);
        },
        Zones::TRG04 => {
            v.push('T' as u8);
            v.push('R' as u8);
            v.push('G' as u8);
            v.push('0' as u8);
            v.push('4' as u8);
        },
        Zones::WLY01 => {
            v.push('W' as u8);
            v.push('L' as u8);
            v.push('Y' as u8);
            v.push('0' as u8);
            v.push('1' as u8);
        },
        Zones::WLY02 => {
            v.push('W' as u8);
            v.push('L' as u8);
            v.push('Y' as u8);
            v.push('0' as u8);
            v.push('2' as u8);
        },
        }
        proof {
            assert(v@ =~= zone_code(*self));
        }
        v
    }

    /// Parses a wire code back into a zone; `None` for any other string.
    pub fn from_code(s: &Vec<u8>) -> (r: Option<Zones>)
        ensures
            r == spec_parse_zone(s@),
    {
        if s.len() == 5 {
            parse_zone5(s[0], s[1], s[2], s[3], s[4])
        } else {
            None
        }
    }

    /// Every zone, in declaration order.
    pub fn all() -> (r: Vec<Zones>)
        ensures
            r@ == all_zones_seq(),
    {
        let v = vec![
        Zones::JHR01,
        Zones::JHR02,
        Zones::JHR03,
        Zones::JHR04,
        Zones::KDH01,
        Zones::KDH02,
        Zones::KDH03,
        Zones::KDH04,
        Zones::KDH05,
        Zones::KDH06,
        Zones::KDH07,
        Zones::KTN01,
        Zones::KTN03,
        Zones::MLK01,
        Zones::NGS01,
        Zones::NGS02,
        Zones::PHG01,
        Zones::PHGO2,
        Zones::PHGO3,
        Zones::PHGO4,
        Zones::PHGO5,
        Zones::PHGO6,
        Zones::PLS01,
        Zones::PNG01,
        Zones::PRK01,
        Zones::PRK02,
        Zones::PRK03,
        Zones::PRK04,
        Zones::PRK05,
        Zones::PRK06,
        Zones::PRK07,
        Zones::SBH01,
        Zones::SBH02,
        Zones::SBH03,
        Zones::SBH04,
        Zones::SBH05,
        Zones::SBH06,
        Zones::SBH07,
        Zones::SBH08,
        Zones::SBH09,
        Zones::SGR01,
        Zones::SGR02,
        Zones::SGR03,
        Zones::SWK01,
        Zones::SWK02,
        Zones::SWK03,
        Zones::SWK04,
        Zones::SWK05,
        Zones::SWK06,
        Zones::SWK07,
        Zones::SWK08,
        Zones::SWK09,
        Zones::TRG01,
        Zones::TRG02,
        Zones::TRG03,
        Zones::TRG04,
        Zones::WLY01,
        Zones::WLY02,
        ];
        proof {
            assert(v@ =~= all_zones_seq());
        }
        v
    }
}

pub fn parse_zone5(a: u8, b: u8, c: u8, d: u8, e: u8) -> (r: Option<Zones>)
    ensures
        r == spec_parse_zone5(a, b, c, d, e),
{
    if a == ('J' as u8) && b == ('H' as u8) && c == ('R' as u8) && d == ('0' as u8) && e == ('1' as u8) {
        Some(Zones::JHR01)
    } else if a == ('J' as u8) && b == ('H' as u8) && c == ('R' as u8) && d == ('0' as u8) && e == ('2' as u8) {
        Some(Zones::JHR02)
    } else if a == ('J' as u8) && b == ('H' as u8) && c == ('R' as u8) && d == ('0' as u8) && e == ('3' as u8) {
        Some(Zones::JHR03)
    } else if a == ('J' as u8) && b == ('H' as u8) && c == ('R' as u8) && d == ('0' as u8) && e == ('4' as u8) {
        Some(Zones::JHR04)
    } else if a == ('K' as u8) && b == ('D' as u8) && c == ('H' as u8) && d == ('0' as u8) && e == ('1' as u8) {
        Some(Zones::KDH01)
    } else if a == ('K' as u8) && b == ('D' as u8) && c == ('H' as u8) && d == ('0' as u8) && e == ('2' as u8) {
        Some(Zones::KDH02)
    } else if a == ('K' as u8) && b == ('D' as u8) && c == ('H' as u8) && d == ('0' as u8) && e == ('3' as u8) {
        Some(Zones::KDH03)
    } else if a == ('K' as u8) && b == ('D' as u8) && c == ('H' as u8) && d == ('0' as u8) && e == ('4' as u8) {
        Some(Zones::KDH04)
    } else if a == ('K' as u8) && b == ('D' as u8) && c == ('H' as u8) && d == ('0' as u8) && e == ('5' as u8) {
        Some(Zones::KDH05)
    } else if a == ('K' as u8) && b == ('D' as u8) && c == ('H' as u8) && d == ('0' as u8) && e == ('6' as u8) {
        Some(Zones::KDH06)
    } else if a == ('K' as u8) && b == ('D' as u8) && c == ('H' as u8) && d == ('0' as u8) && e == ('7' as u8) {
        Some(Zones::KDH07)
    } else if a == ('K' as u8) && b == ('T' as u8) && c == ('N' as u8) && d == ('0' as u8) && e == ('1' as u8) {
        Some(Zones::KTN01)
    } else if a == ('K' as u8) && b == ('T' as u8) && c == ('N' as u8) && d == ('0' as u8) && e == ('3' as u8) {
        Some(Zones::KTN03)
    } else if a == ('M' as u8) && b == ('L' as u8) && c == ('K' as u8) && d == ('0' as u8) && e == ('1' as u8) {
        Some(Zones::MLK01)
    } else if a == ('N' as u8) && b == ('G' as u8) && c == ('S' as u8) && d == ('0' as u8) && e == ('1' as u8) {
        Some(Zones::NGS01)
    } else if a == ('N' as u8) && b == ('G' as u8) && c == ('S' as u8) && d == ('0' as u8) && e == ('2' as u8) {
        Some(Zones::NGS02)
    } else if a == ('P' as u8) && b == ('H' as u8) && c == ('G' as u8) && d == ('0' as u8) && e == ('1' as u8) {
        Some(Zones::PHG01)
    } else if a == ('P' as u8) && b == ('H' as u8) && c == ('G' as u8) && d == ('O' as u8) && e == ('2' as u8) {
        Some(Zones::PHGO2)
    } else if a == ('P' as u8) && b == ('H' as u8) && c == ('G' as u8) && d == ('O' as u8) && e == ('3' as u8) {
        Some(Zones::PHGO3)
    } else if a == ('P' as u8) && b == ('H' as u8) && c == ('G' as u8) && d == ('O' as u8) && e == ('4' as u8) {
        Some(Zones::PHGO4)
    } else if a == ('P' as u8) && b == ('H' as u8) && c == ('G' as u8) && d == ('O' as u8) && e == ('5' as u8) {
        Some(Zones::PHGO5)
    } else if a == ('P' as u8) && b == ('H' as u8) && c == ('G' as u8) && d == ('O' as u8) && e == ('6' as u8) {
        Some(Zones::PHGO6)
    } else if a == ('P' as u8) && b == ('L' as u8) && c == ('S' as u8) && d == ('0' as u8) && e == ('1' as u8) {
        Some(Zones::PLS01)
    } else if a == ('P' as u8) && b == ('N' as u8) && c == ('G' as u8) && d == ('0' as u8) && e == ('1' as u8) {
        Some(Zones::PNG01)
    } else if a == ('P' as u8) && b == ('R' as u8) && c == ('K' as u8) && d == ('0' as u8) && e == ('1' as u8) {
        Some(Zones::PRK01)
    } else if a == ('P' as u8) && b == ('R' as u8) && c == ('K' as u8) && d == ('0' as u8) && e == ('2' as u8) {
        Some(Zones::PRK02)
    } else if a == ('P' as u8) && b == ('R' as u8) && c == ('K' as u8) && d == ('0' as u8) && e == ('3' as u8) {
        Some(Zones::PRK03)
    } else if a == ('P' as u8) && b == ('R' as u8) && c == ('K' as u8) && d == ('0' as u8) && e == ('4' as u8) {
        Some(Zones::PRK04)
    } else if a == ('P' as u8) && b == ('R' as u8) && c == ('K' as u8) && d == ('0' as u8) && e == ('5' as u8) {
        Some(Zones::PRK05)
    } else if a == ('P' as u8) && b == ('R' as u8) && c == ('K' as u8) && d == ('0' as u8) && e == ('6' as u8) {
        Some(Zones::PRK06)
    } else if a == ('P' as u8) && b == ('R' as u8) && c == ('K' as u8) && d == ('0' as u8) && e == ('7' as u8) {
        Some(Zones::PRK07)
    } else if a == ('S' as u8) && b == ('B' as u8) && c == ('H' as u8) && d == ('0' as u8) && e == ('1' as u8) {
        Some(Zones::SBH01)
    } else if a == ('S' as u8) && b == ('B' as u8) && c == ('H' as u8) && d == ('0' as u8) && e == ('2' as u8) {
        Some(Zones::SBH02)
    } else if a == ('S' as u8) && b == ('B' as u8) && c == ('H' as u8) && d == ('0' as u8) && e == ('3' as u8) {
        Some(Zones::SBH03)
    } else if a == ('S' as u8) && b == ('B' as u8) && c == ('H' as u8) && d == ('0' as u8) && e == ('4' as u8) {
        Some(Zones::SBH04)
    } else if a == ('S' as u8) && b == ('B' as u8) && c == ('H' as u8) && d == ('0' as u8) && e == ('5' as u8) {
        Some(Zones::SBH05)
    } else if a == ('S' as u8) && b == ('B' as u8) && c == ('H' as u8) && d == ('0' as u8) && e == ('6' as u8) {
        Some(Zones::SBH06)
    } else if a == ('S' as u8) && b == ('B' as u8) && c == ('H' as u8) && d == ('0' as u8) && e == ('7' as u8) {
        Some(Zones::SBH07)
    } else if a == ('S' as u8) && b == ('B' as u8) && c == ('H' as u8) && d == ('0' as u8) && e == ('8' as u8) {
        Some(Zones::SBH08)
    } else if a == ('S' as u8) && b == ('B' as u8) && c == ('H' as u8) && d == ('0' as u8) && e == ('9' as u8) {
        Some(Zones::SBH09)
    } else if a == ('S' as u8) && b == ('G' as u8) && c == ('R' as u8) && d == ('0' as u8) && e == ('1' as u8) {
        Some(Zones::SGR01)
    } else if a == ('S' as u8) && b == ('G' as u8) && c == ('R' as u8) && d == ('0' as u8) && e == ('2' as u8) {
        Some(Zones::SGR02)
    } else if a == ('S' as u8) && b == ('G' as u8) && c == ('R' as u8) && d == ('0' as u8) && e == ('3' as u8) {
        Some(Zones::SGR03)
    } else if a == ('S' as u8) && b == ('W' as u8) && c == ('K' as u8) && d == ('0' as u8) && e == ('1' as u8) {
        Some(Zones::SWK01)
    } else if a == ('S' as u8) && b == ('W' as u8) && c == ('K' as u8) && d == ('0' as u8) && e == ('2' as u8) {
        Some(Zones::SWK02)
    } else if a == ('S' as u8) && b == ('W' as u8) && c == ('K' as u8) && d == ('0' as u8) && e == ('3' as u8) {
        Some(Zones::SWK03)
    } else if a == ('S' as u8) && b == ('W' as u8) && c == ('K' as u8) && d == ('0' as u8) && e == ('4' as u8) {
        Some(Zones::SWK04)
    } else if a == ('S' as u8) && b == ('W' as u8) && c == ('K' as u8) && d == ('0' as u8) && e == ('5' as u8) {
        Some(Zones::SWK05)
    } else if a == ('S' as u8) && b == ('W' as u8) && c == ('K' as u8) && d == ('0' as u8) && e == ('6' as u8) {
        Some(Zones::SWK06)
    } else if a == ('S' as u8) && b == ('W' as u8) && c == ('K' as u8) && d == ('0' as u8) && e == ('7' as u8) {
        Some(Zones::SWK07)
    } else if a == ('S' as u8) && b == ('W' as u8) && c == ('K' as u8) && d == ('0' as u8) && e == ('8' as u8) {
        Some(Zones::SWK08)
    } else if a == ('S' as u8) && b == ('W' as u8) && c == ('K' as u8) && d == ('0' as u8) && e == ('9' as u8) {
        Some(Zones::SWK09)
    } else if a == ('T' as u8) && b == ('R' as u8) && c == ('G' as u8) && d == ('0' as u8) && e == ('1' as u8) {
        Some(Zones::TRG01)
    } else if a == ('T' as u8) && b == ('R' as u8) && c == ('G' as u8) && d == ('0' as u8) && e == ('2' as u8) {
        Some(Zones::TRG02)
    } else if a == ('T' as u8) && b == ('R' as u8) && c == ('G' as u8) && d == ('0' as u8) && e == ('3' as u8) {
        Some(Zones::TRG03)
    } else if a == ('T' as u8) && b == ('R' as u8) && c == ('G' as u8) && d == ('0' as u8) && e == ('4' as u8) {
        Some(Zones::TRG04)
    } else if a == ('W' as u8) && b == ('L' as u8) && c == ('Y' as u8) && d == ('0' as u8) && e == ('1' as u8) {
        Some(Zones::WLY01)
    } else if a == ('W' as u8) && b == ('L' as u8) && c == ('Y' as u8) && d == ('0' as u8) && e == ('2' as u8) {
        Some(Zones::WLY02)
    } else {
        None
    }
}

/// A zone code parses back to the zone it spells: the code is a faithful
/// key for the cache file.
pub proof fn lemma_zone_code_rt(z: Zones)
    ensures
        zone_code(z).len() == 5,
        spec_parse_zone(zone_code(z)) == Some(z),
{
    match z {
        Zones::JHR01 => {
            assert(zone_code(z) =~= seq!['J' as u8, 'H' as u8, 'R' as u8, '0' as u8, '1' as u8]);
        },
        Zones::JHR02 => {
            assert(zone_code(z) =~= seq!['J' as u8, 'H' as u8, 'R' as u8, '0' as u8, '2' as u8]);
        },
        Zones::JHR03 => {
            assert(zone_code(z) =~= seq!['J' as u8, 'H' as u8, 'R' as u8, '0' as u8, '3' as u8]);
        },
        Zones::JHR04 => {
            assert(zone_code(z) =~= seq!['J' as u8, 'H' as u8, 'R' as u8, '0' as u8, '4' as u8]);
        },
        Zones::KDH01 => {
            assert(zone_code(z) =~= seq!['K' as u8, 'D' as u8, 'H' as u8, '0' as u8, '1' as u8]);
        },
        Zones::KDH02 => {
            assert(zone_code(z) =~= seq!['K' as u8, 'D' as u8, 'H' as u8, '0' as u8, '2' as u8]);
        },
        Zones::KDH03 => {
            assert(zone_code(z) =~= seq!['K' as u8, 'D' as u8, 'H' as u8, '0' as u8, '3' as u8]);
        },
        Zones::KDH04 => {
            assert(zone_code(z) =~= seq!['K' as u8, 'D' as u8, 'H' as u8, '0' as u8, '4' as u8]);
        },
        Zones::KDH05 => {
            assert(zone_code(z) =~= seq!['K' as u8, 'D' as u8, 'H' as u8, '0' as u8, '5' as u8]);
        },
        Zones::KDH06 => {
            assert(zone_code(z) =~= seq!['K' as u8, 'D' as u8, 'H' as u8, '0' as u8, '6' as u8]);
        },
        Zones::KDH07 => {
            assert(zone_code(z) =~= seq!['K' as u8, 'D' as u8, 'H' as u8, '0' as u8, '7' as u8]);
        },
        Zones::KTN01 => {
            assert(zone_code(z) =~= seq!['K' as u8, 'T' as u8, 'N' as u8, '0' as u8, '1' as u8]);
        },
        Zones::KTN03 => {
            assert(zone_code(z) =~= seq!['K' as u8, 'T' as u8, 'N' as u8, '0' as u8, '3' as u8]);
        },
        Zones::MLK01 => {
            assert(zone_code(z) =~= seq!['M' as u8, 'L' as u8, 'K' as u8, '0' as u8, '1' as u8]);
        },
        Zones::NGS01 => {
            assert(zone_code(z) =~= seq!['N' as u8, 'G' as u8, 'S' as u8, '0' as u8, '1' as u8]);
        },
        Zones::NGS02 => {
            assert(zone_code(z) =~= seq!['N' as u8, 'G' as u8, 'S' as u8, '0' as u8, '2' as u8]);
        },
        Zones::PHG01 => {
            assert(zone_code(z) =~= seq!['P' as u8, 'H' as u8, 'G' as u8, '0' as u8, '1' as u8]);
        },
        Zones::PHGO2 => {
            assert(zone_code(z) =~= seq!['P' as u8, 'H' as u8, 'G' as u8, 'O' as u8, '2' as u8]);
        },
        Zones::PHGO3 => {
            assert(zone_code(z) =~= seq!['P' as u8, 'H' as u8, 'G' as u8, 'O' as u8, '3' as u8]);
        },
        Zones::PHGO4 => {
            assert(zone_code(z) =~= seq!['P' as u8, 'H' as u8, 'G' as u8, 'O' as u8, '4' as u8]);
        },
        Zones::PHGO5 => {
            assert(zone_code(z) =~= seq!['P' as u8, 'H' as u8, 'G' as u8, 'O' as u8, '5' as u8]);
        },
        Zones::PHGO6 => {
            assert(zone_code(z) =~= seq!['P' as u8, 'H' as u8, 'G' as u8, 'O' as u8, '6' as u8]);
        },
        Zones::PLS01 => {
            assert(zone_code(z) =~= seq!['P' as u8, 'L' as u8, 'S' as u8, '0' as u8, '1' as u8]);
        },
        Zones::PNG01 => {
            assert(zone_code(z) =~= seq!['P' as u8, 'N' as u8, 'G' as u8, '0' as u8, '1' as u8]);
        },
        Zones::PRK01 => {
            assert(zone_code(z) =~= seq!['P' as u8, 'R' as u8, 'K' as u8, '0' as u8, '1' as u8]);
        },
        Zones::PRK02 => {
            assert(zone_code(z) =~= seq!['P' as u8, 'R' as u8, 'K' as u8, '0' as u8, '2' as u8]);
        },
        Zones::PRK03 => {
            assert(zone_code(z) =~= seq!['P' as u8, 'R' as u8, 'K' as u8, '0' as u8, '3' as u8]);
        },
        Zones::PRK04 => {
            assert(zone_code(z) =~= seq!['P' as u8, 'R' as u8, 'K' as u8, '0' as u8, '4' as u8]);
        },
        Zones::PRK05 => {
            assert(zone_code(z) =~= seq!['P' as u8, 'R' as u8, 'K' as u8, '0' as u8, '5' as u8]);
        },
        Zones::PRK06 => {
            assert(zone_code(z) =~= seq!['P' as u8, 'R' as u8, 'K' as u8, '0' as u8, '6' as u8]);
        },
        Zones::PRK07 => {
            assert(zone_code(z) =~= seq!['P' as u8, 'R' as u8, 'K' as u8, '0' as u8, '7' as u8]);
        },
        Zones::SBH01 => {
            assert(zone_code(z) =~= seq!['S' as u8, 'B' as u8, 'H' as u8, '0' as u8, '1' as u8]);
        },
        Zones::SBH02 => {
            assert(zone_code(z) =~= seq!['S' as u8, 'B' as u8, 'H' as u8, '0' as u8, '2' as u8]);
        },
        Zones::SBH03 => {
            assert(zone_code(z) =~= seq!['S' as u8, 'B' as u8, 'H' as u8, '0' as u8, '3' as u8]);
        },
        Zones::SBH04 => {
            assert(zone_code(z) =~= seq!['S' as u8, 'B' as u8, 'H' as u8, '0' as u8, '4' as u8]);
        },
        Zones::SBH05 => {
            assert(zone_code(z) =~= seq!['S' as u8, 'B' as u8, 'H' as u8, '0' as u8, '5' as u8]);
        },
        Zones::SBH06 => {
            assert(zone_code(z) =~= seq!['S' as u8, 'B' as u8, 'H' as u8, '0' as u8, '6' as u8]);
        },
        Zones::SBH07 => {
            assert(zone_code(z) =~= seq!['S' as u8, 'B' as u8, 'H' as u8, '0' as u8, '7' as u8]);
        },
        Zones::SBH08 => {
            assert(zone_code(z) =~= seq!['S' as u8, 'B' as u8, 'H' as u8, '0' as u8, '8' as u8]);
        },
        Zones::SBH09 => {
            assert(zone_code(z) =~= seq!['S' as u8, 'B' as u8, 'H' as u8, '0' as u8, '9' as u8]);
        },
        Zones::SGR01 => {
            assert(zone_code(z) =~= seq!['S' as u8, 'G' as u8, 'R' as u8, '0' as u8, '1' as u8]);
        },
        Zones::SGR02 => {
            assert(zone_code(z) =~= seq!['S' as u8, 'G' as u8, 'R' as u8, '0' as u8, '2' as u8]);
        },
        Zones::SGR03 => {
            assert(zone_code(z) =~= seq!['S' as u8, 'G' as u8, 'R' as u8, '0' as u8, '3' as u8]);
        },
        Zones::SWK01 => {
            assert(zone_code(z) =~= seq!['S' as u8, 'W' as u8, 'K' as u8, '0' as u8, '1' as u8]);
        },
        Zones::SWK02 => {
            assert(zone_code(z) =~= seq!['S' as u8, 'W' as u8, 'K' as u8, '0' as u8, '2' as u8]);
        },
        Zones::SWK03 => {
            assert(zone_code(z) =~= seq!['S' as u8, 'W' as u8, 'K' as u8, '0' as u8, '3' as u8]);
        },
        Zones::SWK04 => {
            assert(zone_code(z) =~= seq!['S' as u8, 'W' as u8, 'K' as u8, '0' as u8, '4' as u8]);
        },
        Zones::SWK05 => {
            assert(zone_code(z) =~= seq!['S' as u8, 'W' as u8, 'K' as u8, '0' as u8, '5' as u8]);
        },
        Zones::SWK06 => {
            assert(zone_code(z) =~= seq!['S' as u8, 'W' as u8, 'K' as u8, '0' as u8, '6' as u8]);
        },
        Zones::SWK07 => {
            assert(zone_code(z) =~= seq!['S' as u8, 'W' as u8, 'K' as u8, '0' as u8, '7' as u8]);
        },
        Zones::SWK08 => {
            assert(zone_code(z) =~= seq!['S' as u8, 'W' as u8, 'K' as u8, '0' as u8, '8' as u8]);
        },
        Zones::SWK09 => {
            assert(zone_code(z) =~= seq!['S' as u8, 'W' as u8, 'K' as u8, '0' as u8, '9' as u8]);
        },
        Zones::TRG01 => {
            assert(zone_code(z) =~= seq!['T' as u8, 'R' as u8, 'G' as u8, '0' as u8, '1' as u8]);
        },
        Zones::TRG02 => {
            assert(zone_code(z) =~= seq!['T' as u8, 'R' as u8, 'G' as u8, '0' as u8, '2' as u8]);
        },
        Zones::TRG03 => {
            assert(zone_code(z) =~= seq!['T' as u8, 'R' as u8, 'G' as u8, '0' as u8, '3' as u8]);
        },
        Zones::TRG04 => {
            assert(zone_code(z) =~= seq!['T' as u8, 'R' as u8, 'G' as u8, '0' as u8, '4' as u8]);
        },
        Zones::WLY01 => {
            assert(zone_code(z) =~= seq!['W' as u8, 'L' as u8, 'Y' as u8, '0' as u8, '1' as u8]);
        },
        Zones::WLY02 => {
            assert(zone_code(z) =~= seq!['W' as u8, 'L' as u8, 'Y' as u8, '0' as u8, '2' as u8]);
        },
    }
}

/// The designated default zone.
impl Default for Zones {
    fn default() -> (r: Self)
        ensures
            r == Zones::SGR01,
    {
        Zones::SGR01
    }
}

} // verus!
