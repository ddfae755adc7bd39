//! The DNS resource-record type enumeration and its numeric encoding.

use vstd::prelude::*;

verus! {

/// Resource-record types from the IANA registry.  The most commonly served
/// records are A (IPv4), AAAA (IPv6), CNAME, NS, MX, TXT, SOA and PTR; the
/// rest are carried as opaque record data by the codec.
#[derive(Clone, Copy, PartialEq, Eq, Structural, Debug)]
pub enum DnsRRType {
    /// Type 1
    A,
    /// Type 2
    NS,
    /// Type 3
    MD,
    /// Type 4
    MF,
    /// Type 5
    CNAME,
    /// Type 6
    SOA,
    /// Type 7
    MB,
    /// Type 8
    MG,
    /// Type 9
    MR,
    /// Type 10
    NULL,
    /// Type 11
    WKS,
    /// Type 12
    PTR,
    /// Type 13
    HINFO,
    /// Type 14
    MINFO,
    /// Type 15
    MX,
    /// Type 16
    TXT,
    /// Type 17
    RP,
    /// Type 18
    AFSDB,
    /// Type 19
    X25,
    /// Type 20
    ISDN,
    /// Type 21
    RT,
    /// Type 22
    NSAP,
    /// Type 23
    NSAPPTR,
    /// Type 24
    SIG,
    /// Type 25
    KEY,
    /// Type 26
    PX,
    /// Type 27
    GPOS,
    /// Type 28
    AAAA,
    /// Type 29
    LOC,
    /// Type 30
    NXT,
    /// Type 31
    EID,
    /// Type 32
    NIMLOC,
    /// Type 33
    SRV,
    /// Type 34
    ATMA,
    /// Type 35
    NAPTR,
    /// Type 36
    KX,
    /// Type 37
    CERT,
    /// Type 38
    A6,
    /// Type 39
    DNAME,
    /// Type 40
    SINK,
    /// Type 41
    OPT,
    /// Type 42
    APL,
    /// Type 43
    DS,
    /// Type 44
    SSHFP,
    /// Type 45
    IPSECKEY,
    /// Type 46
    RRSIG,
    /// Type 47
    NSEC,
    /// Type 48
    DNSKEY,
    /// Type 49
    DHCID,
    /// Type 50
    NSEC3,
    /// Type 51
    NSEC3PARAM,
    /// Type 52
    TLSA,
    /// Type 53
    SMIMEA,
    /// Type 55
    HIP,
    /// Type 56
    NINFO,
    /// Type 57
    RKEY,
    /// Type 58
    TALINK,
    /// Type 59
    CDS,
    /// Type 60
    CDNSKEY,
    /// Type 61
    OPENPGPKEY,
    /// Type 62
    CSYNC,
    /// Type 63
    ZONEMD,
    /// Type 99
    SPF,
    /// Type 100
    UINFO,
    /// Type 101
    UID,
    /// Type 102
    GID,
    /// Type 103
    UNSPEC,
    /// Type 104
    NID,
    /// Type 105
    L32,
    /// Type 106
    L64,
    /// Type 107
    LP,
    /// Type 108
    EUI4,
    /// Type 109
    EUI64,
    /// Type 249
    TKEY,
    /// Type 250
    TSIG,
    /// Type 251
    IXFR,
    /// Type 252
    AXF,
    /// Type 253
    MAILB,
    /// Type 254
    MAILA,
    /// Type 255
    ANY,
    /// Type 256
    URI,
    /// Type 257
    CAA,
    /// Type 258
    AVC,
    /// Type 259
    DOA,
    /// Type 260
    AMTRELAY,
    /// Type 32768
    TA,
    /// Type 32769
    DLV,
}

/// The numeric wire value of a resource-record type.
pub open spec fn rrtype_num(t: DnsRRType) -> u16 {
    match t {
        DnsRRType::A => 1,
        DnsRRType::NS => 2,
        DnsRRType::MD => 3,
        DnsRRType::MF => 4,
        DnsRRType::CNAME => 5,
        DnsRRType::SOA => 6,
        DnsRRType::MB => 7,
        DnsRRType::MG => 8,
        DnsRRType::MR => 9,
        DnsRRType::NULL => 10,
        DnsRRType::WKS => 11,
        DnsRRType::PTR => 12,
        DnsRRType::HINFO => 13,
        DnsRRType::MINFO => 14,
        DnsRRType::MX => 15,
        DnsRRType::TXT => 16,
        DnsRRType::RP => 17,
        DnsRRType::AFSDB => 18,
        DnsRRType::X25 => 19,
        DnsRRType::ISDN => 20,
        DnsRRType::RT => 21,
        DnsRRType::NSAP => 22,
        DnsRRType::NSAPPTR => 23,
        DnsRRType::SIG => 24,
        DnsRRType::KEY => 25,
        DnsRRType::PX => 26,
        DnsRRType::GPOS => 27,
        DnsRRType::AAAA => 28,
        DnsRRType::LOC => 29,
        DnsRRType::NXT => 30,
        DnsRRType::EID => 31,
        DnsRRType::NIMLOC => 32,
        DnsRRType::SRV => 33,
        DnsRRType::ATMA => 34,
        DnsRRType::NAPTR => 35,
        DnsRRType::KX => 36,
        DnsRRType::CERT => 37,
        DnsRRType::A6 => 38,
        DnsRRType::DNAME => 39,
        DnsRRType::SINK => 40,
        DnsRRType::OPT => 41,
        DnsRRType::APL => 42,
        DnsRRType::DS => 43,
        DnsRRType::SSHFP => 44,
        DnsRRType::IPSECKEY => 45,
        DnsRRType::RRSIG => 46,
        DnsRRType::NSEC => 47,
        DnsRRType::DNSKEY => 48,
        DnsRRType::DHCID => 49,
        DnsRRType::NSEC3 => 50,
        DnsRRType::NSEC3PARAM => 51,
        DnsRRType::TLSA => 52,
        DnsRRType::SMIMEA => 53,
        DnsRRType::HIP => 55,
        DnsRRType::NINFO => 56,
        DnsRRType::RKEY => 57,
        DnsRRType::TALINK => 58,
        DnsRRType::CDS => 59,
        DnsRRType::CDNSKEY => 60,
        DnsRRType::OPENPGPKEY => 61,
        DnsRRType::CSYNC => 62,
        DnsRRType::ZONEMD => 63,
        DnsRRType::SPF => 99,
        DnsRRType::UINFO => 100,
        DnsRRType::UID => 101,
        DnsRRType::GID => 102,
        DnsRRType::UNSPEC => 103,
        DnsRRType::NID => 104,
        DnsRRType::L32 => 105,
        DnsRRType::L64 => 106,
        DnsRRType::LP => 107,
        DnsRRType::EUI4 => 108,
        DnsRRType::EUI64 => 109,
        DnsRRType::TKEY => 249,
        DnsRRType::TSIG => 250,
        DnsRRType::IXFR => 251,
        DnsRRType::AXF => 252,
        DnsRRType::MAILB => 253,
        DnsRRType::MAILA => 254,
        DnsRRType::ANY => 255,
        DnsRRType::URI => 256,
        DnsRRType::CAA => 257,
        DnsRRType::AVC => 258,
        DnsRRType::DOA => 259,
        DnsRRType::AMTRELAY => 260,
        DnsRRType::TA => 32768,
        DnsRRType::DLV => 32769,
    }
}

/// The resource-record type a numeric wire value stands for, if any.
pub open spec fn rrtype_of_num(num: u16) -> Option<DnsRRType> {
    match num {
        1 => Some(DnsRRType::A),
        2 => Some(DnsRRType::NS),
        3 => Some(DnsRRType::MD),
        4 => Some(DnsRRType::MF),
        5 => Some(DnsRRType::CNAME),
        6 => Some(DnsRRType::SOA),
        7 => Some(DnsRRType::MB),
        8 => Some(DnsRRType::MG),
        9 => Some(DnsRRType::MR),
        10 => Some(DnsRRType::NULL),
        11 => Some(DnsRRType::WKS),
        12 => Some(DnsRRType::PTR),
        13 => Some(DnsRRType::HINFO),
        14 => Some(DnsRRType::MINFO),
        15 => Some(DnsRRType::MX),
        16 => Some(DnsRRType::TXT),
        17 => Some(DnsRRType::RP),
        18 => Some(DnsRRType::AFSDB),
        19 => Some(DnsRRType::X25),
        20 => Some(DnsRRType::ISDN),
        21 => Some(DnsRRType::RT),
        22 => Some(DnsRRType::NSAP),
        23 => Some(DnsRRType::NSAPPTR),
        24 => Some(DnsRRType::SIG),
        25 => Some(DnsRRType::KEY),
        26 => Some(DnsRRType::PX),
        27 => Some(DnsRRType::GPOS),
        28 => Some(DnsRRType::AAAA),
        29 => Some(DnsRRType::LOC),
        30 => Some(DnsRRType::NXT),
        31 => Some(DnsRRType::EID),
        32 => Some(DnsRRType::NIMLOC),
        33 => Some(DnsRRType::SRV),
        34 => Some(DnsRRType::ATMA),
        35 => Some(DnsRRType::NAPTR),
        36 => Some(DnsRRType::KX),
        37 => Some(DnsRRType::CERT),
        38 => Some(DnsRRType::A6),
        39 => Some(DnsRRType::DNAME),
        40 => Some(DnsRRType::SINK),
        41 => Some(DnsRRType::OPT),
        42 => Some(DnsRRType::APL),
        43 => Some(DnsRRType::DS),
        44 => Some(DnsRRType::SSHFP),
        45 => Some(DnsRRType::IPSECKEY),
        46 => Some(DnsRRType::RRSIG),
        47 => Some(DnsRRType::NSEC),
        48 => Some(DnsRRType::DNSKEY),
        49 => Some(DnsRRType::DHCID),
        50 => Some(DnsRRType::NSEC3),
        51 => Some(DnsRRType::NSEC3PARAM),
        52 => Some(DnsRRType::TLSA),
        53 => Some(DnsRRType::SMIMEA),
        55 => Some(DnsRRType::HIP),
        56 => Some(DnsRRType::NINFO),
        57 => Some(DnsRRType::RKEY),
        58 => Some(DnsRRType::TALINK),
        59 => Some(DnsRRType::CDS),
        60 => Some(DnsRRType::CDNSKEY),
        61 => Some(DnsRRType::OPENPGPKEY),
        62 => Some(DnsRRType::CSYNC),
        63 => Some(DnsRRType::ZONEMD),
        99 => Some(DnsRRType::SPF),
        100 => Some(DnsRRType::UINFO),
        101 => Some(DnsRRType::UID),
        102 => Some(DnsRRType::GID),
        103 => Some(DnsRRType::UNSPEC),
        104 => Some(DnsRRType::NID),
        105 => Some(DnsRRType::L32),
        106 => Some(DnsRRType::L64),
        107 => Some(DnsRRType::LP),
        108 => Some(DnsRRType::EUI4),
        109 => Some(DnsRRType::EUI64),
        249 => Some(DnsRRType::TKEY),
        250 => Some(DnsRRType::TSIG),
        251 => Some(DnsRRType::IXFR),
        252 => Some(DnsRRType::AXF),
        253 => Some(DnsRRType::MAILB),
        254 => Some(DnsRRType::MAILA),
        255 => Some(DnsRRType::ANY),
        256 => Some(DnsRRType::URI),
        257 => Some(DnsRRType::CAA),
        258 => Some(DnsRRType::AVC),
        259 => Some(DnsRRType::DOA),
        260 => Some(DnsRRType::AMTRELAY),
        32768 => Some(DnsRRType::TA),
        32769 => Some(DnsRRType::DLV),
        _ => None,
    }
}

impl DnsRRType {
    /// Decode a numeric wire value, failing on unassigned values.
    pub fn from_u16(num: u16) -> (r: Option<DnsRRType>)
        ensures
            r == rrtype_of_num(num),
    {
        match num {
            1 => Some(DnsRRType::A),
            2 => Some(DnsRRType::NS),
            3 => Some(DnsRRType::MD),
            4 => Some(DnsRRType::MF),
            5 => Some(DnsRRType::CNAME),
            6 => Some(DnsRRType::SOA),
            7 => Some(DnsRRType::MB),
            8 => Some(DnsRRType::MG),
            9 => Some(DnsRRType::MR),
            10 => Some(DnsRRType::NULL),
            11 => Some(DnsRRType::WKS),
            12 => Some(DnsRRType::PTR),
            13 => Some(DnsRRType::HINFO),
            14 => Some(DnsRRType::MINFO),
            15 => Some(DnsRRType::MX),
            16 => Some(DnsRRType::TXT),
            17 => Some(DnsRRType::RP),
            18 => Some(DnsRRType::AFSDB),
            19 => Some(DnsRRType::X25),
            20 => Some(DnsRRType::ISDN),
            21 => Some(DnsRRType::RT),
            22 => Some(DnsRRType::NSAP),
            23 => Some(DnsRRType::NSAPPTR),
            24 => Some(DnsRRType::SIG),
            25 => Some(DnsRRType::KEY),
            26 => Some(DnsRRType::PX),
            27 => Some(DnsRRType::GPOS),
            28 => Some(DnsRRType::AAAA),
            29 => Some(DnsRRType::LOC),
            30 => Some(DnsRRType::NXT),
            31 => Some(DnsRRType::EID),
            32 => Some(DnsRRType::NIMLOC),
            33 => Some(DnsRRType::SRV),
            34 => Some(DnsRRType::ATMA),
            35 => Some(DnsRRType::NAPTR),
            36 => Some(DnsRRType::KX),
            37 => Some(DnsRRType::CERT),
            38 => Some(DnsRRType::A6),
            39 => Some(DnsRRType::DNAME),
            40 => Some(DnsRRType::SINK),
            41 => Some(DnsRRType::OPT),
            42 => Some(DnsRRType::APL),
            43 => Some(DnsRRType::DS),
            44 => Some(DnsRRType::SSHFP),
            45 => Some(DnsRRType::IPSECKEY),
            46 => Some(DnsRRType::RRSIG),
            47 => Some(DnsRRType::NSEC),
            48 => Some(DnsRRType::DNSKEY),
            49 => Some(DnsRRType::DHCID),
            50 => Some(DnsRRType::NSEC3),
            51 => Some(DnsRRType::NSEC3PARAM),
            52 => Some(DnsRRType::TLSA),
            53 => Some(DnsRRType::SMIMEA),
            55 => Some(DnsRRType::HIP),
            56 => Some(DnsRRType::NINFO),
            57 => Some(DnsRRType::RKEY),
            58 => Some(DnsRRType::TALINK),
            59 => Some(DnsRRType::CDS),
            60 => Some(DnsRRType::CDNSKEY),
            61 => Some(DnsRRType::OPENPGPKEY),
            62 => Some(DnsRRType::CSYNC),
            63 => Some(DnsRRType::ZONEMD),
            99 => Some(DnsRRType::SPF),
            100 => Some(DnsRRType::UINFO),
            101 => Some(DnsRRType::UID),
            102 => Some(DnsRRType::GID),
            103 => Some(DnsRRType::UNSPEC),
            104 => Some(DnsRRType::NID),
            105 => Some(DnsRRType::L32),
            106 => Some(DnsRRType::L64),
            107 => Some(DnsRRType::LP),
            108 => Some(DnsRRType::EUI4),
            109 => Some(DnsRRType::EUI64),
            249 => Some(DnsRRType::TKEY),
            250 => Some(DnsRRType::TSIG),
            251 => Some(DnsRRType::IXFR),
            252 => Some(DnsRRType::AXF),
            253 => Some(DnsRRType::MAILB),
            254 => Some(DnsRRType::MAILA),
            255 => Some(DnsRRType::ANY),
            256 => Some(DnsRRType::URI),
            257 => Some(DnsRRType::CAA),
            258 => Some(DnsRRType::AVC),
            259 => Some(DnsRRType::DOA),
            260 => Some(DnsRRType::AMTRELAY),
            32768 => Some(DnsRRType::TA),
            32769 => Some(DnsRRType::DLV),
            _ => None,
        }
    }

    /// The numeric wire value of this type.
    pub fn to_u16(&self) -> (r: u16)
        ensures
            r == rrtype_num(*self),
    {
        match self {
            DnsRRType::A => 1,
            DnsRRType::NS => 2,
            DnsRRType::MD => 3,
            DnsRRType::MF => 4,
            DnsRRType::CNAME => 5,
            DnsRRType::SOA => 6,
            DnsRRType::MB => 7,
            DnsRRType::MG => 8,
            DnsRRType::MR => 9,
            DnsRRType::NULL => 10,
            DnsRRType::WKS => 11,
            DnsRRType::PTR => 12,
            DnsRRType::HINFO => 13,
            DnsRRType::MINFO => 14,
            DnsRRType::MX => 15,
            DnsRRType::TXT => 16,
            DnsRRType::RP => 17,
            DnsRRType::AFSDB => 18,
            DnsRRType::X25 => 19,
            DnsRRType::ISDN => 20,
            DnsRRType::RT => 21,
            DnsRRType::NSAP => 22,
            DnsRRType::NSAPPTR => 23,
            DnsRRType::SIG => 24,
            DnsRRType::KEY => 25,
            DnsRRType::PX => 26,
            DnsRRType::GPOS => 27,
            DnsRRType::AAAA => 28,
            DnsRRType::LOC => 29,
            DnsRRType::NXT => 30,
            DnsRRType::EID => 31,
            DnsRRType::NIMLOC => 32,
            DnsRRType::SRV => 33,
            DnsRRType::ATMA => 34,
            DnsRRType::NAPTR => 35,
            DnsRRType::KX => 36,
            DnsRRType::CERT => 37,
            DnsRRType::A6 => 38,
            DnsRRType::DNAME => 39,
            DnsRRType::SINK => 40,
            DnsRRType::OPT => 41,
            DnsRRType::APL => 42,
            DnsRRType::DS => 43,
            DnsRRType::SSHFP => 44,
            DnsRRType::IPSECKEY => 45,
            DnsRRType::RRSIG => 46,
            DnsRRType::NSEC => 47,
            DnsRRType::DNSKEY => 48,
            DnsRRType::DHCID => 49,
            DnsRRType::NSEC3 => 50,
            DnsRRType::NSEC3PARAM => 51,
            DnsRRType::TLSA => 52,
            DnsRRType::SMIMEA => 53,
            DnsRRType::HIP => 55,
            DnsRRType::NINFO => 56,
            DnsRRType::RKEY => 57,
            DnsRRType::TALINK => 58,
            DnsRRType::CDS => 59,
            DnsRRType::CDNSKEY => 60,
            DnsRRType::OPENPGPKEY => 61,
            DnsRRType::CSYNC => 62,
            DnsRRType::ZONEMD => 63,
            DnsRRType::SPF => 99,
            DnsRRType::UINFO => 100,
            DnsRRType::UID => 101,
            DnsRRType::GID => 102,
            DnsRRType::UNSPEC => 103,
            DnsRRType::NID => 104,
            DnsRRType::L32 => 105,
            DnsRRType::L64 => 106,
            DnsRRType::LP => 107,
            DnsRRType::EUI4 => 108,
            DnsRRType::EUI64 => 109,
            DnsRRType::TKEY => 249,
            DnsRRType::TSIG => 250,
            DnsRRType::IXFR => 251,
            DnsRRType::AXF => 252,
            DnsRRType::MAILB => 253,
            DnsRRType::MAILA => 254,
            DnsRRType::ANY => 255,
            DnsRRType::URI => 256,
            DnsRRType::CAA => 257,
            DnsRRType::AVC => 258,
            DnsRRType::DOA => 259,
            DnsRRType::AMTRELAY => 260,
            DnsRRType::TA => 32768,
            DnsRRType::DLV => 32769,
        }
    }
}

/// Numeric encoding and decoding of resource-record types are inverses.
pub proof fn lemma_rrtype_round_trip(t: DnsRRType)
    ensures
        rrtype_of_num(rrtype_num(t)) == Some(t),
{
}

} // verus!
