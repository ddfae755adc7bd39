//! Typed record data: the payload of a resource record, dispatched on the
//! record's type.

use vstd::prelude::*;

use crate::bigendians;
use crate::errors::DnsFormatError;
use crate::ip::{Ipv4Address, Ipv6Address};
use crate::names;
use crate::rrtype::DnsRRType;

verus! {

/// The payload of a resource record.
///
/// Types without a dedicated variant are preserved verbatim in `Other` so
/// that they survive a decode/encode round trip.
#[derive(Clone, PartialEq, Eq, Debug)]
pub enum DnsRecordData {
    /// An IPv4 host address (type A)
    A(Ipv4Address),
    /// An authoritative nameserver's name (type NS)
    NS(Vec<Vec<u8>>),
    /// An IPv6 host address (type AAAA)
    AAAA(Ipv6Address),
    /// The canonical name of an alias (type CNAME)
    CNAME(Vec<Vec<u8>>),
    /// The raw payload of any other record type
    Other(Vec<u8>),
}

/// The mathematical value of record data.
#[verifier::ext_equal]
pub ghost enum RDataModel {
    A(Ipv4Address),
    NS(Seq<Seq<u8>>),
    AAAA(Ipv6Address),
    CNAME(Seq<Seq<u8>>),
    Other(Seq<u8>),
}

impl View for DnsRecordData {
    type V = RDataModel;

    open spec fn view(&self) -> RDataModel {
        match self {
            DnsRecordData::A(ip) => RDataModel::A(*ip),
            DnsRecordData::NS(name) => RDataModel::NS(name.deep_view()),
            DnsRecordData::AAAA(ip) => RDataModel::AAAA(*ip),
            DnsRecordData::CNAME(name) => RDataModel::CNAME(name.deep_view()),
            DnsRecordData::Other(bytes) => RDataModel::Other(bytes.deep_view()),
        }
    }
}

impl DeepView for DnsRecordData {
    type V = RDataModel;

    open spec fn deep_view(&self) -> RDataModel {
        self.view()
    }
}

/// Record data whose names can be written back to the wire.
pub open spec fn wf_rdata(d: RDataModel) -> bool {
    match d {
        RDataModel::NS(name) => names::wf_name(name),
        RDataModel::CNAME(name) => names::wf_name(name),
        _ => true,
    }
}

/// The wire encoding of record data.  Name-bearing variants are written
/// uncompressed; addresses are written big-endian.
pub open spec fn spec_serialize_rdata(d: RDataModel) -> Seq<u8> {
    match d {
        RDataModel::A(ip) => seq![ip.o0, ip.o1, ip.o2, ip.o3],
        RDataModel::AAAA(ip) => bigendians::be_u16_bytes(ip.g0) + bigendians::be_u16_bytes(ip.g1)
            + bigendians::be_u16_bytes(ip.g2) + bigendians::be_u16_bytes(ip.g3)
            + bigendians::be_u16_bytes(ip.g4) + bigendians::be_u16_bytes(ip.g5)
            + bigendians::be_u16_bytes(ip.g6) + bigendians::be_u16_bytes(ip.g7),
        RDataModel::NS(name) => names::spec_serialize_name(name),
        RDataModel::CNAME(name) => names::spec_serialize_name(name),
        RDataModel::Other(bytes) => bytes,
    }
}

/// Decode the `rd_length` bytes of record data at `pos` of the message `b`,
/// dispatched on the record's type: A requires exactly 4 bytes, AAAA
/// exactly 16, NS and CNAME hold a (possibly compressed) name, and every
/// other type is captured opaquely.
pub open spec fn parse_rdata(b: Seq<u8>, pos: int, rr_type: DnsRRType, rd_length: u16) -> Option<
    RDataModel,
> {
    if pos < 0 || pos + rd_length > b.len() {
        None
    } else if rr_type is A {
        if rd_length == 4 {
            Some(RDataModel::A(Ipv4Address { o0: b[pos], o1: b[pos + 1], o2: b[pos + 2], o3: b[pos + 3] }))
        } else {
            None
        }
    } else if rr_type is AAAA {
        if rd_length == 16 {
            Some(
                RDataModel::AAAA(
                    Ipv6Address {
                        g0: bigendians::be_u16(b[pos], b[pos + 1]) as u16,
                        g1: bigendians::be_u16(b[pos + 2], b[pos + 3]) as u16,
                        g2: bigendians::be_u16(b[pos + 4], b[pos + 5]) as u16,
                        g3: bigendians::be_u16(b[pos + 6], b[pos + 7]) as u16,
                        g4: bigendians::be_u16(b[pos + 8], b[pos + 9]) as u16,
                        g5: bigendians::be_u16(b[pos + 10], b[pos + 11]) as u16,
                        g6: bigendians::be_u16(b[pos + 12], b[pos + 13]) as u16,
                        g7: bigendians::be_u16(b[pos + 14], b[pos + 15]) as u16,
                    },
                ),
            )
        } else {
            None
        }
    } else if rr_type is NS {
        match names::parse_name(b, pos, b.len() as nat) {
            Some((name, _)) => Some(RDataModel::NS(name)),
            None => None,
        }
    } else if rr_type is CNAME {
        match names::parse_name(b, pos, b.len() as nat) {
            Some((name, _)) => Some(RDataModel::CNAME(name)),
            None => None,
        }
    } else {
        Some(RDataModel::Other(b.subrange(pos, pos + rd_length)))
    }
}

/// The record data's variant agrees with the record's type: the dedicated
/// variants appear exactly on their types, and `Other` on every other type.
pub open spec fn rdata_matches_type(d: RDataModel, rr_type: DnsRRType) -> bool {
    match d {
        RDataModel::A(_) => rr_type is A,
        RDataModel::AAAA(_) => rr_type is AAAA,
        RDataModel::NS(_) => rr_type is NS,
        RDataModel::CNAME(_) => rr_type is CNAME,
        RDataModel::Other(_) => !(rr_type is A) && !(rr_type is AAAA) && !(rr_type is NS) && !(
        rr_type is CNAME),
    }
}

/// Decoding a buffer that holds serialized record data at `pos`, with the
/// matching type and the serialized length, yields exactly that data.
pub proof fn lemma_parse_serialized_rdata(b: Seq<u8>, pos: int, rr_type: DnsRRType, d: RDataModel)
    requires
        wf_rdata(d),
        rdata_matches_type(d, rr_type),
        spec_serialize_rdata(d).len() <= 65535,
        0 <= pos,
        pos + spec_serialize_rdata(d).len() <= b.len(),
        b.subrange(pos, pos + spec_serialize_rdata(d).len() as int) == spec_serialize_rdata(d),
    ensures
        parse_rdata(b, pos, rr_type, spec_serialize_rdata(d).len() as u16) == Some(d),
{
    let ser = spec_serialize_rdata(d);
    let rd_length = ser.len() as u16;
    match d {
        RDataModel::A(ip) => {
            assert forall|i: int| 0 <= i < 4 implies #[trigger] b[pos + i] == ser[i] by {
                assert(b.subrange(pos, pos + ser.len() as int)[i] == ser[i]);
            }
            assert(b[pos] == ip.o0 && b[pos + 1] == ip.o1 && b[pos + 2] == ip.o2 && b[pos + 3]
                == ip.o3);
        },
        RDataModel::AAAA(ip) => {
            assert forall|i: int| 0 <= i < 16 implies #[trigger] b[pos + i] == ser[i] by {
                assert(b.subrange(pos, pos + ser.len() as int)[i] == ser[i]);
            }
            let b0 = bigendians::be_u16_bytes(ip.g0);
            let b1 = bigendians::be_u16_bytes(ip.g1);
            let b2 = bigendians::be_u16_bytes(ip.g2);
            let b3 = bigendians::be_u16_bytes(ip.g3);
            let b4 = bigendians::be_u16_bytes(ip.g4);
            let b5 = bigendians::be_u16_bytes(ip.g5);
            let b6 = bigendians::be_u16_bytes(ip.g6);
            let b7 = bigendians::be_u16_bytes(ip.g7);
            assert(ser[0] == b0[0] && ser[1] == b0[1]);
            assert(ser[2] == b1[0] && ser[3] == b1[1]);
            assert(ser[4] == b2[0] && ser[5] == b2[1]);
            assert(ser[6] == b3[0] && ser[7] == b3[1]);
            assert(ser[8] == b4[0] && ser[9] == b4[1]);
            assert(ser[10] == b5[0] && ser[11] == b5[1]);
            assert(ser[12] == b6[0] && ser[13] == b6[1]);
            assert(ser[14] == b7[0] && ser[15] == b7[1]);
            bigendians::lemma_u16_round_trip(ip.g0);
            bigendians::lemma_u16_round_trip(ip.g1);
            bigendians::lemma_u16_round_trip(ip.g2);
            bigendians::lemma_u16_round_trip(ip.g3);
            bigendians::lemma_u16_round_trip(ip.g4);
            bigendians::lemma_u16_round_trip(ip.g5);
            bigendians::lemma_u16_round_trip(ip.g6);
            bigendians::lemma_u16_round_trip(ip.g7);
        },
        RDataModel::NS(name) => {
            names::lemma_parse_serialized_name(b, pos, name, b.len() as nat);
        },
        RDataModel::CNAME(name) => {
            names::lemma_parse_serialized_name(b, pos, name, b.len() as nat);
        },
        RDataModel::Other(bytes) => {
            assert(b.subrange(pos, pos + rd_length as int) == bytes);
        },
    }
}

/// Decoded record data is well formed and its variant agrees with the
/// record type it was decoded for.
pub proof fn lemma_parse_rdata_coherent(b: Seq<u8>, pos: int, rr_type: DnsRRType, rd_length: u16)
    ensures
        parse_rdata(b, pos, rr_type, rd_length) matches Some(d) ==> wf_rdata(d)
            && rdata_matches_type(d, rr_type),
{
    if parse_rdata(b, pos, rr_type, rd_length) is Some {
        if rr_type is NS || rr_type is CNAME {
            names::lemma_parse_name_props(b, pos, b.len() as nat);
        }
    }
}

impl DnsRecordData {
    /// Decode the record data at `pos`.  `packet_bytes` must be the whole
    /// DNS message, because name-bearing data may point back into it.  On
    /// success the returned position is `pos + rd_length`.
    pub fn from_bytes(packet_bytes: &[u8], pos: usize, rr_type: &DnsRRType, rd_length: u16) -> (r:
        Result<(DnsRecordData, usize), DnsFormatError>)
        ensures
            match parse_rdata(packet_bytes@, pos as int, *rr_type, rd_length) {
                Some(d) => r matches Ok((data, p)) && data@ == d && p == pos + rd_length,
                None => r matches Err(e) && e.spec_partial() is None,
            },
    {
        if pos > packet_bytes.len() || (rd_length as usize) > packet_bytes.len() - pos {
            return Err(
                DnsFormatError::make_error(
                    String::from_str("Record data is longer than remainder of packet"),
                ),
            );
        }
        if *rr_type == DnsRRType::A {
            if rd_length != 4 {
                return Err(
                    DnsFormatError::make_error(
                        String::from_str("A record data is not 4 bytes long"),
                    ),
                );
            }
            let ip = Ipv4Address::new(
                packet_bytes[pos],
                packet_bytes[pos + 1],
                packet_bytes[pos + 2],
                packet_bytes[pos + 3],
            );
            Ok((DnsRecordData::A(ip), pos + 4))
        } else if *rr_type == DnsRRType::AAAA {
            if rd_length != 16 {
                return Err(
                    DnsFormatError::make_error(
                        String::from_str("AAAA record data is not 16 bytes long"),
                    ),
                );
            }
            let ip = Ipv6Address::new(
                bigendians::to_u16(&packet_bytes[pos..pos + 2]),
                bigendians::to_u16(&packet_bytes[pos + 2..pos + 4]),
                bigendians::to_u16(&packet_bytes[pos + 4..pos + 6]),
                bigendians::to_u16(&packet_bytes[pos + 6..pos + 8]),
                bigendians::to_u16(&packet_bytes[pos + 8..pos + 10]),
                bigendians::to_u16(&packet_bytes[pos + 10..pos + 12]),
                bigendians::to_u16(&packet_bytes[pos + 12..pos + 14]),
                bigendians::to_u16(&packet_bytes[pos + 14..pos + 16]),
            );
            Ok((DnsRecordData::AAAA(ip), pos + 16))
        } else if *rr_type == DnsRRType::NS {
            match names::deserialize_name(packet_bytes, pos) {
                Ok((name, _)) => Ok((DnsRecordData::NS(name), pos + rd_length as usize)),
                Err(e) => Err(e),
            }
        } else if *rr_type == DnsRRType::CNAME {
            match names::deserialize_name(packet_bytes, pos) {
                Ok((name, _)) => Ok((DnsRecordData::CNAME(name), pos + rd_length as usize)),
                Err(e) => Err(e),
            }
        } else {
            let mut record_bytes: Vec<u8> = Vec::new();
            let mut j: usize = 0;
            while j < rd_length as usize
                invariant
                    j <= rd_length,
                    pos + rd_length <= packet_bytes@.len(),
                    packet_bytes@.len() <= usize::MAX,
                    record_bytes@ == packet_bytes@.subrange(pos as int, pos + j),
                decreases rd_length - j,
            {
                record_bytes.push(packet_bytes[pos + j]);
                j += 1;
                proof {
                    assert(record_bytes@ =~= packet_bytes@.subrange(pos as int, pos + j));
                }
            }
            proof {
                names::lemma_bytes_deep_view(record_bytes);
            }
            Ok((DnsRecordData::Other(record_bytes), pos + rd_length as usize))
        }
    }

    /// Copy this record data.
    pub fn duplicate(&self) -> (r: DnsRecordData)
        ensures
            r@ == self@,
    {
        match self {
            DnsRecordData::A(ip) => DnsRecordData::A(*ip),
            DnsRecordData::NS(name) => DnsRecordData::NS(names::clone_name(name)),
            DnsRecordData::AAAA(ip) => DnsRecordData::AAAA(*ip),
            DnsRecordData::CNAME(name) => DnsRecordData::CNAME(names::clone_name(name)),
            DnsRecordData::Other(bytes) => DnsRecordData::Other(names::clone_bytes(bytes)),
        }
    }

    /// Encode this record data for the wire.
    pub fn to_bytes(&self) -> (r: Vec<u8>)
        requires
            wf_rdata(self@),
        ensures
            r@ == spec_serialize_rdata(self@),
    {
        match self {
            DnsRecordData::A(ip) => {
                let mut bytes: Vec<u8> = Vec::new();
                bytes.push(ip.o0);
                bytes.push(ip.o1);
                bytes.push(ip.o2);
                bytes.push(ip.o3);
                proof {
                    assert(bytes@ =~= spec_serialize_rdata(self@));
                }
                bytes
            },
            DnsRecordData::AAAA(ip) => {
                let mut bytes: Vec<u8> = Vec::new();
                let g0 = bigendians::from_u16(ip.g0);
                bytes.push(g0[0]);
                bytes.push(g0[1]);
                let g1 = bigendians::from_u16(ip.g1);
                bytes.push(g1[0]);
                bytes.push(g1[1]);
                let g2 = bigendians::from_u16(ip.g2);
                bytes.push(g2[0]);
                bytes.push(g2[1]);
                let g3 = bigendians::from_u16(ip.g3);
                bytes.push(g3[0]);
                bytes.push(g3[1]);
                let g4 = bigendians::from_u16(ip.g4);
                bytes.push(g4[0]);
                bytes.push(g4[1]);
                let g5 = bigendians::from_u16(ip.g5);
                bytes.push(g5[0]);
                bytes.push(g5[1]);
                let g6 = bigendians::from_u16(ip.g6);
                bytes.push(g6[0]);
                bytes.push(g6[1]);
                let g7 = bigendians::from_u16(ip.g7);
                bytes.push(g7[0]);
                bytes.push(g7[1]);
                proof {
                    assert(bytes@ =~= spec_serialize_rdata(self@));
                }
                bytes
            },
            DnsRecordData::NS(labels) => names::serialize_name(labels),
            DnsRecordData::CNAME(labels) => names::serialize_name(labels),
            DnsRecordData::Other(record_bytes) => {
                let mut bytes: Vec<u8> = Vec::new();
                let mut j: usize = 0;
                while j < record_bytes.len()
                    invariant
                        j <= record_bytes@.len(),
                        bytes@ == record_bytes@.take(j as int),
                    decreases record_bytes@.len() - j,
                {
                    bytes.push(record_bytes[j]);
                    j += 1;
                    proof {
                        assert(bytes@ =~= record_bytes@.take(j as int));
                    }
                }
                proof {
                    names::lemma_bytes_deep_view(*record_bytes);
                    assert(record_bytes@.take(record_bytes@.len() as int) =~= record_bytes@);
                }
                bytes
            },
        }
    }
}

} // verus!
