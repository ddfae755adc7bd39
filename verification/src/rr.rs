//! Resource records: a (name, type, class, TTL, data) tuple.

use vstd::prelude::*;

use crate::bigendians;
use crate::class::{class_num, class_of_num, DnsClass};
use crate::errors::DnsFormatError;
use crate::ip::Ipv4Address;
use crate::names;
use crate::rdata::{wf_rdata, DnsRecordData, RDataModel};
use crate::rrtype::{rrtype_num, rrtype_of_num, DnsRRType};

verus! {

/// A resource record of the answer, authority or additional section.
///
/// The on-wire record-data length is not stored: it is recomputed from the
/// serialized payload at encode time, which keeps it correct for
/// name-bearing records whatever compression the sender used.
#[derive(Clone, PartialEq, Eq, Debug)]
pub struct DnsResourceRecord {
    /// The name this record describes, as its sequence of labels
    pub name: Vec<Vec<u8>>,
    /// The record's type
    pub rr_type: DnsRRType,
    /// The record's class; for an OPT record, the requester's payload size
    pub class: DnsClass,
    /// Seconds the record may be cached; unsigned per the RFC 1035 errata
    pub ttl: u32,
    /// The typed payload
    pub record: DnsRecordData,
}

/// The mathematical value of a resource record.
#[verifier::ext_equal]
pub ghost struct RecordModel {
    pub name: Seq<Seq<u8>>,
    pub rr_type: DnsRRType,
    pub class: DnsClass,
    pub ttl: u32,
    pub record: RDataModel,
}

impl View for DnsResourceRecord {
    type V = RecordModel;

    open spec fn view(&self) -> RecordModel {
        RecordModel {
            name: self.name.deep_view(),
            rr_type: self.rr_type,
            class: self.class,
            ttl: self.ttl,
            record: self.record@,
        }
    }
}

impl DeepView for DnsResourceRecord {
    type V = RecordModel;

    open spec fn deep_view(&self) -> RecordModel {
        self.view()
    }
}

/// Copy a record section entry by entry.
pub fn clone_records(records: &Vec<DnsResourceRecord>) -> (r: Vec<DnsResourceRecord>)
    ensures
        r.deep_view() == records.deep_view(),
{
    let mut r: Vec<DnsResourceRecord> = Vec::new();
    let mut i: usize = 0;
    while i < records.len()
        invariant
            r.deep_view() == records.deep_view().take(i as int),
            i <= records@.len(),
            records.deep_view().len() == records@.len(),
        decreases records@.len() - i,
    {
        let rec = records[i].duplicate();
        proof {
            assert(records.deep_view()[i as int] == records@[i as int].deep_view());
        }
        let ghost prev = r.deep_view();
        r.push(rec);
        i += 1;
        proof {
            assert(r.deep_view() =~= prev.push(rec.deep_view()));
            assert(prev.push(rec.deep_view()) =~= records.deep_view().take(i as int));
        }
    }
    proof {
        assert(records.deep_view().take(records@.len() as int) =~= records.deep_view());
    }
    r
}

/// A record that can be written back to the wire: its names are well
/// formed and its serialized payload length fits the 16-bit length field.
pub open spec fn wf_record(r: RecordModel) -> bool {
    &&& names::wf_name(r.name)
    &&& wf_rdata(r.record)
    &&& crate::rdata::spec_serialize_rdata(r.record).len() <= 65535
}

/// The wire encoding of a resource record: name, type, class, TTL, then
/// the payload's length and bytes.  The length is always computed from the
/// serialized payload, never stored.
pub open spec fn spec_serialize_record(r: RecordModel) -> Seq<u8> {
    names::spec_serialize_name(r.name) + bigendians::be_u16_bytes(rrtype_num(r.rr_type))
        + bigendians::be_u16_bytes(class_num(r.class)) + bigendians::be_u32_bytes(r.ttl)
        + bigendians::be_u16_bytes(crate::rdata::spec_serialize_rdata(r.record).len() as u16)
        + crate::rdata::spec_serialize_rdata(r.record)
}

/// Decode the resource record at `pos` of the message `b`: a name, the ten
/// fixed header bytes, then `rd_length` bytes of typed data.  When the
/// record's type is OPT the class field is the requester's payload size
/// (RFC 6891) instead of a class value.
pub open spec fn parse_record(b: Seq<u8>, pos: int) -> Option<(RecordModel, int)> {
    match names::parse_name(b, pos, b.len() as nat) {
        Some((name, p)) => if p + 10 <= b.len() {
            match rrtype_of_num(bigendians::be_u16(b[p], b[p + 1]) as u16) {
                Some(rr_type) => {
                    let class_opt = if rr_type is OPT {
                        Some(DnsClass::EdnsPayloadSize(bigendians::be_u16(b[p + 2], b[p + 3]) as u16))
                    } else {
                        class_of_num(bigendians::be_u16(b[p + 2], b[p + 3]) as u16)
                    };
                    match class_opt {
                        Some(class) => {
                            let ttl = bigendians::be_u32(b[p + 4], b[p + 5], b[p + 6], b[p + 7]) as u32;
                            let rd_length = bigendians::be_u16(b[p + 8], b[p + 9]) as u16;
                            match crate::rdata::parse_rdata(b, p + 10, rr_type, rd_length) {
                                Some(record) => Some(
                                    (
                                        RecordModel { name, rr_type, class, ttl, record },
                                        p + 10 + rd_length,
                                    ),
                                ),
                                None => None,
                            }
                        },
                        None => None,
                    }
                },
                None => None,
            }
        } else {
            None
        },
        None => None,
    }
}

/// A record that decoding can produce and encoding writes back bit for
/// bit: it is well formed, its data variant agrees with its type, and its
/// class is the payload size exactly when its type is OPT.
pub open spec fn canonical_record(r: RecordModel) -> bool {
    &&& wf_record(r)
    &&& crate::rdata::rdata_matches_type(r.record, r.rr_type)
    &&& (r.rr_type is OPT <==> r.class is EdnsPayloadSize)
}

/// The structural part of [`canonical_record`]: well-formed names, the
/// data variant agreeing with the type, and the OPT class special case.
/// Decoding guarantees this much; the payload-length bound of
/// [`wf_record`] it cannot, since decompression may expand a name.
pub open spec fn coherent_record(r: RecordModel) -> bool {
    &&& names::wf_name(r.name)
    &&& wf_rdata(r.record)
    &&& crate::rdata::rdata_matches_type(r.record, r.rr_type)
    &&& (r.rr_type is OPT <==> r.class is EdnsPayloadSize)
}

/// A decoded record is coherent.
pub proof fn lemma_parse_record_coherent(b: Seq<u8>, pos: int)
    ensures
        parse_record(b, pos) matches Some((r, end)) ==> coherent_record(r),
{
    if parse_record(b, pos) is Some {
        names::lemma_parse_name_props(b, pos, b.len() as nat);
        let (name, p) = names::parse_name(b, pos, b.len() as nat)->Some_0;
        let rr_type = rrtype_of_num(bigendians::be_u16(b[p], b[p + 1]) as u16)->Some_0;
        let rd_length = bigendians::be_u16(b[p + 8], b[p + 9]) as u16;
        crate::rdata::lemma_parse_rdata_coherent(b, p + 10, rr_type, rd_length);
    }
}

/// Decoding a buffer that holds a serialized record at `pos` yields
/// exactly that record.
pub proof fn lemma_parse_serialized_record(b: Seq<u8>, pos: int, r: RecordModel)
    requires
        canonical_record(r),
        0 <= pos,
        pos + spec_serialize_record(r).len() <= b.len(),
        b.subrange(pos, pos + spec_serialize_record(r).len() as int) == spec_serialize_record(r),
    ensures
        parse_record(b, pos) == Some((r, pos + spec_serialize_record(r).len() as int)),
{
    let ser = spec_serialize_record(r);
    let sn = names::spec_serialize_name(r.name);
    let tb = bigendians::be_u16_bytes(rrtype_num(r.rr_type));
    let cb = bigendians::be_u16_bytes(class_num(r.class));
    let lb = bigendians::be_u32_bytes(r.ttl);
    let sd = crate::rdata::spec_serialize_rdata(r.record);
    let db = bigendians::be_u16_bytes(sd.len() as u16);
    assert(ser.len() == sn.len() + 10 + sd.len());
    assert(b.subrange(pos, pos + sn.len() as int) =~= sn) by {
        assert forall|i: int| 0 <= i < sn.len() implies b.subrange(pos, pos + sn.len() as int)[i]
            == sn[i] by {
            assert(b.subrange(pos, pos + ser.len() as int)[i] == ser[i]);
            assert(ser[i] == sn[i]);
        }
    }
    names::lemma_parse_serialized_name(b, pos, r.name, b.len() as nat);
    let p = pos + sn.len() as int;
    assert forall|i: int| 0 <= i < 10 implies #[trigger] b[p + i] == ser[sn.len() + i] by {
        assert(b.subrange(pos, pos + ser.len() as int)[sn.len() + i] == ser[sn.len() + i]);
    }
    assert(ser[sn.len() as int] == tb[0]);
    assert(ser[sn.len() as int + 1] == tb[1]);
    assert(ser[sn.len() as int + 2] == cb[0]);
    assert(ser[sn.len() as int + 3] == cb[1]);
    assert(ser[sn.len() as int + 4] == lb[0]);
    assert(ser[sn.len() as int + 5] == lb[1]);
    assert(ser[sn.len() as int + 6] == lb[2]);
    assert(ser[sn.len() as int + 7] == lb[3]);
    assert(ser[sn.len() as int + 8] == db[0]);
    assert(ser[sn.len() as int + 9] == db[1]);
    bigendians::lemma_u16_round_trip(rrtype_num(r.rr_type));
    bigendians::lemma_u16_round_trip(class_num(r.class));
    bigendians::lemma_u32_round_trip(r.ttl);
    bigendians::lemma_u16_round_trip(sd.len() as u16);
    crate::rrtype::lemma_rrtype_round_trip(r.rr_type);
    if !(r.rr_type is OPT) {
        crate::class::lemma_class_round_trip(r.class);
    }
    let p2 = p + 10;
    assert(b.subrange(p2, p2 + sd.len() as int) =~= sd) by {
        assert forall|i: int| 0 <= i < sd.len() implies b.subrange(p2, p2 + sd.len() as int)[i]
            == sd[i] by {
            assert(b.subrange(pos, pos + ser.len() as int)[sn.len() + 10 + i] == ser[sn.len() + 10
                + i]);
            assert(ser[sn.len() + 10 + i] == sd[i]);
        }
    }
    crate::rdata::lemma_parse_serialized_rdata(b, p2, r.rr_type, r.record);
}

impl DnsResourceRecord {
    /// Decode the resource record at `pos`.  `packet_bytes` must be the
    /// whole DNS message, because names may point back into it.
    pub fn from_bytes(packet_bytes: &[u8], pos: usize) -> (r: Result<
        (DnsResourceRecord, usize),
        DnsFormatError,
    >)
        ensures
            match parse_record(packet_bytes@, pos as int) {
                Some((record, end)) => r matches Ok((rr, p)) && rr@ == record && p == end,
                None => r matches Err(e) && e.spec_partial() is None,
            },
    {
        let (name, new_pos) = match names::deserialize_name(packet_bytes, pos) {
            Ok(x) => x,
            Err(e) => {
                return Err(e);
            },
        };
        proof {
            names::lemma_parse_name_props(packet_bytes@, pos as int, packet_bytes@.len() as nat);
        }
        if packet_bytes.len() - new_pos < 10 {
            return Err(
                DnsFormatError::make_error(
                    String::from_str("End of packet parsing resource record"),
                ),
            );
        }
        let rrtype_num = bigendians::to_u16(&packet_bytes[new_pos..new_pos + 2]);
        let class_num = bigendians::to_u16(&packet_bytes[new_pos + 2..new_pos + 4]);
        let ttl = bigendians::to_u32(&packet_bytes[new_pos + 4..new_pos + 8]);
        let rd_length = bigendians::to_u16(&packet_bytes[new_pos + 8..new_pos + 10]);
        let rr_type = match DnsRRType::from_u16(rrtype_num) {
            Some(x) => x,
            None => {
                return Err(DnsFormatError::make_error(String::from_str("Invalid rrtype value")));
            },
        };
        // An OPT pseudo-record carries the requester's UDP payload size
        // where every other record carries its class
        let class = if rr_type == DnsRRType::OPT {
            DnsClass::EdnsPayloadSize(class_num)
        } else {
            match DnsClass::from_u16(class_num) {
                Some(x) => x,
                None => {
                    return Err(
                        DnsFormatError::make_error(String::from_str("Invalid class value")),
                    );
                },
            }
        };
        let (record, end) = match DnsRecordData::from_bytes(
            packet_bytes,
            new_pos + 10,
            &rr_type,
            rd_length,
        ) {
            Ok(x) => x,
            Err(e) => {
                return Err(e);
            },
        };
        Ok((DnsResourceRecord { name, rr_type, class, ttl, record }, end))
    }

    /// Encode this resource record for the wire, computing the record-data
    /// length from the serialized payload.
    pub fn to_bytes(&self) -> (r: Vec<u8>)
        requires
            wf_record(self@),
        ensures
            r@ == spec_serialize_record(self@),
    {
        let record = self.record.to_bytes();
        let record_length = record.len() as u16;
        let mut bytes = names::serialize_name(&self.name);
        let rrtype_bytes = bigendians::from_u16(self.rr_type.to_u16());
        bytes.push(rrtype_bytes[0]);
        bytes.push(rrtype_bytes[1]);
        let class_bytes = bigendians::from_u16(self.class.to_u16());
        bytes.push(class_bytes[0]);
        bytes.push(class_bytes[1]);
        let ttl_bytes = bigendians::from_u32(self.ttl);
        bytes.push(ttl_bytes[0]);
        bytes.push(ttl_bytes[1]);
        bytes.push(ttl_bytes[2]);
        bytes.push(ttl_bytes[3]);
        let len_bytes = bigendians::from_u16(record_length);
        bytes.push(len_bytes[0]);
        bytes.push(len_bytes[1]);
        let ghost prefix = bytes@;
        let mut j: usize = 0;
        while j < record.len()
            invariant
                j <= record@.len(),
                bytes@ == prefix + record@.take(j as int),
            decreases record@.len() - j,
        {
            bytes.push(record[j]);
            j += 1;
            proof {
                assert(bytes@ =~= prefix + record@.take(j as int));
            }
        }
        proof {
            assert(record@.take(record@.len() as int) =~= record@);
            assert(bytes@ =~= spec_serialize_record(self@));
        }
        bytes
    }

    /// Check that this record can be written to the wire: its names are
    /// well formed and its serialized payload fits the 16-bit length
    /// field.  A record decoded from heavily compressed input can fail
    /// this: decompression may expand a name past what the length field
    /// can carry.
    pub fn is_wf(&self) -> (r: bool)
        ensures
            r == wf_record(self@),
    {
        if !names::is_wf_name(&self.name) {
            return false;
        }
        let rdata_names_ok = match &self.record {
            DnsRecordData::NS(name) => names::is_wf_name(name),
            DnsRecordData::CNAME(name) => names::is_wf_name(name),
            _ => true,
        };
        if !rdata_names_ok {
            return false;
        }
        let payload = self.record.to_bytes();
        payload.len() <= 65535
    }

    /// Copy this resource record.
    pub fn duplicate(&self) -> (r: DnsResourceRecord)
        ensures
            r@ == self@,
    {
        let r = DnsResourceRecord {
            name: names::clone_name(&self.name),
            rr_type: self.rr_type,
            class: self.class,
            ttl: self.ttl,
            record: self.record.duplicate(),
        };
        proof {
            assert(r@ =~= self@);
        }
        r
    }

    /// The address of an A record.  Only records whose type is A and whose
    /// payload holds an IPv4 address carry one.
    pub fn get_a_ip(&self) -> (r: Ipv4Address)
        requires
            self@.rr_type is A,
            self@.record is A,
        ensures
            self@.record == RDataModel::A(r),
    {
        match &self.record {
            DnsRecordData::A(ip) => *ip,
            _ => {
                proof {
                    assert(false);
                }
                Ipv4Address::new(0, 0, 0, 0)
            },
        }
    }
}

} // verus!
