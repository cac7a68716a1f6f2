use crate::buffer::{be16, be32, BufferError, BytePacketBuffer, Deserialize, BUF_SIZE};
use crate::dns::domain_name::{decode_name_at, DomainName};
use vstd::prelude::*;

verus! {

broadcast use crate::buffer::lemma_contents_len, crate::buffer::lemma_cursor_nonneg;

/// The type of a resource record: address records are understood, anything
/// else is carried as its numeric value.
#[derive(Debug, Clone, Copy, PartialEq, Eq, Structural)]
pub enum RRType {
    A,
    Unknown(u16),
}

/// The class of a resource record: the Internet class is understood,
/// anything else is carried as its numeric value.
#[derive(Debug, Clone, Copy, PartialEq, Eq, Structural)]
pub enum RRClass {
    IN,
    Unknown(u16),
}

/// An IPv4 address as its four dotted-quad octets, most significant first.
#[derive(Debug, Clone, Copy, PartialEq, Eq, Structural)]
pub struct Ipv4Address {
    pub o0: u8,
    pub o1: u8,
    pub o2: u8,
    pub o3: u8,
}

/// The payload of a resource record, chosen by its type: an address record
/// holds an IPv4 address; an unknown type records only its declared rdata
/// length.
#[derive(Debug, Clone, Copy, PartialEq, Eq, Structural)]
pub enum RRData {
    A(Ipv4Address),
    Unknown(u16),
}

/// The `RRType` a wire value denotes.
pub open spec fn rr_type_of(val: u16) -> RRType {
    if val == 1 {
        RRType::A
    } else {
        RRType::Unknown(val)
    }
}

/// The wire value of an `RRType`.
pub open spec fn rr_type_val(t: RRType) -> u16 {
    match t {
        RRType::A => 1,
        RRType::Unknown(v) => v,
    }
}

/// The `RRClass` a wire value denotes.
pub open spec fn rr_class_of(val: u16) -> RRClass {
    if val == 1 {
        RRClass::IN
    } else {
        RRClass::Unknown(val)
    }
}

/// The wire value of an `RRClass`.
pub open spec fn rr_class_val(c: RRClass) -> u16 {
    match c {
        RRClass::IN => 1,
        RRClass::Unknown(v) => v,
    }
}

impl RRType {
    /// The record type a wire value denotes.
    pub fn from_u16(val: u16) -> (r: RRType)
        ensures
            r == rr_type_of(val),
    {
        if val == 1 {
            RRType::A
        } else {
            RRType::Unknown(val)
        }
    }

    /// The wire value of this record type.
    pub fn as_u16(&self) -> (r: u16)
        ensures
            r == rr_type_val(*self),
    {
        match self {
            RRType::A => 1,
            RRType::Unknown(v) => *v,
        }
    }
}

impl RRClass {
    /// The record class a wire value denotes.
    pub fn from_u16(val: u16) -> (r: RRClass)
        ensures
            r == rr_class_of(val),
    {
        if val == 1 {
            RRClass::IN
        } else {
            RRClass::Unknown(val)
        }
    }

    /// The wire value of this record class.
    pub fn as_u16(&self) -> (r: u16)
        ensures
            r == rr_class_val(*self),
    {
        match self {
            RRClass::IN => 1,
            RRClass::Unknown(v) => *v,
        }
    }
}

/// A resource record as found in the answer, authority and additional
/// sections: a named, typed, classed entry with a time to live and a
/// type-dispatched payload.
#[derive(Debug, Clone)]
pub struct ResourceRecord {
    pub domain_name: DomainName,
    pub rrtype: RRType,
    pub rrclass: RRClass,
    pub ttl: u32,
    pub rrdata_len: u16,
    pub rrdata: RRData,
}

/// The mathematical shape of a resource record: its name as a byte
/// sequence, the rest as plain values.
pub struct RecordView {
    pub name: Seq<u8>,
    pub rrtype: RRType,
    pub rrclass: RRClass,
    pub ttl: u32,
    pub rrdata_len: u16,
    pub rrdata: RRData,
}

impl View for ResourceRecord {
    type V = RecordView;

    open spec fn view(&self) -> RecordView {
        RecordView {
            name: self.domain_name@,
            rrtype: self.rrtype,
            rrclass: self.rrclass,
            ttl: self.ttl,
            rrdata_len: self.rrdata_len,
            rrdata: self.rrdata,
        }
    }
}

/// The resource record that starts at `pos` in `data`, and the position
/// just past it: its name, then type, class, ttl and rdata length, then the
/// rdata dispatched on the type. An address record reads exactly four more
/// bytes; a record of unknown type is skipped over its declared rdata
/// length without reading it.
pub open spec fn decode_record_at(data: Seq<u8>, pos: int) -> Result<
    (RecordView, int),
    BufferError,
> {
    match decode_name_at(data, pos, 0) {
        Ok(p) => {
            let e = if p.jumped {
                pos + 2
            } else {
                p.end
            };
            if e + 10 > BUF_SIZE {
                Err(BufferError::ReadOverrun)
            } else {
                let t = rr_type_of(be16(data[e], data[e + 1]));
                let cls = rr_class_of(be16(data[e + 2], data[e + 3]));
                let ttl = be32(data[e + 4], data[e + 5], data[e + 6], data[e + 7]);
                let rdlen = be16(data[e + 8], data[e + 9]);
                if t == RRType::A {
                    if e + 14 > BUF_SIZE {
                        Err(BufferError::ReadOverrun)
                    } else {
                        Ok(
                            (
                                RecordView {
                                    name: p.name,
                                    rrtype: t,
                                    rrclass: cls,
                                    ttl: ttl,
                                    rrdata_len: rdlen,
                                    rrdata: RRData::A(
                                        Ipv4Address {
                                            o0: data[e + 10],
                                            o1: data[e + 11],
                                            o2: data[e + 12],
                                            o3: data[e + 13],
                                        },
                                    ),
                                },
                                e + 14,
                            ),
                        )
                    }
                } else {
                    Ok(
                        (
                            RecordView {
                                name: p.name,
                                rrtype: t,
                                rrclass: cls,
                                ttl: ttl,
                                rrdata_len: rdlen,
                                rrdata: RRData::Unknown(rdlen),
                            },
                            e + 10 + rdlen,
                        ),
                    )
                }
            }
        },
        Err(err) => Err(err),
    }
}

impl ResourceRecord {
    /// An empty record: unknown zero type and class, an empty name, no data.
    pub fn new() -> (r: ResourceRecord)
        ensures
            r@.name == Seq::<u8>::empty(),
            r@.rrtype == RRType::Unknown(0),
            r@.rrclass == RRClass::Unknown(0),
            r@.ttl == 0,
            r@.rrdata_len == 0,
            r@.rrdata == RRData::Unknown(0),
    {
        ResourceRecord {
            domain_name: DomainName { name: Vec::new() },
            rrtype: RRType::Unknown(0),
            rrclass: RRClass::Unknown(0),
            ttl: 0,
            rrdata_len: 0,
            rrdata: RRData::Unknown(0),
        }
    }

    /// Read one resource record at the buffer's cursor. A record of
    /// unrecognized type advances the cursor past its declared rdata, so the
    /// next record of the message is read in step.
    pub fn deserialize(buf: &mut BytePacketBuffer) -> (r: Result<ResourceRecord, BufferError>)
        ensures
            final(buf).contents() == old(buf).contents(),
            match decode_record_at(old(buf).contents(), old(buf).cursor()) {
                Ok(rp) => r matches Ok(rec) && rec@ == rp.0 && final(buf).cursor() == rp.1,
                Err(e) => r == Err::<ResourceRecord, BufferError>(e),
            },
    {
        let domain_name = match DomainName::deserialize(buf) {
            Ok(d) => d,
            Err(e) => {
                return Err(e);
            },
        };
        let rrtype = match buf.pop_u16() {
            Ok(v) => RRType::from_u16(v),
            Err(e) => {
                return Err(e);
            },
        };
        let rrclass = match buf.pop_u16() {
            Ok(v) => RRClass::from_u16(v),
            Err(e) => {
                return Err(e);
            },
        };
        let ttl = match buf.pop_u32() {
            Ok(v) => v,
            Err(e) => {
                return Err(e);
            },
        };
        let rrdata_len = match buf.pop_u16() {
            Ok(v) => v,
            Err(e) => {
                return Err(e);
            },
        };
        let rrdata = match rrtype {
            RRType::A => {
                let o0 = match buf.pop() {
                    Ok(b) => b,
                    Err(e) => {
                        return Err(e);
                    },
                };
                let o1 = match buf.pop() {
                    Ok(b) => b,
                    Err(e) => {
                        return Err(e);
                    },
                };
                let o2 = match buf.pop() {
                    Ok(b) => b,
                    Err(e) => {
                        return Err(e);
                    },
                };
                let o3 = match buf.pop() {
                    Ok(b) => b,
                    Err(e) => {
                        return Err(e);
                    },
                };
                RRData::A(Ipv4Address { o0, o1, o2, o3 })
            },
            RRType::Unknown(_) => {
                buf.step(rrdata_len as usize);
                RRData::Unknown(rrdata_len)
            },
        };
        Ok(ResourceRecord { domain_name, rrtype, rrclass, ttl, rrdata_len, rrdata })
    }
}

impl Default for ResourceRecord {
    /// An empty record, as `new` makes it.
    fn default() -> (r: Self)
        ensures
            r@.name == Seq::<u8>::empty(),
            r@.rrtype == RRType::Unknown(0),
            r@.rrclass == RRClass::Unknown(0),
            r@.ttl == 0,
            r@.rrdata_len == 0,
            r@.rrdata == RRData::Unknown(0),
    {
        ResourceRecord::new()
    }
}

impl Deserialize for ResourceRecord {
    type Buffer = BytePacketBuffer;

    type Structure = ResourceRecord;

    fn deserialize(buf: &mut BytePacketBuffer) -> Result<ResourceRecord, BufferError> {
        ResourceRecord::deserialize(buf)
    }
}

} // verus!
