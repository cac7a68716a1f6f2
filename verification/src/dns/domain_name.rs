use crate::buffer::{BufferError, BytePacketBuffer, Deserialize, Serialize, BUF_SIZE};
use vstd::assert_seqs_equal;
use vstd::prelude::*;

verus! {

broadcast use crate::buffer::lemma_contents_len, crate::buffer::lemma_cursor_nonneg;

/// Ceiling on compression-pointer jumps while decoding one name, a bound
/// against corrupt or adversarial pointer cycles.
pub const MAX_JUMPS: usize = 5;

/// Longest label the wire format can carry: its length must leave the top two
/// bits of the length byte clear.
pub const MAX_LABEL_LEN: usize = 63;

/// Longest encoded name (labels, length-prefix bytes and terminator).
pub const MAX_NAME_LEN: usize = 255;

/// ASCII case folding of one byte: 'A' through 'Z' map to 'a' through 'z'.
pub open spec fn ascii_lower(b: u8) -> u8 {
    if 65 <= b <= 90 {
        (b + 32) as u8
    } else {
        b
    }
}

/// Outcome of a successful name decode: the case-folded dotted name, the
/// position just past its on-wire terminator, and whether any compression
/// pointer was followed on the way.
pub struct NameParse {
    pub name: Seq<u8>,
    pub end: int,
    pub jumped: bool,
}

/// What decoding a name at position `pos` of a message yields, after `jumps`
/// pointer jumps have already been taken. Mirrors the wire rules: a zero
/// length byte terminates, a length byte with the top two bits set (192 and
/// up) is the first half of a pointer, anything else prefixes a label that is
/// case-folded and joined to the rest with a dot.
pub open spec fn decode_name_at(data: Seq<u8>, pos: int, jumps: int) -> Result<
    NameParse,
    BufferError,
>
    decreases MAX_JUMPS + 1 - jumps, BUF_SIZE - pos,
{
    if pos < 0 || pos >= BUF_SIZE {
        Err(BufferError::ReadOverrun)
    } else {
        let len = data[pos];
        if len == 0 {
            Ok(NameParse { name: Seq::empty(), end: pos + 1, jumped: false })
        } else if len >= 192 {
            if jumps + 1 > MAX_JUMPS {
                Err(BufferError::TooManyJumps)
            } else if pos + 1 >= BUF_SIZE {
                Err(BufferError::ReadOverrun)
            } else {
                let target = (len - 192) * 256 + data[pos + 1];
                if target >= BUF_SIZE {
                    Err(BufferError::ReadOverrun)
                } else {
                    match decode_name_at(data, target, jumps + 1) {
                        Ok(p) => Ok(NameParse { name: p.name, end: p.end, jumped: true }),
                        Err(e) => Err(e),
                    }
                }
            }
        } else {
            if pos + 1 + len >= BUF_SIZE {
                Err(BufferError::ReadOverrun)
            } else {
                let label = data.subrange(pos + 1, pos + 1 + len).map_values(
                    |b: u8| ascii_lower(b),
                );
                let sep: Seq<u8> = if data[pos + 1 + len] == 0 {
                    Seq::empty()
                } else {
                    seq![46u8]
                };
                match decode_name_at(data, pos + 1 + len, jumps) {
                    Ok(p) => Ok(
                        NameParse { name: label + sep + p.name, end: p.end, jumped: p.jumped },
                    ),
                    Err(e) => Err(e),
                }
            }
        }
    }
}

/// A partial decode glued back onto the labels accumulated before it.
pub open spec fn glue(
    acc: Seq<u8>,
    jumped_before: bool,
    rest: Result<NameParse, BufferError>,
) -> Result<NameParse, BufferError> {
    match rest {
        Ok(p) => Ok(
            NameParse { name: acc + p.name, end: p.end, jumped: jumped_before || p.jumped },
        ),
        Err(e) => Err(e),
    }
}

/// Position of the first '.' at or after `from`, or the length of `name` if
/// there is none.
pub open spec fn dot_from(name: Seq<u8>, from: int) -> int
    decreases name.len() - from,
{
    if from < 0 || from >= name.len() {
        name.len() as int
    } else if name[from] == 46 {
        from
    } else {
        dot_from(name, from + 1)
    }
}

pub proof fn lemma_dot_from(name: Seq<u8>, from: int)
    requires
        0 <= from <= name.len(),
    ensures
        from <= dot_from(name, from) <= name.len(),
        dot_from(name, from) < name.len() ==> name[dot_from(name, from)] == 46,
        forall|k: int| from <= k < dot_from(name, from) ==> name[k] != 46,
    decreases name.len() - from,
{
    if from < name.len() && name[from] != 46 {
        lemma_dot_from(name, from + 1);
    }
}

/// Every '.'-separated label of `name`, from position `from` on, fits in
/// `MAX_LABEL_LEN` bytes.
pub open spec fn labels_fit_from(name: Seq<u8>, from: int) -> bool
    decreases name.len() - from + 1,
    via labels_fit_from_dec
{
    if from < 0 || from > name.len() {
        true
    } else {
        let i = dot_from(name, from);
        if i - from > MAX_LABEL_LEN {
            false
        } else if i >= name.len() {
            true
        } else {
            labels_fit_from(name, i + 1)
        }
    }
}

#[via_fn]
proof fn labels_fit_from_dec(name: Seq<u8>, from: int) {
    if 0 <= from <= name.len() {
        lemma_dot_from(name, from);
    }
}

/// Every '.'-separated label of `name`, from position `from` on, has at
/// least one byte: the name has no leading, trailing or doubled dot, and is
/// not empty.
pub open spec fn labels_nonempty_from(name: Seq<u8>, from: int) -> bool
    decreases name.len() - from + 1,
    via labels_nonempty_from_dec
{
    if from < 0 || from > name.len() {
        true
    } else {
        let i = dot_from(name, from);
        if i == from {
            false
        } else if i >= name.len() {
            true
        } else {
            labels_nonempty_from(name, i + 1)
        }
    }
}

#[via_fn]
proof fn labels_nonempty_from_dec(name: Seq<u8>, from: int) {
    if 0 <= from <= name.len() {
        lemma_dot_from(name, from);
    }
}

/// The wire encoding of the part of `name` from position `from` on: each
/// label as a length byte and its bytes, closed by a zero terminator.
pub open spec fn wire_name_from(name: Seq<u8>, from: int) -> Seq<u8>
    decreases name.len() - from + 1,
    via wire_name_from_dec
{
    if from < 0 || from > name.len() {
        Seq::empty()
    } else {
        let i = dot_from(name, from);
        if i >= name.len() {
            seq![(i - from) as u8] + name.subrange(from, i) + seq![0u8]
        } else {
            seq![(i - from) as u8] + name.subrange(from, i) + wire_name_from(name, i + 1)
        }
    }
}

#[via_fn]
proof fn wire_name_from_dec(name: Seq<u8>, from: int) {
    if 0 <= from <= name.len() {
        lemma_dot_from(name, from);
    }
}

/// Every label of `name` fits in `MAX_LABEL_LEN` bytes.
pub open spec fn labels_fit(name: Seq<u8>) -> bool {
    labels_fit_from(name, 0)
}

/// The full wire encoding of `name`.
pub open spec fn wire_name(name: Seq<u8>) -> Seq<u8> {
    wire_name_from(name, 0)
}

/// The wire encoding is always two bytes longer than the dotted name: one
/// length byte replaces each dot, plus a leading length byte and the
/// terminator.
pub proof fn lemma_wire_name_len(name: Seq<u8>, from: int)
    requires
        0 <= from <= name.len(),
    ensures
        wire_name_from(name, from).len() == name.len() - from + 2,
    decreases name.len() - from,
{
    lemma_dot_from(name, from);
    let i = dot_from(name, from);
    if i < name.len() {
        lemma_wire_name_len(name, i + 1);
    }
}

/// A DNS domain name: '.'-joined labels, held case-folded to ASCII
/// lowercase as the decoder produces them.
#[derive(Debug, Clone)]
pub struct DomainName {
    pub name: Vec<u8>,
}

impl View for DomainName {
    type V = Seq<u8>;

    open spec fn view(&self) -> Seq<u8> {
        self.name@
    }
}

impl DomainName {
    /// Wrap the given dotted name, as its UTF-8 bytes.
    pub fn new(raw_dn: String) -> (r: DomainName)
        ensures
            r@ == vstd::utf8::encode_utf8(raw_dn@),
    {
        DomainName { name: raw_dn.as_str().as_bytes_vec() }
    }

    /// Read a name from the buffer at its cursor, following compression
    /// pointers, and leave the cursor just past the name's on-wire
    /// representation: just past the terminator when no pointer was followed,
    /// and two bytes past where the decode began when one was.
    pub fn deserialize(buf: &mut BytePacketBuffer) -> (r: Result<DomainName, BufferError>)
        ensures
            final(buf).contents() == old(buf).contents(),
            match decode_name_at(old(buf).contents(), old(buf).cursor(), 0) {
                Ok(p) => r matches Ok(dn) && dn@ == p.name && final(buf).cursor() == (
                if p.jumped {
                    old(buf).cursor() + 2
                } else {
                    p.end
                }),
                Err(e) => r == Err::<DomainName, BufferError>(e),
            },
    {
        let ghost data = buf.contents();
        let start = buf.pos();
        let mut name: Vec<u8> = Vec::new();
        let mut jump_count: usize = 0;
        proof {
            lemma_glue_empty(data, start as int);
        }
        loop
            invariant
                buf.contents() == data,
                data == old(buf).contents(),
                start as int == old(buf).cursor(),
                jump_count <= MAX_JUMPS,
                buf.cursor() == start || start < BUF_SIZE,
                decode_name_at(data, start as int, 0) == glue(
                    name@,
                    jump_count > 0,
                    decode_name_at(data, buf.cursor(), jump_count as int),
                ),
            decreases MAX_JUMPS - jump_count, BUF_SIZE - buf.cursor(),
        {
            let ghost cur = buf.cursor();
            let ghost jumps = jump_count as int;
            let len = match buf.pop() {
                Ok(b) => b,
                Err(e) => {
                    return Err(e);
                },
            };
            if len == 0 {
                proof {
                    assert(decode_name_at(data, cur, jumps) == Ok::<NameParse, BufferError>(
                        NameParse { name: Seq::empty(), end: cur + 1, jumped: false },
                    ));
                    assert(name@ + Seq::<u8>::empty() =~= name@);
                }
                if jump_count > 0 {
                    buf.seek(start + 2);
                }
                return Ok(DomainName { name });
            }
            if len >= 192 {
                jump_count += 1;
                if jump_count > MAX_JUMPS {
                    return Err(BufferError::TooManyJumps);
                }
                let second = match buf.pop() {
                    Ok(b) => b,
                    Err(e) => {
                        return Err(e);
                    },
                };
                let target = ((len - 192) as usize) * 256 + (second as usize);
                buf.seek(target);
                if target >= BUF_SIZE {
                    return Err(BufferError::ReadOverrun);
                }
                proof {
                    assert(target as int == (data[cur] - 192) * 256 + data[cur + 1]);
                    match decode_name_at(data, target as int, jumps + 1) {
                        Ok(p) => {
                            assert(Seq::<u8>::empty() + p.name =~= p.name);
                        },
                        Err(e) => {},
                    }
                    assert(decode_name_at(data, cur, jumps) == glue(
                        Seq::<u8>::empty(),
                        true,
                        decode_name_at(data, target as int, jumps + 1),
                    ));
                    assert(name@ + Seq::<u8>::empty() =~= name@);
                    lemma_glue_assoc(
                        name@,
                        Seq::<u8>::empty(),
                        jumps > 0,
                        true,
                        decode_name_at(data, target as int, jumps + 1),
                    );
                }
            } else {
                let pos_after = buf.pos();
                let label = match buf.peek_slice(pos_after, len as usize) {
                    Ok(s) => s,
                    Err(e) => {
                        return Err(e);
                    },
                };
                let ghost acc0 = name@;
                let ghost lowered = label@.map_values(|b: u8| ascii_lower(b));
                push_lowered(&mut name, label);
                buf.step(len as usize);
                let next = match buf.peek() {
                    Ok(b) => b,
                    Err(e) => {
                        return Err(e);
                    },
                };
                let ghost sep: Seq<u8> = if next == 0 {
                    Seq::empty()
                } else {
                    seq![46u8]
                };
                if next != 0 {
                    name.push(46);
                }
                proof {
                    let rest = decode_name_at(data, cur + 1 + (len as int), jumps);
                    assert(decode_name_at(data, cur, jumps) == glue(lowered + sep, false, rest));
                    lemma_glue_assoc(acc0, lowered + sep, jumps > 0, false, rest);
                    assert(name@ =~= acc0 + (lowered + sep));
                }
            }
        }
    }
}

/// First '.' of `name` at or after `from`, or the end of the name.
fn find_dot(name: &Vec<u8>, from: usize) -> (r: usize)
    requires
        from <= name@.len(),
    ensures
        r as int == dot_from(name@, from as int),
        from <= r <= name@.len(),
{
    let n = name.len();
    let mut i = from;
    while i < n
        invariant
            from <= i <= n,
            n == name@.len(),
            dot_from(name@, from as int) == dot_from(name@, i as int),
        decreases n - i,
    {
        if name[i] == 46 {
            return i;
        }
        i += 1;
    }
    proof {
        lemma_dot_from(name@, from as int);
    }
    n
}

/// Whether every '.'-separated label of `name` fits in `MAX_LABEL_LEN` bytes.
pub(crate) fn labels_ok(name: &Vec<u8>) -> (r: bool)
    ensures
        r == labels_fit(name@),
{
    let n = name.len();
    let mut ls: usize = 0;
    loop
        invariant
            ls <= n,
            n == name@.len(),
            labels_fit(name@) == labels_fit_from(name@, ls as int),
        decreases n - ls,
    {
        let e = find_dot(name, ls);
        proof {
            lemma_dot_from(name@, ls as int);
        }
        if e - ls > MAX_LABEL_LEN {
            return false;
        }
        if e >= n {
            return true;
        }
        ls = e + 1;
    }
}

impl DomainName {
    /// Write the name at the buffer's cursor as length-prefixed labels closed
    /// by a zero byte. Validity and fit are checked up front, so a failed
    /// encode leaves the buffer untouched; a label over `MAX_LABEL_LEN` bytes
    /// or a name whose encoding is over `MAX_NAME_LEN` bytes is refused
    /// before the fit of the buffer is considered.
    #[verifier::rlimit(60)]
    pub fn serialize(&self, buf: &mut BytePacketBuffer) -> (r: Result<(), BufferError>)
        ensures
            self@.len() + 2 > MAX_NAME_LEN || !labels_fit(self@) ==> r == Err::<(), BufferError>(
                BufferError::EncodeTooLong,
            ) && *final(buf) == *old(buf),
            self@.len() + 2 <= MAX_NAME_LEN && labels_fit(self@) && old(buf).cursor() + self@.len()
                + 2 > BUF_SIZE ==> r == Err::<(), BufferError>(BufferError::WriteOverrun)
                && *final(buf) == *old(buf),
            self@.len() + 2 <= MAX_NAME_LEN && labels_fit(self@) && old(buf).cursor() + self@.len()
                + 2 <= BUF_SIZE ==> r == Ok::<(), BufferError>(())
                && final(buf).contents() == old(buf).contents().subrange(0, old(buf).cursor())
                    + wire_name(self@)
                    + old(buf).contents().subrange(
                        old(buf).cursor() + self@.len() + 2, BUF_SIZE as int)
                && final(buf).cursor() == old(buf).cursor() + self@.len() + 2,
    {
        let ghost v = self.name@;
        let n = self.name.len();
        if n > MAX_NAME_LEN - 2 {
            return Err(BufferError::EncodeTooLong);
        }
        if !labels_ok(&self.name) {
            return Err(BufferError::EncodeTooLong);
        }
        let c = buf.pos();
        if c >= BUF_SIZE || BUF_SIZE - c < n + 2 {
            return Err(BufferError::WriteOverrun);
        }
        let ghost c0 = buf.cursor();
        let ghost base = buf.contents();
        proof {
            assert(wire_name(v).subrange(0, 0) + wire_name_from(v, 0) =~= wire_name_from(v, 0));
            assert(base.subrange(0, c0) + wire_name(v).subrange(0, 0) + base.subrange(
                c0,
                BUF_SIZE as int,
            ) =~= base);
        }
        let mut ls: usize = 0;
        loop
            invariant
                ls <= n,
                n == v.len(),
                v == self.name@,
                n + 2 <= MAX_NAME_LEN,
                c0 == c as int,
                c0 == old(buf).cursor(),
                c0 + n + 2 <= BUF_SIZE,
                base == old(buf).contents(),
                v == self@,
                labels_fit(v),
                buf.cursor() == c0 + ls,
                buf.contents() == base.subrange(0, c0) + wire_name(v).subrange(0, ls as int)
                    + base.subrange(c0 + ls, BUF_SIZE as int),
                wire_name(v) == wire_name(v).subrange(0, ls as int) + wire_name_from(v, ls as int),
                labels_fit_from(v, ls as int),
            decreases n - ls,
        {
            let e = find_dot(&self.name, ls);
            proof {
                lemma_dot_from(v, ls as int);
                lemma_wire_name_len(v, ls as int);
            }
            match buf.push((e - ls) as u8) {
                Ok(()) => (),
                Err(err) => {
                    return Err(err);
                },
            };
            let label = vstd::slice::slice_subrange(self.name.as_slice(), ls, e);
            match buf.push_slice(label) {
                Ok(()) => (),
                Err(err) => {
                    return Err(err);
                },
            };
            if e >= n {
                match buf.push(0) {
                    Ok(()) => (),
                    Err(err) => {
                        return Err(err);
                    },
                };
                proof {
                    assert(wire_name_from(v, ls as int) =~= seq![(e - ls) as u8] + v.subrange(
                        ls as int,
                        n as int,
                    ) + seq![0u8]);
                    assert(buf.contents() =~= base.subrange(0, c0) + wire_name(v) + base.subrange(
                        c0 + n + 2,
                        BUF_SIZE as int,
                    ));
                }
                return Ok(());
            }
            proof {
                let ls0 = ls as int;
                let e0 = e as int;
                assert(wire_name_from(v, ls0) == seq![(e0 - ls0) as u8] + v.subrange(ls0, e0)
                    + wire_name_from(v, e0 + 1));
                assert(wire_name(v).subrange(0, e0 + 1) =~= wire_name(v).subrange(0, ls0) + (
                seq![(e0 - ls0) as u8] + v.subrange(ls0, e0)));
                assert(wire_name(v) =~= wire_name(v).subrange(0, e0 + 1) + wire_name_from(
                    v,
                    e0 + 1,
                ));
                assert(buf.contents() =~= base.subrange(0, c0) + wire_name(v).subrange(0, e0 + 1)
                    + base.subrange(c0 + e0 + 1, BUF_SIZE as int));
            }
            ls = e + 1;
        }
    }
}

/// A name in canonical decoded form: labels of one to `MAX_LABEL_LEN` bytes
/// (so no leading, trailing or doubled dot, and not empty), every byte
/// already ASCII lowercase.
pub open spec fn canonical_name(name: Seq<u8>) -> bool {
    labels_fit(name) && labels_nonempty_from(name, 0) && forall|k: int|
        0 <= k < name.len() ==> ascii_lower(name[k]) == name[k]
}

proof fn lemma_round_trip_from(data: Seq<u8>, name: Seq<u8>, from: int, p: int, jumps: int)
    requires
        data.len() == BUF_SIZE,
        0 <= from <= name.len(),
        labels_fit_from(name, from),
        labels_nonempty_from(name, from),
        forall|k: int| from <= k < name.len() ==> ascii_lower(name[k]) == name[k],
        0 <= p,
        p + (name.len() - from) + 2 <= BUF_SIZE,
        data.subrange(p, p + (name.len() - from) + 2) == wire_name_from(name, from),
        0 <= jumps <= MAX_JUMPS,
    ensures
        decode_name_at(data, p, jumps) == Ok::<NameParse, BufferError>(
            NameParse {
                name: name.subrange(from, name.len() as int),
                end: p + (name.len() - from) + 2,
                jumped: false,
            },
        ),
    decreases name.len() - from,
{
    lemma_dot_from(name, from);
    lemma_wire_name_len(name, from);
    let e = dot_from(name, from);
    let l = e - from;
    let w = wire_name_from(name, from);
    let nlen = name.len() as int;
    let n2 = nlen - from + 2;
    assert(1 <= l <= MAX_LABEL_LEN);
    assert(data[p] == data.subrange(p, p + n2)[0]);
    assert(w[0] == l as u8);
    assert_seqs_equal!(
        data.subrange(p + 1, p + 1 + l).map_values(|b: u8| ascii_lower(b))
            == name.subrange(from, e),
        j => {
            assert(data[p + 1 + j] == data.subrange(p, p + n2)[1 + j]);
            assert(w[1 + j] == name[from + j]);
        }
    );
    if e == nlen {
        assert(data[p + 1 + l] == data.subrange(p, p + n2)[1 + l]);
        assert(w[1 + l] == 0u8);
        assert(decode_name_at(data, p + 1 + l, jumps) == Ok::<NameParse, BufferError>(
            NameParse { name: Seq::empty(), end: p + 1 + l + 1, jumped: false },
        ));
        assert(name.subrange(from, e) + Seq::<u8>::empty() + Seq::<u8>::empty() =~= name.subrange(
            from,
            nlen,
        ));
    } else {
        lemma_dot_from(name, e + 1);
        lemma_wire_name_len(name, e + 1);
        reveal_with_fuel(labels_fit_from, 2);
        reveal_with_fuel(labels_nonempty_from, 2);
        let w2 = wire_name_from(name, e + 1);
        assert(w == seq![l as u8] + name.subrange(from, e) + w2);
        assert(data[p + 1 + l] == data.subrange(p, p + n2)[1 + l]);
        assert(w[1 + l] == w2[0]);
        assert(w2[0] == (dot_from(name, e + 1) - (e + 1)) as u8);
        assert(1 <= dot_from(name, e + 1) - (e + 1) <= MAX_LABEL_LEN);
        assert(data[p + 1 + l] != 0u8);
        let p2 = p + 1 + l;
        assert_seqs_equal!(
            data.subrange(p2, p2 + (nlen - (e + 1)) + 2) == w2,
            j => {
                assert(data[p2 + j] == data.subrange(p, p + n2)[1 + l + j]);
                assert(w[1 + l + j] == w2[j]);
            }
        );
        lemma_round_trip_from(data, name, e + 1, p2, jumps);
        assert(name.subrange(from, e) + seq![46u8] + name.subrange(e + 1, nlen) =~= name.subrange(
            from,
            nlen,
        ));
    }
}

/// Round trip: a canonical name, encoded at position `p` of a message,
/// decodes from `p` back to the very same name, with the parse ending just
/// past its terminator and no jump reported.
pub proof fn lemma_name_round_trip(data: Seq<u8>, name: Seq<u8>, p: int)
    requires
        data.len() == BUF_SIZE,
        canonical_name(name),
        0 <= p,
        p + name.len() + 2 <= BUF_SIZE,
        data.subrange(p, p + name.len() + 2) == wire_name(name),
    ensures
        decode_name_at(data, p, 0) == Ok::<NameParse, BufferError>(
            NameParse { name: name, end: p + name.len() + 2, jumped: false },
        ),
{
    lemma_round_trip_from(data, name, 0, p, 0);
    assert(name.subrange(0, name.len() as int) == name);
}

/// A name standing as a single compression pointer to a prior encoding
/// decodes to the identical name and reports the jump, so the decoder leaves
/// the cursor exactly two bytes past the pointer's own position.
pub proof fn lemma_compressed_name_round_trip(data: Seq<u8>, name: Seq<u8>, p: int, q: int)
    requires
        data.len() == BUF_SIZE,
        canonical_name(name),
        0 <= p,
        p + name.len() + 2 <= BUF_SIZE,
        data.subrange(p, p + name.len() + 2) == wire_name(name),
        0 <= q,
        q + 1 < BUF_SIZE,
        data[q] == (192 + p / 256) as u8,
        data[q + 1] == (p % 256) as u8,
    ensures
        decode_name_at(data, q, 0) == Ok::<NameParse, BufferError>(
            NameParse { name: name, end: p + name.len() + 2, jumped: true },
        ),
{
    assert(p == (p / 256) * 256 + p % 256);
    lemma_round_trip_from(data, name, 0, p, 1);
    assert(name.subrange(0, name.len() as int) == name);
}

/// A pointer chain that never reaches a terminator trips the jump ceiling
/// instead of looping: a pointer whose target is its own position fails with
/// `TooManyJumps`.
pub proof fn lemma_pointer_cycle(data: Seq<u8>, q: int)
    requires
        0 <= q,
        q + 1 < BUF_SIZE,
        data[q] == (192 + q / 256) as u8,
        data[q + 1] == (q % 256) as u8,
    ensures
        decode_name_at(data, q, 0) == Err::<NameParse, BufferError>(BufferError::TooManyJumps),
{
    lemma_pointer_cycle_from(data, q, 0);
}

proof fn lemma_pointer_cycle_from(data: Seq<u8>, q: int, jumps: int)
    requires
        0 <= q,
        q + 1 < BUF_SIZE,
        data[q] == (192 + q / 256) as u8,
        data[q + 1] == (q % 256) as u8,
        0 <= jumps <= MAX_JUMPS,
    ensures
        decode_name_at(data, q, jumps) == Err::<NameParse, BufferError>(BufferError::TooManyJumps),
    decreases MAX_JUMPS + 1 - jumps,
{
    assert(q == (q / 256) * 256 + q % 256);
    if jumps + 1 <= MAX_JUMPS {
        lemma_pointer_cycle_from(data, q, jumps + 1);
    }
}

impl Serialize for DomainName {
    type Buffer = BytePacketBuffer;

    type Structure = DomainName;

    fn serialize(struc: DomainName, buf: &mut BytePacketBuffer) -> Result<(), BufferError> {
        struc.serialize(buf)
    }
}

impl Deserialize for DomainName {
    type Buffer = BytePacketBuffer;

    type Structure = DomainName;

    fn deserialize(buf: &mut BytePacketBuffer) -> Result<DomainName, BufferError> {
        DomainName::deserialize(buf)
    }
}

/// Gluing an empty accumulator onto a decode changes nothing.
proof fn lemma_glue_empty(data: Seq<u8>, pos: int)
    ensures
        decode_name_at(data, pos, 0) == glue(
            Seq::<u8>::empty(),
            false,
            decode_name_at(data, pos, 0),
        ),
{
    match decode_name_at(data, pos, 0) {
        Ok(p) => {
            assert(Seq::<u8>::empty() + p.name =~= p.name);
        },
        Err(e) => {},
    }
}

/// Gluing twice is gluing the joined accumulators once.
proof fn lemma_glue_assoc(
    a: Seq<u8>,
    b: Seq<u8>,
    ja: bool,
    jb: bool,
    rest: Result<NameParse, BufferError>,
)
    ensures
        glue(a, ja, glue(b, jb, rest)) == glue(a + b, ja || jb, rest),
{
    match rest {
        Ok(p) => {
            assert(a + (b + p.name) =~= (a + b) + p.name);
        },
        Err(e) => {},
    }
}

/// Append `src` to `dst`, case-folded to ASCII lowercase.
fn push_lowered(dst: &mut Vec<u8>, src: &[u8])
    ensures
        final(dst)@ == old(dst)@ + src@.map_values(|b: u8| ascii_lower(b)),
{
    let mut i: usize = 0;
    proof {
        assert(old(dst)@ + src@.subrange(0, 0).map_values(|b: u8| ascii_lower(b)) =~= old(dst)@);
    }
    while i < src.len()
        invariant
            i <= src@.len(),
            dst@ == old(dst)@ + src@.subrange(0, i as int).map_values(|b: u8| ascii_lower(b)),
        decreases src@.len() - i,
    {
        let b = src[i];
        let c = if b >= 65 && b <= 90 {
            b + 32
        } else {
            b
        };
        dst.push(c);
        proof {
            assert(src@.subrange(0, i + 1).map_values(|b: u8| ascii_lower(b)) =~= src@.subrange(
                0,
                i as int,
            ).map_values(|b: u8| ascii_lower(b)).push(ascii_lower(src@[i as int])));
            assert(dst@ =~= old(dst)@ + src@.subrange(0, i + 1).map_values(
                |b: u8| ascii_lower(b),
            ));
        }
        i += 1;
    }
    proof {
        assert(src@.subrange(0, src@.len() as int) == src@);
    }
}

} // verus!
