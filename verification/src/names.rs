//! Encoding and decoding of DNS names: sequences of labels, including
//! label-pointer decompression on decode.

use vstd::prelude::*;

use crate::errors::DnsFormatError;

verus! {

/// A label carried on the wire has 1 to 63 bytes; the zero-length label is
/// the terminating root and is never stored.
pub open spec fn wf_label(label: Seq<u8>) -> bool {
    1 <= label.len() <= 63
}

/// Every label of the name can be written back to the wire.
pub open spec fn wf_name(name: Seq<Seq<u8>>) -> bool {
    forall|i: int| 0 <= i < name.len() ==> wf_label(#[trigger] name[i])
}

/// The labels of a name as written to the wire, each prefixed with its
/// length, without the terminating root label.
pub open spec fn spec_serialize_labels(name: Seq<Seq<u8>>) -> Seq<u8>
    decreases name.len(),
{
    if name.len() == 0 {
        Seq::empty()
    } else {
        seq![name[0].len() as u8] + name[0] + spec_serialize_labels(name.drop_first())
    }
}

/// The uncompressed wire encoding of a name: its length-prefixed labels
/// followed by the terminating root label.
pub open spec fn spec_serialize_name(name: Seq<Seq<u8>>) -> Seq<u8> {
    spec_serialize_labels(name) + seq![0u8]
}

/// Decode the name at `pos` of the message `b`, following at most `jumps`
/// label pointers.
///
/// Each step reads the length octet's top two bits: `00` introduces a label
/// of the low six bits' length (zero terminates the name), `11` joins the
/// low six bits with the next octet into a 14-bit offset whose name is
/// appended and terminates this one, and `01`/`10` are invalid.  Running
/// past the end of the message, an invalid octet, or exhausting the pointer
/// budget decodes to `None`.  On success the returned position is the first
/// byte after the terminating root or after the two-byte pointer, whichever
/// ended the name.
pub open spec fn parse_name(b: Seq<u8>, pos: int, jumps: nat) -> Option<(Seq<Seq<u8>>, int)>
    decreases jumps, (if pos < b.len() {
        b.len() - pos
    } else {
        0
    }),
{
    if pos < 0 || pos >= b.len() {
        None
    } else {
        let len_byte = b[pos];
        if len_byte >= 192 {
            // Top bits 11: a pointer to an earlier name
            if pos + 1 >= b.len() || jumps == 0 {
                None
            } else {
                let target = (len_byte - 192) * 256 + b[pos + 1];
                match parse_name(b, target as int, (jumps - 1) as nat) {
                    Some((labels, _)) => Some((labels, pos + 2)),
                    None => None,
                }
            }
        } else if len_byte >= 64 {
            // Top bits 01 or 10: reserved, invalid
            None
        } else if len_byte == 0 {
            // The root label terminates the name
            Some((Seq::empty(), pos + 1))
        } else {
            // A plain label of len_byte bytes
            if pos + 1 + len_byte >= b.len() {
                None
            } else {
                match parse_name(b, pos + 1 + len_byte, jumps) {
                    Some((labels, end)) => Some(
                        (seq![b.subrange(pos + 1, pos + 1 + len_byte)] + labels, end),
                    ),
                    None => None,
                }
            }
        }
    }
}

/// A byte vector's deep view is its view.
pub proof fn lemma_bytes_deep_view(v: Vec<u8>)
    ensures
        v.deep_view() == v@,
{
    assert(v.deep_view() =~= v@);
}

/// Check that every label of the name has 1 to 63 bytes, so the name can
/// be written to the wire.
pub fn is_wf_name(name: &Vec<Vec<u8>>) -> (r: bool)
    ensures
        r == wf_name(name.deep_view()),
{
    let ghost dv = name.deep_view();
    let mut i: usize = 0;
    while i < name.len()
        invariant
            i <= name@.len(),
            dv == name.deep_view(),
            dv.len() == name@.len(),
            forall|k: int| 0 <= k < i ==> wf_label(#[trigger] dv[k]),
        decreases name@.len() - i,
    {
        proof {
            assert(dv[i as int] == name@[i as int].deep_view());
            lemma_bytes_deep_view(name@[i as int]);
        }
        let len = name[i].len();
        if len < 1 || len > 63 {
            return false;
        }
        i += 1;
    }
    true
}

/// Compare two byte vectors for equality.
pub fn bytes_equal(a: &Vec<u8>, b: &Vec<u8>) -> (r: bool)
    ensures
        r == (a@ == b@),
{
    if a.len() != b.len() {
        return false;
    }
    let mut i: usize = 0;
    while i < a.len()
        invariant
            i <= a@.len(),
            a@.len() == b@.len(),
            forall|k: int| 0 <= k < i ==> a@[k] == b@[k],
        decreases a@.len() - i,
    {
        if a[i] != b[i] {
            return false;
        }
        i += 1;
    }
    proof {
        assert(a@ =~= b@);
    }
    true
}

/// Compare two names for equality, label by label.  Comparison is exact:
/// the codec preserves label bytes verbatim and does not case-fold.
pub fn names_equal(a: &Vec<Vec<u8>>, b: &Vec<Vec<u8>>) -> (r: bool)
    ensures
        r == (a.deep_view() == b.deep_view()),
{
    let ghost da = a.deep_view();
    let ghost db = b.deep_view();
    if a.len() != b.len() {
        proof {
            assert(da.len() != db.len());
        }
        return false;
    }
    let mut i: usize = 0;
    while i < a.len()
        invariant
            i <= a@.len(),
            a@.len() == b@.len(),
            da == a.deep_view(),
            db == b.deep_view(),
            da.len() == a@.len(),
            db.len() == b@.len(),
            forall|k: int| 0 <= k < i ==> da[k] == db[k],
        decreases a@.len() - i,
    {
        proof {
            assert(da[i as int] == a@[i as int].deep_view());
            assert(db[i as int] == b@[i as int].deep_view());
            lemma_bytes_deep_view(a@[i as int]);
            lemma_bytes_deep_view(b@[i as int]);
        }
        if !bytes_equal(&a[i], &b[i]) {
            return false;
        }
        i += 1;
    }
    proof {
        assert(da =~= db);
    }
    true
}

/// Copy a byte vector.
pub fn clone_bytes(v: &Vec<u8>) -> (r: Vec<u8>)
    ensures
        r@ == v@,
{
    let mut r: Vec<u8> = Vec::new();
    let mut i: usize = 0;
    while i < v.len()
        invariant
            r@ == v@.take(i as int),
            i <= v@.len(),
        decreases v@.len() - i,
    {
        r.push(v[i]);
        i += 1;
        proof {
            assert(r@ =~= v@.take(i as int));
        }
    }
    proof {
        assert(v@.take(v@.len() as int) =~= v@);
    }
    r
}

/// Copy a name label by label.
pub fn clone_name(name: &Vec<Vec<u8>>) -> (r: Vec<Vec<u8>>)
    ensures
        r.deep_view() == name.deep_view(),
{
    let mut r: Vec<Vec<u8>> = Vec::new();
    let mut i: usize = 0;
    while i < name.len()
        invariant
            r.deep_view() == name.deep_view().take(i as int),
            i <= name@.len(),
            name.deep_view().len() == name@.len(),
        decreases name@.len() - i,
    {
        let label = clone_bytes(&name[i]);
        proof {
            lemma_bytes_deep_view(label);
            lemma_bytes_deep_view(name@[i as int]);
            assert(name.deep_view()[i as int] == name@[i as int].deep_view());
        }
        let ghost prev = r.deep_view();
        r.push(label);
        i += 1;
        proof {
            assert(r.deep_view() =~= prev.push(label.deep_view()));
            assert(prev.push(label.deep_view()) =~= name.deep_view().take(i as int));
        }
    }
    proof {
        assert(name.deep_view().take(name@.len() as int) =~= name.deep_view());
    }
    r
}

/// Decode the name at `start`.  `bytes` must be the whole DNS message,
/// because labels may be encoded as pointers back into it.
///
/// The number of pointer dereferences is bounded by the message length, so
/// pointer cycles (a pointer to itself, two pointers to each other) fail
/// with a format error instead of looping.
pub fn deserialize_name(bytes: &[u8], start: usize) -> (r: Result<
    (Vec<Vec<u8>>, usize),
    DnsFormatError,
>)
    ensures
        match parse_name(bytes@, start as int, bytes@.len() as nat) {
            Some((labels, end)) => r matches Ok((name, pos)) && name.deep_view() == labels && pos
                == end,
            None => r matches Err(e) && e.spec_partial() is None,
        },
{
    deserialize_name_rec(bytes, start, bytes.len())
}

/// The recursive worker for [`deserialize_name`], carrying the remaining
/// pointer budget.
fn deserialize_name_rec(bytes: &[u8], pos: usize, jumps: usize) -> (r: Result<
    (Vec<Vec<u8>>, usize),
    DnsFormatError,
>)
    ensures
        match parse_name(bytes@, pos as int, jumps as nat) {
            Some((labels, end)) => r matches Ok((name, p)) && name.deep_view() == labels && p
                == end,
            None => r matches Err(e) && e.spec_partial() is None,
        },
    decreases jumps, (if (pos as int) < bytes@.len() {
        bytes@.len() - pos
    } else {
        0
    }),
{
    if pos >= bytes.len() {
        return Err(
            DnsFormatError::make_error(
                String::from_str(
                    "Reached end of packet while parsing label or label pointer jumped beyond packet",
                ),
            ),
        );
    }
    let len_byte = bytes[pos];
    if len_byte >= 192 {
        // The pointer joins the lower 6 bits of the length octet with the
        // entirety of the next octet
        if pos + 1 >= bytes.len() {
            return Err(
                DnsFormatError::make_error(
                    String::from_str("Unexpected end of packet at label pointer start"),
                ),
            );
        }
        if jumps == 0 {
            return Err(
                DnsFormatError::make_error(
                    String::from_str("Too many label pointers; assuming a pointer loop"),
                ),
            );
        }
        let target = ((len_byte - 192) as usize) * 256 + (bytes[pos + 1] as usize);
        match deserialize_name_rec(bytes, target, jumps - 1) {
            // A pointer always ends the name: the position advances past
            // the two pointer bytes, wherever the target name ended
            Ok((labels, _)) => Ok((labels, pos + 2)),
            Err(e) => Err(e),
        }
    } else if len_byte >= 64 {
        Err(DnsFormatError::make_error(String::from_str("Unsupported or invalid label pointer type")))
    } else if len_byte == 0 {
        // The root label: the name is complete
        Ok((Vec::new(), pos + 1))
    } else {
        let length = len_byte as usize;
        if length >= bytes.len() - (pos + 1) {
            return Err(
                DnsFormatError::make_error(
                    String::from_str("Label length is longer than remainder of packet"),
                ),
            );
        }
        let mut label: Vec<u8> = Vec::new();
        let mut j: usize = 0;
        while j < length
            invariant
                j <= length,
                pos + 1 + length < bytes@.len(),
                bytes@.len() <= usize::MAX,
                label@ == bytes@.subrange(pos + 1, pos + 1 + j),
            decreases length - j,
        {
            label.push(bytes[pos + 1 + j]);
            j += 1;
            proof {
                assert(label@ =~= bytes@.subrange(pos + 1, pos + 1 + j));
            }
        }
        match deserialize_name_rec(bytes, pos + 1 + length, jumps) {
            Ok((mut labels, end)) => {
                let ghost rest = labels.deep_view();
                labels.insert(0, label);
                proof {
                    lemma_bytes_deep_view(label);
                    assert(labels.deep_view() =~= seq![label@] + rest);
                }
                Ok((labels, end))
            },
            Err(e) => Err(e),
        }
    }
}

/// Serialize a name as its length-prefixed labels followed by the root
/// label.  No compression is performed.
pub fn serialize_name(name: &Vec<Vec<u8>>) -> (r: Vec<u8>)
    requires
        wf_name(name.deep_view()),
    ensures
        r@ == spec_serialize_name(name.deep_view()),
{
    let ghost dv = name.deep_view();
    let mut bytes: Vec<u8> = Vec::new();
    let mut i: usize = 0;
    while i < name.len()
        invariant
            i <= name.len(),
            dv == name.deep_view(),
            wf_name(dv),
            dv.len() == name@.len(),
            bytes@ == spec_serialize_labels(dv.take(i as int)),
        decreases name.len() - i,
    {
        let label: &Vec<u8> = &name[i];
        proof {
            assert(dv[i as int] == name@[i as int].deep_view());
            lemma_bytes_deep_view(name@[i as int]);
        }
        // The length octet comes first; wf_name bounds it by 63
        let len: u8 = label.len() as u8;
        bytes.push(len);
        let mut j: usize = 0;
        while j < label.len()
            invariant
                j <= label@.len(),
                bytes@ == spec_serialize_labels(dv.take(i as int)) + seq![label@.len() as u8]
                    + label@.take(j as int),
            decreases label@.len() - j,
        {
            bytes.push(label[j]);
            j += 1;
            proof {
                assert(bytes@ =~= spec_serialize_labels(dv.take(i as int)) + seq![
                    label@.len() as u8,
                ] + label@.take(j as int));
            }
        }
        proof {
            lemma_serialize_labels_push(dv.take(i as int), dv[i as int]);
            assert(dv.take(i as int).push(dv[i as int]) =~= dv.take(i + 1));
            assert(label@.take(label@.len() as int) =~= label@);
            assert(bytes@ =~= spec_serialize_labels(dv.take(i + 1)));
        }
        i += 1;
    }
    bytes.push(0x00);
    proof {
        assert(dv.take(name@.len() as int) =~= dv);
        assert(bytes@ =~= spec_serialize_name(dv));
    }
    bytes
}

/// Appending a label to a name appends its length prefix and bytes to the
/// serialized labels.
pub proof fn lemma_serialize_labels_push(name: Seq<Seq<u8>>, label: Seq<u8>)
    ensures
        spec_serialize_labels(name.push(label)) == spec_serialize_labels(name) + seq![
            label.len() as u8,
        ] + label,
    decreases name.len(),
{
    let p = name.push(label);
    if name.len() == 0 {
        let rest = p.drop_first();
        assert(rest =~= Seq::<Seq<u8>>::empty());
        assert(spec_serialize_labels(rest) == Seq::<u8>::empty());
        assert(p[0] == label);
        assert(spec_serialize_labels(p) == seq![label.len() as u8] + label + Seq::<u8>::empty());
        assert(spec_serialize_labels(name) == Seq::<u8>::empty());
        assert(spec_serialize_labels(p) =~= spec_serialize_labels(name) + seq![
            label.len() as u8,
        ] + label);
    } else {
        lemma_serialize_labels_push(name.drop_first(), label);
        assert(p.drop_first() =~= name.drop_first().push(label));
        assert(p[0] == name[0]);
        assert(spec_serialize_labels(p) == seq![name[0].len() as u8] + name[0]
            + spec_serialize_labels(p.drop_first()));
        assert(spec_serialize_labels(p) =~= spec_serialize_labels(name) + seq![
            label.len() as u8,
        ] + label);
    }
}

/// A serialized name unfolds as its first label followed by the rest.
pub proof fn lemma_serialize_name_unfold(name: Seq<Seq<u8>>)
    requires
        name.len() > 0,
    ensures
        spec_serialize_name(name) == seq![name[0].len() as u8] + name[0] + spec_serialize_name(
            name.drop_first(),
        ),
{
    assert(spec_serialize_name(name) =~= seq![name[0].len() as u8] + name[0]
        + spec_serialize_name(name.drop_first()));
}

/// A serialized name holds at least the terminating root label.
pub proof fn lemma_serialize_name_len(name: Seq<Seq<u8>>)
    ensures
        spec_serialize_name(name).len() >= 1,
        name.len() > 0 ==> spec_serialize_name(name).len() == 1 + name[0].len()
            + spec_serialize_name(name.drop_first()).len(),
    decreases name.len(),
{
    if name.len() > 0 {
        lemma_serialize_name_unfold(name);
    }
}

/// What a successful decode guarantees: the labels are well formed and the
/// final position advanced but stayed within the message.
pub proof fn lemma_parse_name_props(b: Seq<u8>, pos: int, jumps: nat)
    ensures
        parse_name(b, pos, jumps) matches Some((labels, end)) ==> wf_name(labels) && 0 <= pos < end
            <= b.len(),
    decreases jumps, (if pos < b.len() {
        b.len() - pos
    } else {
        0
    }),
{
    if 0 <= pos < b.len() {
        let len_byte = b[pos];
        if len_byte >= 192 {
            if pos + 1 < b.len() && jumps > 0 {
                let target = (len_byte - 192) * 256 + b[pos + 1];
                lemma_parse_name_props(b, target as int, (jumps - 1) as nat);
            }
        } else if 1 <= len_byte < 64 {
            if pos + 1 + len_byte < b.len() {
                lemma_parse_name_props(b, pos + 1 + len_byte, jumps);
                if parse_name(b, pos + 1 + len_byte, jumps) is Some {
                    let (labels, end) = parse_name(b, pos + 1 + len_byte, jumps)->Some_0;
                    let all = seq![b.subrange(pos + 1, pos + 1 + len_byte)] + labels;
                    assert forall|i: int| 0 <= i < all.len() implies wf_label(#[trigger] all[i]) by {
                        if i > 0 {
                            assert(all[i] == labels[i - 1]);
                        }
                    }
                }
            }
        }
    }
}

/// Decoding a buffer that holds an uncompressed serialized name at `pos`
/// yields exactly that name's labels, whatever the pointer budget, and ends
/// right after its terminating root label.
pub proof fn lemma_parse_serialized_name(b: Seq<u8>, pos: int, name: Seq<Seq<u8>>, jumps: nat)
    requires
        wf_name(name),
        0 <= pos,
        pos + spec_serialize_name(name).len() <= b.len(),
        b.subrange(pos, pos + spec_serialize_name(name).len() as int) == spec_serialize_name(name),
    ensures
        parse_name(b, pos, jumps) == Some(
            (name, pos + spec_serialize_name(name).len() as int),
        ),
    decreases name.len(),
{
    let ser = spec_serialize_name(name);
    lemma_serialize_name_len(name);
    assert(b[pos] == b.subrange(pos, pos + ser.len() as int)[0]);
    if name.len() == 0 {
        assert(ser =~= seq![0u8]);
        assert(b[pos] == 0);
    } else {
        let label = name[0];
        let rest = name.drop_first();
        let len = label.len();
        lemma_serialize_name_unfold(name);
        let ser_rest = spec_serialize_name(rest);
        lemma_serialize_name_len(rest);
        assert(wf_label(label));
        assert(b[pos] == len as u8);
        // The label's bytes sit right after the length octet
        assert(b.subrange(pos + 1, pos + 1 + len as int) =~= label) by {
            assert forall|i: int| 0 <= i < len implies b.subrange(pos + 1, pos + 1 + len as int)[i]
                == label[i] by {
                assert(b.subrange(pos, pos + ser.len() as int)[1 + i] == ser[1 + i]);
                assert(ser[1 + i] == label[i]);
            }
        }
        // The rest of the name is serialized right after the label
        let pos2 = pos + 1 + len as int;
        assert(b.subrange(pos2, pos2 + ser_rest.len() as int) =~= ser_rest) by {
            assert forall|i: int| 0 <= i < ser_rest.len() implies b.subrange(
                pos2,
                pos2 + ser_rest.len() as int,
            )[i] == ser_rest[i] by {
                assert(b.subrange(pos, pos + ser.len() as int)[1 + len + i] == ser[1 + len + i]);
                assert(ser[1 + len + i] == ser_rest[i]);
            }
        }
        lemma_parse_serialized_name(b, pos2, rest, jumps);
        assert(seq![b.subrange(pos + 1, pos + 1 + len as int)] + rest =~= name);
    }
}

/// A label pointer whose 14-bit offset lies at or beyond the end of the
/// message decodes to a failure.
pub proof fn lemma_pointer_out_of_bounds_fails(b: Seq<u8>, pos: int, jumps: nat)
    requires
        0 <= pos < b.len(),
        b[pos] >= 192,
        (b[pos] - 192) * 256 + (if pos + 1 < b.len() {
            b[pos + 1] as int
        } else {
            0
        }) >= b.len(),
    ensures
        parse_name(b, pos, jumps) is None,
{
    if pos + 1 < b.len() && jumps > 0 {
        let target = (b[pos] - 192) * 256 + b[pos + 1];
        assert(parse_name(b, target, (jumps - 1) as nat) is None);
    }
}

/// A length octet with top bits `01` or `10` is reserved and decodes to a
/// failure: no plain label may be longer than 63 bytes.
pub proof fn lemma_reserved_label_type_fails(b: Seq<u8>, pos: int, jumps: nat)
    requires
        0 <= pos < b.len(),
        64 <= b[pos] < 192,
    ensures
        parse_name(b, pos, jumps) is None,
{
}

/// A label pointer aimed at itself decodes to a failure whatever the
/// pointer budget: every dereference lands on the same pointer and the
/// budget runs out.
pub proof fn lemma_pointer_self_loop_fails(b: Seq<u8>, pos: int, jumps: nat)
    requires
        0 <= pos,
        pos + 1 < b.len(),
        b[pos] >= 192,
        (b[pos] - 192) * 256 + b[pos + 1] == pos,
    ensures
        parse_name(b, pos, jumps) is None,
    decreases jumps,
{
    if jumps > 0 {
        lemma_pointer_self_loop_fails(b, pos, (jumps - 1) as nat);
    }
}

/// Two label pointers aimed at each other decode to a failure whatever
/// the pointer budget.
pub proof fn lemma_pointer_cycle_fails(b: Seq<u8>, pos: int, other: int, jumps: nat)
    requires
        0 <= pos,
        pos + 1 < b.len(),
        b[pos] >= 192,
        (b[pos] - 192) * 256 + b[pos + 1] == other,
        0 <= other,
        other + 1 < b.len(),
        b[other] >= 192,
        (b[other] - 192) * 256 + b[other + 1] == pos,
    ensures
        parse_name(b, pos, jumps) is None,
    decreases jumps,
{
    if jumps > 0 {
        lemma_pointer_cycle_fails(b, other, pos, (jumps - 1) as nat);
    }
}

/// Serializing a well-formed name and decoding the result yields the name
/// back, whatever pointer budget the decoder runs with.
pub proof fn lemma_name_round_trip(name: Seq<Seq<u8>>, jumps: nat)
    requires
        wf_name(name),
    ensures
        parse_name(spec_serialize_name(name), 0, jumps) == Some(
            (name, spec_serialize_name(name).len() as int),
        ),
{
    let ser = spec_serialize_name(name);
    assert(ser.subrange(0, ser.len() as int) =~= ser);
    lemma_parse_serialized_name(ser, 0, name, jumps);
}

} // verus!
