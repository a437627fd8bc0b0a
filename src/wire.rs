//! Protocol-buffer wire fields: varint and length-delimited fields with
//! their byte encodings. Varints themselves are written and read by prost.
use vstd::prelude::*;

verus! {

/// Bytes of the base-128 little-endian varint of `v`.
pub open spec fn varint_bytes(v: nat) -> Seq<u8>
    decreases v,
{
    if v < 128 {
        seq![v as u8]
    } else {
        seq![((v % 128) + 128) as u8] + varint_bytes(v / 128)
    }
}

/// What is read as a varint from the front of `s`, when `depth` bytes of the
/// same varint came before `s`: its value and how many bytes of `s` it takes.
/// A varint has at most ten bytes, and a tenth byte must be 0 or 1.
pub open spec fn varint_read(s: Seq<u8>, depth: nat) -> Option<(nat, nat)>
    decreases 10 - depth,
{
    if depth >= 10 || s.len() == 0 {
        None
    } else if s[0] < 128 {
        if depth == 9 && s[0] >= 2 {
            None
        } else {
            Some((s[0] as nat, 1))
        }
    } else {
        match varint_read(s.drop_first(), depth + 1) {
            Some((v, n)) => Some(((s[0] - 128) as nat + 128 * v, n + 1)),
            None => None,
        }
    }
}

/// Relies on prost::encoding::encode_varint: appends the varint bytes of `v`.
#[verifier::external_body]
fn put_varint(v: u64, buf: &mut Vec<u8>)
    ensures
        final(buf)@ == old(buf)@ + varint_bytes(v as nat),
{
    prost::encoding::encode_varint(v, buf)
}

/// Relies on prost::encoding::decode_varint over a byte slice: reads one
/// varint from the front of `b` and gives its value and how many bytes of
/// `b` are left after it.
#[verifier::external_body]
fn take_varint(b: &[u8]) -> (r: Option<(u64, usize)>)
    ensures
        match r {
            Some((v, left)) => left < b@.len() && varint_read(b@, 0) == Some(
                (v as nat, (b@.len() - left) as nat),
            ),
            None => varint_read(b@, 0) is None,
        },
{
    let mut rest = b;
    match prost::encoding::decode_varint(&mut rest) {
        Ok(v) => Some((v, rest.len())),
        Err(_) => None,
    }
}

/// Largest power of 128 below which a varint read at `depth` fits: a tenth
/// byte carries a single bit.
pub open spec fn varint_room(depth: nat) -> nat
    decreases 9 - depth,
{
    if depth >= 9 {
        2
    } else {
        128 * varint_room(depth + 1)
    }
}

proof fn lemma_varint_read_bytes(v: nat, depth: nat, rest: Seq<u8>)
    requires
        depth <= 9,
        v < varint_room(depth),
    ensures
        varint_read(varint_bytes(v) + rest, depth) == Some((v, varint_bytes(v).len())),
    decreases v,
{
    let s = varint_bytes(v) + rest;
    if v < 128 {
        assert(s[0] == v as u8);
        if depth < 9 {
            assert(varint_room(depth) == 128 * varint_room(depth + 1));
        }
    } else {
        if depth == 9 {
            assert(varint_room(depth) == 2);
        }
        assert(depth < 9);
        assert(varint_room(depth) == 128 * varint_room(depth + 1));
        assert(v / 128 < varint_room(depth + 1));
        assert(s.drop_first() =~= varint_bytes(v / 128) + rest);
        lemma_varint_read_bytes(v / 128, depth + 1, rest);
        assert(s[0] == ((v % 128) + 128) as u8);
    }
}

/// A varint written for a `u64` reads back as that value, whatever follows it.
pub proof fn lemma_varint_round_trip(v: u64, rest: Seq<u8>)
    ensures
        varint_read(varint_bytes(v as nat) + rest, 0) == Some(
            (v as nat, varint_bytes(v as nat).len()),
        ),
{
    reveal_with_fuel(varint_room, 10);
    assert(varint_room(0) == 0x1_0000_0000_0000_0000);
    lemma_varint_read_bytes(v as nat, 0, rest);
}


/// Largest field number that still leaves room for the wire type in a key.
pub const TAG_LIMIT: u64 = 0x2000_0000_0000_0000;

/// One field of a message body as it stands on the wire.
pub enum Field {
    /// Wire type 0: a varint.
    Varint { tag: u64, value: u64 },
    /// Wire type 2: length-delimited bytes.
    Bytes { tag: u64, data: Vec<u8> },
}

/// The mathematical content of a [`Field`].
pub enum FieldModel {
    Varint(u64, u64),
    Bytes(u64, Seq<u8>),
}

impl View for Field {
    type V = FieldModel;

    open spec fn view(&self) -> FieldModel {
        match self {
            Field::Varint { tag, value } => FieldModel::Varint(*tag, *value),
            Field::Bytes { tag, data } => FieldModel::Bytes(*tag, data@),
        }
    }
}

/// The field number of a field.
pub open spec fn field_tag(f: FieldModel) -> u64 {
    match f {
        FieldModel::Varint(t, _) => t,
        FieldModel::Bytes(t, _) => t,
    }
}

/// A field that can be written: its key, and the length of its bytes, fit in
/// a `u64`.
pub open spec fn field_ok(f: FieldModel) -> bool {
    &&& field_tag(f) < TAG_LIMIT
    &&& match f {
        FieldModel::Bytes(_, d) => d.len() <= u64::MAX,
        _ => true,
    }
}

pub open spec fn fields_ok(fs: Seq<FieldModel>) -> bool {
    forall|i: int| 0 <= i < fs.len() ==> #[trigger] field_ok(fs[i])
}

/// Bytes of one field: its key (field number and wire type), then its payload.
pub open spec fn field_bytes(f: FieldModel) -> Seq<u8> {
    match f {
        FieldModel::Varint(t, v) => varint_bytes((t * 8) as nat) + varint_bytes(v as nat),
        FieldModel::Bytes(t, d) => varint_bytes((t * 8 + 2) as nat) + varint_bytes(d.len()) + d,
    }
}

/// Bytes of a message body: its fields one after another.
pub open spec fn fields_bytes(fs: Seq<FieldModel>) -> Seq<u8>
    decreases fs.len(),
{
    if fs.len() == 0 {
        Seq::empty()
    } else {
        field_bytes(fs[0]) + fields_bytes(fs.drop_first())
    }
}

/// The field at the front of `b`, and how many bytes it takes.
pub open spec fn field_read(b: Seq<u8>) -> Option<(FieldModel, nat)> {
    match varint_read(b, 0) {
        None => None,
        Some((k, n)) => {
            let rest = b.subrange(n as int, b.len() as int);
            match varint_read(rest, 0) {
                None => None,
                Some((v, m)) => if k % 8 == 0 {
                    Some((FieldModel::Varint((k / 8) as u64, v as u64), n + m))
                } else if k % 8 == 2 && n + m + v <= b.len() {
                    Some(
                        (
                            FieldModel::Bytes(
                                (k / 8) as u64,
                                b.subrange((n + m) as int, (n + m + v) as int),
                            ),
                            n + m + v,
                        ),
                    )
                } else {
                    None
                },
            }
        },
    }
}

/// The fields of a message body, or `None` where `b` is not a sequence of
/// whole fields of wire type 0 or 2.
pub open spec fn fields_read(b: Seq<u8>) -> Option<Seq<FieldModel>>
    decreases b.len(),
{
    if b.len() == 0 {
        Some(Seq::empty())
    } else {
        match field_read(b) {
            Some((f, n)) => if 0 < n <= b.len() {
                match fields_read(b.subrange(n as int, b.len() as int)) {
                    Some(fs) => Some(seq![f] + fs),
                    None => None,
                }
            } else {
                None
            },
            None => None,
        }
    }
}

proof fn lemma_varint_bytes_nonempty(v: nat)
    ensures
        varint_bytes(v).len() >= 1,
    decreases v,
{
    if v >= 128 {
        lemma_varint_bytes_nonempty(v / 128);
    }
}

proof fn lemma_field_round_trip(f: FieldModel, rest: Seq<u8>)
    requires
        field_ok(f),
    ensures
        field_read(field_bytes(f) + rest) == Some((f, field_bytes(f).len())),
{
    let b = field_bytes(f) + rest;
    match f {
        FieldModel::Varint(t, v) => {
            let kb = varint_bytes((t * 8) as nat);
            let vb = varint_bytes(v as nat);
            assert(t * 8 <= u64::MAX);
            lemma_varint_round_trip((t * 8) as u64, vb + rest);
            assert(b =~= kb + (vb + rest));
            assert(b.subrange(kb.len() as int, b.len() as int) =~= vb + rest);
            lemma_varint_round_trip(v, rest);
            assert((t * 8) % 8 == 0);
            assert((t * 8) / 8 == t);
        },
        FieldModel::Bytes(t, d) => {
            let kb = varint_bytes((t * 8 + 2) as nat);
            let lb = varint_bytes(d.len());
            assert(t * 8 + 2 <= u64::MAX);
            lemma_varint_round_trip((t * 8 + 2) as u64, lb + d + rest);
            assert(b =~= kb + (lb + d + rest));
            assert(b.subrange(kb.len() as int, b.len() as int) =~= lb + (d + rest));
            lemma_varint_round_trip(d.len() as u64, d + rest);
            assert((t * 8 + 2) % 8 == 2);
            assert((t * 8 + 2) / 8 == t);
            assert(b.subrange((kb.len() + lb.len()) as int, (kb.len() + lb.len() + d.len()) as int)
                =~= d);
        },
    }
}


pub open spec fn field_views(fs: Seq<Field>) -> Seq<FieldModel> {
    fs.map_values(|f: Field| f@)
}

proof fn lemma_fields_bytes_push(fs: Seq<FieldModel>, f: FieldModel)
    ensures
        fields_bytes(fs.push(f)) == fields_bytes(fs) + field_bytes(f),
    decreases fs.len(),
{
    if fs.len() == 0 {
        let one = fs.push(f);
        assert(one.drop_first() =~= Seq::<FieldModel>::empty());
        assert(one[0] == f);
        assert(fields_bytes(one.drop_first()) =~= Seq::<u8>::empty());
        assert(fields_bytes(fs) =~= Seq::<u8>::empty());
        assert(fields_bytes(one) =~= field_bytes(f));
    } else {
        assert(fs.push(f).drop_first() =~= fs.drop_first().push(f));
        lemma_fields_bytes_push(fs.drop_first(), f);
        assert(fields_bytes(fs.push(f)) =~= fields_bytes(fs) + field_bytes(f));
    }
}

/// The fields of a body written by [`fields_bytes`] read back as they were.
pub proof fn lemma_fields_round_trip(fs: Seq<FieldModel>)
    requires
        fields_ok(fs),
    ensures
        fields_read(fields_bytes(fs)) == Some(fs),
    decreases fs.len(),
{
    if fs.len() > 0 {
        let b = fields_bytes(fs);
        let head = field_bytes(fs[0]);
        let tail = fields_bytes(fs.drop_first());
        assert(field_ok(fs[0]));
        lemma_field_round_trip(fs[0], tail);
        match fs[0] {
            FieldModel::Varint(t, _) => lemma_varint_bytes_nonempty((t * 8) as nat),
            FieldModel::Bytes(t, _) => lemma_varint_bytes_nonempty((t * 8 + 2) as nat),
        }
        assert(b.subrange(head.len() as int, b.len() as int) =~= tail);
        assert(fields_ok(fs.drop_first())) by {
            assert forall|i: int| 0 <= i < fs.drop_first().len() implies #[trigger] field_ok(
                fs.drop_first()[i],
            ) by {
                assert(field_ok(fs[i + 1]));
            }
        }
        lemma_fields_round_trip(fs.drop_first());
        assert(seq![fs[0]] + fs.drop_first() =~= fs);
    } else {
        assert(fields_bytes(fs) =~= Seq::<u8>::empty());
    }
}

/// Each field of a body takes no more bytes than the whole body.
pub proof fn lemma_field_within(fs: Seq<FieldModel>, i: int)
    requires
        0 <= i < fs.len(),
    ensures
        field_bytes(fs[i]).len() <= fields_bytes(fs).len(),
    decreases fs.len(),
{
    if i > 0 {
        lemma_field_within(fs.drop_first(), i - 1);
    }
}

fn put_bytes(data: &Vec<u8>, buf: &mut Vec<u8>)
    ensures
        final(buf)@ == old(buf)@ + data@,
{
    let ghost start = buf@;
    let mut i: usize = 0;
    while i < data.len()
        invariant
            i <= data@.len(),
            buf@ == start + data@.subrange(0, i as int),
        decreases data@.len() - i,
    {
        buf.push(data[i]);
        i = i + 1;
        assert(buf@ =~= start + data@.subrange(0, i as int));
    }
    assert(data@.subrange(0, i as int) =~= data@);
}

fn put_field(f: &Field, buf: &mut Vec<u8>)
    requires
        field_tag(f@) < TAG_LIMIT,
    ensures
        final(buf)@ == old(buf)@ + field_bytes(f@),
{
    let ghost start = buf@;
    match f {
        Field::Varint { tag, value } => {
            put_varint(*tag * 8, buf);
            put_varint(*value, buf);
        },
        Field::Bytes { tag, data } => {
            put_varint(*tag * 8 + 2, buf);
            let n = data.len();
            put_varint(n as u64, buf);
            put_bytes(data, buf);
        },
    }
    assert(buf@ =~= start + field_bytes(f@));
}

/// Every field number in `fs` leaves room for the wire type in a key.
pub open spec fn tags_ok(fs: Seq<FieldModel>) -> bool {
    forall|i: int| 0 <= i < fs.len() ==> #[trigger] field_tag(fs[i]) < TAG_LIMIT
}

/// Writes a message body: each field in turn.
pub fn write_fields(fs: &Vec<Field>) -> (r: Vec<u8>)
    requires
        tags_ok(field_views(fs@)),
    ensures
        r@ == fields_bytes(field_views(fs@)),
{
    let mut buf: Vec<u8> = Vec::new();
    let mut i: usize = 0;
    while i < fs.len()
        invariant
            i <= fs@.len(),
            tags_ok(field_views(fs@)),
            buf@ == fields_bytes(field_views(fs@.subrange(0, i as int))),
        decreases fs@.len() - i,
    {
        assert(field_tag(field_views(fs@)[i as int]) < TAG_LIMIT);
        put_field(&fs[i], &mut buf);
        proof {
            let before = field_views(fs@.subrange(0, i as int));
            lemma_fields_bytes_push(before, fs@[i as int]@);
            assert(field_views(fs@.subrange(0, i + 1)) =~= before.push(fs@[i as int]@));
        }
        i = i + 1;
    }
    assert(fs@.subrange(0, i as int) =~= fs@);
    buf
}

proof fn lemma_varint_read_len(s: Seq<u8>, depth: nat)
    ensures
        varint_read(s, depth) matches Some((_, n)) ==> 1 <= n <= s.len(),
    decreases 10 - depth,
{
    if depth < 10 && s.len() > 0 && s[0] >= 128 {
        lemma_varint_read_len(s.drop_first(), depth + 1);
    }
}

proof fn lemma_field_read_len(b: Seq<u8>)
    ensures
        field_read(b) matches Some((_, n)) ==> 1 <= n <= b.len(),
{
    lemma_varint_read_len(b, 0);
    if let Some((_, n)) = varint_read(b, 0) {
        lemma_varint_read_len(b.subrange(n as int, b.len() as int), 0);
    }
}

fn read_field(b: &[u8]) -> (r: Option<(Field, usize)>)
    ensures
        match r {
            Some((f, n)) => field_read(b@) == Some((f@, n as nat)),
            None => field_read(b@) is None,
        },
{
    let (k, left1) = match take_varint(b) {
        Some(x) => x,
        None => return None,
    };
    let n = b.len() - left1;
    let rest = vstd::slice::slice_subrange(b, n, b.len());
    let (v, left2) = match take_varint(rest) {
        Some(x) => x,
        None => return None,
    };
    let m = rest.len() - left2;
    if k % 8 == 0 {
        Some((Field::Varint { tag: k / 8, value: v }, n + m))
    } else if k % 8 == 2 && v <= (b.len() - n - m) as u64 {
        let end = n + m + v as usize;
        let data = vstd::slice::slice_to_vec(vstd::slice::slice_subrange(b, n + m, end));
        Some((Field::Bytes { tag: k / 8, data }, end))
    } else {
        None
    }
}

/// Reads a message body into its fields; `None` where `b` is not a sequence
/// of whole fields of wire type 0 or 2.
pub fn read_fields(b: &[u8]) -> (r: Option<Vec<Field>>)
    ensures
        match r {
            Some(fs) => fields_read(b@) == Some(field_views(fs@)),
            None => fields_read(b@) is None,
        },
{
    let mut out: Vec<Field> = Vec::new();
    let mut pos: usize = 0;
    assert(b@.subrange(0, b@.len() as int) =~= b@);
    assert(forall|fs: Seq<FieldModel>| field_views(out@) + fs =~= fs);
    while pos < b.len()
        invariant
            pos <= b@.len(),
            fields_read(b@) == match fields_read(b@.subrange(pos as int, b@.len() as int)) {
                Some(fs) => Some(field_views(out@) + fs),
                None => None,
            },
        decreases b@.len() - pos,
    {
        let sub = vstd::slice::slice_subrange(b, pos, b.len());
        match read_field(sub) {
            None => return None,
            Some((f, n)) => {
                proof {
                    lemma_field_read_len(sub@);
                    assert(sub@.subrange(n as int, sub@.len() as int) =~= b@.subrange(
                        pos + n,
                        b@.len() as int,
                    ));
                    assert(field_views(out@.push(f)) =~= field_views(out@).push(f@));
                    match fields_read(b@.subrange(pos + n, b@.len() as int)) {
                        Some(fs) => {
                            assert(field_views(out@) + (seq![f@] + fs) =~= field_views(
                                out@.push(f),
                            ) + fs);
                        },
                        None => {},
                    }
                }
                out.push(f);
                pos = pos + n;
            },
        }
    }
    assert(b@.subrange(pos as int, b@.len() as int) =~= Seq::<u8>::empty());
    assert(field_views(out@) + Seq::<FieldModel>::empty() =~= field_views(out@));
    Some(out)
}

} // verus!
