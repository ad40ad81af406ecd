//! Migration manifests: a canonical, order-independent digest of every exported table,
//! and the checks that decide whether a snapshot of the database matches its source.
use vstd::prelude::*;
use vstd::relations::{sorted_by, total_ordering};
use vstd::seq_lib::*;
use vstd::string::*;
use vstd::utf8::encode_utf8;

use crate::error::Error;
use crate::text::{signed_padded_decimal, signed_zero_padded};
use crate::hashing::{
    be64, be64_signed, framed, push_bytes, push_i64_be, push_u64_be, sha256_hex_bytes,
    sha256_lower_hex,
};

verus! {

// ---------------------------------------------------------------------------------------
// Byte-string order
// ---------------------------------------------------------------------------------------

/// Lexicographic order on byte strings, as `<` orders `Vec<u8>`: a proper prefix first.
pub open spec fn bytes_lt(a: Seq<u8>, b: Seq<u8>) -> bool
    decreases a.len(),
{
    if a.len() == 0 {
        b.len() > 0
    } else if b.len() == 0 {
        false
    } else if a[0] != b[0] {
        a[0] < b[0]
    } else {
        bytes_lt(a.drop_first(), b.drop_first())
    }
}

/// `a` does not come after `b`.
pub open spec fn bytes_le(a: Seq<u8>, b: Seq<u8>) -> bool {
    !bytes_lt(b, a)
}

/// The order in which canonical rows are hashed.
pub open spec fn byte_order() -> spec_fn(Seq<u8>, Seq<u8>) -> bool {
    |a: Seq<u8>, b: Seq<u8>| bytes_le(a, b)
}

/// No byte string precedes itself.
pub proof fn lemma_bytes_irreflexive(a: Seq<u8>)
    ensures
        !bytes_lt(a, a),
    decreases a.len(),
{
    if a.len() > 0 {
        lemma_bytes_irreflexive(a.drop_first());
    }
}

/// The order is transitive.
pub proof fn lemma_bytes_transitive(a: Seq<u8>, b: Seq<u8>, c: Seq<u8>)
    requires
        bytes_lt(a, b),
        bytes_lt(b, c),
    ensures
        bytes_lt(a, c),
    decreases a.len(),
{
    if a.len() > 0 && b.len() > 0 && c.len() > 0 && a[0] == b[0] && b[0] == c[0] {
        lemma_bytes_transitive(a.drop_first(), b.drop_first(), c.drop_first());
    }
}

/// Two distinct byte strings are ordered one way or the other, never both ways.
pub proof fn lemma_bytes_total(a: Seq<u8>, b: Seq<u8>)
    ensures
        a != b ==> (bytes_lt(a, b) || bytes_lt(b, a)),
        !(bytes_lt(a, b) && bytes_lt(b, a)),
    decreases a.len(),
{
    if a.len() > 0 && b.len() > 0 {
        lemma_bytes_total(a.drop_first(), b.drop_first());
        if a[0] == b[0] && a.drop_first() == b.drop_first() {
            assert(a == seq![a[0]] + a.drop_first());
            assert(b == seq![b[0]] + b.drop_first());
        }
    } else if a.len() == 0 && b.len() == 0 {
        assert(a == b);
    }
}

/// "Not after" is a total order on byte strings.
pub proof fn lemma_byte_order_total()
    ensures
        total_ordering(byte_order()),
{
    let le = byte_order();
    assert forall|x: Seq<u8>| #[trigger] le(x, x) by {
        lemma_bytes_irreflexive(x);
    }
    assert forall|x: Seq<u8>, y: Seq<u8>| #[trigger] le(x, y) && #[trigger] le(y, x) implies x
        == y by {
        lemma_bytes_total(x, y);
    }
    assert forall|x: Seq<u8>, y: Seq<u8>, z: Seq<u8>| #[trigger] le(x, y) && #[trigger] le(
        y,
        z,
    ) implies le(x, z) by {
        lemma_bytes_total(x, y);
        if bytes_lt(z, x) && bytes_lt(x, y) {
            lemma_bytes_transitive(z, x, y);
        }
    }
    assert forall|x: Seq<u8>, y: Seq<u8>| #[trigger] le(x, y) || #[trigger] le(y, x) by {
        lemma_bytes_total(x, y);
    }
}

/// Whether byte string `a` precedes `b`.
pub fn bytes_less(a: &[u8], b: &[u8]) -> (r: bool)
    ensures
        r == bytes_lt(a@, b@),
{
    let mut i: usize = 0;
    assert(a@.subrange(0, a@.len() as int) == a@);
    assert(b@.subrange(0, b@.len() as int) == b@);
    while i < a.len() && i < b.len()
        invariant
            0 <= i <= a@.len(),
            i <= b@.len(),
            bytes_lt(a@, b@) == bytes_lt(
                a@.subrange(i as int, a@.len() as int),
                b@.subrange(i as int, b@.len() as int),
            ),
        decreases a@.len() - i,
    {
        if a[i] != b[i] {
            return a[i] < b[i];
        }
        let ghost sa = a@.subrange(i as int, a@.len() as int);
        let ghost sb = b@.subrange(i as int, b@.len() as int);
        assert(sa.drop_first() == a@.subrange(i + 1, a@.len() as int));
        assert(sb.drop_first() == b@.subrange(i + 1, b@.len() as int));
        i = i + 1;
    }
    i < b.len()
}

// ---------------------------------------------------------------------------------------
// Canonical rows
// ---------------------------------------------------------------------------------------

/// A value read from a stored row. A floating-point value is carried as its IEEE-754
/// bit pattern, which is all the manifest reads of it.
#[derive(Debug, Clone, PartialEq)]
pub enum SqlValue {
    Null,
    Integer(i64),
    Real(u64),
    Text(Vec<u8>),
    Blob(Vec<u8>),
}

/// The bytes a value contributes to its canonical row: a tag, then its payload.
pub open spec fn value_bytes(v: SqlValue) -> Seq<u8> {
    match v {
        SqlValue::Null => seq![0u8],
        SqlValue::Integer(x) => seq![1u8] + be64_signed(x),
        SqlValue::Real(bits) => seq![2u8] + be64(bits),
        SqlValue::Text(t) => seq![3u8] + framed(t@),
        SqlValue::Blob(b) => seq![4u8] + framed(b@),
    }
}

/// Appends the canonical bytes of one value.
pub fn push_value(output: &mut Vec<u8>, value: &SqlValue)
    ensures
        final(output)@ == old(output)@ + value_bytes(*value),
{
    let ghost start = output@;
    match value {
        SqlValue::Null => {
            output.push(0u8);
            assert(output@ =~= start + seq![0u8]);
        },
        SqlValue::Integer(x) => {
            output.push(1u8);
            push_i64_be(output, *x);
            assert(output@ =~= start + (seq![1u8] + be64_signed(*x)));
        },
        SqlValue::Real(bits) => {
            output.push(2u8);
            push_u64_be(output, *bits);
            assert(output@ =~= start + (seq![2u8] + be64(*bits)));
        },
        SqlValue::Text(t) => {
            output.push(3u8);
            push_bytes(output, t.as_slice());
            assert(output@ =~= start + (seq![3u8] + framed(t@)));
        },
        SqlValue::Blob(b) => {
            output.push(4u8);
            push_bytes(output, b.as_slice());
            assert(output@ =~= start + (seq![4u8] + framed(b@)));
        },
    }
}

/// The characters of each string.
pub open spec fn texts(v: Seq<String>) -> Seq<Seq<char>> {
    v.map_values(|s: String| s@)
}

/// The contents of each byte vector.
pub open spec fn byte_rows(v: Seq<Vec<u8>>) -> Seq<Seq<u8>> {
    v.map_values(|r: Vec<u8>| r@)
}

/// The canonical bytes of the first `n` cells of a row: each column's name framed by
/// its length, then the value under it.
pub open spec fn row_bytes(columns: Seq<Seq<char>>, values: Seq<SqlValue>, n: nat) -> Seq<u8>
    decreases n,
{
    if n == 0 {
        Seq::empty()
    } else {
        row_bytes(columns, values, (n - 1) as nat) + framed(encode_utf8(columns[n - 1]))
            + value_bytes(values[n - 1])
    }
}

/// The canonical bytes of a row under the given columns.
pub fn canonical_row(columns: &Vec<String>, values: &Vec<SqlValue>) -> (r: Vec<u8>)
    requires
        values@.len() == columns@.len(),
    ensures
        r@ == row_bytes(texts(columns@), values@, columns@.len()),
{
    let mut out: Vec<u8> = Vec::new();
    let mut i: usize = 0;
    while i < columns.len()
        invariant
            0 <= i <= columns@.len(),
            values@.len() == columns@.len(),
            out@ == row_bytes(texts(columns@), values@, i as nat),
        decreases columns@.len() - i,
    {
        let ghost before = out@;
        push_bytes(&mut out, columns[i].as_str().as_bytes());
        push_value(&mut out, &values[i]);
        i = i + 1;
        assert(texts(columns@)[i - 1] == columns@[i - 1]@);
        assert(out@ =~= row_bytes(texts(columns@), values@, i as nat));
    }
    out
}

/// The canonical rows of a table.
pub open spec fn canonical_rows(columns: Seq<Seq<char>>, rows: Seq<Vec<SqlValue>>) -> Seq<
    Seq<u8>,
> {
    rows.map_values(|values: Vec<SqlValue>| row_bytes(columns, values@, columns.len()))
}

/// Inserting `x` at `p` adds one `x` to the multiset of elements.
proof fn lemma_insert_multiset<A>(s: Seq<A>, p: int, x: A)
    requires
        0 <= p <= s.len(),
    ensures
        s.insert(p, x).to_multiset() == s.to_multiset().insert(x),
{
    broadcast use group_to_multiset_ensures;

    let left = s.subrange(0, p);
    let right = s.subrange(p, s.len() as int);
    assert(s =~= left + right);
    assert(s.insert(p, x) =~= left.push(x) + right);
    lemma_multiset_commutative(left, right);
    lemma_multiset_commutative(left.push(x), right);
}

/// Sorts byte rows into the order in which they are hashed.
pub fn sort_rows(rows: Vec<Vec<u8>>) -> (r: Vec<Vec<u8>>)
    ensures
        byte_rows(r@) == byte_rows(rows@).sort_by(byte_order()),
{
    broadcast use group_to_multiset_ensures;

    let mut rest = rows;
    let mut sorted: Vec<Vec<u8>> = Vec::new();
    let ghost all = byte_rows(rows@);
    proof {
        lemma_byte_order_total();
    }
    while rest.len() > 0
        invariant
            total_ordering(byte_order()),
            sorted_by(byte_rows(sorted@), byte_order()),
            byte_rows(sorted@).to_multiset().add(byte_rows(rest@).to_multiset())
                == all.to_multiset(),
        decreases rest@.len(),
    {
        let ghost rest_before = byte_rows(rest@);
        let x = rest.pop().unwrap();
        let ghost rest_after = byte_rows(rest@);
        let ghost xv = x@;
        assert(rest_before =~= rest_after.push(xv));
        proof {
            to_multiset_build(rest_after, xv);
        }
        let ghost s = byte_rows(sorted@);
        let mut p: usize = 0;
        while p < sorted.len() && !bytes_less(x.as_slice(), sorted[p].as_slice())
            invariant
                0 <= p <= sorted@.len(),
                s == byte_rows(sorted@),
                forall|j: int| 0 <= j < p ==> bytes_le(#[trigger] s[j], x@),
            decreases sorted@.len() - p,
        {
            assert(s[p as int] == sorted@[p as int]@);
            p = p + 1;
        }
        proof {
            if p < s.len() {
                assert(s[p as int] == sorted@[p as int]@);
                assert(bytes_lt(x@, s[p as int]));
            }
        }
        sorted.insert(p, x);
        proof {
            let n = s.insert(p as int, x@);
            assert(byte_rows(sorted@) =~= n);
            assert forall|a: int, b: int| 0 <= a < b < n.len() implies #[trigger] bytes_le(
                n[a],
                n[b],
            ) by {
                let le = byte_order();
                if a < p && b < p {
                    assert(n[a] == s[a] && n[b] == s[b]);
                    assert(le(s[a], s[b]));
                } else if a < p && b == p {
                    assert(n[a] == s[a]);
                } else if a < p && b > p {
                    assert(n[a] == s[a] && n[b] == s[b - 1]);
                    assert(le(s[a], s[b - 1]));
                } else if a == p {
                    assert(n[b] == s[b - 1]);
                    assert(bytes_lt(x@, s[p as int]));
                    if b - 1 > p {
                        assert(le(s[p as int], s[b - 1]));
                    }
                    lemma_bytes_total(x@, s[b - 1]);
                    if bytes_lt(s[b - 1], x@) {
                        if b - 1 > p {
                            lemma_bytes_total(s[p as int], s[b - 1]);
                            if s[p as int] == s[b - 1] {
                            } else {
                                lemma_bytes_transitive(s[p as int], s[b - 1], x@);
                                lemma_bytes_total(x@, s[p as int]);
                            }
                        } else {
                            lemma_bytes_total(x@, s[p as int]);
                        }
                    }
                } else {
                    assert(n[a] == s[a - 1] && n[b] == s[b - 1]);
                    assert(le(s[a - 1], s[b - 1]));
                }
            }
            assert(sorted_by(n, byte_order()));
            lemma_insert_multiset(s, p as int, x@);
            assert(n.to_multiset().add(byte_rows(rest@).to_multiset()) =~= s.to_multiset().add(
                rest_before.to_multiset(),
            ));
        }
    }
    proof {
        assert(byte_rows(rest@) =~= Seq::<Seq<u8>>::empty());
        assert(byte_rows(sorted@).to_multiset() =~= all.to_multiset());
        all.lemma_sort_by_ensures(byte_order());
        lemma_sorted_unique(byte_rows(sorted@), all.sort_by(byte_order()), byte_order());
    }
    sorted
}

// ---------------------------------------------------------------------------------------
// Table manifests
// ---------------------------------------------------------------------------------------

/// The row count and digest of one table.
#[derive(Debug, Clone)]
pub struct MigrationTableManifest {
    pub row_count: u64,
    pub sha256: String,
}

/// Byte strings, each framed by its length, one after another.
pub open spec fn framed_all(s: Seq<Seq<u8>>) -> Seq<u8>
    decreases s.len(),
{
    if s.len() == 0 {
        Seq::empty()
    } else {
        framed_all(s.drop_last()) + framed(s.last())
    }
}

/// The bytes hashed for a table: a domain tag, then its sorted canonical rows, framed.
pub open spec fn table_digest_input(sorted: Seq<Seq<u8>>) -> Seq<u8> {
    encode_utf8("tm-table-manifest-v1\0"@) + framed_all(sorted)
}

/// The digest of a table whose columns are `columns` and whose rows hold `rows`: the
/// canonical rows in byte order, so the order rows were read in does not matter.
pub open spec fn table_sha256(columns: Seq<Seq<char>>, rows: Seq<Vec<SqlValue>>) -> Seq<char> {
    sha256_lower_hex(table_digest_input(canonical_rows(columns, rows).sort_by(byte_order())))
}

/// A table's digest does not depend on the order its rows were read in: any two
/// readings whose canonical rows are the same multiset give the same digest.
pub proof fn lemma_table_digest_ignores_row_order(
    columns: Seq<Seq<char>>,
    rows1: Seq<Vec<SqlValue>>,
    rows2: Seq<Vec<SqlValue>>,
)
    requires
        canonical_rows(columns, rows1).to_multiset() == canonical_rows(columns, rows2).to_multiset(),
    ensures
        table_sha256(columns, rows1) == table_sha256(columns, rows2),
{
    let a = canonical_rows(columns, rows1);
    let b = canonical_rows(columns, rows2);
    lemma_byte_order_total();
    a.lemma_sort_by_ensures(byte_order());
    b.lemma_sort_by_ensures(byte_order());
    lemma_sorted_unique(a.sort_by(byte_order()), b.sort_by(byte_order()), byte_order());
}

/// The manifest of one table, from its column names and the values of its rows (each
/// row holding one value per column). A table without columns is missing, and refused.
pub fn table_manifest(table: &str, columns: &Vec<String>, rows: &Vec<Vec<SqlValue>>) -> (r: Result<
    MigrationTableManifest,
    Error,
>)
    requires
        forall|i: int| 0 <= i < rows@.len() ==> #[trigger] rows@[i]@.len() == columns@.len(),
    ensures
        r is Err <==> columns@.len() == 0,
        r is Err ==> r->Err_0 is Invariant,
        r matches Ok(m) ==> m.row_count == rows@.len() && m.sha256@ == table_sha256(
            texts(columns@),
            rows@,
        ),
{
    if columns.len() == 0 {
        return Err(
            Error::Invariant("migration table is missing or has no columns: ".to_owned().concat(table)),
        );
    }
    let mut canonical: Vec<Vec<u8>> = Vec::new();
    let mut i: usize = 0;
    while i < rows.len()
        invariant
            0 <= i <= rows@.len(),
            forall|k: int| 0 <= k < rows@.len() ==> #[trigger] rows@[k]@.len() == columns@.len(),
            canonical@.len() == i,
            byte_rows(canonical@) == canonical_rows(texts(columns@), rows@.subrange(0, i as int)),
        decreases rows@.len() - i,
    {
        let row = canonical_row(columns, &rows[i]);
        let ghost before = canonical@;
        canonical.push(row);
        i = i + 1;
        let ghost want = canonical_rows(texts(columns@), rows@.subrange(0, i as int));
        assert forall|k: int| 0 <= k < i implies #[trigger] byte_rows(canonical@)[k] == want[k] by {
            if k < i - 1 {
                assert(canonical@[k] == before[k]);
                assert(byte_rows(before)[k] == before[k]@);
            }
        }
        assert(byte_rows(canonical@) =~= want);
    }
    assert(rows@.subrange(0, rows@.len() as int) =~= rows@);
    let count: u64 = canonical.len() as u64;
    let sorted = sort_rows(canonical);
    let ghost ordered = byte_rows(sorted@);
    let mut message: Vec<u8> = Vec::new();
    message.extend_from_slice("tm-table-manifest-v1\0".as_bytes());
    let ghost tag = message@;
    let mut j: usize = 0;
    while j < sorted.len()
        invariant
            0 <= j <= sorted@.len(),
            ordered == byte_rows(sorted@),
            message@ == tag + framed_all(ordered.subrange(0, j as int)),
        decreases sorted@.len() - j,
    {
        push_bytes(&mut message, sorted[j].as_slice());
        j = j + 1;
        assert(ordered.subrange(0, j as int).drop_last() =~= ordered.subrange(0, j - 1));
        assert(message@ =~= tag + framed_all(ordered.subrange(0, j as int)));
    }
    assert(ordered.subrange(0, ordered.len() as int) =~= ordered);
    proof {
        lemma_byte_order_total();
    }
    assert(canonical_rows(texts(columns@), rows@).len() == rows@.len());
    assert(message@ == table_digest_input(
        canonical_rows(texts(columns@), rows@).sort_by(byte_order()),
    ));
    let digest = sha256_hex_bytes(message.as_slice());
    Ok(MigrationTableManifest { row_count: count, sha256: digest })
}

// ---------------------------------------------------------------------------------------
// The table map of a manifest
// ---------------------------------------------------------------------------------------

/// A table entry as contracts see it: name, row count, digest.
pub open spec fn entry_view(e: (String, MigrationTableManifest)) -> (Seq<char>, u64, Seq<char>) {
    (e.0@, e.1.row_count, e.1.sha256@)
}

/// The table entries, in the order they are kept.
pub open spec fn entries(t: Seq<(String, MigrationTableManifest)>) -> Seq<
    (Seq<char>, u64, Seq<char>),
> {
    t.map_values(|e: (String, MigrationTableManifest)| entry_view(e))
}

/// Table names strictly increase in byte order: the order of a `BTreeMap<String, _>`.
pub open spec fn names_ordered(t: Seq<(Seq<char>, u64, Seq<char>)>) -> bool {
    forall|i: int, j: int|
        0 <= i < j < t.len() ==> bytes_lt(encode_utf8(#[trigger] t[i].0), encode_utf8(#[trigger] t[j].0))
}

/// The number of entries whose name precedes `name` in byte order.
pub open spec fn names_before(t: Seq<(Seq<char>, u64, Seq<char>)>, name: Seq<char>) -> int
    decreases t.len(),
{
    if t.len() == 0 {
        0
    } else {
        names_before(t.drop_last(), name) + if bytes_lt(encode_utf8(t.last().0), encode_utf8(name)) {
            1int
        } else {
            0
        }
    }
}

/// `BTreeMap::insert` on the table map: an entry under `name` is replaced, or a new one
/// is placed where its name belongs.
pub open spec fn table_insert(
    t: Seq<(Seq<char>, u64, Seq<char>)>,
    name: Seq<char>,
    row_count: u64,
    sha256: Seq<char>,
) -> Seq<(Seq<char>, u64, Seq<char>)> {
    let p = names_before(t, name);
    if p < t.len() && t[p].0 == name {
        t.update(p, (name, row_count, sha256))
    } else {
        t.insert(p, (name, row_count, sha256))
    }
}

/// With names ordered, the first `i` entries precede `name` and the rest do not.
proof fn lemma_names_before(t: Seq<(Seq<char>, u64, Seq<char>)>, name: Seq<char>, i: int)
    requires
        0 <= i <= t.len(),
        forall|j: int| 0 <= j < i ==> bytes_lt(encode_utf8(#[trigger] t[j].0), encode_utf8(name)),
        forall|j: int|
            i <= j < t.len() ==> !bytes_lt(encode_utf8(#[trigger] t[j].0), encode_utf8(name)),
    ensures
        names_before(t, name) == i,
    decreases t.len(),
{
    if t.len() > 0 {
        let u = t.drop_last();
        if i == t.len() {
            assert forall|j: int| 0 <= j < i - 1 implies bytes_lt(
                encode_utf8(#[trigger] u[j].0),
                encode_utf8(name),
            ) by {
                assert(u[j] == t[j]);
            }
            lemma_names_before(u, name, i - 1);
        } else {
            assert forall|j: int| 0 <= j < i implies bytes_lt(
                encode_utf8(#[trigger] u[j].0),
                encode_utf8(name),
            ) by {
                assert(u[j] == t[j]);
            }
            assert forall|j: int| i <= j < u.len() implies !bytes_lt(
                encode_utf8(#[trigger] u[j].0),
                encode_utf8(name),
            ) by {
                assert(u[j] == t[j]);
            }
            lemma_names_before(u, name, i);
        }
    }
}

/// Two names with the same UTF-8 bytes are the same name.
proof fn lemma_name_bytes_injective(a: Seq<char>, b: Seq<char>)
    requires
        encode_utf8(a) == encode_utf8(b),
    ensures
        a == b,
{
    vstd::utf8::encode_utf8_decode_utf8(a);
    vstd::utf8::encode_utf8_decode_utf8(b);
}

/// Records a table's manifest under its name, keeping the names in byte order.
pub fn insert_table(
    tables: &mut Vec<(String, MigrationTableManifest)>,
    name: String,
    manifest: MigrationTableManifest,
)
    requires
        names_ordered(entries(old(tables)@)),
    ensures
        names_ordered(entries(final(tables)@)),
        entries(final(tables)@) == table_insert(
            entries(old(tables)@),
            name@,
            manifest.row_count,
            manifest.sha256@,
        ),
{
    let ghost t = entries(tables@);
    let ghost key = encode_utf8(name@);
    let mut i: usize = 0;
    while i < tables.len() && bytes_less(tables[i].0.as_str().as_bytes(), name.as_str().as_bytes())
        invariant
            0 <= i <= tables@.len(),
            t == entries(tables@),
            key == encode_utf8(name@),
            names_ordered(t),
            forall|j: int| 0 <= j < i ==> bytes_lt(encode_utf8(#[trigger] t[j].0), key),
        decreases tables@.len() - i,
    {
        assert(t[i as int] == entry_view(tables@[i as int]));
        i = i + 1;
    }
    proof {
        if i < t.len() {
            assert(t[i as int] == entry_view(tables@[i as int]));
            assert(!bytes_lt(encode_utf8(t[i as int].0), key));
            assert forall|j: int| i <= j < t.len() implies !bytes_lt(
                encode_utf8(#[trigger] t[j].0),
                key,
            ) by {
                if j > i {
                    assert(bytes_lt(encode_utf8(t[i as int].0), encode_utf8(t[j].0)));
                    if bytes_lt(encode_utf8(t[j].0), key) {
                        lemma_bytes_transitive(encode_utf8(t[i as int].0), encode_utf8(t[j].0), key);
                    }
                }
            }
        }
        lemma_names_before(t, name@, i as int);
    }
    let ghost entry_view_new = (name@, manifest.row_count, manifest.sha256@);
    if i < tables.len() && crate::text::same_text(&tables[i].0, &name) {
        proof {
            assert(t[i as int] == entry_view(tables@[i as int]));
        }
        let ghost before = tables@;
        tables.set(i, (name, manifest));
        proof {
            assert(entries(tables@) =~= t.update(i as int, entry_view_new));
            let n = entries(tables@);
            assert forall|a: int, b: int| 0 <= a < b < n.len() implies bytes_lt(
                encode_utf8(#[trigger] n[a].0),
                encode_utf8(#[trigger] n[b].0),
            ) by {
                assert(n[a].0 == t[a].0);
                assert(n[b].0 == t[b].0);
            }
        }
    } else {
        proof {
            if i < t.len() {
                assert(t[i as int] == entry_view(tables@[i as int]));
                lemma_bytes_total(encode_utf8(t[i as int].0), key);
                if encode_utf8(t[i as int].0) == key {
                    lemma_name_bytes_injective(t[i as int].0, name@);
                }
                assert(bytes_lt(key, encode_utf8(t[i as int].0)));
            }
        }
        tables.insert(i, (name, manifest));
        proof {
            let n = t.insert(i as int, entry_view_new);
            assert(entries(tables@) =~= n);
            assert forall|a: int, b: int| 0 <= a < b < n.len() implies bytes_lt(
                encode_utf8(#[trigger] n[a].0),
                encode_utf8(#[trigger] n[b].0),
            ) by {
                if a < i && b < i {
                    assert(n[a] == t[a] && n[b] == t[b]);
                } else if a < i && b == i {
                    assert(n[a] == t[a]);
                } else if a < i && b > i {
                    assert(n[a] == t[a] && n[b] == t[b - 1]);
                } else if a == i {
                    assert(n[b] == t[b - 1]);
                    if b - 1 > i {
                        lemma_bytes_transitive(key, encode_utf8(t[i as int].0), encode_utf8(t[b - 1].0));
                    }
                } else {
                    assert(n[a] == t[a - 1] && n[b] == t[b - 1]);
                }
            }
        }
    }
}

// ---------------------------------------------------------------------------------------
// Manifests
// ---------------------------------------------------------------------------------------

/// Version of the manifest format.
pub const MANIFEST_FORMAT_VERSION: u32 = 1;

/// The manifest of a whole database: schema, applied migrations and every exported
/// table, with one digest over all of it. `tables` keeps names in byte order.
#[derive(Debug, Clone)]
pub struct MigrationManifest {
    pub format: String,
    pub format_version: u32,
    pub schema_version: i64,
    pub migration_versions: Vec<i64>,
    pub generated_at: String,
    pub tables: Vec<(String, MigrationTableManifest)>,
    pub logical_sha256: String,
}

/// The big-endian bytes of each version, one after another.
pub open spec fn versions_bytes(v: Seq<i64>) -> Seq<u8>
    decreases v.len(),
{
    if v.len() == 0 {
        Seq::empty()
    } else {
        versions_bytes(v.drop_last()) + be64_signed(v.last())
    }
}

/// Each table as hashed: its name framed by its length, its row count, its digest text.
pub open spec fn tables_bytes(t: Seq<(Seq<char>, u64, Seq<char>)>) -> Seq<u8>
    decreases t.len(),
{
    if t.len() == 0 {
        Seq::empty()
    } else {
        tables_bytes(t.drop_last()) + framed(encode_utf8(t.last().0)) + be64(t.last().1)
            + encode_utf8(t.last().2)
    }
}

/// The bytes hashed into a manifest's logical digest.
pub open spec fn logical_digest_input(
    schema_version: i64,
    versions: Seq<i64>,
    tables: Seq<(Seq<char>, u64, Seq<char>)>,
) -> Seq<u8> {
    encode_utf8("tm-migration-manifest-v1\0"@) + be64_signed(schema_version) + versions_bytes(
        versions,
    ) + tables_bytes(tables)
}

/// The logical digest of a manifest's content.
pub open spec fn logical_sha256_of(
    schema_version: i64,
    versions: Seq<i64>,
    tables: Seq<(Seq<char>, u64, Seq<char>)>,
) -> Seq<char> {
    sha256_lower_hex(logical_digest_input(schema_version, versions, tables))
}

/// The digest over the schema version, the applied migrations and every table's entry.
pub fn logical_manifest_hash(
    schema_version: i64,
    migration_versions: &Vec<i64>,
    tables: &Vec<(String, MigrationTableManifest)>,
) -> (r: String)
    ensures
        r@ == logical_sha256_of(schema_version, migration_versions@, entries(tables@)),
{
    let mut message: Vec<u8> = Vec::new();
    message.extend_from_slice("tm-migration-manifest-v1\0".as_bytes());
    assert(message@ =~= encode_utf8("tm-migration-manifest-v1\0"@));
    push_i64_be(&mut message, schema_version);
    let ghost head = message@;
    let mut i: usize = 0;
    while i < migration_versions.len()
        invariant
            0 <= i <= migration_versions@.len(),
            message@ == head + versions_bytes(migration_versions@.subrange(0, i as int)),
        decreases migration_versions@.len() - i,
    {
        push_i64_be(&mut message, migration_versions[i]);
        i = i + 1;
        assert(migration_versions@.subrange(0, i as int).drop_last()
            =~= migration_versions@.subrange(0, i - 1));
        assert(message@ =~= head + versions_bytes(migration_versions@.subrange(0, i as int)));
    }
    assert(migration_versions@.subrange(0, migration_versions@.len() as int) =~= migration_versions@);
    let ghost middle = message@;
    let ghost t = entries(tables@);
    let mut j: usize = 0;
    while j < tables.len()
        invariant
            0 <= j <= tables@.len(),
            t == entries(tables@),
            message@ == middle + tables_bytes(t.subrange(0, j as int)),
        decreases tables@.len() - j,
    {
        let entry = &tables[j];
        push_bytes(&mut message, entry.0.as_str().as_bytes());
        push_u64_be(&mut message, entry.1.row_count);
        message.extend_from_slice(entry.1.sha256.as_str().as_bytes());
        j = j + 1;
        assert(t[j - 1] == entry_view(tables@[j - 1]));
        assert(t.subrange(0, j as int).drop_last() =~= t.subrange(0, j - 1));
        assert(message@ =~= middle + tables_bytes(t.subrange(0, j as int)));
    }
    assert(t.subrange(0, t.len() as int) =~= t);
    assert(message@ =~= logical_digest_input(schema_version, migration_versions@, t));
    sha256_hex_bytes(message.as_slice())
}

/// The name of the manifest format.
pub open spec fn manifest_format() -> Seq<char> {
    "tm-migration-manifest"@
}

impl MigrationManifest {
    /// What two manifests must share to describe the same data: everything but the
    /// time they were generated.
    pub open spec fn logical_view(self) -> (
        Seq<char>,
        u32,
        i64,
        Seq<i64>,
        Seq<(Seq<char>, u64, Seq<char>)>,
        Seq<char>,
    ) {
        (
            self.format@,
            self.format_version,
            self.schema_version,
            self.migration_versions@,
            entries(self.tables@),
            self.logical_sha256@,
        )
    }

    /// The table list stands for a map keyed by name: names strictly increase in byte
    /// order, each once.
    pub open spec fn tables_ordered(self) -> bool {
        names_ordered(entries(self.tables@))
    }

    /// Whether two manifests describe the same data.
    pub fn logically_matches(&self, other: &Self) -> (r: bool)
        ensures
            r == (self.logical_view() == other.logical_view()),
    {
        let same = crate::text::same_text(&self.format, &other.format)
            && self.format_version == other.format_version
            && self.schema_version == other.schema_version
            && same_versions(&self.migration_versions, &other.migration_versions)
            && same_tables(&self.tables, &other.tables)
            && crate::text::same_text(&self.logical_sha256, &other.logical_sha256);
        proof {
            if !same {
                if self.logical_view() == other.logical_view() {
                    assert(self.logical_view().3 == other.logical_view().3);
                    assert(self.logical_view().4 == other.logical_view().4);
                }
            }
        }
        same
    }
}

/// Two name-ordered table lists that hold the same entries are the same list: comparing
/// manifests entry by entry compares the maps they stand for, whatever order the tables
/// were recorded in.
pub proof fn lemma_ordered_tables_unique(
    a: Seq<(Seq<char>, u64, Seq<char>)>,
    b: Seq<(Seq<char>, u64, Seq<char>)>,
)
    requires
        names_ordered(a),
        names_ordered(b),
        forall|e: (Seq<char>, u64, Seq<char>)| a.contains(e) <==> b.contains(e),
    ensures
        a == b,
    decreases a.len(),
{
    if a.len() == 0 {
        if b.len() > 0 {
            assert(b.contains(b[0]));
        }
        assert(a =~= b);
    } else if b.len() == 0 {
        assert(a.contains(a[0]));
    } else {
        assert(a.contains(a[0]));
        assert(b.contains(b[0]));
        let k = choose|k: int| 0 <= k < b.len() && b[k] == a[0];
        let m = choose|m: int| 0 <= m < a.len() && a[m] == b[0];
        if k > 0 && m > 0 {
            assert(bytes_lt(encode_utf8(b[0].0), encode_utf8(b[k].0)));
            assert(bytes_lt(encode_utf8(a[0].0), encode_utf8(a[m].0)));
            lemma_bytes_total(encode_utf8(a[0].0), encode_utf8(b[0].0));
        }
        assert(a[0] == b[0]);
        let a1 = a.drop_first();
        let b1 = b.drop_first();
        assert forall|e: (Seq<char>, u64, Seq<char>)| a1.contains(e) implies b1.contains(e) by {
            let i = choose|i: int| 0 <= i < a1.len() && a1[i] == e;
            assert(a.contains(a[i + 1]));
            let j = choose|j: int| 0 <= j < b.len() && b[j] == e;
            if j == 0 {
                assert(bytes_lt(encode_utf8(a[0].0), encode_utf8(a[i + 1].0)));
                lemma_bytes_irreflexive(encode_utf8(e.0));
            }
            assert(b1[j - 1] == e);
        }
        assert forall|e: (Seq<char>, u64, Seq<char>)| b1.contains(e) implies a1.contains(e) by {
            let i = choose|i: int| 0 <= i < b1.len() && b1[i] == e;
            assert(b.contains(b[i + 1]));
            let j = choose|j: int| 0 <= j < a.len() && a[j] == e;
            if j == 0 {
                assert(bytes_lt(encode_utf8(b[0].0), encode_utf8(b[i + 1].0)));
                lemma_bytes_irreflexive(encode_utf8(e.0));
            }
            assert(a1[j - 1] == e);
        }
        assert forall|x: int, y: int| 0 <= x < y < a1.len() implies bytes_lt(
            encode_utf8(#[trigger] a1[x].0),
            encode_utf8(#[trigger] a1[y].0),
        ) by {
            assert(a1[x] == a[x + 1] && a1[y] == a[y + 1]);
        }
        assert forall|x: int, y: int| 0 <= x < y < b1.len() implies bytes_lt(
            encode_utf8(#[trigger] b1[x].0),
            encode_utf8(#[trigger] b1[y].0),
        ) by {
            assert(b1[x] == b[x + 1] && b1[y] == b[y + 1]);
        }
        lemma_ordered_tables_unique(a1, b1);
        assert(a =~= seq![a[0]] + a1);
        assert(b =~= seq![b[0]] + b1);
    }
}

/// Whether two lists of versions are equal.
fn same_versions(a: &Vec<i64>, b: &Vec<i64>) -> (r: bool)
    ensures
        r == (a@ == b@),
{
    if a.len() != b.len() {
        return false;
    }
    let mut i: usize = 0;
    while i < a.len()
        invariant
            0 <= i <= a@.len(),
            a@.len() == b@.len(),
            forall|k: int| 0 <= k < i ==> a@[k] == b@[k],
        decreases a@.len() - i,
    {
        if a[i] != b[i] {
            return false;
        }
        i = i + 1;
    }
    assert(a@ =~= b@);
    true
}

/// Whether two table maps hold the same entries.
fn same_tables(a: &Vec<(String, MigrationTableManifest)>, b: &Vec<(String, MigrationTableManifest)>) -> (r: bool)
    ensures
        r == (entries(a@) == entries(b@)),
{
    if a.len() != b.len() {
        proof {
            assert(entries(a@).len() != entries(b@).len());
        }
        return false;
    }
    let mut i: usize = 0;
    while i < a.len()
        invariant
            0 <= i <= a@.len(),
            a@.len() == b@.len(),
            forall|k: int| 0 <= k < i ==> #[trigger] entries(a@)[k] == entries(b@)[k],
        decreases a@.len() - i,
    {
        let same = crate::text::same_text(&a[i].0, &b[i].0) && a[i].1.row_count == b[i].1.row_count
            && crate::text::same_text(&a[i].1.sha256, &b[i].1.sha256);
        assert(entries(a@)[i as int] == entry_view(a@[i as int]));
        assert(entries(b@)[i as int] == entry_view(b@[i as int]));
        if !same {
            return false;
        }
        i = i + 1;
    }
    assert(entries(a@) =~= entries(b@));
    true
}

/// A manifest from what was read of the database; its format is this one and its
/// logical digest is computed here.
pub fn build_manifest(
    schema_version: i64,
    migration_versions: Vec<i64>,
    generated_at: String,
    tables: Vec<(String, MigrationTableManifest)>,
) -> (m: MigrationManifest)
    requires
        names_ordered(entries(tables@)),
    ensures
        m.tables_ordered(),
        m.format@ == manifest_format(),
        m.format_version == MANIFEST_FORMAT_VERSION,
        m.schema_version == schema_version,
        m.migration_versions@ == migration_versions@,
        m.generated_at@ == generated_at@,
        m.tables@ == tables@,
        m.logical_sha256@ == logical_sha256_of(schema_version, migration_versions@, entries(tables@)),
{
    let logical_sha256 = logical_manifest_hash(schema_version, &migration_versions, &tables);
    MigrationManifest {
        format: "tm-migration-manifest".to_owned(),
        format_version: MANIFEST_FORMAT_VERSION,
        schema_version,
        migration_versions,
        generated_at,
        tables,
        logical_sha256,
    }
}

// ---------------------------------------------------------------------------------------
// Checks before and after a snapshot
// ---------------------------------------------------------------------------------------

/// The migrations a database at `schema_version` has applied: `1..=schema_version`.
pub open spec fn expected_versions(schema_version: i64) -> Seq<i64> {
    Seq::new(
        if schema_version > 0 {
            schema_version as nat
        } else {
            0
        },
        |i: int| (i + 1) as i64,
    )
}

/// The ledger of migrations expected at `schema_version`.
pub fn migration_ledger(schema_version: i64) -> (v: Vec<i64>)
    ensures
        v@ == expected_versions(schema_version),
{
    let mut v: Vec<i64> = Vec::new();
    let mut k: i64 = 0;
    while k < schema_version
        invariant
            0 <= k,
            k <= schema_version || (k == 0 && schema_version < 0),
            v@ == Seq::new(k as nat, |i: int| (i + 1) as i64),
        decreases schema_version - k,
    {
        k = k + 1;
        v.push(k);
        assert(v@ =~= Seq::new(k as nat, |i: int| (i + 1) as i64));
    }
    assert(v@ =~= expected_versions(schema_version));
    v
}

/// A list of integers as `{:?}` writes it: `[1, 2, 3]`.
pub open spec fn debug_items(v: Seq<i64>) -> Seq<char>
    decreases v.len(),
{
    if v.len() == 0 {
        Seq::empty()
    } else if v.len() == 1 {
        signed_zero_padded(v[0] as int, 0)
    } else {
        debug_items(v.drop_last()) + ", "@ + signed_zero_padded(v.last() as int, 0)
    }
}

/// `{:?}` of a list of integers.
pub open spec fn debug_list(v: Seq<i64>) -> Seq<char> {
    "["@ + debug_items(v) + "]"@
}

/// Writes a list of integers as `{:?}` does.
pub fn debug_list_text(v: &Vec<i64>) -> (s: String)
    ensures
        s@ == debug_list(v@),
{
    let mut s = "[".to_owned();
    let mut i: usize = 0;
    while i < v.len()
        invariant
            0 <= i <= v@.len(),
            s@ == "["@ + debug_items(v@.subrange(0, i as int)),
        decreases v@.len() - i,
    {
        let item = signed_padded_decimal(v[i], 0);
        let ghost before = s@;
        if i > 0 {
            s = s.concat(", ");
        }
        s = s.concat(item.as_str());
        i = i + 1;
        proof {
            let w = v@.subrange(0, i as int);
            assert(w.drop_last() =~= v@.subrange(0, i - 1));
            if i == 1 {
                assert(v@.subrange(0, 0) =~= Seq::<i64>::empty());
                assert(s@ =~= "["@ + debug_items(w));
            } else {
                assert(s@ =~= "["@ + debug_items(w));
            }
        }
    }
    assert(v@.subrange(0, v@.len() as int) =~= v@);
    s.concat("]")
}

/// The applied migrations must be exactly the expected ledger.
pub fn check_migration_ledger(found: &Vec<i64>, expected: &Vec<i64>) -> (r: Result<(), Error>)
    ensures
        r is Ok <==> found@ == expected@,
        r matches Err(e) ==> e is Invariant && e->Invariant_0@ == "schema migration ledger mismatch: expected "@
            + debug_list(expected@) + ", found "@ + debug_list(found@),
{
    if same_versions(found, expected) {
        Ok(())
    } else {
        let message = "schema migration ledger mismatch: expected ".to_owned().concat(
            debug_list_text(expected).as_str(),
        ).concat(", found ").concat(debug_list_text(found).as_str());
        Err(Error::Invariant(message))
    }
}

/// The database must be at the schema this build migrates.
pub fn check_schema_version(found: i64, expected: i64) -> (r: Result<(), Error>)
    ensures
        r is Ok <==> found == expected,
        r matches Err(e) ==> e is Invariant && e->Invariant_0@ == "migration requires schema "@
            + signed_zero_padded(expected as int, 0) + ", found "@ + signed_zero_padded(
            found as int,
            0,
        ),
{
    if found == expected {
        Ok(())
    } else {
        let message = "migration requires schema ".to_owned().concat(
            signed_padded_decimal(expected, 0).as_str(),
        ).concat(", found ").concat(signed_padded_decimal(found, 0).as_str());
        Err(Error::Invariant(message))
    }
}

/// SQLite's integrity check must report `ok`, and no foreign key may dangle.
pub fn check_database_health(integrity: &str, foreign_key_violation: bool) -> (r: Result<(), Error>)
    ensures
        r is Ok <==> (integrity@ == "ok"@ && !foreign_key_violation),
        r matches Err(e) ==> e is Invariant,
        r matches Err(e) ==> (integrity@ != "ok"@ ==> e->Invariant_0@ == "database integrity check failed: "@
            + integrity@),
{
    if !crate::text::str_eq(integrity, "ok") {
        return Err(Error::Invariant("database integrity check failed: ".to_owned().concat(integrity)));
    }
    if foreign_key_violation {
        return Err(Error::Invariant("database contains foreign key violations".to_owned()));
    }
    Ok(())
}

/// Where a snapshot was written.
#[derive(Debug, Clone)]
pub struct BackupArtifact {
    pub path: String,
}

/// The outcome of a dry run: the source's manifest, the snapshot's, and where the
/// snapshot lies.
#[derive(Debug, Clone)]
pub struct MigrationDryRun {
    pub source: MigrationManifest,
    pub snapshot: MigrationManifest,
    pub snapshot_artifact: BackupArtifact,
    pub verified: bool,
}

/// Concludes a dry run: the snapshot must describe the same data as its source.
pub fn conclude_dry_run(
    source: MigrationManifest,
    snapshot: MigrationManifest,
    snapshot_artifact: BackupArtifact,
) -> (r: Result<MigrationDryRun, Error>)
    ensures
        r is Ok <==> source.logical_view() == snapshot.logical_view(),
        r matches Err(e) ==> e is Invariant,
        r matches Ok(d) ==> d.source == source && d.snapshot == snapshot && d.snapshot_artifact
            == snapshot_artifact && d.verified,
{
    if !source.logically_matches(&snapshot) {
        return Err(
            Error::Invariant(
                "migration dry-run snapshot does not match the source database".to_owned(),
            ),
        );
    }
    Ok(MigrationDryRun { source, snapshot, snapshot_artifact, verified: true })
}

} // verus!
