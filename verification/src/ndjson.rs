//! Framing of newline-delimited JSON: a transport hands over bytes in arbitrary
//! chunks, and complete records (each ending in a newline) are cut off the
//! front of an accumulation buffer as soon as they are whole.
use vstd::prelude::*;
use vstd::seq_lib::lemma_flatten_concat;

verus! {

/// The byte that ends every record.
pub const NEWLINE: u8 = 0x0Au8;

/// A complete record: at least one byte, ending in the newline, with no newline before it.
pub open spec fn is_record(r: Seq<u8>) -> bool {
    &&& r.len() > 0
    &&& r.last() == NEWLINE
    &&& forall|j: int| 0 <= j < r.len() - 1 ==> r[j] != NEWLINE
}

/// No byte of `s` is a newline.
pub open spec fn has_no_newline(s: Seq<u8>) -> bool {
    forall|j: int| 0 <= j < s.len() ==> s[j] != NEWLINE
}

/// `records` followed by `rest` is exactly `s`, every record is complete, and `rest`
/// holds no newline (it is the start of a record that has not arrived whole).
pub open spec fn is_record_split(s: Seq<u8>, records: Seq<Seq<u8>>, rest: Seq<u8>) -> bool {
    &&& forall|k: int| 0 <= k < records.len() ==> is_record(#[trigger] records[k])
    &&& has_no_newline(rest)
    &&& records.flatten() + rest == s
}

/// The complete records at the front of `s`, and the unterminated bytes after them.
/// (There is exactly one such split: see `lemma_split_records`.)
pub open spec fn split_records(s: Seq<u8>) -> (Seq<Seq<u8>>, Seq<u8>) {
    choose|p: (Seq<Seq<u8>>, Seq<u8>)| is_record_split(s, p.0, p.1)
}

/// The contents of a list of byte vectors.
pub open spec fn records_view(v: Seq<Vec<u8>>) -> Seq<Seq<u8>> {
    v.map_values(|r: Vec<u8>| r@)
}

proof fn lemma_record_split_exists(s: Seq<u8>)
    ensures
        exists|r: Seq<Seq<u8>>, t: Seq<u8>| is_record_split(s, r, t),
    decreases s.len(),
{
    if s.len() == 0 {
        let r = Seq::<Seq<u8>>::empty();
        assert(r.flatten() =~= Seq::<u8>::empty());
        assert(r.flatten() + s =~= s);
        assert(is_record_split(s, r, s));
    } else {
        let p = s.drop_last();
        lemma_record_split_exists(p);
        let (r, t) = choose|r: Seq<Seq<u8>>, t: Seq<u8>| is_record_split(p, r, t);
        let x = s.last();
        assert(s =~= p.push(x));
        assert(r.flatten() + t == p);
        if x == NEWLINE {
            let rec = t.push(x);
            let r2 = r.push(rec);
            r.lemma_flatten_push(rec);
            assert(is_record(rec));
            assert forall|k: int| 0 <= k < r2.len() implies is_record(#[trigger] r2[k]) by {
                if k < r.len() {
                    assert(r2[k] == r[k]);
                }
            }
            let empty = Seq::<u8>::empty();
            assert(r2.flatten() =~= r.flatten() + rec);
            assert(r.flatten() + rec =~= (r.flatten() + t).push(x));
            assert(r2.flatten() + empty =~= s);
            assert(is_record_split(s, r2, empty));
        } else {
            assert(r.flatten() + t.push(x) =~= (r.flatten() + t).push(x));
            assert(r.flatten() + t.push(x) =~= s);
            assert(is_record_split(s, r, t.push(x)));
        }
    }
}

proof fn lemma_flatten_first(r: Seq<Seq<u8>>)
    requires
        r.len() > 0,
    ensures
        r.flatten() == r[0] + r.drop_first().flatten(),
{
}

/// A byte string has only one split into complete records and an unterminated rest.
pub proof fn lemma_record_split_unique(
    s: Seq<u8>,
    r1: Seq<Seq<u8>>,
    t1: Seq<u8>,
    r2: Seq<Seq<u8>>,
    t2: Seq<u8>,
)
    requires
        is_record_split(s, r1, t1),
        is_record_split(s, r2, t2),
    ensures
        r1 == r2,
        t1 == t2,
    decreases r1.len(),
{
    if r1.len() == 0 || r2.len() == 0 {
        if r1.len() > 0 {
            // then s holds a newline, which t2 == s cannot
            lemma_flatten_first(r1);
            let a = r1[0];
            assert(r2.flatten() =~= Seq::<u8>::empty());
            assert(s =~= t2);
            assert(s[a.len() - 1] == a[a.len() - 1]);
            assert(false);
        }
        if r2.len() > 0 {
            lemma_flatten_first(r2);
            let b = r2[0];
            assert(r1.flatten() =~= Seq::<u8>::empty());
            assert(s =~= t1);
            assert(s[b.len() - 1] == b[b.len() - 1]);
            assert(false);
        }
        assert(r1 =~= r2);
        assert(r1.flatten() =~= Seq::<u8>::empty());
        assert(t1 =~= s);
        assert(t2 =~= s);
    } else {
        lemma_flatten_first(r1);
        lemma_flatten_first(r2);
        let a = r1[0];
        let b = r2[0];
        let s1 = r1.drop_first().flatten() + t1;
        let s2 = r2.drop_first().flatten() + t2;
        assert(s =~= a + s1);
        assert(s =~= b + s2);
        if a.len() < b.len() {
            assert(s[a.len() - 1] == a[a.len() - 1]);
            assert(s[a.len() - 1] == b[a.len() - 1]);
            assert(false);
        }
        if b.len() < a.len() {
            assert(s[b.len() - 1] == b[b.len() - 1]);
            assert(s[b.len() - 1] == a[b.len() - 1]);
            assert(false);
        }
        assert(a =~= s.take(a.len() as int));
        assert(b =~= s.take(b.len() as int));
        assert(s1 =~= s.skip(a.len() as int));
        assert(s2 =~= s.skip(b.len() as int));
        let q1 = r1.drop_first();
        let q2 = r2.drop_first();
        assert forall|k: int| 0 <= k < q1.len() implies is_record(#[trigger] q1[k]) by {
            assert(q1[k] == r1[k + 1]);
        }
        assert forall|k: int| 0 <= k < q2.len() implies is_record(#[trigger] q2[k]) by {
            assert(q2[k] == r2[k + 1]);
        }
        lemma_record_split_unique(s1, q1, t1, q2, t2);
        assert(r1 =~= seq![a] + q1);
        assert(r2 =~= seq![b] + q2);
    }
}

/// `split_records` is a split of its argument into complete records and an
/// unterminated rest, and the only one.
pub proof fn lemma_split_records(s: Seq<u8>)
    ensures
        is_record_split(s, split_records(s).0, split_records(s).1),
        forall|r: Seq<Seq<u8>>, t: Seq<u8>|
            is_record_split(s, r, t) ==> r == split_records(s).0 && t == split_records(s).1,
{
    lemma_record_split_exists(s);
    let (r0, t0) = choose|r: Seq<Seq<u8>>, t: Seq<u8>| is_record_split(s, r, t);
    assert(is_record_split(s, (r0, t0).0, (r0, t0).1));
    let p = split_records(s);
    assert(is_record_split(s, p.0, p.1));
    assert forall|r: Seq<Seq<u8>>, t: Seq<u8>| is_record_split(s, r, t) implies r == p.0
        && t == p.1 by {
        lemma_record_split_unique(s, r, t, p.0, p.1);
    }
}

/// Records are found the same way however the bytes were cut into chunks: splitting
/// `a`, then splitting what was left of it followed by `b`, gives the records of
/// `a + b` in order, and the same remainder.
pub proof fn lemma_split_records_chunked(a: Seq<u8>, b: Seq<u8>)
    ensures
        split_records(a + b) == (
            split_records(a).0 + split_records(split_records(a).1 + b).0,
            split_records(split_records(a).1 + b).1,
        ),
{
    let (r1, t1) = split_records(a);
    let (r2, t2) = split_records(t1 + b);
    lemma_split_records(a);
    lemma_split_records(t1 + b);
    lemma_split_records(a + b);
    lemma_flatten_concat(r1, r2);
    let r = r1 + r2;
    assert forall|k: int| 0 <= k < r.len() implies is_record(#[trigger] r[k]) by {
        if k < r1.len() {
            assert(r[k] == r1[k]);
        } else {
            assert(r[k] == r2[k - r1.len()]);
        }
    }
    assert(r1.flatten() + t1 == a);
    assert(r2.flatten() + t2 == t1 + b);
    assert(r.flatten() == r1.flatten() + r2.flatten());
    assert(r1.flatten() + r2.flatten() + t2 =~= r1.flatten() + (r2.flatten() + t2));
    assert(r1.flatten() + (t1 + b) =~= (r1.flatten() + t1) + b);
    assert(r.flatten() + t2 =~= a + b);
    assert(is_record_split(a + b, r, t2));
}

/// What is left after the records are taken holds no complete record: splitting it
/// again yields no records and leaves it as it is.
pub proof fn lemma_split_records_rest_is_stable(s: Seq<u8>)
    ensures
        split_records(split_records(s).1) == (Seq::<Seq<u8>>::empty(), split_records(s).1),
{
    let t = split_records(s).1;
    lemma_split_records(s);
    lemma_split_records(t);
    let e = Seq::<Seq<u8>>::empty();
    assert(e.flatten() =~= Seq::<u8>::empty());
    assert(e.flatten() + t =~= t);
    assert(is_record_split(t, e, t));
}

/// Cuts every complete newline-terminated record off the front of `buffer`, in order,
/// and leaves in `buffer` only the bytes of the record that has not arrived whole.
pub fn take_ndjson_records(buffer: &mut Vec<u8>) -> (records: Vec<Vec<u8>>)
    ensures
        is_record_split(old(buffer)@, records_view(records@), final(buffer)@),
        (records_view(records@), final(buffer)@) == split_records(old(buffer)@),
{
    let mut records: Vec<Vec<u8>> = Vec::new();
    let mut current: Vec<u8> = Vec::new();
    let n: usize = buffer.len();
    let mut i: usize = 0;
    while i < n
        invariant
            n == buffer.len(),
            i <= n,
            buffer@ == old(buffer)@,
            forall|k: int|
                0 <= k < records_view(records@).len() ==> is_record(
                    #[trigger] records_view(records@)[k],
                ),
            has_no_newline(current@),
            records_view(records@).flatten() + current@ == buffer@.take(i as int),
        decreases n - i,
    {
        let byte: u8 = buffer[i];
        let ghost before = records_view(records@);
        current.push(byte);
        assert(buffer@.take(i + 1) =~= buffer@.take(i as int).push(byte));
        if byte == NEWLINE {
            let ghost rec = current@;
            records.push(current);
            current = Vec::new();
            assert(records_view(records@) =~= before.push(rec));
            proof {
                before.lemma_flatten_push(rec);
            }
            assert forall|k: int| 0 <= k < records_view(records@).len() implies is_record(
                #[trigger] records_view(records@)[k],
            ) by {
                if k < before.len() {
                    assert(records_view(records@)[k] == before[k]);
                }
            }
            assert(records_view(records@).flatten() + current@ =~= buffer@.take(i + 1));
        } else {
            assert(records_view(records@).flatten() + current@ =~= buffer@.take(i + 1));
        }
        i += 1;
    }
    assert(buffer@.take(n as int) =~= buffer@);
    *buffer = current;
    proof {
        lemma_split_records(old(buffer)@);
    }
    records
}

} // verus!
