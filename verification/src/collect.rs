use vstd::prelude::*;

use crate::walk::{button_views, Button, ButtonV};

verus! {

/// Lexicographic byte-wise order: `a` comes no later than `b`.
pub open spec fn bytes_le(a: Seq<u8>, b: Seq<u8>) -> bool
    decreases a.len(),
{
    if a.len() == 0 {
        true
    } else if b.len() == 0 {
        false
    } else if a[0] < b[0] {
        true
    } else if a[0] > b[0] {
        false
    } else {
        bytes_le(a.drop_first(), b.drop_first())
    }
}

pub proof fn lemma_bytes_le_total(a: Seq<u8>, b: Seq<u8>)
    ensures
        bytes_le(a, b) || bytes_le(b, a),
    decreases a.len(),
{
    if a.len() > 0 && b.len() > 0 && a[0] == b[0] {
        lemma_bytes_le_total(a.drop_first(), b.drop_first());
    }
}

pub proof fn lemma_bytes_le_trans(a: Seq<u8>, b: Seq<u8>, c: Seq<u8>)
    requires
        bytes_le(a, b),
        bytes_le(b, c),
    ensures
        bytes_le(a, c),
    decreases a.len(),
{
    if a.len() > 0 && b.len() > 0 && c.len() > 0 && a[0] == b[0] && b[0] == c[0] {
        lemma_bytes_le_trans(a.drop_first(), b.drop_first(), c.drop_first());
    }
}

/// The bytes a name sorts by: its UTF-8 encoding, compared byte-wise and
/// not locale-aware. For UTF-8, byte-wise order coincides with code-point
/// order.
pub open spec fn name_bytes(name: Seq<char>) -> Seq<u8> {
    vstd::utf8::encode_utf8(name)
}

/// Record order: ascending by name, byte-wise.
pub open spec fn record_le(a: ButtonV, b: ButtonV) -> bool {
    bytes_le(name_bytes(a.name), name_bytes(b.name))
}

/// The sequence is ascending by name under byte-wise comparison.
pub open spec fn sorted_by_name(s: Seq<ButtonV>) -> bool {
    forall|i: int, j: int| 0 <= i < j < s.len() ==> record_le(#[trigger] s[i], #[trigger] s[j])
}

fn bytes_le_from(a: &[u8], b: &[u8], i: usize) -> (r: bool)
    requires
        i <= a@.len(),
        i <= b@.len(),
    ensures
        r == bytes_le(a@.skip(i as int), b@.skip(i as int)),
    decreases a@.len() - i,
{
    if i == a.len() {
        true
    } else if i == b.len() {
        false
    } else if a[i] < b[i] {
        true
    } else if a[i] > b[i] {
        false
    } else {
        let r = bytes_le_from(a, b, i + 1);
        proof {
            assert(a@.skip(i as int).drop_first() =~= a@.skip(i + 1));
            assert(b@.skip(i as int).drop_first() =~= b@.skip(i + 1));
        }
        r
    }
}

/// Byte-wise comparison of two names.
pub fn name_le(a: &str, b: &str) -> (r: bool)
    ensures
        r == bytes_le(name_bytes(a@), name_bytes(b@)),
{
    let ab = a.as_bytes();
    let bb = b.as_bytes();
    proof {
        assert(ab@.skip(0) =~= ab@);
        assert(bb@.skip(0) =~= bb@);
    }
    bytes_le_from(ab, bb, 0)
}

fn min_index(v: &Vec<Button>) -> (m: usize)
    requires
        v@.len() > 0,
    ensures
        m < v@.len(),
        forall|k: int| 0 <= k < v@.len() ==> record_le(v@[m as int]@, #[trigger] v@[k]@),
{
    let mut m: usize = 0;
    let mut k: usize = 1;
    proof {
        lemma_bytes_le_total(name_bytes(v@[0]@.name), name_bytes(v@[0]@.name));
    }
    while k < v.len()
        invariant
            m < k <= v@.len(),
            forall|t: int| 0 <= t < k ==> record_le(v@[m as int]@, #[trigger] v@[t]@),
        decreases v@.len() - k,
    {
        if !name_le(v[m].name.as_str(), v[k].name.as_str()) {
            proof {
                lemma_bytes_le_total(
                    name_bytes(v@[m as int]@.name),
                    name_bytes(v@[k as int]@.name),
                );
                assert forall|t: int| 0 <= t < k + 1 implies record_le(
                    v@[k as int]@,
                    #[trigger] v@[t]@,
                ) by {
                    if t < k {
                        lemma_bytes_le_trans(
                            name_bytes(v@[k as int]@.name),
                            name_bytes(v@[m as int]@.name),
                            name_bytes(v@[t]@.name),
                        );
                    } else {
                        lemma_bytes_le_total(
                            name_bytes(v@[k as int]@.name),
                            name_bytes(v@[k as int]@.name),
                        );
                    }
                }
            }
            m = k;
        }
        k += 1;
    }
    m
}

/// Returns the records sorted ascending by name, byte-wise: the same
/// records (as a multiset), in an order independent of the link order the
/// walk produced them in.
pub fn collect_records(records: Vec<Button>) -> (r: Vec<Button>)
    ensures
        sorted_by_name(button_views(r@)),
        button_views(r@).to_multiset() == button_views(records@).to_multiset(),
{
    broadcast use vstd::seq_lib::group_to_multiset_ensures;

    let ghost all = button_views(records@);
    let mut rest = records;
    let mut out: Vec<Button> = Vec::new();
    proof {
        assert(button_views(out@) =~= Seq::<ButtonV>::empty());
        assert(button_views(out@).to_multiset().add(button_views(rest@).to_multiset())
            =~= all.to_multiset());
    }
    while rest.len() > 0
        invariant
            sorted_by_name(button_views(out@)),
            button_views(out@).to_multiset().add(button_views(rest@).to_multiset())
                == all.to_multiset(),
            forall|i: int, j: int|
                0 <= i < out@.len() && 0 <= j < rest@.len() ==> record_le(
                    #[trigger] out@[i]@,
                    #[trigger] rest@[j]@,
                ),
        decreases rest.len(),
    {
        broadcast use vstd::seq_lib::group_to_multiset_ensures;

        let m = min_index(&rest);
        let ghost rest0 = rest@;
        let ghost out0 = out@;
        let b = rest.remove(m);
        let ghost bv = b@;
        proof {
            assert(button_views(rest@) =~= button_views(rest0).remove(m as int));
            assert(button_views(rest0).remove(m as int).to_multiset() =~= button_views(
                rest0,
            ).to_multiset().remove(bv));
        }
        out.push(b);
        proof {
            assert(button_views(out@) =~= button_views(out0).push(bv));
            assert(button_views(out@).to_multiset() =~= button_views(out0).to_multiset().insert(
                bv,
            ));
            assert(button_views(rest0).to_multiset().count(bv) > 0) by {
                assert(button_views(rest0)[m as int] == bv);
                assert(button_views(rest0).contains(bv));
            }
            assert forall|x: ButtonV|
                button_views(out@).to_multiset().add(button_views(rest@).to_multiset()).count(x)
                    == all.to_multiset().count(x) by {
                assert(button_views(out0).to_multiset().add(
                    button_views(rest0).to_multiset(),
                ).count(x) == all.to_multiset().count(x));
            }
            assert(button_views(out@).to_multiset().add(button_views(rest@).to_multiset())
                =~= all.to_multiset());
            // the pushed record keeps the result sorted: it is a lower bound
            // of the remaining records and an upper bound of nothing before it
            let ghost so = button_views(out0);
            assert forall|i: int, j: int|
                0 <= i < j < out@.len() implies record_le(
                #[trigger] button_views(out@)[i],
                #[trigger] button_views(out@)[j],
            ) by {
                assert(button_views(out@)[i] == so[i]);
                if j < out0.len() {
                    assert(button_views(out@)[j] == so[j]);
                    assert(record_le(so[i], so[j]));
                } else {
                    assert(button_views(out@)[j] == bv);
                    assert(so[i] == out0[i]@);
                    assert(bv == rest0[m as int]@);
                    assert(record_le(out0[i]@, rest0[m as int]@));
                }
            }
            assert forall|i: int, j: int|
                0 <= i < out@.len() && 0 <= j < rest@.len() implies record_le(
                #[trigger] out@[i]@,
                #[trigger] rest@[j]@,
            ) by {
                let jj = if j < m { j } else { j + 1 };
                assert(rest@[j] == rest0[jj]);
                if i < out0.len() {
                    assert(out@[i] == out0[i]);
                    assert(record_le(out0[i]@, rest0[jj]@));
                } else {
                    assert(out@[i] == b);
                    assert(record_le(rest0[m as int]@, rest0[jj]@));
                }
            }
        }
    }
    out
}

} // verus!
