use vstd::prelude::*;

use crate::model::{VersionManifest, Versions};
use crate::order::{lemma_text_lt_order, strictly_sorted, text_less, text_lt};

verus! {

/// The types of the manifest's versions, in manifest order.
pub open spec fn version_types(vs: Seq<Versions>) -> Seq<Seq<char>> {
    vs.map_values(|v: Versions| v.version_type@)
}

/// Some version of `vs` has type `t`.
pub open spec fn some_version_has_type(vs: Seq<Versions>, t: Seq<char>) -> bool {
    exists|i: int| 0 <= i < vs.len() && (#[trigger] vs[i]).version_type@ == t
}

/// The text of each string.
pub open spec fn texts(v: Seq<String>) -> Seq<Seq<char>> {
    v.map_values(|s: String| s@)
}

/// `i` is the first position whose version has this id.
pub open spec fn is_first_with_id(vs: Seq<Versions>, id: Seq<char>, i: int) -> bool {
    &&& 0 <= i < vs.len()
    &&& vs[i].id@ == id
    &&& forall|j: int| 0 <= j < i ==> vs[j].id@ != id
}

/// The first entry of the manifest whose id is `id`, or `None` when the
/// manifest lists no such version.
pub fn find_version<'a>(manifest: &'a VersionManifest, id: &String) -> (r: Option<&'a Versions>)
    ensures
        match r {
            Some(v) => v.id@ == id@ && exists|i: int|
                is_first_with_id(manifest.versions@, id@, i) && *v == manifest.versions@[i],
            None => forall|i: int|
                0 <= i < manifest.versions@.len() ==> manifest.versions@[i].id@ != id@,
        },
{
    let n = manifest.versions.len();
    let mut i: usize = 0;
    while i < n
        invariant
            n == manifest.versions@.len(),
            i <= n,
            forall|j: int| 0 <= j < i ==> manifest.versions@[j].id@ != id@,
        decreases n - i,
    {
        if manifest.versions[i].id == *id {
            assert(is_first_with_id(manifest.versions@, id@, i as int));
            return Some(&manifest.versions[i]);
        }
        i = i + 1;
    }
    None
}

/// `out` lists, in increasing order and once each, exactly the strings of `items`.
pub open spec fn sorted_set_of(out: Seq<Seq<char>>, items: Seq<Seq<char>>) -> bool {
    &&& strictly_sorted(out)
    &&& forall|x: Seq<char>| out.contains(x) <==> items.contains(x)
}

/// The distinct version types of the manifest, sorted.
pub fn versions_types(manifest: &VersionManifest) -> (r: Vec<String>)
    ensures
        sorted_set_of(
            r@.map_values(|s: String| s@),
            version_types(manifest.versions@),
        ),
        forall|i: int|
            0 <= i < manifest.versions@.len() ==> r@.map_values(|s: String| s@).contains(
                (#[trigger] manifest.versions@[i]).version_type@,
            ),
        forall|j: int|
            0 <= j < r@.len() ==> some_version_has_type(manifest.versions@, #[trigger] texts(r@)[j]),
{
    let ghost items = version_types(manifest.versions@);
    let mut out: Vec<String> = Vec::new();
    let n = manifest.versions.len();
    let mut i: usize = 0;
    assert(out@.map_values(|s: String| s@) =~= Seq::<Seq<char>>::empty());
    while i < n
        invariant
            n == manifest.versions@.len(),
            items == version_types(manifest.versions@),
            i <= n,
            sorted_set_of(out@.map_values(|s: String| s@), items.take(i as int)),
        decreases n - i,
    {
        let t = &manifest.versions[i].version_type;
        let ghost tv = t@;
        assert(items[i as int] == tv);
        let ghost before = out@.map_values(|s: String| s@);
        // first position whose string does not come before `t`
        let len = out.len();
        let mut p: usize = 0;
        while p < len && text_less(out[p].as_str(), t.as_str())
            invariant
                len == out@.len(),
                before == out@.map_values(|s: String| s@),
                tv == t@,
                p <= len,
                forall|k: int| 0 <= k < p ==> text_lt(before[k], tv),
            decreases len - p,
        {
            p = p + 1;
        }
        let ghost cur = items.take(i as int);
        let ghost next = items.take(i + 1);
        assert(next =~= cur.push(tv));
        if p < len && out[p] == *t {
            assert forall|x: Seq<char>| before.contains(x) <==> next.contains(
                x,
            ) by {
                if x == tv {
                    assert(before[p as int] == tv);
                    assert(next[i as int] == tv);
                }
                if next.contains(x) && x != tv {
                    let k = choose|k: int| 0 <= k < next.len() && next[k] == x;
                    assert(cur[k] == x);
                }
                if cur.contains(x) {
                    let k = choose|k: int| 0 <= k < cur.len() && cur[k] == x;
                    assert(next[k] == x);
                }
            }
        } else {
            proof {
                if p < len {
                    assert(!text_lt(before[p as int], tv));
                    assert(before[p as int] != tv);
                    lemma_text_lt_order(before[p as int], tv, tv);
                    assert(text_lt(tv, before[p as int]));
                }
            }
            out.insert(p, t.clone());
            let ghost after = out@.map_values(|s: String| s@);
            assert(after =~= before.insert(p as int, tv));
            assert forall|a: int, b: int| 0 <= a < b < after.len() implies text_lt(
                after[a],
                after[b],
            ) by {
                if b < p {
                } else if a < p && b == p {
                } else if a < p && b > p {
                    lemma_text_lt_order(after[a], tv, after[b]);
                    assert(after[b] == before[b - 1]);
                    if p < b - 1 {
                        lemma_text_lt_order(tv, before[p as int], before[b - 1]);
                    }
                } else if a == p {
                    assert(after[b] == before[b - 1]);
                    if p < b - 1 {
                        lemma_text_lt_order(tv, before[p as int], before[b - 1]);
                    }
                } else {
                    assert(after[a] == before[a - 1]);
                    assert(after[b] == before[b - 1]);
                }
            }
            assert forall|x: Seq<char>| after.contains(x) <==> next.contains(x) by {
                if after.contains(x) {
                    let k = choose|k: int| 0 <= k < after.len() && after[k] == x;
                    if k < p {
                        assert(before[k] == x);
                    } else if k > p {
                        assert(before[k - 1] == x);
                    }
                    if x != tv {
                        assert(before.contains(x));
                        let m = choose|m: int| 0 <= m < cur.len() && cur[m] == x;
                        assert(next[m] == x);
                    } else {
                        assert(next[i as int] == x);
                    }
                }
                if next.contains(x) {
                    let m = choose|m: int| 0 <= m < next.len() && next[m] == x;
                    if m == i {
                        assert(after[p as int] == x);
                    } else {
                        assert(cur[m] == x);
                        assert(before.contains(x));
                        let k = choose|k: int| 0 <= k < before.len() && before[k] == x;
                        if k < p {
                            assert(after[k] == x);
                        } else {
                            assert(after[k + 1] == x);
                        }
                    }
                }
            }
        }
        i = i + 1;
    }
    assert(items.take(n as int) =~= items);
    proof {
        lemma_members_of_versions(texts(out@), manifest.versions@);
        assert(texts(out@) == out@.map_values(|s: String| s@));
    }
    out
}

proof fn lemma_members_of_versions(out: Seq<Seq<char>>, vs: Seq<Versions>)
    requires
        forall|x: Seq<char>| out.contains(x) <==> version_types(vs).contains(x),
    ensures
        forall|i: int| 0 <= i < vs.len() ==> out.contains((#[trigger] vs[i]).version_type@),
        forall|j: int| 0 <= j < out.len() ==> some_version_has_type(vs, #[trigger] out[j]),
{
    law_version_types_members(vs);
    assert forall|j: int| 0 <= j < out.len() implies some_version_has_type(vs, #[trigger] out[j]) by {
        assert(out.contains(out[j]));
        assert(version_types(vs).contains(out[j]));
        let k = choose|k: int| 0 <= k < version_types(vs).len() && version_types(vs)[k] == out[j];
        assert(vs[k].version_type@ == version_types(vs)[k]);
        assert(0 <= k < vs.len() && vs[k].version_type@ == out[j]);
    }
}

/// The version types of a list of versions are the types of its versions:
/// each version's type is among them, and each of them is some version's type.
pub proof fn law_version_types_members(vs: Seq<Versions>)
    ensures
        version_types(vs).len() == vs.len(),
        forall|i: int|
            0 <= i < vs.len() ==> version_types(vs).contains((#[trigger] vs[i]).version_type@),
        forall|x: Seq<char>|
            #[trigger] version_types(vs).contains(x) ==> exists|i: int|
                0 <= i < vs.len() && (#[trigger] vs[i]).version_type@ == x,
{
    let ts = version_types(vs);
    assert forall|i: int| 0 <= i < vs.len() implies ts.contains(
        (#[trigger] vs[i]).version_type@,
    ) by {
        assert(ts[i] == vs[i].version_type@);
    }
    assert forall|x: Seq<char>| ts.contains(x) implies exists|i: int|
        0 <= i < vs.len() && (#[trigger] vs[i]).version_type@ == x by {
        let k = choose|k: int| 0 <= k < ts.len() && ts[k] == x;
        assert(vs[k].version_type@ == x);
    }
}

/// A sorted list without repeats is determined by the strings it holds: two
/// strictly sorted lists that hold the same strings are the same list.
pub proof fn lemma_sorted_set_unique(a: Seq<Seq<char>>, b: Seq<Seq<char>>)
    requires
        strictly_sorted(a),
        strictly_sorted(b),
        forall|x: Seq<char>| a.contains(x) <==> b.contains(x),
    ensures
        a == b,
    decreases a.len(),
{
    if a.len() == 0 {
        if b.len() > 0 {
            assert(b.contains(b[0]));
        }
        assert(a =~= b);
    } else {
        assert(a.contains(a[0]));
        if b.len() == 0 {
            assert(false);
        }
        assert(b.contains(b[0]));
        let j = choose|j: int| 0 <= j < b.len() && b[j] == a[0];
        let k = choose|k: int| 0 <= k < a.len() && a[k] == b[0];
        if j > 0 {
            // b[0] < b[j] = a[0] <= a[k] = b[0]
            lemma_text_lt_order(b[0], a[0], b[0]);
            if k > 0 {
                lemma_text_lt_order(b[0], a[0], a[k]);
            }
            assert(false);
        }
        let a2 = a.drop_first();
        let b2 = b.drop_first();
        assert forall|x: Seq<char>| a2.contains(x) <==> b2.contains(x) by {
            if a2.contains(x) {
                let m = choose|m: int| 0 <= m < a2.len() && a2[m] == x;
                assert(a[m + 1] == x);
                lemma_text_lt_order(a[0], x, x);
                assert(b.contains(x));
                let q = choose|q: int| 0 <= q < b.len() && b[q] == x;
                assert(q != 0);
                assert(b2[q - 1] == x);
            }
            if b2.contains(x) {
                let m = choose|m: int| 0 <= m < b2.len() && b2[m] == x;
                assert(b[m + 1] == x);
                lemma_text_lt_order(b[0], x, x);
                assert(a.contains(x));
                let q = choose|q: int| 0 <= q < a.len() && a[q] == x;
                assert(q != 0);
                assert(a2[q - 1] == x);
            }
        }
        lemma_sorted_set_unique(a2, b2);
        assert(a =~= seq![a[0]] + a2);
        assert(b =~= seq![b[0]] + b2);
    }
}

/// The list of version types depends only on which types the manifest
/// holds, not on the order or repetition of its versions.
pub proof fn law_version_types_canonical(
    out1: Seq<Seq<char>>,
    items1: Seq<Seq<char>>,
    out2: Seq<Seq<char>>,
    items2: Seq<Seq<char>>,
)
    requires
        sorted_set_of(out1, items1),
        sorted_set_of(out2, items2),
        forall|x: Seq<char>| items1.contains(x) <==> items2.contains(x),
    ensures
        out1 == out2,
{
    lemma_sorted_set_unique(out1, out2);
}

} // verus!
