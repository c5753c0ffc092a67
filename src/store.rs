use crate::model::Builders;
use crate::order::{
    chars_before, lemma_name_before_asymmetric, lemma_name_before_total,
    lemma_name_before_transitive, name_before,
};
use crate::text::chars_of;
use crate::record::{PkgInfo, RecordView};
use vstd::prelude::*;

verus! {

/// The views of a sequence of records.
pub open spec fn records_view(s: Seq<PkgInfo>) -> Seq<RecordView> {
    s.map_values(|p: PkgInfo| p@)
}

/// No two records share a name.
pub open spec fn names_unique(s: Seq<RecordView>) -> bool {
    forall|i: int, j: int| 0 <= i < j < s.len() ==> s[i].name != s[j].name
}

/// The records keyed by name.
pub open spec fn records_map(s: Seq<RecordView>) -> Builders
    decreases s.len(),
{
    if s.len() == 0 {
        Map::empty()
    } else {
        records_map(s.drop_last()).insert(s.last().name, s.last())
    }
}

pub proof fn lemma_records_map_keys(s: Seq<RecordView>, k: Seq<char>)
    ensures
        records_map(s).contains_key(k) <==> exists|i: int| 0 <= i < s.len() && s[i].name == k,
    decreases s.len(),
{
    if s.len() > 0 {
        let t = s.drop_last();
        lemma_records_map_keys(t, k);
        if records_map(s).contains_key(k) {
            if k == s.last().name {
                assert(s[s.len() - 1].name == k);
            } else {
                let i = choose|i: int| 0 <= i < t.len() && t[i].name == k;
                assert(s[i].name == k);
            }
        }
        if exists|i: int| 0 <= i < s.len() && s[i].name == k {
            let i = choose|i: int| 0 <= i < s.len() && s[i].name == k;
            if i < s.len() - 1 {
                assert(t[i].name == k);
            }
        }
    }
}

pub proof fn lemma_records_map_at(s: Seq<RecordView>, i: int)
    requires
        names_unique(s),
        0 <= i < s.len(),
    ensures
        records_map(s).contains_key(s[i].name),
        records_map(s)[s[i].name] == s[i],
    decreases s.len(),
{
    if i < s.len() - 1 {
        let t = s.drop_last();
        lemma_records_map_at(t, i);
        assert(s[i].name != s[s.len() - 1].name);
    }
}

pub proof fn lemma_records_map_update(s: Seq<RecordView>, i: int, r: RecordView)
    requires
        names_unique(s),
        0 <= i < s.len(),
        s[i].name == r.name,
    ensures
        records_map(s.update(i, r)) == records_map(s).insert(r.name, r),
        names_unique(s.update(i, r)),
    decreases s.len(),
{
    let u = s.update(i, r);
    let t = s.drop_last();
    if i == s.len() - 1 {
        assert(u.drop_last() =~= t);
        assert(records_map(u) =~= records_map(s).insert(r.name, r));
    } else {
        assert(u.drop_last() =~= t.update(i, r));
        lemma_records_map_update(t, i, r);
        assert(s[i].name != s[s.len() - 1].name);
        assert(records_map(u) =~= records_map(s).insert(r.name, r));
    }
}

/// The records are in strictly increasing order of name.
pub open spec fn names_sorted(s: Seq<RecordView>) -> bool {
    forall|i: int, j: int| 0 <= i < j < s.len() ==> name_before(s[i].name, s[j].name)
}

pub proof fn lemma_sorted_names_unique(s: Seq<RecordView>)
    requires
        names_sorted(s),
    ensures
        names_unique(s),
{
    assert forall|i: int, j: int| 0 <= i < j < s.len() implies s[i].name != s[j].name by {
        lemma_name_before_asymmetric(s[i].name, s[j].name);
    }
}

pub proof fn lemma_records_map_insert(s: Seq<RecordView>, pos: int, x: RecordView)
    requires
        0 <= pos <= s.len(),
        forall|i: int| 0 <= i < s.len() ==> s[i].name != x.name,
    ensures
        records_map(s.insert(pos, x)) == records_map(s).insert(x.name, x),
    decreases s.len(),
{
    let u = s.insert(pos, x);
    if pos == s.len() {
        assert(u =~= s.push(x));
        assert(s.push(x).drop_last() =~= s);
    } else {
        let t = s.drop_last();
        assert(u.drop_last() =~= t.insert(pos, x));
        assert(u.last() == s.last());
        lemma_records_map_insert(t, pos, x);
        assert(s[s.len() - 1].name != x.name);
        assert(records_map(u) =~= records_map(s).insert(x.name, x));
    }
}

pub proof fn lemma_sorted_insert(s: Seq<RecordView>, pos: int, x: RecordView)
    requires
        names_sorted(s),
        0 <= pos <= s.len(),
        forall|i: int| 0 <= i < pos ==> name_before(#[trigger] s[i].name, x.name),
        forall|i: int| pos <= i < s.len() ==> name_before(x.name, #[trigger] s[i].name),
    ensures
        names_sorted(s.insert(pos, x)),
{
    let u = s.insert(pos, x);
    assert forall|i: int, j: int| 0 <= i < j < u.len() implies name_before(u[i].name, u[j].name) by {
        if i < pos && j > pos {
            assert(u[j] == s[j - 1]);
        } else if i > pos {
            assert(u[i] == s[i - 1] && u[j] == s[j - 1]);
        }
    }
}

/// Two listings in increasing order of name that hold the same records are the same.
pub proof fn lemma_sorted_listing_unique(s1: Seq<RecordView>, s2: Seq<RecordView>)
    requires
        names_sorted(s1),
        names_sorted(s2),
        records_map(s1) == records_map(s2),
    ensures
        s1 == s2,
    decreases s1.len(),
{
    lemma_sorted_names_unique(s1);
    lemma_sorted_names_unique(s2);
    if s1.len() == 0 || s2.len() == 0 {
        if s1.len() > 0 {
            lemma_records_map_at(s1, 0);
        }
        if s2.len() > 0 {
            lemma_records_map_at(s2, 0);
        }
        assert(s1 =~= s2);
    } else {
        let n1 = s1.len() - 1;
        let n2 = s2.len() - 1;
        let k1 = s1[n1].name;
        let k2 = s2[n2].name;
        lemma_records_map_at(s1, n1);
        lemma_records_map_at(s2, n2);
        lemma_records_map_keys(s2, k1);
        lemma_records_map_keys(s1, k2);
        let j = choose|j: int| 0 <= j < s2.len() && s2[j].name == k1;
        let i = choose|i: int| 0 <= i < s1.len() && s1[i].name == k2;
        if j < n2 {
            assert(name_before(s2[j].name, s2[n2].name));
        }
        if i < n1 {
            assert(name_before(s1[i].name, s1[n1].name));
        }
        lemma_name_before_asymmetric(k1, k2);
        lemma_name_before_asymmetric(k1, k1);
        lemma_name_before_asymmetric(k2, k2);
        assert(k1 == k2);
        let t1 = s1.drop_last();
        let t2 = s2.drop_last();
        lemma_records_map_keys(t1, k1);
        lemma_records_map_keys(t2, k1);
        if exists|a: int| 0 <= a < t1.len() && t1[a].name == k1 {
            let a = choose|a: int| 0 <= a < t1.len() && t1[a].name == k1;
            assert(s1[a].name == s1[n1].name);
        }
        if exists|a: int| 0 <= a < t2.len() && t2[a].name == k1 {
            let a = choose|a: int| 0 <= a < t2.len() && t2[a].name == k1;
            assert(s2[a].name == s2[n2].name);
        }
        assert(records_map(t1) =~= records_map(s1).remove(k1));
        assert(records_map(t2) =~= records_map(s2).remove(k1));
        lemma_sorted_listing_unique(t1, t2);
        assert(s1 =~= t1.push(s1[n1]));
        assert(s2 =~= t2.push(s2[n2]));
    }
}

/// The index of the record named `name`.
pub fn find_record(records: &Vec<PkgInfo>, name: &String) -> (r: Option<usize>)
    ensures
        match r {
            Some(i) => i < records@.len() && records@[i as int].name@ == name@,
            None => forall|i: int| 0 <= i < records@.len() ==> records@[i].name@ != name@,
        },
{
    let mut i: usize = 0;
    while i < records.len()
        invariant
            i <= records@.len(),
            forall|k: int| 0 <= k < i ==> records@[k].name@ != name@,
        decreases records@.len() - i,
    {
        if records[i].name == *name {
            return Some(i);
        }
        i += 1;
    }
    None
}

/// Where `key` goes among `keys`, which are in increasing order: after every key that
/// comes before it, and before the first one that does not.
fn insertion_point(keys: &Vec<Vec<char>>, key: &Vec<char>) -> (r: usize)
    ensures
        r <= keys@.len(),
        forall|i: int| 0 <= i < r ==> !name_before(key@, #[trigger] keys@[i]@),
        r < keys@.len() ==> name_before(key@, keys@[r as int]@),
{
    let mut pos: usize = 0;
    while pos < keys.len()
        invariant
            pos <= keys@.len(),
            forall|i: int| 0 <= i < pos ==> !name_before(key@, #[trigger] keys@[i]@),
        decreases keys@.len() - pos,
    {
        if chars_before(key, &keys[pos]) {
            return pos;
        }
        pos += 1;
    }
    pos
}

/// The records in increasing order of name.
pub fn sort_by_name(records: Vec<PkgInfo>) -> (r: Vec<PkgInfo>)
    requires
        names_unique(records_view(records@)),
    ensures
        names_sorted(records_view(r@)),
        records_map(records_view(r@)) == records_map(records_view(records@)),
{
    let ghost s = records_view(records@);
    let mut rest = records;
    let mut out: Vec<PkgInfo> = Vec::new();
    let mut keys: Vec<Vec<char>> = Vec::new();
    assert(s.subrange(0, s.len() as int) =~= s);
    assert(records_map(s).union_prefer_right(records_map(records_view(out@))) =~= records_map(s));
    while rest.len() > 0
        invariant
            names_unique(s),
            rest@.len() <= s.len(),
            records_view(rest@) == s.subrange(0, rest@.len() as int),
            names_sorted(records_view(out@)),
            keys@.len() == out@.len(),
            forall|j: int| 0 <= j < keys@.len() ==> #[trigger] keys@[j]@ == out@[j].name@,
            forall|a: int, b: int|
                0 <= a < out@.len() && 0 <= b < rest@.len() ==> #[trigger] out@[a].name@
                    != #[trigger] rest@[b].name@,
            records_map(s) == records_map(records_view(rest@)).union_prefer_right(
                records_map(records_view(out@)),
            ),
        decreases rest@.len(),
    {
        let ghost rest_before = records_view(rest@);
        let ghost out_before = records_view(out@);
        let ghost last = rest@.len() - 1;
        let ghost keys_before = keys@;
        assert forall|a: int| 0 <= a < out@.len() implies out_before[a].name != rest_before[last].name by {
            assert(out@[a].name@ != rest@[last].name@);
        }
        let x = rest.pop().unwrap();
        let ghost xv = x@;
        let key = chars_of(x.name.as_str());
        let pos = insertion_point(&keys, &key);
        proof {
            assert(xv == rest_before[last]);
            assert(records_view(rest@) =~= rest_before.drop_last());
            assert(records_view(rest@) == s.subrange(0, rest@.len() as int));
            assert forall|i: int| 0 <= i < pos implies name_before(
                #[trigger] out_before[i].name,
                xv.name,
            ) by {
                assert(keys@[i]@ == out@[i].name@);
                lemma_name_before_total(out_before[i].name, xv.name);
            }
            assert forall|i: int| pos <= i < out_before.len() implies name_before(
                xv.name,
                #[trigger] out_before[i].name,
            ) by {
                assert(keys@[pos as int]@ == out@[pos as int].name@);
                if i > pos {
                    lemma_name_before_transitive(xv.name, out_before[pos as int].name, out_before[i].name);
                }
            }
            lemma_sorted_insert(out_before, pos as int, xv);
            lemma_records_map_insert(out_before, pos as int, xv);
            lemma_records_map_keys(records_view(rest@), xv.name);
            lemma_records_map_keys(out_before, xv.name);
            assert(records_map(rest_before) == records_map(rest_before.drop_last()).insert(
                xv.name,
                xv,
            ));
            assert forall|b: int| 0 <= b < rest@.len() implies #[trigger] rest@[b].name@ != xv.name by {
                assert(records_view(rest@)[b] == rest@[b]@);
                assert(rest@[b]@ == s[b]);
                assert(xv == s[last]);
                assert(s[b].name != s[last].name);
            }
        }
        out.insert(pos, x);
        keys.insert(pos, key);
        proof {
            assert(records_view(out@) =~= out_before.insert(pos as int, xv));
            assert forall|j: int| 0 <= j < keys@.len() implies #[trigger] keys@[j]@ == out@[j].name@ by {
                if j > pos {
                    assert(keys@[j] == keys_before[j - 1]);
                } else if j < pos {
                    assert(keys@[j] == keys_before[j]);
                }
            }
            assert forall|a: int, b: int|
                0 <= a < out@.len() && 0 <= b < rest@.len() implies #[trigger] out@[a].name@
                    != #[trigger] rest@[b].name@ by {
                if a < pos {
                    assert(out@[a].name@ == out_before[a].name);
                    assert(rest@[b]@ == rest_before[b]);
                } else if a > pos {
                    assert(out@[a].name@ == out_before[a - 1].name);
                    assert(rest@[b]@ == rest_before[b]);
                }
            }
            assert(records_map(s) =~= records_map(records_view(rest@)).union_prefer_right(
                records_map(records_view(out@)),
            ));
        }
    }
    assert(records_view(rest@) =~= Seq::<RecordView>::empty());
    assert(records_map(s) =~= records_map(records_view(out@)));
    out
}

} // verus!
