//! The candidate selector.
//!
//! For a requested language the selector starts from the registry's curated
//! mapping (when one exists), appends the default model if it is not already
//! listed, stable-sorts the list by each candidate's priority (lower first;
//! unregistered identifiers sort last), and removes duplicate identifiers
//! keeping the first occurrence. The result is the ordered list of model
//! identifiers the fallback orchestrator will try.

use vstd::prelude::*;

use crate::models::{strings_view, ModelRegistry, ModelRegistryView};
use crate::strutil::str_eq;

verus! {

/// The view of an optional language hint.
pub open spec fn opt_str_view(l: Option<&str>) -> Option<Seq<char>> {
    match l {
        Some(s) => Some(s@),
        None => None,
    }
}

/// Stable insertion of `x` into `s`: `x` goes in front of the first entry
/// whose priority is strictly greater, so entries of equal priority keep
/// their relative order.
pub open spec fn insert_by_priority(
    reg: ModelRegistryView,
    x: Seq<char>,
    s: Seq<Seq<char>>,
) -> Seq<Seq<char>>
    decreases s.len(),
{
    if s.len() == 0 {
        seq![x]
    } else if reg.priority_of(s[0]) <= reg.priority_of(x) {
        seq![s[0]] + insert_by_priority(reg, x, s.drop_first())
    } else {
        seq![x] + s
    }
}

/// Stable insertion sort of candidate identifiers by priority.
pub open spec fn sort_by_priority(reg: ModelRegistryView, s: Seq<Seq<char>>) -> Seq<Seq<char>>
    decreases s.len(),
{
    if s.len() == 0 {
        Seq::empty()
    } else {
        insert_by_priority(reg, s.last(), sort_by_priority(reg, s.drop_last()))
    }
}

/// Removes duplicates, keeping the first occurrence of each identifier.
pub open spec fn dedup_keep_first(s: Seq<Seq<char>>) -> Seq<Seq<char>>
    decreases s.len(),
{
    if s.len() == 0 {
        Seq::empty()
    } else {
        let d = dedup_keep_first(s.drop_last());
        if d.contains(s.last()) {
            d
        } else {
            d.push(s.last())
        }
    }
}

/// The raw candidate list before sorting: the language mapping's entries in
/// stored order, with the default model appended when it is not already
/// present.
pub open spec fn base_candidates(reg: ModelRegistryView, lang: Option<Seq<char>>) -> Seq<
    Seq<char>,
> {
    let from_lang = match lang {
        Some(l) => match reg.mapping_for(l) {
            Some(ids) => ids,
            None => Seq::empty(),
        },
        None => Seq::empty(),
    };
    if from_lang.contains(reg.default_model) {
        from_lang
    } else {
        from_lang.push(reg.default_model)
    }
}

/// Whether the language hint has a curated mapping in the registry.
pub open spec fn has_mapping(reg: ModelRegistryView, lang: Option<Seq<char>>) -> bool {
    match lang {
        Some(l) => reg.mapping_for(l) is Some,
        None => false,
    }
}

/// What the selector returns: the base list, stable-sorted by priority,
/// with duplicates removed keeping the first occurrence. When no language
/// mapping exists and even the default model is unregistered, the
/// selection is empty — a configuration error the orchestrator reports,
/// not a silent attempt against a model nobody configured.
pub open spec fn spec_candidates(reg: ModelRegistryView, lang: Option<Seq<char>>) -> Seq<
    Seq<char>,
> {
    if !has_mapping(reg, lang) && !reg.has_model(reg.default_model) {
        Seq::empty()
    } else {
        dedup_keep_first(sort_by_priority(reg, base_candidates(reg, lang)))
    }
}

/// Whether some entry of `v` views as `x`.
fn ids_contain(v: &Vec<String>, x: &str) -> (r: bool)
    ensures
        r == strings_view(v@).contains(x@),
{
    let mut i: usize = 0;
    while i < v.len()
        invariant
            0 <= i <= v@.len(),
            forall|k: int| 0 <= k < i ==> v@[k]@ != x@,
        decreases v@.len() - i,
    {
        if str_eq(v[i].as_str(), x) {
            proof {
                assert(strings_view(v@)[i as int] == x@);
            }
            return true;
        }
        i = i + 1;
    }
    proof {
        assert forall|k: int| 0 <= k < strings_view(v@).len() implies strings_view(v@)[k] != x@
            by {
            assert(v@[k]@ != x@);
        }
    }
    false
}

impl ModelRegistry {
    /// The priority used to order candidate `id`: the configuration's own
    /// priority, or the maximum when the identifier is unregistered.
    pub fn candidate_priority(&self, id: &str) -> (p: u8)
        ensures
            p as int == self@.priority_of(id@),
    {
        match self.get_model(id) {
            Some(c) => c.priority,
            None => u8::MAX,
        }
    }
}

/// Index at which `x` (of priority `px`) is inserted into the sorted list:
/// the position of the first entry with a strictly greater priority.
fn insertion_point(registry: &ModelRegistry, sorted: &Vec<String>, px: u8) -> (k: usize)
    ensures
        0 <= k <= sorted@.len(),
        forall|t: int|
            0 <= t < k ==> registry@.priority_of(#[trigger] sorted@[t]@) <= px as int,
        k < sorted@.len() ==> registry@.priority_of(sorted@[k as int]@) > px as int,
{
    let mut k: usize = 0;
    while k < sorted.len()
        invariant
            0 <= k <= sorted@.len(),
            forall|t: int|
                0 <= t < k ==> registry@.priority_of(#[trigger] sorted@[t]@) <= px as int,
        decreases sorted@.len() - k,
    {
        let p = registry.candidate_priority(sorted[k].as_str());
        if p > px {
            return k;
        }
        k = k + 1;
    }
    k
}

/// Stable insertion lands exactly at the first position whose priority is
/// strictly greater than the inserted entry's.
proof fn lemma_insert_at(reg: ModelRegistryView, x: Seq<char>, s: Seq<Seq<char>>, k: int)
    requires
        0 <= k <= s.len(),
        forall|t: int| 0 <= t < k ==> reg.priority_of(#[trigger] s[t]) <= reg.priority_of(x),
        k < s.len() ==> reg.priority_of(s[k]) > reg.priority_of(x),
    ensures
        insert_by_priority(reg, x, s) == s.take(k) + seq![x] + s.skip(k),
    decreases k,
{
    if s.len() == 0 {
        assert(insert_by_priority(reg, x, s) =~= s.take(k) + seq![x] + s.skip(k));
    } else if k == 0 {
        assert(reg.priority_of(s[0]) > reg.priority_of(x));
        assert(s.take(0) =~= Seq::empty());
        assert(s.skip(0) =~= s);
        assert(insert_by_priority(reg, x, s) =~= s.take(0) + seq![x] + s.skip(0));
    } else {
        assert(reg.priority_of(s[0]) <= reg.priority_of(x));
        let rest = s.drop_first();
        assert forall|t: int|
            0 <= t < k - 1 implies reg.priority_of(#[trigger] rest[t]) <= reg.priority_of(x) by {
            assert(rest[t] == s[t + 1]);
        }
        assert(k - 1 < rest.len() ==> reg.priority_of(rest[k - 1]) > reg.priority_of(x));
        lemma_insert_at(reg, x, rest, k - 1);
        assert(seq![s[0]] + (rest.take(k - 1) + seq![x] + rest.skip(k - 1)) =~= s.take(k)
            + seq![x] + s.skip(k));
    }
}

impl ModelRegistry {
    /// The ordered, de-duplicated candidate identifiers for a language
    /// hint: mapping entries first (in stored order), the default model
    /// appended when missing, the whole list stable-sorted by priority and
    /// then de-duplicated keeping first occurrences.
    pub fn get_candidate_models(&self, language: Option<&str>) -> (r: Vec<String>)
        ensures
            strings_view(r@) == spec_candidates(self@, opt_str_view(language)),
    {
        let ghost lang_v = opt_str_view(language);
        // Step 1: the raw list.
        let mut base: Vec<String> = Vec::new();
        let mut mapping_found: bool = false;
        match language {
            Some(l) => {
                match self.get_mapping(l) {
                    Some(m) => {
                        base = crate::models::duplicate_strings(&m.model_ids);
                        mapping_found = true;
                    },
                    None => {},
                }
            },
            None => {},
        }
        proof {
            assert(mapping_found == has_mapping(self@, lang_v));
        }
        // With no mapping and no registered default model there is nothing
        // to try: the selection is empty.
        if !mapping_found {
            let default_registered: bool = match self.get_model(self.default_model.as_str()) {
                Some(_) => true,
                None => false,
            };
            if !default_registered {
                let empty: Vec<String> = Vec::new();
                proof {
                    assert(strings_view(empty@) =~= spec_candidates(self@, lang_v));
                }
                return empty;
            }
        }
        // Step 2: append the default model when it is not already listed.
        if !ids_contain(&base, self.default_model.as_str()) {
            base.push(self.default_model.clone());
        }
        proof {
            assert(strings_view(base@) =~= base_candidates(self@, lang_v));
        }
        let ghost base_v = strings_view(base@);
        // Step 3: stable insertion sort by priority.
        let mut sorted: Vec<String> = Vec::new();
        let mut i: usize = 0;
        while i < base.len()
            invariant
                0 <= i <= base@.len(),
                base_v == strings_view(base@),
                base_v == base_candidates(self@, lang_v),
                strings_view(sorted@) == sort_by_priority(self@, base_v.take(i as int)),
            decreases base@.len() - i,
        {
            let ghost prev = strings_view(sorted@);
            let x = base[i].clone();
            let px = self.candidate_priority(x.as_str());
            let k = insertion_point(self, &sorted, px);
            proof {
                assert(x@ == base_v[i as int]);
                assert forall|t: int|
                    0 <= t < k implies self@.priority_of(#[trigger] prev[t]) <= px as int by {
                    assert(prev[t] == sorted@[t]@);
                }
                assert(k < prev.len() ==> self@.priority_of(prev[k as int]) > px as int) by {
                    if (k as int) < prev.len() {
                        assert(prev[k as int] == sorted@[k as int]@);
                    }
                }
            }
            sorted.insert(k, x);
            proof {
                lemma_insert_at(self@, base_v[i as int], prev, k as int);
                assert(strings_view(sorted@) =~= prev.take(k as int) + seq![base_v[i as int]]
                    + prev.skip(k as int));
                assert(base_v.take(i + 1).drop_last() =~= base_v.take(i as int));
                assert(base_v.take(i + 1).last() == base_v[i as int]);
                assert(strings_view(sorted@) == sort_by_priority(self@, base_v.take(i + 1)));
            }
            i = i + 1;
        }
        proof {
            assert(base_v.take(base_v.len() as int) =~= base_v);
        }
        let ghost sorted_v = strings_view(sorted@);
        // Step 4: de-duplicate keeping first occurrences.
        let mut out: Vec<String> = Vec::new();
        let mut j: usize = 0;
        while j < sorted.len()
            invariant
                0 <= j <= sorted@.len(),
                sorted_v == strings_view(sorted@),
                strings_view(out@) == dedup_keep_first(sorted_v.take(j as int)),
            decreases sorted@.len() - j,
        {
            let ghost prev_out = strings_view(out@);
            if !ids_contain(&out, sorted[j].as_str()) {
                out.push(sorted[j].clone());
                proof {
                    assert(strings_view(out@) =~= prev_out.push(sorted_v[j as int]));
                }
            }
            proof {
                assert(sorted_v.take(j + 1).drop_last() =~= sorted_v.take(j as int));
                assert(sorted_v.take(j + 1).last() == sorted_v[j as int]);
            }
            j = j + 1;
        }
        proof {
            assert(sorted_v.take(sorted_v.len() as int) =~= sorted_v);
        }
        out
    }
}

/// Insertion neither adds nor loses identifiers.
proof fn lemma_insert_contains(reg: ModelRegistryView, x: Seq<char>, s: Seq<Seq<char>>, y: Seq<
    char,
>)
    ensures
        insert_by_priority(reg, x, s).contains(y) <==> (y == x || s.contains(y)),
    decreases s.len(),
{
    let r = insert_by_priority(reg, x, s);
    if s.len() == 0 {
        assert(r =~= seq![x]);
        assert(r.contains(y) <==> y == x) by {
            if r.contains(y) {
                let i = choose|i: int| 0 <= i < r.len() && r[i] == y;
                assert(r[i] == x);
            }
            if y == x {
                assert(r[0] == y);
            }
        }
        assert(!s.contains(y));
    } else if reg.priority_of(s[0]) <= reg.priority_of(x) {
        let rest = s.drop_first();
        lemma_insert_contains(reg, x, rest, y);
        let tail = insert_by_priority(reg, x, rest);
        assert(r == seq![s[0]] + tail);
        if r.contains(y) {
            let i = choose|i: int| 0 <= i < r.len() && r[i] == y;
            if i == 0 {
                assert(s[0] == y);
                assert(s.contains(y));
            } else {
                assert(tail[i - 1] == y);
                assert(tail.contains(y));
                if y != x {
                    let j = choose|j: int| 0 <= j < rest.len() && rest[j] == y;
                    assert(s[j + 1] == y);
                    assert(s.contains(y));
                }
            }
        }
        if y == x {
            assert(tail.contains(y));
            let j = choose|j: int| 0 <= j < tail.len() && tail[j] == y;
            assert(r[j + 1] == y);
            assert(r.contains(y));
        }
        if s.contains(y) {
            let i = choose|i: int| 0 <= i < s.len() && s[i] == y;
            if i == 0 {
                assert(r[0] == y);
            } else {
                assert(rest[i - 1] == y);
                assert(rest.contains(y));
                assert(tail.contains(y));
                let j = choose|j: int| 0 <= j < tail.len() && tail[j] == y;
                assert(r[j + 1] == y);
            }
            assert(r.contains(y));
        }
    } else {
        assert(r == seq![x] + s);
        if r.contains(y) {
            let i = choose|i: int| 0 <= i < r.len() && r[i] == y;
            if i == 0 {
                assert(y == x);
            } else {
                assert(s[i - 1] == y);
                assert(s.contains(y));
            }
        }
        if y == x {
            assert(r[0] == y);
            assert(r.contains(y));
        }
        if s.contains(y) {
            let i = choose|i: int| 0 <= i < s.len() && s[i] == y;
            assert(r[i + 1] == y);
            assert(r.contains(y));
        }
    }
}

/// Sorting neither adds nor loses identifiers.
proof fn lemma_sort_contains(reg: ModelRegistryView, s: Seq<Seq<char>>, y: Seq<char>)
    ensures
        sort_by_priority(reg, s).contains(y) <==> s.contains(y),
    decreases s.len(),
{
    if s.len() > 0 {
        let init = s.drop_last();
        lemma_sort_contains(reg, init, y);
        lemma_insert_contains(reg, s.last(), sort_by_priority(reg, init), y);
        assert((y == s.last() || init.contains(y)) <==> s.contains(y)) by {
            if y == s.last() {
                assert(s[s.len() - 1] == y);
            }
            if init.contains(y) {
                let i = choose|i: int| 0 <= i < init.len() && init[i] == y;
                assert(s[i] == y);
            }
            if s.contains(y) {
                let i = choose|i: int| 0 <= i < s.len() && s[i] == y;
                if i < s.len() - 1 {
                    assert(init[i] == y);
                }
            }
        }
    }
}

/// De-duplication neither adds nor loses identifiers.
proof fn lemma_dedup_contains(s: Seq<Seq<char>>, y: Seq<char>)
    ensures
        dedup_keep_first(s).contains(y) <==> s.contains(y),
    decreases s.len(),
{
    if s.len() > 0 {
        let init = s.drop_last();
        lemma_dedup_contains(init, y);
        let d = dedup_keep_first(init);
        let r = dedup_keep_first(s);
        assert((y == s.last() || init.contains(y)) <==> s.contains(y)) by {
            if y == s.last() {
                assert(s[s.len() - 1] == y);
            }
            if init.contains(y) {
                let i = choose|i: int| 0 <= i < init.len() && init[i] == y;
                assert(s[i] == y);
            }
            if s.contains(y) {
                let i = choose|i: int| 0 <= i < s.len() && s[i] == y;
                if i < s.len() - 1 {
                    assert(init[i] == y);
                }
            }
        }
        if d.contains(s.last()) {
            assert(r == d);
        } else {
            assert(r == d.push(s.last()));
            if r.contains(y) {
                let i = choose|i: int| 0 <= i < r.len() && r[i] == y;
                if i < d.len() {
                    assert(d[i] == y);
                    assert(d.contains(y));
                } else {
                    assert(y == s.last());
                }
            }
            if d.contains(y) {
                let i = choose|i: int| 0 <= i < d.len() && d[i] == y;
                assert(r[i] == y);
                assert(r.contains(y));
            }
            if y == s.last() {
                assert(r[d.len() as int] == y);
                assert(r.contains(y));
            }
        }
    }
}

/// The de-duplicated list has no repeated identifier.
proof fn lemma_dedup_distinct(s: Seq<Seq<char>>)
    ensures
        forall|i: int, j: int|
            0 <= i < j < dedup_keep_first(s).len() ==> dedup_keep_first(s)[i]
                != dedup_keep_first(s)[j],
    decreases s.len(),
{
    if s.len() > 0 {
        let init = s.drop_last();
        lemma_dedup_distinct(init);
        let d = dedup_keep_first(init);
        let r = dedup_keep_first(s);
        if !d.contains(s.last()) {
            assert forall|i: int, j: int| 0 <= i < j < r.len() implies r[i] != r[j] by {
                if j < d.len() {
                    assert(d[i] != d[j]);
                } else {
                    assert(r[j] == s.last());
                    assert(r[i] == d[i]);
                    if d[i] == s.last() {
                        assert(d.contains(s.last()));
                    }
                }
            }
        }
    }
}

/// **Ordering law.** For any registry and language whose raw candidate
/// list is `[a, b, c]` with priorities 2, 1 and 1 and distinct
/// identifiers, selection yields `[b, c, a]`: ascending priority, with the
/// equal-priority pair `b`, `c` kept in its stored order.
pub proof fn lemma_priority_ordering(
    reg: ModelRegistryView,
    lang: Seq<char>,
    a: Seq<char>,
    b: Seq<char>,
    c: Seq<char>,
)
    requires
        reg.mapping_for(lang) == Some(seq![a, b, c]),
        seq![a, b, c].contains(reg.default_model),
        a != b,
        a != c,
        b != c,
        reg.priority_of(a) == 2,
        reg.priority_of(b) == 1,
        reg.priority_of(c) == 1,
    ensures
        spec_candidates(reg, Some(lang)) == seq![b, c, a],
{
    let s3 = seq![a, b, c];
    let s2 = seq![a, b];
    let s1 = seq![a];
    let s0 = Seq::<Seq<char>>::empty();
    assert(base_candidates(reg, Some(lang)) == s3);
    assert(s3.drop_last() =~= s2);
    assert(s3.last() == c);
    assert(s2.drop_last() =~= s1);
    assert(s2.last() == b);
    assert(s1.drop_last() =~= s0);
    assert(s1.last() == a);
    assert(sort_by_priority(reg, s0) == s0);
    assert(sort_by_priority(reg, s1) == insert_by_priority(reg, a, s0));
    assert(insert_by_priority(reg, a, s0) =~= seq![a]);
    assert(sort_by_priority(reg, s2) == insert_by_priority(reg, b, seq![a]));
    assert(insert_by_priority(reg, b, seq![a]) =~= seq![b] + seq![a]);
    assert(seq![b] + seq![a] =~= seq![b, a]);
    assert(sort_by_priority(reg, s3) == insert_by_priority(reg, c, seq![b, a]));
    assert(seq![b, a].drop_first() =~= seq![a]);
    assert(insert_by_priority(reg, c, seq![a]) =~= seq![c] + seq![a]);
    assert(insert_by_priority(reg, c, seq![b, a]) == seq![b] + insert_by_priority(
        reg,
        c,
        seq![a],
    ));
    assert(seq![b] + (seq![c] + seq![a]) =~= seq![b, c, a]);
    assert(sort_by_priority(reg, s3) == seq![b, c, a]);
    let t3 = seq![b, c, a];
    let t2 = seq![b, c];
    let t1 = seq![b];
    assert(t3.drop_last() =~= t2);
    assert(t3.last() == a);
    assert(t2.drop_last() =~= t1);
    assert(t2.last() == c);
    assert(t1.drop_last() =~= s0);
    assert(t1.last() == b);
    assert(dedup_keep_first(t1) == s0.push(b)) by {
        assert(dedup_keep_first(s0) == s0);
        assert(!s0.contains(b));
    }
    assert(s0.push(b) =~= seq![b]);
    assert(!seq![b].contains(c)) by {
        if seq![b].contains(c) {
            let i = choose|i: int| 0 <= i < 1 && seq![b][i] == c;
            assert(seq![b][i] == b);
        }
    }
    assert(dedup_keep_first(t2) == seq![b].push(c));
    assert(seq![b].push(c) =~= t2);
    assert(!t2.contains(a)) by {
        if t2.contains(a) {
            let i = choose|i: int| 0 <= i < 2 && t2[i] == a;
        }
    }
    assert(dedup_keep_first(t3) == t2.push(a));
    assert(t2.push(a) =~= t3);
    assert(spec_candidates(reg, Some(lang)) == t3);
}

/// **No duplicate default law.** When the default model already appears in
/// the language mapping, selection is exactly the sorted, de-duplicated
/// mapping list: the default is not appended again at the end, it is still
/// selected, and it appears exactly once because the selection holds no
/// repeated identifier at all.
pub proof fn lemma_default_not_duplicated(
    reg: ModelRegistryView,
    lang: Seq<char>,
    ids: Seq<Seq<char>>,
)
    requires
        reg.mapping_for(lang) == Some(ids),
        ids.contains(reg.default_model),
    ensures
        spec_candidates(reg, Some(lang)) == dedup_keep_first(sort_by_priority(reg, ids)),
        spec_candidates(reg, Some(lang)).contains(reg.default_model),
        forall|i: int, j: int|
            0 <= i < j < spec_candidates(reg, Some(lang)).len() ==> spec_candidates(
                reg,
                Some(lang),
            )[i] != spec_candidates(reg, Some(lang))[j],
{
    assert(base_candidates(reg, Some(lang)) == ids);
    lemma_sort_contains(reg, ids, reg.default_model);
    lemma_dedup_contains(sort_by_priority(reg, ids), reg.default_model);
    lemma_dedup_distinct(sort_by_priority(reg, ids));
}

} // verus!
