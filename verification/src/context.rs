//! The context assembler: deserializes every source in the order given,
//! requires each top-level value to be a mapping, and merges the mappings
//! left to right into one flat rendering context. The merge is shallow:
//! on a key collision the later source replaces the earlier value wholesale;
//! nested mappings are never deep-merged.

use vstd::prelude::*;
use crate::error::Error;
use crate::format::FileFormat;
use crate::parse::{canon_of, deserialize, doc_of, from_canonical, object_from_pairs};
use crate::text::str_eq;
use crate::value::{unique_keys, CanonicalValue};

verus! {

/// Inserts `es` into `m` front to back; a later entry overwrites an earlier
/// one of the same key.
pub open spec fn merge_entries(
    m: Map<Seq<char>, CanonicalValue>,
    es: Seq<(String, CanonicalValue)>,
) -> Map<Seq<char>, CanonicalValue>
    decreases es.len(),
{
    if es.len() == 0 {
        m
    } else {
        merge_entries(m.insert(es[0].0@, es[0].1), es.drop_first())
    }
}

/// The map that a run of mapping entries denotes.
pub open spec fn entries_map(es: Seq<(String, CanonicalValue)>) -> Map<Seq<char>, CanonicalValue> {
    merge_entries(Map::empty(), es)
}

/// What deserializing one source yields.
pub open spec fn source_doc(s: (FileFormat, String)) -> Result<CanonicalValue, Seq<char>> {
    doc_of(s.0, s.1@)
}

/// A source is acceptable when it parses and its top level is a mapping.
pub open spec fn source_ok(s: (FileFormat, String)) -> bool {
    source_doc(s) is Ok && source_doc(s)->Ok_0 is Mapping
}

/// The top-level entries of an acceptable source.
pub open spec fn source_entries(s: (FileFormat, String)) -> Seq<(String, CanonicalValue)> {
    source_doc(s)->Ok_0->Mapping_0@
}

/// Merges the sources' top-level mappings into `m`, in source order.
pub open spec fn merge_sources(
    m: Map<Seq<char>, CanonicalValue>,
    srcs: Seq<(FileFormat, String)>,
) -> Map<Seq<char>, CanonicalValue>
    decreases srcs.len(),
{
    if srcs.len() == 0 {
        m
    } else {
        merge_sources(merge_entries(m, source_entries(srcs[0])), srcs.drop_first())
    }
}

/// The context that a source list denotes, assuming every source is
/// acceptable.
pub open spec fn merged_context(srcs: Seq<(FileFormat, String)>) -> Map<Seq<char>, CanonicalValue> {
    merge_sources(Map::empty(), srcs)
}

/// Entry `i` of `es` carries key `k`.
pub open spec fn key_at(es: Seq<(String, CanonicalValue)>, k: Seq<char>, i: int) -> bool {
    0 <= i < es.len() && es[i].0@ == k
}

/// Some entry of `es` carries key `k`.
pub open spec fn has_key(es: Seq<(String, CanonicalValue)>, k: Seq<char>) -> bool {
    exists|i: int| key_at(es, k, i)
}

/// How `merge_entries` reads off a run of entries with pairwise distinct
/// keys: its domain gains exactly the run's keys, every entry's key maps to
/// that entry's value, and other keys keep their value from `m`.
pub proof fn lemma_merge_entries_props(
    m: Map<Seq<char>, CanonicalValue>,
    es: Seq<(String, CanonicalValue)>,
)
    requires
        unique_keys(es),
    ensures
        forall|k: Seq<char>|
            #[trigger] merge_entries(m, es).dom().contains(k) <==> (m.dom().contains(k) || has_key(
                es,
                k,
            )),
        forall|i: int|
            0 <= i < es.len() ==> merge_entries(m, es)[(#[trigger] es[i]).0@] == es[i].1,
        forall|k: Seq<char>|
            m.dom().contains(k) && !has_key(es, k) ==> #[trigger] merge_entries(m, es)[k] == m[k],
    decreases es.len(),
{
    if es.len() > 0 {
        let head = es[0];
        let rest = es.drop_first();
        let m2 = m.insert(head.0@, head.1);
        assert forall|i: int, j: int| 0 <= i < j < rest.len() implies rest[i].0@
            != rest[j].0@ by {
            assert(es[i + 1].0@ != es[j + 1].0@);
        }
        lemma_merge_entries_props(m2, rest);
        assert(merge_entries(m, es) == merge_entries(m2, rest));
        assert(!has_key(rest, head.0@)) by {
            if has_key(rest, head.0@) {
                let i = choose|i: int| key_at(rest, head.0@, i);
                assert(es[0].0@ != es[i + 1].0@);
            }
        }
        assert forall|k: Seq<char>|
            #[trigger] merge_entries(m, es).dom().contains(k) <==> (m.dom().contains(k) || has_key(
                es,
                k,
            )) by {
            assert(merge_entries(m2, rest).dom().contains(k) <==> (m2.dom().contains(k) || has_key(
                rest,
                k,
            )));
            if has_key(rest, k) {
                let i = choose|i: int| key_at(rest, k, i);
                assert(key_at(es, k, i + 1));
            }
            if k == head.0@ {
                assert(key_at(es, k, 0));
            }
            if has_key(es, k) && k != head.0@ {
                let i = choose|i: int| key_at(es, k, i);
                assert(i != 0);
                assert(key_at(rest, k, i - 1));
            }
        }
        assert forall|i: int| 0 <= i < es.len() implies merge_entries(m, es)[(
        #[trigger] es[i]).0@] == es[i].1 by {
            if i == 0 {
                assert(merge_entries(m2, rest)[head.0@] == m2[head.0@]);
            } else {
                assert(rest[i - 1] == es[i]);
                assert(merge_entries(m2, rest)[rest[i - 1].0@] == rest[i - 1].1);
            }
        }
        assert forall|k: Seq<char>|
            m.dom().contains(k) && !has_key(es, k) implies #[trigger] merge_entries(m, es)[k]
            == m[k] by {
            assert(!has_key(rest, k)) by {
                if has_key(rest, k) {
                    let i = choose|i: int| key_at(rest, k, i);
                    assert(key_at(es, k, i + 1));
                }
            }
            assert(k != head.0@) by {
                if k == head.0@ {
                    assert(key_at(es, k, 0));
                }
            }
            assert(m2.dom().contains(k));
            assert(merge_entries(m2, rest)[k] == m2[k]);
        }
    }
}

/// Two runs of entries with the same key views and values denote the same
/// map.
proof fn lemma_merge_entries_congruence(
    m: Map<Seq<char>, CanonicalValue>,
    a: Seq<(String, CanonicalValue)>,
    b: Seq<(String, CanonicalValue)>,
)
    requires
        a.len() == b.len(),
        forall|i: int| 0 <= i < a.len() ==> (#[trigger] a[i]).0@ == b[i].0@ && a[i].1 == b[i].1,
    ensures
        merge_entries(m, a) == merge_entries(m, b),
    decreases a.len(),
{
    if a.len() > 0 {
        assert(a[0].0@ == b[0].0@ && a[0].1 == b[0].1);
        assert forall|i: int|
            0 <= i < a.drop_first().len() implies (#[trigger] a.drop_first()[i]).0@
            == b.drop_first()[i].0@ && a.drop_first()[i].1 == b.drop_first()[i].1 by {
            assert(a[i + 1].0@ == b[i + 1].0@ && a[i + 1].1 == b[i + 1].1);
        }
        lemma_merge_entries_congruence(m.insert(a[0].0@, a[0].1), a.drop_first(), b.drop_first());
    }
}

/// Appending one entry inserts its key last.
pub proof fn lemma_merge_entries_push(
    m: Map<Seq<char>, CanonicalValue>,
    es: Seq<(String, CanonicalValue)>,
    x: (String, CanonicalValue),
)
    ensures
        merge_entries(m, es.push(x)) == merge_entries(m, es).insert(x.0@, x.1),
    decreases es.len(),
{
    reveal_with_fuel(merge_entries, 2);
    if es.len() == 0 {
        assert(es.push(x)[0] == x);
        assert(es.push(x).drop_first() =~= Seq::<(String, CanonicalValue)>::empty());
    } else {
        assert(es.push(x)[0] == es[0]);
        assert(es.push(x).drop_first() =~= es.drop_first().push(x));
        lemma_merge_entries_push(m.insert(es[0].0@, es[0].1), es.drop_first(), x);
    }
}

/// Appending one source merges its entries last.
pub proof fn lemma_merge_sources_push(
    m: Map<Seq<char>, CanonicalValue>,
    srcs: Seq<(FileFormat, String)>,
    s: (FileFormat, String),
)
    ensures
        merge_sources(m, srcs.push(s)) == merge_entries(merge_sources(m, srcs), source_entries(s)),
    decreases srcs.len(),
{
    reveal_with_fuel(merge_sources, 2);
    if srcs.len() == 0 {
        assert(srcs.push(s)[0] == s);
        assert(srcs.push(s).drop_first() =~= Seq::<(FileFormat, String)>::empty());
    } else {
        assert(srcs.push(s)[0] == srcs[0]);
        assert(srcs.push(s).drop_first() =~= srcs.drop_first().push(s));
        lemma_merge_sources_push(merge_entries(m, source_entries(srcs[0])), srcs.drop_first(), s);
    }
}

/// The context that exactly two sources denote.
pub open spec fn merged_pair(
    first: (FileFormat, String),
    second: (FileFormat, String),
) -> Map<Seq<char>, CanonicalValue> {
    merged_context(seq![first, second])
}

/// Law (last writer wins): merging two acceptable sources, any key that the
/// second source defines takes the second source's value, whatever the first
/// defined for it.
pub proof fn lemma_last_writer_wins(
    first: (FileFormat, String),
    second: (FileFormat, String),
    k: Seq<char>,
    i: int,
)
    requires
        source_ok(first),
        source_ok(second),
        unique_keys(source_entries(second)),
        key_at(source_entries(second), k, i),
    ensures
        merged_pair(first, second).dom().contains(k),
        merged_pair(first, second)[k] == source_entries(second)[i].1,
{
    lemma_two_sources_shape(first, second);
    lemma_merge_entries_props(entries_map(source_entries(first)), source_entries(second));
}

/// Law (disjoint union): merging two acceptable sources with no key in
/// common yields the union of their key sets, each key keeping its original
/// value.
pub proof fn lemma_merge_disjoint(first: (FileFormat, String), second: (FileFormat, String))
    requires
        source_ok(first),
        source_ok(second),
        unique_keys(source_entries(first)),
        unique_keys(source_entries(second)),
        forall|k: Seq<char>|
            !(#[trigger] has_key(source_entries(first), k) && has_key(source_entries(second), k)),
    ensures
        forall|k: Seq<char>|
            #[trigger] merged_pair(first, second).dom().contains(k) <==> (has_key(
                source_entries(first),
                k,
            ) || has_key(source_entries(second), k)),
        forall|i: int|
            0 <= i < source_entries(first).len() ==> merged_pair(first, second)[(
            #[trigger] source_entries(first)[i]).0@] == source_entries(first)[i].1,
        forall|i: int|
            0 <= i < source_entries(second).len() ==> merged_pair(first, second)[(
            #[trigger] source_entries(second)[i]).0@] == source_entries(second)[i].1,
{
    let ea = source_entries(first);
    let eb = source_entries(second);
    lemma_two_sources_shape(first, second);
    lemma_merge_entries_props(Map::empty(), ea);
    lemma_merge_entries_props(entries_map(ea), eb);
    assert forall|i: int| 0 <= i < ea.len() implies merged_pair(first, second)[(
    #[trigger] ea[i]).0@] == ea[i].1 by {
        assert(key_at(ea, ea[i].0@, i));
        assert(has_key(ea, ea[i].0@));
        assert(!has_key(eb, ea[i].0@));
        assert(entries_map(ea).dom().contains(ea[i].0@));
    }
}

/// Law (empty source list): no sources denote the empty context.
pub proof fn lemma_empty_context()
    ensures
        merged_context(Seq::<(FileFormat, String)>::empty()) == Map::<
            Seq<char>,
            CanonicalValue,
        >::empty(),
{
}

/// The context of exactly two sources, written out.
proof fn lemma_two_sources_shape(first: (FileFormat, String), second: (FileFormat, String))
    ensures
        merged_context(seq![first, second]) == merge_entries(
            entries_map(source_entries(first)),
            source_entries(second),
        ),
{
    reveal_with_fuel(merge_sources, 3);
    let srcs = seq![first, second];
    assert(srcs.drop_first() =~= seq![second]);
    assert(srcs.drop_first().drop_first() =~= Seq::<(FileFormat, String)>::empty());
    assert(srcs[0] == first);
    assert(srcs.drop_first()[0] == second);
}

/// The flat rendering context: top-level field names bound to canonical
/// values.
#[derive(Debug)]
pub struct Context {
    entries: Vec<(String, CanonicalValue)>,
}

impl View for Context {
    type V = Map<Seq<char>, CanonicalValue>;

    closed spec fn view(&self) -> Map<Seq<char>, CanonicalValue> {
        entries_map(self.entries@)
    }
}

impl Context {
    #[verifier::type_invariant]
    spec fn type_inv(self) -> bool {
        &&& unique_keys(self.entries@)
        &&& forall|i: int| 0 <= i < self.entries@.len() ==> (#[trigger] self.entries@[i]).1.wf()
    }

    /// The empty context.
    pub fn new() -> (r: Context)
        ensures
            r@ == Map::<Seq<char>, CanonicalValue>::empty(),
    {
        Context { entries: Vec::new() }
    }

    /// True exactly on the empty context.
    pub fn is_empty(&self) -> (r: bool)
        ensures
            r == (self@ == Map::<Seq<char>, CanonicalValue>::empty()),
    {
        proof {
            use_type_invariant(self);
            lemma_merge_entries_props(Map::empty(), self.entries@);
            if self.entries@.len() > 0 {
                assert(key_at(self.entries@, self.entries@[0].0@, 0));
                assert(has_key(self.entries@, self.entries@[0].0@));
                assert(entries_map(self.entries@).dom().contains(self.entries@[0].0@));
                assert(!Map::<Seq<char>, CanonicalValue>::empty().dom().contains(
                    self.entries@[0].0@,
                ));
            } else {
                assert(self@ =~= Map::<Seq<char>, CanonicalValue>::empty());
            }
        }
        self.entries.len() == 0
    }

    /// Looks a top-level field up.
    pub fn get(&self, key: &str) -> (r: Option<&CanonicalValue>)
        ensures
            r is Some <==> self@.dom().contains(key@),
            r matches Some(v) ==> self@[key@] == *v,
    {
        let n = self.entries.len();
        let mut i: usize = 0;
        while i < n
            invariant
                0 <= i <= n,
                n == self.entries@.len(),
                forall|j: int| 0 <= j < i ==> (#[trigger] self.entries@[j]).0@ != key@,
            decreases n - i,
        {
            if str_eq(self.entries[i].0.as_str(), key) {
                proof {
                    use_type_invariant(self);
                    lemma_merge_entries_props(Map::empty(), self.entries@);
                    assert(key_at(self.entries@, key@, i as int));
                    assert(has_key(self.entries@, key@));
                    assert(entries_map(self.entries@).dom().contains(key@));
                    assert(entries_map(self.entries@)[self.entries@[i as int].0@]
                        == self.entries@[i as int].1);
                }
                return Some(&self.entries[i].1);
            }
            i = i + 1;
        }
        proof {
            use_type_invariant(self);
            lemma_merge_entries_props(Map::empty(), self.entries@);
            if has_key(self.entries@, key@) {
                let j = choose|j: int| key_at(self.entries@, key@, j);
                assert(self.entries@[j].0@ != key@);
            }
            assert(!entries_map(self.entries@).dom().contains(key@));
        }
        None
    }

    /// The context as one JSON object value, for handing to the template
    /// engine: the object's canonical reading denotes exactly this context's
    /// map.
    pub(crate) fn to_object(&self) -> (r: serde_json::Value)
        ensures
            canon_of(r) is Mapping,
            entries_map(canon_of(r)->Mapping_0@) == self@,
    {
        let mut pairs: Vec<(String, serde_json::Value)> = Vec::new();
        let n = self.entries.len();
        let mut i: usize = 0;
        while i < n
            invariant
                0 <= i <= n,
                n == self.entries@.len(),
                pairs@.len() == i,
                forall|j: int|
                    0 <= j < i ==> (#[trigger] pairs@[j]).0@ == self.entries@[j].0@ && canon_of(
                        pairs@[j].1,
                    ) == self.entries@[j].1,
            decreases n - i,
        {
            proof {
                use_type_invariant(self);
            }
            let e = &self.entries[i];
            let v = from_canonical(&e.1);
            pairs.push((e.0.clone(), v));
            i = i + 1;
        }
        proof {
            use_type_invariant(self);
            assert forall|p: int, q: int| 0 <= p < q < pairs@.len() implies pairs@[p].0@
                != pairs@[q].0@ by {
                assert(self.entries@[p].0@ != self.entries@[q].0@);
            }
        }
        let obj = object_from_pairs(pairs);
        proof {
            use_type_invariant(self);
            let es = canon_of(obj)->Mapping_0;
            assert forall|j: int| 0 <= j < es@.len() implies (#[trigger] es@[j]).0@
                == self.entries@[j].0@ && es@[j].1 == self.entries@[j].1 by {
                assert(es@[j].0@ == pairs@[j].0@ && es@[j].1 == canon_of(pairs@[j].1));
            }
            lemma_merge_entries_congruence(Map::empty(), es@, self.entries@);
        }
        obj
    }

    /// Binds `key` to `value`, replacing any earlier binding of the same
    /// key.
    fn insert_entry(&mut self, key: String, value: CanonicalValue)
        requires
            value.wf(),
        ensures
            final(self)@ == old(self)@.insert(key@, value),
    {
        proof {
            use_type_invariant(&*self);
        }
        let ghost es0 = self.entries@;
        let n = self.entries.len();
        let mut j: usize = 0;
        while j < n && !str_eq(self.entries[j].0.as_str(), key.as_str())
            invariant
                0 <= j <= n,
                n == self.entries@.len(),
                self.entries@ == es0,
                forall|m: int| 0 <= m < j ==> (#[trigger] es0[m]).0@ != key@,
            decreases n - j,
        {
            j = j + 1;
        }
        let mut work: Vec<(String, CanonicalValue)> = Vec::new();
        core::mem::swap(&mut work, &mut self.entries);
        if j < n {
            work.remove(j);
        }
        let ghost es1 = work@;
        work.push((key, value));
        let ghost es2 = work@;
        self.entries = work;
        proof {
            assert(unique_keys(es0));
            if j < n {
                assert(es0[j as int].0@ == key@);
                assert(es1 == es0.subrange(0, j as int) + es0.subrange(j as int + 1, n as int));
                assert forall|m: int| 0 <= m < es1.len() implies es1[m] == (if m < j {
                    es0[m]
                } else {
                    es0[m + 1]
                }) by {}
            }
            // After the removal (or directly), no entry of es1 carries `key`.
            assert forall|m: int| 0 <= m < es1.len() implies (#[trigger] es1[m]).0@ != key@ by {
                if j < n {
                    if m < j {
                        assert(es1[m] == es0[m]);
                    } else {
                        assert(es1[m] == es0[m + 1]);
                        assert(es0[j as int].0@ == es0[m + 1].0@ ==> false);
                    }
                } else {
                    assert(es1[m] == es0[m]);
                }
            }
            // es1 keeps exactly the other keys of es0, with their values.
            assert forall|k: Seq<char>| #[trigger] has_key(es1, k) implies has_key(es0, k) && k
                != key@ by {
                let m = choose|m: int| key_at(es1, k, m);
                if j < n {
                    if m < j {
                        assert(key_at(es0, k, m));
                    } else {
                        assert(key_at(es0, k, m + 1));
                    }
                } else {
                    assert(key_at(es0, k, m));
                }
            }
            assert forall|k: Seq<char>| has_key(es0, k) && k != key@ implies has_key(es1, k) by {
                let m = choose|m: int| key_at(es0, k, m);
                if j < n {
                    if m < j {
                        assert(key_at(es1, k, m));
                    } else {
                        assert(m != j);
                        assert(es1[m - 1] == es0[m]);
                        assert(key_at(es1, k, m - 1));
                    }
                } else {
                    assert(key_at(es1, k, m));
                }
            }
            assert(unique_keys(es1)) by {
                assert forall|p: int, q: int| 0 <= p < q < es1.len() implies es1[p].0@
                    != es1[q].0@ by {
                    if j < n {
                        let p0: int = if p < j { p } else { p + 1 };
                        let q0: int = if q < j { q } else { q + 1 };
                        assert(es1[p] == es0[p0]);
                        assert(es1[q] == es0[q0]);
                        assert(es0[p0].0@ != es0[q0].0@);
                    }
                }
            }
            assert(unique_keys(es2)) by {
                assert forall|p: int, q: int| 0 <= p < q < es2.len() implies es2[p].0@
                    != es2[q].0@ by {
                    if q < es2.len() - 1 {
                        assert(es2[p] == es1[p]);
                        assert(es2[q] == es1[q]);
                    } else {
                        assert(es2[q] == (key, value));
                        assert(es2[p] == es1[p]);
                        assert(es1[p].0@ != key@);
                    }
                }
            }
            lemma_merge_entries_props(Map::empty(), es0);
            lemma_merge_entries_props(Map::empty(), es1);
            lemma_merge_entries_push(Map::empty(), es1, (key, value));
            // es1 denotes es0 with `key` dropped; pushing the new entry
            // makes the insert.
            assert(entries_map(es2) =~= entries_map(es0).insert(key@, value)) by {
                assert(entries_map(es2) == entries_map(es1).insert(key@, value));
                assert forall|k: Seq<char>|
                    #[trigger] entries_map(es0).insert(key@, value).dom().contains(k)
                        == entries_map(es1).insert(key@, value).dom().contains(k) by {
                    if k != key@ {
                        if has_key(es0, k) {
                            assert(has_key(es1, k) <==> (has_key(es0, k) && k != key@));
                        }
                    }
                }
                assert forall|k: Seq<char>| entries_map(es1).insert(
                    key@,
                    value,
                ).dom().contains(k) implies entries_map(es1).insert(key@, value)[k]
                    == entries_map(es0).insert(key@, value)[k] by {
                    if k != key@ {
                        assert(has_key(es1, k));
                        let m = choose|m: int| key_at(es1, k, m);
                        assert(entries_map(es1)[es1[m].0@] == es1[m].1);
                        let m0: int = if j < n && m >= j { m + 1 } else { m };
                        assert(es1[m] == es0[m0]);
                        assert(key_at(es0, k, m0));
                        assert(entries_map(es0)[es0[m0].0@] == es0[m0].1);
                    }
                }
            }
        }
    }

    /// Merges one source's top-level entries into the context, front to
    /// back; a later entry overwrites an earlier binding of the same key.
    fn merge_in(&mut self, entries: Vec<(String, CanonicalValue)>)
        requires
            unique_keys(entries@),
            forall|i: int| 0 <= i < entries@.len() ==> (#[trigger] entries@[i]).1.wf(),
        ensures
            final(self)@ == merge_entries(old(self)@, entries@),
    {
        let ghost g = entries@;
        let mut rest = entries;
        let total = rest.len();
        let mut count: usize = 0;
        while rest.len() > 0
            invariant
                count + rest@.len() == g.len(),
                g.len() == total as int,
                rest@ == g.skip(count as int),
                self@ == merge_entries(old(self)@, g.take(count as int)),
                forall|i: int| 0 <= i < g.len() ==> (#[trigger] g[i]).1.wf(),
            decreases rest@.len(),
        {
            let (k, v) = rest.remove(0);
            proof {
                assert(g.skip(count as int)[0] == g[count as int]);
                assert(rest@ =~= g.skip(count as int + 1));
            }
            self.insert_entry(k, v);
            count = count + 1;
            proof {
                assert(g.take(count as int) =~= g.take(count as int - 1).push(
                    g[count as int - 1],
                ));
                lemma_merge_entries_push(old(self)@, g.take(count as int - 1), g[count as int - 1]);
            }
        }
        proof {
            assert(g.take(count as int) =~= g);
        }
    }

    /// Assembles the rendering context: deserializes every source, in the
    /// order given, requires each top-level value to be a mapping, and
    /// merges the mappings left to right (last source wins on a key
    /// collision). An empty source list yields the empty context.
    pub fn assemble(sources: &Vec<(FileFormat, String)>) -> (r: Result<Context, Error>)
        ensures
            r is Ok <==> (forall|i: int| 0 <= i < sources@.len() ==> source_ok(#[trigger] sources@[i])),
            r matches Ok(c) ==> c@ == merged_context(sources@),
            r matches Err(e) ==> exists|i: int|
                0 <= i < sources@.len() && !source_ok(#[trigger] sources@[i]) && (forall|j: int|
                    0 <= j < i ==> source_ok(#[trigger] sources@[j])) && source_error(
                    e,
                    sources@[i],
                    i,
                ),
    {
        let mut ctx = Context::new();
        let n = sources.len();
        let mut i: usize = 0;
        while i < n
            invariant
                0 <= i <= n,
                n == sources@.len(),
                forall|j: int| 0 <= j < i ==> source_ok(#[trigger] sources@[j]),
                ctx@ == merge_sources(Map::empty(), sources@.take(i as int)),
            decreases n - i,
        {
            let source = &sources[i];
            match deserialize(source.0, source.1.as_str()) {
                Ok(doc) => {
                    match doc {
                        CanonicalValue::Mapping(entries) => {
                            proof {
                                assert(CanonicalValue::Mapping(entries).wf());
                            }
                            ctx.merge_in(entries);
                        },
                        _ => {
                            proof {
                                assert(!source_ok(sources@[i as int]));
                                assert(source_error(
                                    Error::ContextShape { index: i },
                                    sources@[i as int],
                                    i as int,
                                ));
                            }
                            return Err(Error::ContextShape { index: i });
                        },
                    }
                },
                Err(e) => {
                    proof {
                        assert(!source_ok(sources@[i as int]));
                        assert(source_error(e, sources@[i as int], i as int));
                    }
                    return Err(e);
                },
            }
            i = i + 1;
            proof {
                assert(sources@.take(i as int) =~= sources@.take(i as int - 1).push(
                    sources@[i as int - 1],
                ));
                lemma_merge_sources_push(
                    Map::empty(),
                    sources@.take(i as int - 1),
                    sources@[i as int - 1],
                );
            }
        }
        proof {
            assert(sources@.take(n as int) =~= sources@);
        }
        Ok(ctx)
    }
}

/// The exact error that a failing source produces: the parser's diagnostic
/// wrapped as a deserialization error, or the index of a source whose top
/// level is not a mapping.
pub open spec fn source_error(e: Error, s: (FileFormat, String), i: int) -> bool {
    if source_doc(s) is Err {
        &&& e matches Error::Deserialization { format, message }
        &&& format == s.0
        &&& message@ == source_doc(s)->Err_0
    } else {
        e matches Error::ContextShape { index } && index == i
    }
}

} // verus!
