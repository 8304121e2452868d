//! The declarative type-mapping table: source type name to destination type,
//! with the rules about whether the destination type carries length,
//! precision and scale.

use vstd::prelude::*;
use vstd::string::*;
use crate::strings::str_eq;

verus! {

/// How one source column type translates to the destination engine.
#[derive(Debug, Clone)]
pub struct Mapping {
    pub to_type: String,
    /// When false, the destination type never carries length, precision or
    /// scale.
    pub type_parameters: bool,
    pub numeric_precision: Option<u8>,
    pub numeric_scale: Option<u32>,
    pub max_characters_length: Option<u32>,
}

struct MappingEntry {
    from_type: String,
    mapping: Mapping,
}

/// The mapping table, keyed by source type name.
pub struct Mappings {
    mappings: Vec<MappingEntry>,
}

/// The first mapping among `entries` stored under `name`.
spec fn seq_get(entries: Seq<MappingEntry>, name: Seq<char>) -> Option<Mapping>
    decreases entries.len(),
{
    if entries.len() == 0 {
        Option::None
    } else if entries[0].from_type@ == name {
        Option::Some(entries[0].mapping)
    } else {
        seq_get(entries.drop_first(), name)
    }
}

impl Mappings {
    /// The mapping stored under `name`, if any.
    pub closed spec fn spec_get(&self, name: Seq<char>) -> Option<Mapping> {
        seq_get(self.mappings@, name)
    }

    /// How many type names the table maps.
    pub closed spec fn spec_len(&self) -> nat {
        self.mappings@.len()
    }

    /// Each source type name is stored at most once.
    pub closed spec fn wf(&self) -> bool {
        forall|i: int, j: int|
            0 <= i < j < self.mappings@.len() ==> (#[trigger] self.mappings@[i].from_type@) != (
            #[trigger] self.mappings@[j].from_type@)
    }

    /// An empty mapping table.
    pub fn new() -> (r: Mappings)
        ensures
            r.wf(),
            r.spec_len() == 0,
            forall|name: Seq<char>| r.spec_get(name) is None,
    {
        Mappings { mappings: Vec::new() }
    }

    /// Stores `mapping` under `from_type`, replacing an earlier entry for
    /// the same source type name.
    pub fn insert(&mut self, from_type: String, mapping: Mapping)
        requires
            old(self).wf(),
        ensures
            final(self).wf(),
            final(self).spec_get(from_type@) == Option::Some(mapping),
            forall|name: Seq<char>|
                name != from_type@ ==> final(self).spec_get(name) == old(self).spec_get(name),
            final(self).spec_len() == old(self).spec_len() + (if old(self).spec_get(from_type@)
                is Some {
                0int
            } else {
                1int
            }),
    {
        let n = self.mappings.len();
        let mut i: usize = 0;
        while i < n
            invariant
                n == self.mappings@.len(),
                i <= n,
                self == old(self),
                old(self).wf(),
                forall|j: int| 0 <= j < i ==> (#[trigger] self.mappings@[j].from_type@) != from_type@,
            decreases n - i,
        {
            if str_eq(self.mappings[i].from_type.as_str(), from_type.as_str()) {
                proof {
                    lemma_seq_get_at(self.mappings@, from_type@, i as int);
                }
                let ghost key = from_type@;
                self.mappings[i] = MappingEntry { from_type, mapping };
                proof {
                    assert forall|j: int| 0 <= j < self.mappings@.len() implies (
                    #[trigger] self.mappings@[j].from_type@) == old(
                        self,
                    ).mappings@[j].from_type@ by {
                        if j == i {
                            assert(self.mappings@[j].from_type@ == key);
                        }
                    }
                    let o = old(self).mappings@;
                    assert(old(self).wf());
                    assert forall|p: int, q: int|
                        0 <= p < q < self.mappings@.len() implies (
                    #[trigger] self.mappings@[p].from_type@) != (
                    #[trigger] self.mappings@[q].from_type@) by {
                        assert(self.mappings@[p].from_type@ == o[p].from_type@);
                        assert(self.mappings@[q].from_type@ == o[q].from_type@);
                        assert(o[p].from_type@ != o[q].from_type@);
                    }
                    assert(self.wf());
                    lemma_seq_get_at(self.mappings@, self.mappings@[i as int].from_type@, i as int);
                    assert forall|name: Seq<char>|
                        name != self.mappings@[i as int].from_type@ implies seq_get(
                        self.mappings@,
                        name,
                    ) == seq_get(old(self).mappings@, name) by {
                        lemma_seq_get_update_other(old(self).mappings@, self.mappings@, name, i as int);
                    }
                }
                return ;
            }
            i = i + 1;
        }
        proof {
            lemma_seq_get_absent(self.mappings@, from_type@);
        }
        self.mappings.push(MappingEntry { from_type, mapping });
        proof {
            let entries = self.mappings@;
            let k = entries.last().from_type@;
            lemma_seq_get_at(entries, k, (entries.len() - 1) as int);
            assert forall|name: Seq<char>| name != k implies seq_get(entries, name) == seq_get(
                entries.drop_last(),
                name,
            ) by {
                lemma_seq_get_push_other(entries.drop_last(), entries.last(), name);
                assert(entries.drop_last().push(entries.last()) =~= entries);
            }
            assert(entries.drop_last() =~= old(self).mappings@);
        }
    }

    /// The mapping for the source type `name`, if the table has one.
    pub fn get(&self, name: &str) -> (r: Option<&Mapping>)
        ensures
            match r {
                Option::Some(m) => self.spec_get(name@) == Option::Some(*m),
                Option::None => self.spec_get(name@) is None,
            },
    {
        let n = self.mappings.len();
        let mut i: usize = 0;
        while i < n
            invariant
                n == self.mappings@.len(),
                i <= n,
                forall|j: int| 0 <= j < i ==> (#[trigger] self.mappings@[j].from_type@) != name@,
            decreases n - i,
        {
            if str_eq(self.mappings[i].from_type.as_str(), name) {
                proof {
                    lemma_seq_get_at(self.mappings@, name@, i as int);
                }
                return Some(&self.mappings[i].mapping);
            }
            i = i + 1;
        }
        proof {
            lemma_seq_get_absent(self.mappings@, name@);
        }
        None
    }

    /// How many type names the table maps.
    pub fn len(&self) -> (r: usize)
        ensures
            r == self.spec_len(),
    {
        self.mappings.len()
    }
}

/// When the first `i` keys differ from `name` and entry `i` matches, the
/// lookup lands on entry `i`.
proof fn lemma_seq_get_at(entries: Seq<MappingEntry>, name: Seq<char>, i: int)
    requires
        0 <= i < entries.len(),
        entries[i].from_type@ == name,
        forall|j: int| 0 <= j < i ==> (#[trigger] entries[j].from_type@) != name,
    ensures
        seq_get(entries, name) == Option::Some(entries[i].mapping),
    decreases i,
{
    if i > 0 {
        lemma_seq_get_at(entries.drop_first(), name, i - 1);
    }
}

/// When no key matches `name`, the lookup is empty.
proof fn lemma_seq_get_absent(entries: Seq<MappingEntry>, name: Seq<char>)
    requires
        forall|j: int| 0 <= j < entries.len() ==> (#[trigger] entries[j].from_type@) != name,
    ensures
        seq_get(entries, name) is None,
    decreases entries.len(),
{
    if entries.len() > 0 {
        lemma_seq_get_absent(entries.drop_first(), name);
    }
}

/// Replacing entry `i` leaves the lookup of `name` unchanged, as long as
/// neither the old nor the new entry `i` is keyed by `name`.
proof fn lemma_seq_get_update_other(
    before: Seq<MappingEntry>,
    after: Seq<MappingEntry>,
    name: Seq<char>,
    i: int,
)
    requires
        before.len() == after.len(),
        0 <= i < before.len(),
        forall|j: int| 0 <= j < before.len() && j != i ==> before[j] == after[j],
        before[i].from_type@ != name,
        after[i].from_type@ != name,
    ensures
        seq_get(before, name) == seq_get(after, name),
    decreases before.len(),
{
    if before.len() > 0 {
        if i == 0 {
            lemma_seq_get_same(before.drop_first(), after.drop_first(), name);
        } else {
            assert(before[0] == after[0]);
            lemma_seq_get_update_other(before.drop_first(), after.drop_first(), name, i - 1);
        }
    }
}

/// Equal entry sequences look up equally.
proof fn lemma_seq_get_same(a: Seq<MappingEntry>, b: Seq<MappingEntry>, name: Seq<char>)
    requires
        a.len() == b.len(),
        forall|j: int| 0 <= j < a.len() ==> a[j] == b[j],
    ensures
        seq_get(a, name) == seq_get(b, name),
{
    assert(a =~= b);
}

/// Appending an entry keyed differently from `name` leaves its lookup
/// unchanged.
proof fn lemma_seq_get_push_other(entries: Seq<MappingEntry>, e: MappingEntry, name: Seq<char>)
    requires
        e.from_type@ != name,
    ensures
        seq_get(entries.push(e), name) == seq_get(entries, name),
    decreases entries.len(),
{
    let pushed = entries.push(e);
    assert(pushed.len() == entries.len() + 1);
    if entries.len() == 0 {
        assert(pushed[0] == e);
        assert(pushed.drop_first() =~= Seq::<MappingEntry>::empty());
        assert(seq_get(pushed.drop_first(), name) is None);
        assert(seq_get(pushed, name) is None);
        assert(seq_get(entries, name) is None);
    } else {
        assert(pushed[0] == entries[0]);
        assert(pushed.drop_first() =~= entries.drop_first().push(e));
        lemma_seq_get_push_other(entries.drop_first(), e, name);
        if entries[0].from_type@ == name {
            assert(seq_get(pushed, name) == Option::Some(entries[0].mapping));
        } else {
            assert(seq_get(pushed, name) == seq_get(pushed.drop_first(), name));
            assert(seq_get(entries, name) == seq_get(entries.drop_first(), name));
        }
    }
}

} // verus!
