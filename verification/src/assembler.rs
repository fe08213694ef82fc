//! The tool-call assembler: it folds tool-call fragments, arriving out of
//! order across many stream events and keyed by an integer slot index, into
//! complete invocations ordered by ascending slot index.

use vstd::prelude::*;
use vstd::string::StringExecFns;

use crate::decimal::dec_str;
use crate::decimal::u64_to_string;
use crate::events::DeltaModel;
use crate::events::ToolCallDelta;
use crate::messages::FunctionCall;
use crate::messages::ToolCall;
use crate::messages::ToolCallModel;

verus! {

/// The mathematical shape of one in-progress tool call.
pub ghost struct BuilderModel {
    pub id: Option<Seq<char>>,
    pub kind: Option<Seq<char>>,
    pub name: Option<Seq<char>>,
    pub arguments: Seq<char>,
}

/// A builder that has seen no fragment yet.
pub open spec fn empty_builder() -> BuilderModel {
    BuilderModel { id: Option::None, kind: Option::None, name: Option::None, arguments: Seq::empty() }
}

/// The field-merge policy: `id` and `kind` are set by their first occurrence
/// and never overwritten; `name` and `arguments` fragments are concatenated
/// in arrival order.
pub open spec fn merge_builder(b: BuilderModel, d: DeltaModel) -> BuilderModel {
    BuilderModel {
        id: if b.id is None {
            d.id
        } else {
            b.id
        },
        kind: if b.kind is None {
            d.kind
        } else {
            b.kind
        },
        name: match b.name {
            Option::Some(c) => match d.name {
                Option::Some(f) => Option::Some(c + f),
                Option::None => Option::Some(c),
            },
            Option::None => d.name,
        },
        arguments: b.arguments + (match d.arguments {
            Option::Some(a) => a,
            Option::None => Seq::empty(),
        }),
    }
}

/// Applies one fragment to the slot map: the builder for its slot is created
/// lazily on the first fragment that references the slot.
pub open spec fn apply_delta(m: Map<int, BuilderModel>, d: DeltaModel) -> Map<int, BuilderModel> {
    let base = if m.dom().contains(d.slot) {
        m[d.slot]
    } else {
        empty_builder()
    };
    m.insert(d.slot, merge_builder(base, d))
}

/// Applies a whole fragment sequence in order.
pub open spec fn fold_deltas(m: Map<int, BuilderModel>, ds: Seq<DeltaModel>) -> Map<int, BuilderModel>
    decreases ds.len(),
{
    if ds.len() == 0 {
        m
    } else {
        apply_delta(fold_deltas(m, ds.drop_last()), ds.last())
    }
}

/// Applies a fragment sequence to a single builder, ignoring slots.
pub open spec fn fold_slot(b: BuilderModel, ds: Seq<DeltaModel>) -> BuilderModel
    decreases ds.len(),
{
    if ds.len() == 0 {
        b
    } else {
        merge_builder(fold_slot(b, ds.drop_last()), ds.last())
    }
}

/// The subsequence of fragments addressed to one slot, in arrival order.
pub open spec fn project(ds: Seq<DeltaModel>, slot: int) -> Seq<DeltaModel>
    decreases ds.len(),
{
    if ds.len() == 0 {
        Seq::empty()
    } else {
        let rest = project(ds.drop_last(), slot);
        if ds.last().slot == slot {
            rest.push(ds.last())
        } else {
            rest
        }
    }
}

/// What one slot of the folded map holds is determined by the fragments
/// addressed to that slot alone; fragments for other slots do not touch it.
pub proof fn lemma_fold_projects(m: Map<int, BuilderModel>, ds: Seq<DeltaModel>, slot: int)
    ensures
        project(ds, slot).len() == 0 ==> {
            &&& fold_deltas(m, ds).dom().contains(slot) == m.dom().contains(slot)
            &&& (m.dom().contains(slot) ==> fold_deltas(m, ds)[slot] == m[slot])
        },
        project(ds, slot).len() > 0 ==> {
            &&& fold_deltas(m, ds).dom().contains(slot)
            &&& fold_deltas(m, ds)[slot] == fold_slot(
                if m.dom().contains(slot) {
                    m[slot]
                } else {
                    empty_builder()
                },
                project(ds, slot),
            )
        },
    decreases ds.len(),
{
    if ds.len() > 0 {
        lemma_fold_projects(m, ds.drop_last(), slot);
        let p = project(ds, slot);
        if ds.last().slot == slot {
            assert(p.drop_last() =~= project(ds.drop_last(), slot));
        }
    }
}

/// Folding two fragment sequences that agree slot by slot — any two
/// interleavings that keep each slot's own fragments in order — yields the
/// same slot map.
pub proof fn lemma_interleaving_independent(ds1: Seq<DeltaModel>, ds2: Seq<DeltaModel>)
    requires
        forall|slot: int| project(ds1, slot) == project(ds2, slot),
    ensures
        fold_deltas(Map::empty(), ds1) == fold_deltas(Map::empty(), ds2),
{
    let m1 = fold_deltas(Map::empty(), ds1);
    let m2 = fold_deltas(Map::empty(), ds2);
    assert forall|slot: int| m1.dom().contains(slot) <==> m2.dom().contains(slot) by {
        lemma_fold_projects(Map::empty(), ds1, slot);
        lemma_fold_projects(Map::empty(), ds2, slot);
    }
    assert forall|slot: int| #[trigger] m1.dom().contains(slot) implies m1[slot] == m2[slot] by {
        lemma_fold_projects(Map::empty(), ds1, slot);
        lemma_fold_projects(Map::empty(), ds2, slot);
    }
    assert(m1 =~= m2);
}

/// The concatenation of the argument fragments of a sequence, in order.
pub open spec fn args_concat(ds: Seq<DeltaModel>) -> Seq<char>
    decreases ds.len(),
{
    if ds.len() == 0 {
        Seq::empty()
    } else {
        args_concat(ds.drop_last()) + (match ds.last().arguments {
            Option::Some(a) => a,
            Option::None => Seq::empty(),
        })
    }
}

/// The concatenation of the name fragments of a sequence, in order.
pub open spec fn names_concat(ds: Seq<DeltaModel>) -> Seq<char>
    decreases ds.len(),
{
    if ds.len() == 0 {
        Seq::empty()
    } else {
        names_concat(ds.drop_last()) + (match ds.last().name {
            Option::Some(n) => n,
            Option::None => Seq::empty(),
        })
    }
}

/// Whether any fragment of the sequence carries a name piece.
pub open spec fn has_name_frag(ds: Seq<DeltaModel>) -> bool
    decreases ds.len(),
{
    if ds.len() == 0 {
        false
    } else {
        has_name_frag(ds.drop_last()) || ds.last().name is Some
    }
}

/// Merging is concatenation: however a call's name and arguments are split
/// into fragments, the assembled builder holds exactly the concatenation of
/// those fragments in order. In particular a one-shot delivery and any split
/// of the same strings assemble to the same call.
pub proof fn lemma_merge_is_concat(ds: Seq<DeltaModel>)
    ensures
        fold_slot(empty_builder(), ds).arguments == args_concat(ds),
        fold_slot(empty_builder(), ds).name == if has_name_frag(ds) {
            Option::Some(names_concat(ds))
        } else {
            Option::<Seq<char>>::None
        },
        !has_name_frag(ds) ==> names_concat(ds) == Seq::<char>::empty(),
    decreases ds.len(),
{
    if ds.len() > 0 {
        lemma_merge_is_concat(ds.drop_last());
        let dl = ds.drop_last();
        let b = fold_slot(empty_builder(), dl);
        if ds.last().arguments is None {
            assert(b.arguments + Seq::<char>::empty() =~= b.arguments);
        }
        match ds.last().name {
            Option::Some(f) => {
                if !has_name_frag(dl) {
                    assert(names_concat(dl) + f =~= f);
                }
            },
            Option::None => {
                assert(names_concat(ds) == names_concat(dl) + Seq::<char>::empty());
                assert(names_concat(dl) + Seq::<char>::empty() =~= names_concat(dl));
            },
        }
    }
}

/// One in-progress tool call, keyed by its slot index.
pub struct ToolBuilder {
    pub slot: u32,
    pub id: Option<String>,
    pub kind: Option<String>,
    pub name: Option<String>,
    pub arguments: String,
}

impl ToolBuilder {
    /// What this builder looks like in specifications.
    pub open spec fn model(&self) -> BuilderModel {
        BuilderModel {
            id: self.id.deep_view(),
            kind: self.kind.deep_view(),
            name: self.name.deep_view(),
            arguments: self.arguments@,
        }
    }
}

/// A builder that has not yet seen any fragment for `slot`.
fn new_builder(slot: u32) -> (b: ToolBuilder)
    ensures
        b.slot == slot,
        b.model() == empty_builder(),
{
    ToolBuilder {
        slot,
        id: Option::None,
        kind: Option::None,
        name: Option::None,
        arguments: String::new(),
    }
}

/// Merges one fragment into a builder, following the field-merge policy.
fn merge_exec(b: ToolBuilder, d: ToolCallDelta) -> (r: ToolBuilder)
    ensures
        r.slot == b.slot,
        r.model() == merge_builder(b.model(), d@),
{
    let ToolBuilder { slot, id, kind, name, arguments } = b;
    let mut arguments = arguments;
    let id = match id {
        Option::Some(i) => Option::Some(i),
        Option::None => d.id,
    };
    let kind = match kind {
        Option::Some(k) => Option::Some(k),
        Option::None => d.kind,
    };
    let name = match name {
        Option::Some(c) => {
            let mut c = c;
            match d.name {
                Option::Some(f) => {
                    c.append(f.as_str());
                    Option::Some(c)
                },
                Option::None => Option::Some(c),
            }
        },
        Option::None => d.name,
    };
    if let Option::Some(a) = d.arguments {
        arguments.append(a.as_str());
    } else {
        proof {
            assert(arguments@ + Seq::<char>::empty() =~= arguments@);
        }
    }
    ToolBuilder { slot, id, kind, name, arguments }
}

/// Whether the pair keys of `s` are pairwise distinct.
pub open spec fn keys_distinct(s: Seq<(int, BuilderModel)>) -> bool {
    forall|i: int, j: int| 0 <= i < j < s.len() ==> (#[trigger] s[i]).0 != (#[trigger] s[j]).0
}

/// Whether the pair keys of `s` are strictly ascending.
pub open spec fn keys_sorted(s: Seq<(int, BuilderModel)>) -> bool {
    forall|i: int, j: int| 0 <= i < j < s.len() ==> (#[trigger] s[i]).0 < (#[trigger] s[j]).0
}

/// The map an association sequence denotes; a later entry for the same key
/// would win, though well-formed assemblers never hold one.
pub open spec fn to_map(s: Seq<(int, BuilderModel)>) -> Map<int, BuilderModel>
    decreases s.len(),
{
    if s.len() == 0 {
        Map::empty()
    } else {
        to_map(s.drop_last()).insert(s.last().0, s.last().1)
    }
}

/// With distinct keys, the denoted map holds exactly the entries of the
/// sequence.
pub proof fn lemma_to_map_index(s: Seq<(int, BuilderModel)>)
    requires
        keys_distinct(s),
    ensures
        forall|i: int|
            0 <= i < s.len() ==> to_map(s).dom().contains((#[trigger] s[i]).0) && to_map(s)[s[i].0]
                == s[i].1,
        forall|k: int|
            to_map(s).dom().contains(k) ==> exists|i: int| 0 <= i < s.len() && (#[trigger] s[i]).0 == k,
    decreases s.len(),
{
    if s.len() > 0 {
        lemma_to_map_index(s.drop_last());
        assert forall|i: int| 0 <= i < s.len() implies to_map(s).dom().contains((#[trigger] s[i]).0)
            && to_map(s)[s[i].0] == s[i].1 by {
            if i < s.len() - 1 {
                assert(s.drop_last()[i] == s[i]);
                assert(s[i].0 != s.last().0);
            }
        }
        assert forall|k: int| to_map(s).dom().contains(k) implies exists|i: int|
            0 <= i < s.len() && (#[trigger] s[i]).0 == k by {
            if k == s.last().0 {
                assert(s[s.len() - 1].0 == k);
            } else {
                assert(to_map(s.drop_last()).dom().contains(k));
                let i = choose|i: int|
                    0 <= i < s.drop_last().len() && (#[trigger] s.drop_last()[i]).0 == k;
                assert(s.drop_last()[i] == s[i]);
                assert(s[i].0 == k);
            }
        }
    }
}

/// Inserting an entry with a fresh key into the sequence inserts it into the
/// denoted map.
pub proof fn lemma_to_map_insert(s: Seq<(int, BuilderModel)>, i: int, e: (int, BuilderModel))
    requires
        keys_distinct(s),
        0 <= i <= s.len(),
        forall|j: int| 0 <= j < s.len() ==> (#[trigger] s[j]).0 != e.0,
    ensures
        to_map(s.insert(i, e)) == to_map(s).insert(e.0, e.1),
    decreases s.len(),
{
    let t = s.insert(i, e);
    if i == s.len() {
        assert(t.drop_last() =~= s);
        assert(t.last() == e);
    } else {
        assert(t.last() == s.last());
        assert(t.drop_last() =~= s.drop_last().insert(i, e));
        lemma_to_map_insert(s.drop_last(), i, e);
        assert(s[s.len() - 1].0 != e.0);
        assert(to_map(s.drop_last()).insert(e.0, e.1).insert(s.last().0, s.last().1) =~= to_map(
            s.drop_last(),
        ).insert(s.last().0, s.last().1).insert(e.0, e.1));
    }
}

/// Replacing the entry at `i` by one with the same key updates the denoted
/// map at that key.
pub proof fn lemma_to_map_update(s: Seq<(int, BuilderModel)>, i: int, e: (int, BuilderModel))
    requires
        keys_distinct(s),
        0 <= i < s.len(),
        e.0 == s[i].0,
    ensures
        to_map(s.update(i, e)) == to_map(s).insert(e.0, e.1),
    decreases s.len(),
{
    let t = s.update(i, e);
    if i == s.len() - 1 {
        assert(t.drop_last() =~= s.drop_last());
        assert(t.last() == e);
        assert(to_map(s.drop_last()).insert(s.last().0, s.last().1).insert(e.0, e.1) =~= to_map(
            s.drop_last(),
        ).insert(e.0, e.1));
    } else {
        assert(t.last() == s.last());
        assert(t.drop_last() =~= s.drop_last().update(i, e));
        assert(s.drop_last()[i] == s[i]);
        lemma_to_map_update(s.drop_last(), i, e);
        assert(e.0 != s.last().0);
        assert(to_map(s.drop_last()).insert(e.0, e.1).insert(s.last().0, s.last().1) =~= to_map(
            s.drop_last(),
        ).insert(s.last().0, s.last().1).insert(e.0, e.1));
    }
}

/// Two association sequences with strictly ascending keys that denote the
/// same map are the same sequence: the sorted form is unique.
pub proof fn lemma_sorted_unique(s1: Seq<(int, BuilderModel)>, s2: Seq<(int, BuilderModel)>)
    requires
        keys_sorted(s1),
        keys_sorted(s2),
        to_map(s1) == to_map(s2),
    ensures
        s1 == s2,
    decreases s1.len(),
{
    lemma_to_map_index(s1);
    lemma_to_map_index(s2);
    if s1.len() == 0 && s2.len() == 0 {
        assert(s1 =~= s2);
    } else if s1.len() == 0 {
        assert(to_map(s2).dom().contains(s2[s2.len() - 1].0));
        assert(false);
    } else if s2.len() == 0 {
        assert(to_map(s1).dom().contains(s1[s1.len() - 1].0));
        assert(false);
    } else {
        let k1 = s1.last().0;
        let k2 = s2.last().0;
        assert(to_map(s2).dom().contains(s1[s1.len() - 1].0));
        assert(to_map(s1).dom().contains(s2[s2.len() - 1].0));
        let i2 = choose|i: int| 0 <= i < s2.len() && (#[trigger] s2[i]).0 == k1;
        let i1 = choose|i: int| 0 <= i < s1.len() && (#[trigger] s1[i]).0 == k2;
        assert(k1 <= k2 && k2 <= k1);
        assert(s1.last().1 == to_map(s1)[k1]);
        assert(s2.last().1 == to_map(s2)[k1]);
        assert(s1.last() == s2.last());
        assert forall|j: int| 0 <= j < s1.drop_last().len() implies (#[trigger] s1.drop_last()[j]).0
            != k1 by {
            assert(s1[j].0 < k1);
        }
        assert forall|j: int| 0 <= j < s2.drop_last().len() implies (#[trigger] s2.drop_last()[j]).0
            != k1 by {
            assert(s2[j].0 < k1);
        }
        lemma_to_map_index(s1.drop_last());
        lemma_to_map_index(s2.drop_last());
        assert(!to_map(s1.drop_last()).dom().contains(k1));
        assert(!to_map(s2.drop_last()).dom().contains(k1));
        assert(to_map(s1.drop_last()) =~= to_map(s1).remove(k1));
        assert(to_map(s2.drop_last()) =~= to_map(s2).remove(k1));
        lemma_sorted_unique(s1.drop_last(), s2.drop_last());
        assert(s1 =~= s1.drop_last().push(s1.last()));
        assert(s2 =~= s2.drop_last().push(s2.last()));
    }
}

/// The complete call a finished builder stands for: a missing id falls back
/// to `call_` followed by the slot index, a missing kind to `function`.
pub open spec fn finalize_builder(slot: int, b: BuilderModel) -> ToolCallModel {
    ToolCallModel {
        id: match b.id {
            Option::Some(i) => i,
            Option::None => "call_"@ + dec_str(slot as nat),
        },
        kind: match b.kind {
            Option::Some(k) => k,
            Option::None => "function"@,
        },
        name: match b.name {
            Option::Some(n) => n,
            Option::None => Seq::empty(),
        },
        arguments: b.arguments,
    }
}

/// The ordered calls a builder sequence finalizes to: builders that never
/// received a name are dropped.
pub open spec fn outputs_of(s: Seq<(int, BuilderModel)>) -> Seq<ToolCallModel>
    decreases s.len(),
{
    if s.len() == 0 {
        Seq::empty()
    } else {
        outputs_of(s.drop_last()) + (if s.last().1.name is Some {
            seq![finalize_builder(s.last().0, s.last().1)]
        } else {
            Seq::empty()
        })
    }
}

/// Accumulates tool-call fragments within one streamed response and, once
/// the stream ends, produces the complete invocations ordered by slot index.
pub struct Assembler {
    builders: Vec<ToolBuilder>,
}

impl Assembler {
    /// The builders are held sorted by strictly ascending slot index.
    pub open spec fn wf(self) -> bool {
        keys_sorted(self.seq_model())
    }

    /// The association sequence of slot index and builder state, in slot
    /// order.
    pub closed spec fn seq_model(self) -> Seq<(int, BuilderModel)> {
        self.builders@.map_values(|b: ToolBuilder| (b.slot as int, b.model()))
    }

    /// The slot map this assembler has accumulated.
    pub open spec fn model(self) -> Map<int, BuilderModel> {
        to_map(self.seq_model())
    }

    /// A well-formed assembler's sequence is sorted by ascending slot index.
    pub proof fn lemma_sorted(self)
        requires
            self.wf(),
        ensures
            keys_sorted(self.seq_model()),
    {
    }

    /// The sorted association sequence — and with it the finished call list —
    /// is determined by the slot map alone, not by arrival order.
    pub proof fn lemma_order_independent(a1: Assembler, a2: Assembler)
        requires
            a1.wf(),
            a2.wf(),
            a1.model() == a2.model(),
        ensures
            a1.seq_model() == a2.seq_model(),
    {
        lemma_sorted_unique(a1.seq_model(), a2.seq_model());
    }

    /// A fresh assembler with no fragments seen.
    pub fn new() -> (a: Assembler)
        ensures
            a.wf(),
            a.model() == Map::<int, BuilderModel>::empty(),
            a.seq_model() == Seq::<(int, BuilderModel)>::empty(),
    {
        let a = Assembler { builders: Vec::new() };
        proof {
            assert(a.seq_model() =~= Seq::<(int, BuilderModel)>::empty());
        }
        a
    }

    /// Folds one fragment into the slot map.
    pub fn feed(&mut self, d: ToolCallDelta)
        requires
            old(self).wf(),
        ensures
            final(self).wf(),
            final(self).model() == apply_delta(old(self).model(), d@),
    {
        let ghost sm0 = old(self).seq_model();
        proof {
            assert forall|i: int, j: int| 0 <= i < j < sm0.len() implies (#[trigger] sm0[i]).0 != (
            #[trigger] sm0[j]).0 by {}
        }
        let mut i: usize = 0;
        while i < self.builders.len() && self.builders[i].slot < d.slot
            invariant
                i <= self.builders@.len(),
                self == old(self),
                forall|j: int| 0 <= j < i ==> (#[trigger] self.builders@[j]).slot < d.slot,
            decreases self.builders@.len() - i,
        {
            i = i + 1;
        }
        if i < self.builders.len() && self.builders[i].slot == d.slot {
            let b = self.builders.remove(i);
            let nb = merge_exec(b, d);
            self.builders.insert(i, nb);
            proof {
                let e = (d@.slot, nb.model());
                assert(sm0[i as int] == ((b.slot as int), b.model()));
                assert(sm0[i as int].0 == d@.slot);
                assert(self.builders@ =~= old(self).builders@.update(i as int, nb));
                assert(self.seq_model() =~= sm0.update(i as int, e));
                lemma_to_map_update(sm0, i as int, e);
                lemma_to_map_index(sm0);
                assert(old(self).model().dom().contains(d@.slot));
                assert(old(self).model()[d@.slot] == b.model());
            }
        } else {
            proof {
                assert forall|j: int| 0 <= j < sm0.len() implies (#[trigger] sm0[j]).0 != d@.slot by {
                    if j < i {
                        assert(self.builders@[j].slot < d.slot);
                    } else if i < sm0.len() {
                        if j > i {
                            assert(sm0[i as int].0 < sm0[j].0);
                        }
                        assert(self.builders@[i as int].slot > d.slot);
                    }
                }
                lemma_to_map_index(sm0);
                if old(self).model().dom().contains(d@.slot) {
                    let w = choose|w: int|
                        0 <= w < sm0.len() && (#[trigger] sm0[w]).0 == d@.slot;
                    assert(false);
                }
            }
            let nb = merge_exec(new_builder(d.slot), d);
            self.builders.insert(i, nb);
            proof {
                let e = (d@.slot, nb.model());
                assert(self.builders@ =~= old(self).builders@.insert(i as int, nb));
                assert(self.seq_model() =~= sm0.insert(i as int, e));
                lemma_to_map_insert(sm0, i as int, e);
            }
        }
        proof {
            assert forall|p: int, q: int| 0 <= p < q < self.seq_model().len() implies (
            #[trigger] self.seq_model()[p]).0 < (#[trigger] self.seq_model()[q]).0 by {}
        }
    }

    /// For all interleavings of fragments across slots: two assemblers
    /// that each folded a fragment sequence from empty, where the two
    /// sequences agree slot by slot — the same fragments per slot, in the
    /// same per-slot order, however they interleave — hold the same sorted
    /// association sequence and finalize to the same ordered call list.
    pub proof fn lemma_assembly_interleaving(
        a1: Assembler,
        a2: Assembler,
        ds1: Seq<DeltaModel>,
        ds2: Seq<DeltaModel>,
    )
        requires
            a1.wf(),
            a2.wf(),
            a1.model() == fold_deltas(Map::empty(), ds1),
            a2.model() == fold_deltas(Map::empty(), ds2),
            forall|slot: int| project(ds1, slot) == project(ds2, slot),
        ensures
            a1.seq_model() == a2.seq_model(),
            outputs_of(a1.seq_model()) == outputs_of(a2.seq_model()),
    {
        lemma_interleaving_independent(ds1, ds2);
        lemma_sorted_unique(a1.seq_model(), a2.seq_model());
    }

    /// Feeds a whole fragment sequence in arrival order: the slot map
    /// becomes the fold of the fragments over the starting map. Together
    /// with `lemma_interleaving_independent` and `lemma_order_independent`
    /// this pins the assembly down for every interleaving: two arrival
    /// orders that keep each slot's own fragments in sequence leave equal
    /// slot maps, hence equal sorted association sequences, hence equal
    /// finished call lists.
    pub fn feed_all(&mut self, ds: Vec<ToolCallDelta>)
        requires
            old(self).wf(),
        ensures
            final(self).wf(),
            final(self).model() == fold_deltas(
                old(self).model(),
                ds@.map_values(|d: ToolCallDelta| d@),
            ),
    {
        let ghost m0 = old(self).model();
        let ghost dm = ds@.map_values(|d: ToolCallDelta| d@);
        let mut rest = ds;
        let n: usize = rest.len();
        let mut i: usize = 0;
        proof {
            assert(dm.subrange(0, 0) =~= Seq::<DeltaModel>::empty());
        }
        while i < n
            invariant
                i <= n,
                n == dm.len(),
                rest@.len() == n - i,
                forall|k: int| 0 <= k < rest@.len() ==> (#[trigger] rest@[k])@ == dm[i + k],
                self.wf(),
                self.model() == fold_deltas(m0, dm.subrange(0, i as int)),
            decreases n - i,
        {
            let d = rest.remove(0);
            proof {
                assert(d@ == dm[i as int]);
                assert(dm.subrange(0, i as int + 1).drop_last() =~= dm.subrange(0, i as int));
                assert(dm.subrange(0, i as int + 1).last() == dm[i as int]);
            }
            self.feed(d);
            i = i + 1;
        }
        proof {
            assert(dm.subrange(0, n as int) =~= dm);
        }
    }

    /// Finalizes the stream: the complete invocations, ordered by ascending
    /// slot index; a builder that never received a name is dropped.
    pub fn finish(self) -> (calls: Vec<ToolCall>)
        requires
            self.wf(),
        ensures
            calls@.map_values(|c: ToolCall| c@) == outputs_of(self.seq_model()),
    {
        let ghost sm = self.seq_model();
        let Assembler { builders } = self;
        let mut rest = builders;
        let mut calls: Vec<ToolCall> = Vec::new();
        let n: usize = rest.len();
        let mut j: usize = 0;
        while j < n
            invariant
                j <= n,
                n == sm.len(),
                rest@.len() == n - j,
                forall|k: int|
                    0 <= k < rest@.len() ==> ((#[trigger] rest@[k]).slot as int, rest@[k].model())
                        == sm[j + k],
                calls@.map_values(|c: ToolCall| c@) == outputs_of(sm.subrange(0, j as int)),
            decreases n - j,
        {
            proof {
                assert((rest@[0].slot as int, rest@[0].model()) == sm[j as int]);
            }
            let b = rest.remove(0);
            let ghost pre = sm.subrange(0, j as int);
            let ghost pre1 = sm.subrange(0, j as int + 1);
            proof {
                assert((b.slot as int, b.model()) == sm[j as int]);
                assert(pre1.drop_last() =~= pre);
                assert(pre1.last() == sm[j as int]);
            }
            match b.name {
                Option::Some(name) => {
                    let id = match b.id {
                        Option::Some(i) => i,
                        Option::None => {
                            let mut s = "call_".to_owned();
                            s.append(u64_to_string(b.slot as u64).as_str());
                            s
                        },
                    };
                    let kind = match b.kind {
                        Option::Some(k) => k,
                        Option::None => "function".to_owned(),
                    };
                    let call = ToolCall {
                        id,
                        kind,
                        function: FunctionCall { name, arguments: b.arguments },
                    };
                    proof {
                        assert(call@ == finalize_builder(sm[j as int].0, sm[j as int].1));
                        assert(outputs_of(pre1) == outputs_of(pre) + seq![call@]);
                    }
                    calls.push(call);
                    proof {
                        assert(calls@.map_values(|c: ToolCall| c@) =~= outputs_of(pre1));
                    }
                },
                Option::None => {
                    proof {
                        assert(outputs_of(pre1) == outputs_of(pre) + Seq::<ToolCallModel>::empty());
                        assert(outputs_of(pre) + Seq::<ToolCallModel>::empty() =~= outputs_of(pre));
                        assert(calls@.map_values(|c: ToolCall| c@) =~= outputs_of(pre1));
                    }
                },
            }
            j = j + 1;
        }
        proof {
            assert(sm.subrange(0, n as int) =~= sm);
        }
        calls
    }
}

} // verus!
