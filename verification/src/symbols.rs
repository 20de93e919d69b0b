use vstd::prelude::*;

verus! {

/// The target architecture, selected once at startup; it fixes the
/// position-independent-executable load bias used before symbol lookup.
#[derive(Clone, Copy, PartialEq, Eq, Structural, Debug)]
pub enum Arch {
    X86_64,
    Arm,
}

/// The fixed load-bias constant of an architecture. On x86-64 it is an
/// empirically derived offset that assumes address-space layout randomization
/// is disabled in the target; elsewhere normalization is the identity.
pub open spec fn spec_load_bias(arch: Arch) -> u64 {
    match arch {
        Arch::X86_64 => 0x5555_5555_4000u64,
        Arch::Arm => 0u64,
    }
}

/// The load-bias constant of `arch`.
pub fn load_bias(arch: Arch) -> (r: u64)
    ensures
        r == spec_load_bias(arch),
{
    match arch {
        Arch::X86_64 => 0x5555_5555_4000u64,
        Arch::Arm => 0u64,
    }
}

/// Shifts a raw instruction pointer observed in the target by the fixed
/// load bias of `arch`, so it can be looked up in the on-disk symbol table.
/// Only meaningful when the target runs with layout randomization disabled.
pub fn normalize(address: u64, arch: Arch) -> (r: u64)
    requires
        spec_load_bias(arch) <= address,
    ensures
        r == address - spec_load_bias(arch),
{
    address - load_bias(arch)
}

/// One symbol record of the target's executable image.
pub struct Symbol {
    pub value: u64,
    pub size: u64,
    pub name: String,
}

/// The mathematical content of one symbol record.
pub struct SymView {
    pub value: u64,
    pub size: u64,
    pub name: Seq<char>,
}

impl View for Symbol {
    type V = SymView;

    open spec fn view(&self) -> SymView {
        SymView { value: self.value, size: self.size, name: self.name@ }
    }
}

/// Whether `sym`'s extent contains the address `a`.
pub open spec fn covers(sym: SymView, a: u64) -> bool {
    sym.value <= a < sym.value + sym.size
}

/// Nearest-predecessor lookup over an address-ordered symbol sequence: the
/// name of the entry with the greatest `value <= a`, provided `a` also lies
/// within that entry's extent; nothing otherwise.
pub open spec fn resolve_spec(entries: Seq<SymView>, a: u64) -> Option<Seq<char>>
    decreases entries.len(),
{
    if entries.len() == 0 {
        None
    } else if entries.last().value <= a {
        if covers(entries.last(), a) {
            Some(entries.last().name)
        } else {
            None
        }
    } else {
        resolve_spec(entries.drop_last(), a)
    }
}

/// Insertion into an address-ordered symbol sequence, keyed by `value`: a
/// later record at an already-present address overwrites the earlier one.
pub open spec fn spec_insert(entries: Seq<SymView>, sym: SymView) -> Seq<SymView>
    decreases entries.len(),
{
    if entries.len() == 0 {
        seq![sym]
    } else if entries.last().value < sym.value {
        entries.push(sym)
    } else if entries.last().value == sym.value {
        entries.drop_last().push(sym)
    } else {
        spec_insert(entries.drop_last(), sym).push(entries.last())
    }
}

/// The table built by inserting each record in turn: last record wins at an
/// address that occurs more than once.
pub open spec fn spec_build(records: Seq<SymView>) -> Seq<SymView>
    decreases records.len(),
{
    if records.len() == 0 {
        Seq::empty()
    } else {
        spec_insert(spec_build(records.drop_last()), records.last())
    }
}

/// The address-sorted symbol table of the target's executable image,
/// immutable once built; lookups never mutate it.
pub struct SymbolTable {
    entries: Vec<Symbol>,
}

impl View for SymbolTable {
    type V = Seq<SymView>;

    closed spec fn view(&self) -> Seq<SymView> {
        self.entries@.map_values(|s: Symbol| s@)
    }
}

impl SymbolTable {
    /// Entries are strictly ascending by address.
    pub open spec fn wf(&self) -> bool {
        forall|i: int, j: int|
            0 <= i < j < self@.len() ==> #[trigger] self@[i].value < #[trigger] self@[j].value
    }

    /// The empty table.
    pub fn new() -> (r: SymbolTable)
        ensures
            r.wf(),
            r@ == Seq::<SymView>::empty(),
    {
        let r = SymbolTable { entries: Vec::new() };
        proof {
            assert(r@ =~= Seq::<SymView>::empty());
        }
        r
    }

    /// Inserts one record, overwriting an entry already present at the same
    /// address.
    pub fn insert(&mut self, sym: Symbol)
        requires
            old(self).wf(),
        ensures
            final(self).wf(),
            final(self)@ == spec_insert(old(self)@, sym@),
    {
        let ghost es = self@;
        let mut i: usize = self.entries.len();
        while i > 0 && self.entries[i - 1].value > sym.value
            invariant
                self@ == es,
                i <= self.entries.len(),
                self.entries@.len() == es.len(),
                forall|k: int| i <= k < es.len() ==> #[trigger] es[k].value > sym.value,
            decreases i,
        {
            i = i - 1;
        }
        proof {
            lemma_spec_insert_at(es, sym@, i as int);
        }
        if i > 0 && self.entries[i - 1].value == sym.value {
            self.entries.set(i - 1, sym);
            proof {
                assert(self@ =~= es.update(i - 1, sym@));
                lemma_wf_update(es, sym@, i - 1);
            }
        } else {
            self.entries.insert(i, sym);
            proof {
                assert(self@ =~= es.insert(i as int, sym@));
                lemma_wf_insert(es, sym@, i as int);
            }
        }
    }

    /// Builds the table from the records of the image, in the order they were
    /// read; a later record at the same address overwrites an earlier one.
    pub fn build(records: Vec<Symbol>) -> (r: SymbolTable)
        ensures
            r.wf(),
            r@ == spec_build(records@.map_values(|s: Symbol| s@)),
    {
        let ghost rs = records@.map_values(|s: Symbol| s@);
        let mut table = SymbolTable::new();
        let mut i: usize = 0;
        while i < records.len()
            invariant
                i <= records.len(),
                rs == records@.map_values(|s: Symbol| s@),
                table.wf(),
                table@ == spec_build(rs.take(i as int)),
            decreases records.len() - i,
        {
            let sym = records[i].clone_record();
            proof {
                assert(rs.take(i + 1).drop_last() =~= rs.take(i as int));
                assert(rs.take(i + 1).last() == rs[i as int]);
            }
            table.insert(sym);
            i = i + 1;
        }
        proof {
            assert(rs.take(records@.len() as int) =~= rs);
        }
        table
    }

    /// Nearest-predecessor lookup: the name of the symbol with the greatest
    /// address `<= address` whose extent contains `address`, else nothing.
    pub fn resolve(&self, address: u64) -> (r: Option<String>)
        ensures
            r is Some <==> resolve_spec(self@, address) is Some,
            r is Some ==> r->0@ == resolve_spec(self@, address)->0,
    {
        let ghost es = self@;
        let mut i: usize = self.entries.len();
        proof {
            assert(es.take(es.len() as int) =~= es);
        }
        while i > 0
            invariant
                i <= self.entries.len(),
                es == self@,
                self.entries@.len() == es.len(),
                resolve_spec(es.take(i as int), address) == resolve_spec(es, address),
            decreases i,
        {
            let e = &self.entries[i - 1];
            proof {
                assert(es.take(i as int).drop_last() =~= es.take(i - 1));
                assert(es.take(i as int).last() == es[i - 1]);
            }
            if e.value <= address {
                if address - e.value < e.size {
                    return Some(e.name.clone());
                } else {
                    return None;
                }
            }
            i = i - 1;
        }
        proof {
            assert(es.take(0) =~= Seq::<SymView>::empty());
        }
        None
    }
}

impl Symbol {
    /// A copy of the record.
    pub fn clone_record(&self) -> (r: Symbol)
        ensures
            r@ == self@,
    {
        Symbol { value: self.value, size: self.size, name: self.name.clone() }
    }
}

/// Where the scan that `insert` performs stops, the recursive insertion
/// either overwrites the entry at the same address or splices the record in.
proof fn lemma_spec_insert_at(entries: Seq<SymView>, sym: SymView, i: int)
    requires
        0 <= i <= entries.len(),
        forall|k: int| i <= k < entries.len() ==> #[trigger] entries[k].value > sym.value,
        i > 0 ==> entries[i - 1].value <= sym.value,
    ensures
        spec_insert(entries, sym) == (if i > 0 && entries[i - 1].value == sym.value {
            entries.update(i - 1, sym)
        } else {
            entries.insert(i, sym)
        }),
    decreases entries.len() - i,
{
    if i == entries.len() {
        if entries.len() == 0 {
            assert(spec_insert(entries, sym) =~= entries.insert(i, sym));
        } else if entries.last().value < sym.value {
            assert(entries.push(sym) =~= entries.insert(i, sym));
        } else {
            assert(entries.last().value == sym.value);
            assert(entries.drop_last().push(sym) =~= entries.update(i - 1, sym));
        }
    } else {
        assert(entries.last().value > sym.value);
        lemma_spec_insert_at(entries.drop_last(), sym, i);
        if i > 0 && entries[i - 1].value == sym.value {
            assert(entries.drop_last()[i - 1] == entries[i - 1]);
            assert(entries.drop_last().update(i - 1, sym).push(entries.last()) =~= entries.update(
                i - 1,
                sym,
            ));
        } else {
            assert(entries.drop_last().insert(i, sym).push(entries.last()) =~= entries.insert(
                i,
                sym,
            ));
        }
    }
}

/// Overwriting an entry with a record at the same address keeps the order.
proof fn lemma_wf_update(entries: Seq<SymView>, sym: SymView, i: int)
    requires
        0 <= i < entries.len(),
        forall|p: int, q: int|
            0 <= p < q < entries.len() ==> #[trigger] entries[p].value < #[trigger] entries[q].value,
        entries[i].value == sym.value,
    ensures
        forall|p: int, q: int|
            0 <= p < q < entries.len() ==> #[trigger] entries.update(i, sym)[p].value
                < #[trigger] entries.update(i, sym)[q].value,
{
}

/// Splicing a record in where the scan stopped keeps the order.
proof fn lemma_wf_insert(entries: Seq<SymView>, sym: SymView, i: int)
    requires
        0 <= i <= entries.len(),
        forall|p: int, q: int|
            0 <= p < q < entries.len() ==> #[trigger] entries[p].value < #[trigger] entries[q].value,
        forall|k: int| i <= k < entries.len() ==> #[trigger] entries[k].value > sym.value,
        i > 0 ==> entries[i - 1].value < sym.value,
    ensures
        forall|p: int, q: int|
            0 <= p < q < entries.insert(i, sym).len() ==> #[trigger] entries.insert(i, sym)[p].value
                < #[trigger] entries.insert(i, sym)[q].value,
{
    let r = entries.insert(i, sym);
    assert forall|p: int, q: int| 0 <= p < q < r.len() implies #[trigger] r[p].value
        < #[trigger] r[q].value by {
        if p < i {
            assert(r[p] == entries[p]);
        } else if p == i {
            assert(r[p] == sym);
        } else {
            assert(r[p] == entries[p - 1]);
        }
        if q < i {
            assert(r[q] == entries[q]);
        } else if q == i {
            assert(r[q] == sym);
        } else {
            assert(r[q] == entries[q - 1]);
        }
    }
}

/// A resolved name always comes from a symbol whose extent contains the
/// address.
pub proof fn lemma_resolve_some_covers(entries: Seq<SymView>, a: u64)
    requires
        resolve_spec(entries, a) is Some,
    ensures
        exists|i: int|
            0 <= i < entries.len() && covers(#[trigger] entries[i], a) && entries[i].name
                == resolve_spec(entries, a)->0,
    decreases entries.len(),
{
    if entries.last().value <= a {
        assert(covers(entries[entries.len() - 1], a));
    } else {
        lemma_resolve_some_covers(entries.drop_last(), a);
        let i = choose|i: int|
            0 <= i < entries.drop_last().len() && covers(#[trigger] entries.drop_last()[i], a)
                && entries.drop_last()[i].name == resolve_spec(entries.drop_last(), a)->0;
        assert(entries[i] == entries.drop_last()[i]);
        assert(covers(entries[i], a));
    }
}

/// Extents lie strictly one after another: each symbol ends at or before the
/// next one begins.
pub open spec fn extents_disjoint(entries: Seq<SymView>) -> bool {
    forall|i: int|
        0 <= i < entries.len() - 1 ==> #[trigger] entries[i].value + entries[i].size <= entries[
            i + 1
        ].value
}

/// On a table whose entries ascend by address with disjoint extents, lookup
/// returns a name exactly when some symbol's extent contains the address:
/// nothing comes back on an empty table, below the first symbol, or in a gap
/// between extents.
#[verifier::rlimit(25)]
pub proof fn lemma_resolve_characterizes(entries: Seq<SymView>, a: u64)
    requires
        forall|p: int, q: int|
            0 <= p < q < entries.len() ==> #[trigger] entries[p].value < #[trigger] entries[q].value,
        extents_disjoint(entries),
    ensures
        resolve_spec(entries, a) is Some <==> exists|i: int|
            0 <= i < entries.len() && covers(#[trigger] entries[i], a),
    decreases entries.len(),
{
    if entries.len() == 0 {
    } else if entries.last().value <= a {
        let last = entries.len() - 1;
        if covers(entries[last], a) {
        } else {
            assert forall|i: int| 0 <= i < entries.len() implies !covers(
                #[trigger] entries[i],
                a,
            ) by {
                if i < last {
                    assert(entries[i].value + entries[i].size <= entries[i + 1].value);
                    if i + 1 < last {
                        assert(entries[i + 1].value < entries[last].value);
                    }
                }
            }
        }
    } else {
        let prefix = entries.drop_last();
        assert(forall|p: int, q: int|
            0 <= p < q < prefix.len() ==> #[trigger] prefix[p].value < #[trigger] prefix[q].value);
        assert forall|i: int| 0 <= i < prefix.len() - 1 implies #[trigger] prefix[i].value
            + prefix[i].size <= prefix[i + 1].value by {
            assert(prefix[i] == entries[i]);
            assert(prefix[i + 1] == entries[i + 1]);
        }
        lemma_resolve_characterizes(prefix, a);
        assert(!covers(entries[entries.len() - 1], a));
        if exists|i: int| 0 <= i < entries.len() && covers(#[trigger] entries[i], a) {
            let i = choose|i: int| 0 <= i < entries.len() && covers(#[trigger] entries[i], a);
            assert(i < entries.len() - 1);
            assert(prefix[i] == entries[i]);
            assert(covers(prefix[i], a));
        } else {
            if exists|i: int| 0 <= i < prefix.len() && covers(#[trigger] prefix[i], a) {
                let i = choose|i: int| 0 <= i < prefix.len() && covers(#[trigger] prefix[i], a);
                assert(entries[i] == prefix[i]);
                assert(covers(entries[i], a));
            }
        }
    }
}

} // verus!
