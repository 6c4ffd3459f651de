use vstd::prelude::*;

use crate::memory::allocate;

verus! {

/// A uniquing table of symbol names.
///
/// Every text the table has made permanent is an *allocation*, named by its
/// identity (a `usize`). Allocations are never freed or changed. Some of them
/// are *canonical*: for each text content at most one allocation is recorded
/// as its canonical one, and interning a text returns that allocation.
pub struct SymbolTable {
    texts: Vec<String>,
    canonical: Vec<usize>,
    index: Ghost<Map<Seq<char>, usize>>,
}

impl SymbolTable {
    /// The content of each allocation, by identity.
    pub closed spec fn allocations(&self) -> Seq<Seq<char>> {
        Seq::new(self.texts@.len(), |i: int| self.texts@[i]@)
    }

    /// For each interned content, the identity of its canonical allocation.
    pub closed spec fn canon(&self) -> Map<Seq<char>, usize> {
        self.index@
    }

    /// Every canonical allocation exists and holds the content it stands for,
    /// and the executable list of canonical allocations matches `canon`.
    pub closed spec fn wf(&self) -> bool {
        &&& forall|k: Seq<char>| #[trigger] self.index@.contains_key(k) ==> {
            &&& self.index@[k] < self.texts@.len()
            &&& self.texts@[self.index@[k] as int]@ == k
            &&& exists|i: int| 0 <= i < self.canonical@.len() && self.canonical@[i] == self.index@[k]
        }
        &&& forall|i: int| 0 <= i < self.canonical@.len() ==> {
            &&& #[trigger] self.canonical@[i] < self.texts@.len()
            &&& self.index@.contains_key(self.texts@[self.canonical@[i] as int]@)
            &&& self.index@[self.texts@[self.canonical@[i] as int]@] == self.canonical@[i]
        }
    }

    /// An empty table: no allocation, nothing interned.
    pub fn new() -> (t: SymbolTable)
        ensures
            t.wf(),
            t.allocations() == Seq::<Seq<char>>::empty(),
            t.canon() == Map::<Seq<char>, usize>::empty(),
    {
        let t = SymbolTable { texts: Vec::new(), canonical: Vec::new(), index: Ghost(Map::empty()) };
        assert(t.allocations() =~= Seq::<Seq<char>>::empty());
        t
    }

    /// The content of allocation `id`.
    pub fn text(&self, id: usize) -> (r: &str)
        requires
            id < self.allocations().len(),
        ensures
            r@ == self.allocations()[id as int],
    {
        self.texts[id].as_str()
    }

    /// Makes `text` a new permanent allocation, without consulting or
    /// changing the uniquing table.
    fn allocate_text(&mut self, text: String) -> (id: usize)
        requires
            old(self).wf(),
        ensures
            statified(*old(self), *final(self), text@, None, id),
    {
        let ghost before = self.allocations();
        let ghost old_texts = self.texts@;
        let id = allocate(&mut self.texts, text);
        assert(self.allocations() =~= before.push(text@));
        assert forall|i: int| 0 <= i < old_texts.len() implies #[trigger] self.texts@[i] == old_texts[i] by {}
        assert forall|k: Seq<char>| #[trigger] self.index@.contains_key(k) implies
            exists|i: int| 0 <= i < self.canonical@.len() && self.canonical@[i] == self.index@[k] by {
            let i = choose|i: int| 0 <= i < old(self).canonical@.len() && old(self).canonical@[i] == old(self).index@[k];
            assert(self.canonical@[i] == self.index@[k]);
        }
        id
    }
}

/// `after` is `before` once `text` has been made permanent, and `id` is its
/// allocation: `existing` where the text already is an allocation of the
/// table, else one more allocation, holding `text`. The uniquing table is
/// unchanged.
pub open spec fn statified(
    before: SymbolTable,
    after: SymbolTable,
    text: Seq<char>,
    existing: Option<usize>,
    id: usize,
) -> bool {
    &&& after.wf()
    &&& after.canon() == before.canon()
    &&& match existing {
        Some(a) => id == a && after.allocations() == before.allocations(),
        None => id == before.allocations().len() && after.allocations() == before.allocations().push(text),
    }
}

/// `after` is `before` once `text` has been interned, and `id` is the
/// canonical allocation of `text`: the one already recorded if there was one,
/// else the text's own allocation `existing` where it already is one of the
/// table, else a new allocation; either of the last two becomes canonical.
pub open spec fn interned_into(
    before: SymbolTable,
    after: SymbolTable,
    text: Seq<char>,
    existing: Option<usize>,
    id: usize,
) -> bool {
    &&& after.wf()
    &&& if before.canon().contains_key(text) {
        &&& id == before.canon()[text]
        &&& after.allocations() == before.allocations()
        &&& after.canon() == before.canon()
    } else {
        &&& match existing {
            Some(a) => id == a && after.allocations() == before.allocations(),
            None => id == before.allocations().len() && after.allocations() == before.allocations().push(
                text,
            ),
        }
        &&& after.canon() == before.canon().insert(text, id)
    }
}

/// `after` is `before` once allocation `id` has been offered as canonical
/// for its content, and `r` is the allocation now canonical for it: the one
/// already recorded if there was one, else `id`.
pub open spec fn recorded(before: SymbolTable, after: SymbolTable, id: usize, r: usize) -> bool {
    let text = before.allocations()[id as int];
    &&& after.wf()
    &&& after.allocations() == before.allocations()
    &&& if before.canon().contains_key(text) {
        &&& r == before.canon()[text]
        &&& after.canon() == before.canon()
    } else {
        &&& r == id
        &&& after.canon() == before.canon().insert(text, id)
    }
}

/// The canonical allocation of `s`'s content, if that content was interned.
pub fn get_interned_string(table: &SymbolTable, s: &str) -> (r: Option<usize>)
    requires
        table.wf(),
    ensures
        r == (if table.canon().contains_key(s@) { Some(table.canon()[s@]) } else { None::<usize> }),
{
    let key = s.to_owned();
    let mut i: usize = 0;
    while i < table.canonical.len()
        invariant
            table.wf(),
            key@ == s@,
            i <= table.canonical@.len(),
            forall|j: int| 0 <= j < i ==> table.texts@[#[trigger] table.canonical@[j] as int]@ != s@,
        decreases table.canonical@.len() - i,
    {
        let c = table.canonical[i];
        assert(c == table.canonical@[i as int]);
        if table.texts[c] == key {
            return Some(c);
        }
        i = i + 1;
    }
    proof {
        if table.index@.contains_key(s@) {
            let j = choose|j: int| 0 <= j < table.canonical@.len() && table.canonical@[j] == table.index@[s@];
            assert(table.texts@[table.canonical@[j] as int]@ != s@);
        }
    }
    None
}

/// Records allocation `id` as canonical for its content, unless that content
/// already has a canonical allocation; returns whichever allocation the table
/// holds for the content afterwards. Lookup and insertion are one step, so
/// two callers that both missed in `get_interned_string` still end up with
/// the same allocation.
pub fn set_interned_string(table: &mut SymbolTable, id: usize) -> (r: usize)
    requires
        old(table).wf(),
        id < old(table).allocations().len(),
    ensures
        recorded(*old(table), *final(table), id, r),
{
    match get_interned_string(table, table.texts[id].as_str()) {
        Some(existing) => existing,
        None => {
            let ghost text = table.texts@[id as int]@;
            let ghost before = table.canonical@;
            table.canonical.push(id);
            table.index = Ghost(table.index@.insert(text, id));
            assert(table.canonical@[before.len() as int] == id);
            assert forall|k: Seq<char>| #[trigger] table.index@.contains_key(k) implies
                exists|i: int| 0 <= i < table.canonical@.len() && table.canonical@[i] == table.index@[k] by {
                if k != text {
                    let i = choose|i: int| 0 <= i < before.len() && before[i] == table.index@[k];
                    assert(table.canonical@[i] == before[i]);
                } else {
                    assert(table.canonical@[before.len() as int] == table.index@[k]);
                }
            }
            assert forall|i: int| 0 <= i < table.canonical@.len() implies {
                &&& #[trigger] table.canonical@[i] < table.texts@.len()
                &&& table.index@.contains_key(table.texts@[table.canonical@[i] as int]@)
                &&& table.index@[table.texts@[table.canonical@[i] as int]@] == table.canonical@[i]
            } by {
                if i < before.len() {
                    assert(table.canonical@[i] == before[i]);
                }
            }
            id
        },
    }
}

/// Text that can name a symbol: borrowed, owned, a reference to owned, or
/// an allocation that a table already holds.
pub trait StringInterner: Sized {
    /// The text can be used with `table`.
    spec fn usable_in(&self, table: SymbolTable) -> bool;

    /// The characters of the text, as read in `table`.
    spec fn content_in(&self, table: SymbolTable) -> Seq<char>;

    /// The allocation of the table that the text already is, if any.
    spec fn existing_allocation(&self) -> Option<usize>;

    /// The canonical allocation of this content in `table`: the one recorded
    /// if the content was interned before; else the text's own allocation, if
    /// it is one, or a new one; that allocation is then recorded as canonical.
    fn interned(self, table: &mut SymbolTable) -> (id: usize)
        requires
            old(table).wf(),
            self.usable_in(*old(table)),
        ensures
            interned_into(*old(table), *final(table), self.content_in(*old(table)), self.existing_allocation(), id),
    ;

    /// The text as a permanent allocation of `table`: its own allocation if
    /// it is one, else a new one. The uniquing table is neither consulted nor
    /// changed.
    fn statify(self, table: &mut SymbolTable) -> (id: usize)
        requires
            old(table).wf(),
            self.usable_in(*old(table)),
        ensures
            statified(*old(table), *final(table), self.content_in(*old(table)), self.existing_allocation(), id),
    ;
}

impl StringInterner for String {
    open spec fn usable_in(&self, table: SymbolTable) -> bool {
        true
    }

    open spec fn content_in(&self, table: SymbolTable) -> Seq<char> {
        self@
    }

    open spec fn existing_allocation(&self) -> Option<usize> {
        None
    }

    fn interned(self, table: &mut SymbolTable) -> (id: usize) {
        match get_interned_string(table, self.as_str()) {
            Some(existing) => existing,
            None => {
                let fresh = self.statify(table);
                set_interned_string(table, fresh)
            },
        }
    }

    fn statify(self, table: &mut SymbolTable) -> (id: usize) {
        table.allocate_text(self)
    }
}

impl<'a> StringInterner for &'a str {
    open spec fn usable_in(&self, table: SymbolTable) -> bool {
        true
    }

    open spec fn content_in(&self, table: SymbolTable) -> Seq<char> {
        (**self)@
    }

    open spec fn existing_allocation(&self) -> Option<usize> {
        None
    }

    fn interned(self, table: &mut SymbolTable) -> (id: usize) {
        match get_interned_string(table, self) {
            Some(existing) => existing,
            None => {
                let fresh = self.statify(table);
                set_interned_string(table, fresh)
            },
        }
    }

    fn statify(self, table: &mut SymbolTable) -> (id: usize) {
        table.allocate_text(self.to_owned())
    }
}

impl<'a> StringInterner for &'a String {
    open spec fn usable_in(&self, table: SymbolTable) -> bool {
        true
    }

    open spec fn content_in(&self, table: SymbolTable) -> Seq<char> {
        (**self)@
    }

    open spec fn existing_allocation(&self) -> Option<usize> {
        None
    }

    fn interned(self, table: &mut SymbolTable) -> (id: usize) {
        match get_interned_string(table, self.as_str()) {
            Some(existing) => existing,
            None => {
                let fresh = self.statify(table);
                set_interned_string(table, fresh)
            },
        }
    }

    fn statify(self, table: &mut SymbolTable) -> (id: usize) {
        table.allocate_text(self.clone())
    }
}

/// Text that already is a permanent allocation of a table, named by its
/// identity. Making it permanent again hands back the same allocation.
#[derive(Debug, Clone, Copy, PartialEq, Eq, Structural)]
pub struct Allocation {
    pub id: usize,
}

impl StringInterner for Allocation {
    open spec fn usable_in(&self, table: SymbolTable) -> bool {
        self.id < table.allocations().len()
    }

    open spec fn content_in(&self, table: SymbolTable) -> Seq<char> {
        table.allocations()[self.id as int]
    }

    open spec fn existing_allocation(&self) -> Option<usize> {
        Some(self.id)
    }

    fn interned(self, table: &mut SymbolTable) -> (id: usize) {
        match get_interned_string(table, table.text(self.id)) {
            Some(existing) => existing,
            None => set_interned_string(table, self.id),
        }
    }

    fn statify(self, table: &mut SymbolTable) -> (id: usize) {
        self.id
    }
}

/// A named entity. Two symbols are equal exactly when they refer to the same
/// allocation of their table, never merely because their names are equal.
#[derive(Debug, Clone, Copy, PartialEq, Eq, Structural)]
pub struct Symbol {
    name: usize,
}

impl Symbol {
    /// The allocation this symbol refers to.
    pub closed spec fn allocation(self) -> usize {
        self.name
    }

    /// Symbols are equal exactly when their allocations are.
    pub proof fn lemma_identity(a: Symbol, b: Symbol)
        ensures
            (a == b) == (a.allocation() == b.allocation()),
    {
    }

    /// The interned symbol named `name`.
    pub fn new<T: StringInterner>(table: &mut SymbolTable, name: T) -> (sym: Symbol)
        requires
            old(table).wf(),
            name.usable_in(*old(table)),
        ensures
            interned_into(
                *old(table),
                *final(table),
                name.content_in(*old(table)),
                name.existing_allocation(),
                sym.allocation(),
            ),
    {
        Symbol { name: name.interned(table) }
    }

    /// A symbol named `name` that is not interned. Made from text, its
    /// allocation is new, so it equals no symbol made before it, and
    /// interning equal text does not hand that allocation out (though
    /// `set_interned_string` may later record it as canonical). Made from an
    /// existing allocation, it shares that allocation, and so equals every
    /// symbol that does.
    pub fn new_uninterned<T: StringInterner>(table: &mut SymbolTable, name: T) -> (sym: Symbol)
        requires
            old(table).wf(),
            name.usable_in(*old(table)),
        ensures
            statified(
                *old(table),
                *final(table),
                name.content_in(*old(table)),
                name.existing_allocation(),
                sym.allocation(),
            ),
    {
        Symbol { name: name.statify(table) }
    }

    /// The name of this symbol, or `None` where its allocation is not one of
    /// `table`'s.
    pub fn name<'a>(&self, table: &'a SymbolTable) -> (r: Option<&'a str>)
        ensures
            r is Some <==> self.allocation() < table.allocations().len(),
            r is Some ==> r->0@ == table.allocations()[self.allocation() as int],
    {
        if self.name < table.texts.len() {
            Some(table.text(self.name))
        } else {
            None
        }
    }

    /// The interned symbol named `name`, if `name` was interned in `table`;
    /// looks only, and changes nothing.
    pub fn lookup(table: &SymbolTable, name: &str) -> (r: Option<Symbol>)
        requires
            table.wf(),
        ensures
            r is Some <==> table.canon().contains_key(name@),
            r is Some ==> r->0.allocation() == table.canon()[name@],
    {
        match get_interned_string(table, name) {
            Some(id) => Some(Symbol { name: id }),
            None => None,
        }
    }
}

/// Interning equal content twice gives the same allocation, whatever was
/// interned or allocated in between (the table only ever gains entries).
pub proof fn lemma_intern_twice(
    t0: SymbolTable,
    t1: SymbolTable,
    t2: SymbolTable,
    t3: SymbolTable,
    text: Seq<char>,
    e1: Option<usize>,
    e2: Option<usize>,
    first: usize,
    second: usize,
)
    requires
        t0.wf(),
        interned_into(t0, t1, text, e1, first),
        t1.canon().submap_of(t2.canon()),
        interned_into(t2, t3, text, e2, second),
    ensures
        first == second,
{
    assert(t1.canon().contains_key(text) && t1.canon()[text] == first);
}

/// Interning two different contents one after the other gives two different
/// allocations.
pub proof fn lemma_intern_distinct(
    t0: SymbolTable,
    t1: SymbolTable,
    t2: SymbolTable,
    a: Seq<char>,
    b: Seq<char>,
    ea: Option<usize>,
    eb: Option<usize>,
    ra: usize,
    rb: usize,
)
    requires
        t0.wf(),
        interned_into(t0, t1, a, ea, ra),
        interned_into(t1, t2, b, eb, rb),
        a != b,
    ensures
        ra != rb,
{
    lemma_canonical_holds_its_content(t1, a);
    lemma_canonical_holds_its_content(t2, b);
    assert(t2.allocations()[ra as int] == t1.allocations()[ra as int]);
}

/// In a well-formed table the canonical allocation of a content exists and
/// holds that content; hence different contents have different canonical
/// allocations.
pub proof fn lemma_canonical_holds_its_content(t: SymbolTable, text: Seq<char>)
    requires
        t.wf(),
        t.canon().contains_key(text),
    ensures
        t.canon()[text] < t.allocations().len(),
        t.allocations()[t.canon()[text] as int] == text,
{
}

/// An uninterned symbol made from text after interning equal content does
/// not get the interned allocation.
pub proof fn lemma_uninterned_after_interned(
    t0: SymbolTable,
    t1: SymbolTable,
    t2: SymbolTable,
    text: Seq<char>,
    e: Option<usize>,
    interned: usize,
    uninterned: usize,
)
    requires
        t0.wf(),
        interned_into(t0, t1, text, e, interned),
        statified(t1, t2, text, None, uninterned),
    ensures
        interned != uninterned,
{
    lemma_canonical_holds_its_content(t1, text);
}

/// Interning text after an uninterned symbol was made from equal text does
/// not hand out the uninterned allocation.
pub proof fn lemma_interned_after_uninterned(
    t0: SymbolTable,
    t1: SymbolTable,
    t2: SymbolTable,
    text: Seq<char>,
    uninterned: usize,
    interned: usize,
)
    requires
        t0.wf(),
        statified(t0, t1, text, None, uninterned),
        interned_into(t1, t2, text, None, interned),
    ensures
        interned != uninterned,
{
    if t1.canon().contains_key(text) {
        lemma_canonical_holds_its_content(t0, text);
    }
}

/// Two uninterned symbols made from separately owned equal text have
/// different allocations.
pub proof fn lemma_uninterned_twice(
    t0: SymbolTable,
    t1: SymbolTable,
    t2: SymbolTable,
    text: Seq<char>,
    first: usize,
    second: usize,
)
    requires
        t0.wf(),
        statified(t0, t1, text, None, first),
        statified(t1, t2, text, None, second),
    ensures
        first != second,
{
}

/// Two uninterned symbols made from one existing allocation share it.
pub proof fn lemma_uninterned_shared(
    t0: SymbolTable,
    t1: SymbolTable,
    t2: SymbolTable,
    a: usize,
    first: usize,
    second: usize,
)
    requires
        t0.wf(),
        a < t0.allocations().len(),
        statified(t0, t1, t0.allocations()[a as int], Some(a), first),
        statified(t1, t2, t1.allocations()[a as int], Some(a), second),
    ensures
        first == a,
        second == a,
{
}

/// Callers that race to intern equal content, each having missed the table
/// and made its own allocation, all end up with one canonical allocation:
/// whoever records second is handed the allocation recorded first, whatever
/// the table gained in between.
pub proof fn lemma_racing_records_agree(
    t0: SymbolTable,
    t1: SymbolTable,
    t2: SymbolTable,
    t3: SymbolTable,
    id1: usize,
    id2: usize,
    r1: usize,
    r2: usize,
)
    requires
        t0.wf(),
        t2.wf(),
        id1 < t0.allocations().len(),
        id2 < t2.allocations().len(),
        t0.allocations()[id1 as int] == t2.allocations()[id2 as int],
        recorded(t0, t1, id1, r1),
        t1.canon().submap_of(t2.canon()),
        recorded(t2, t3, id2, r2),
    ensures
        r1 == r2,
{
    let text = t0.allocations()[id1 as int];
    assert(t1.canon().contains_key(text) && t1.canon()[text] == r1);
}

} // verus!
