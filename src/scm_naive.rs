use vstd::prelude::*;

use crate::memory::allocate;
use crate::symbol::{interned_into, StringInterner, Symbol, SymbolTable};

verus! {

/// Cell of the sentinel that fills a fresh vector.
pub const UNINITIALIZED: usize = 0;

/// Cell of the empty list.
pub const NIL: usize = 1;

/// Cell of true.
pub const TRUE: usize = 2;

/// Cell of false.
pub const FALSE: usize = 3;

/// A handle to an immutable datum of a `Heap`. Handles are plain values: two
/// are equal exactly when they name the same cell.
#[derive(Debug, Clone, Copy, PartialEq, Eq, Structural)]
pub struct Scm {
    pub value: usize,
}

/// The payload of a datum.
///
/// The procedure types are chosen by the evaluator: `P` for native
/// procedures (typically functions returning either a datum or an error of
/// the evaluator's own kind), `F` for the evaluator's own procedures, and `C`
/// for state-capturing callables, such as a boxed closure over captured
/// values. The variant of a native procedure gives its calling convention:
/// `Primitive0` to `Primitive3` take that many arguments, `Primitive` takes
/// them all as one list.
pub enum ScmBox<P, F, C> {
    Uninitialized,
    Nil,
    True,
    False,
    Char(char),
    Symbol(Symbol),
    Integer(i64),
    /// The bit pattern of an IEEE 754 binary64 number.
    Float(u64),
    Pair(Scm, Scm),
    Vector(Vec<Scm>),
    String(String),
    Function(F),
    Primitive(P),
    Primitive0(P),
    Primitive1(P),
    Primitive2(P),
    Primitive3(P),
    PrimitiveWithState(C),
}

/// The datums of one runtime, and its symbol table. Cells are allocated and
/// never freed or changed, so a handle keeps naming the same datum.
pub struct Heap<P, F, C> {
    cells: Vec<ScmBox<P, F, C>>,
    symbols: SymbolTable,
}

impl<P, F, C> Heap<P, F, C> {
    /// The payload of each cell, by handle.
    pub closed spec fn cells(&self) -> Seq<ScmBox<P, F, C>> {
        self.cells@
    }

    /// The symbol table that symbols of this heap are interned in.
    pub closed spec fn symbols(&self) -> SymbolTable {
        self.symbols
    }

    /// The four fixed cells hold their singletons and the symbol table is
    /// well formed.
    pub open spec fn wf(&self) -> bool {
        &&& self.cells().len() >= 4
        &&& self.cells()[UNINITIALIZED as int] is Uninitialized
        &&& self.cells()[NIL as int] is Nil
        &&& self.cells()[TRUE as int] is True
        &&& self.cells()[FALSE as int] is False
        &&& self.symbols().wf()
    }

    /// A heap that holds only the four singletons, with an empty symbol table.
    pub fn new() -> (h: Self)
        ensures
            h.wf(),
            h.cells().len() == 4,
            h.symbols().allocations().len() == 0,
            h.symbols().canon() == Map::<Seq<char>, usize>::empty(),
    {
        let mut cells: Vec<ScmBox<P, F, C>> = Vec::new();
        cells.push(ScmBox::Uninitialized);
        cells.push(ScmBox::Nil);
        cells.push(ScmBox::True);
        cells.push(ScmBox::False);
        Heap { cells, symbols: SymbolTable::new() }
    }

    /// The payload that `x` names.
    pub fn get(&self, x: Scm) -> (r: &ScmBox<P, F, C>)
        requires
            x.handle() < self.cells().len(),
        ensures
            *r == self.cells()[x.handle() as int],
    {
        &self.cells[x.value]
    }

    /// The two handles of the pair that `x` names, or `None` where `x` names
    /// no pair.
    pub fn uncons(&self, x: Scm) -> (r: Option<(Scm, Scm)>)
        requires
            x.handle() < self.cells().len(),
        ensures
            r == (match self.cells()[x.handle() as int] {
                ScmBox::Pair(car, cdr) => Some((car, cdr)),
                _ => None::<(Scm, Scm)>,
            }),
    {
        match &self.cells[x.value] {
            ScmBox::Pair(car, cdr) => Some((*car, *cdr)),
            _ => None,
        }
    }

    /// The symbol table of this heap.
    pub fn symbol_table(&self) -> (r: &SymbolTable)
        ensures
            *r == self.symbols(),
    {
        &self.symbols
    }

    /// Allocates one cell holding `payload`, such as a procedure.
    pub fn allocate_cell(&mut self, payload: ScmBox<P, F, C>) -> (r: Scm)
        requires
            old(self).wf(),
        ensures
            allocated(*old(self), *final(self), payload, r),
    {
        Scm::new(allocate(&mut self.cells, payload))
    }
}

/// `after` is `before` with one more cell, named by `r`, holding a symbol:
/// the one interned for `name` in the heap's table.
pub open spec fn symbol_allocated<P, F, C, T: StringInterner>(before: Heap<P, F, C>, after: Heap<P, F, C>, name: T, r: Scm) -> bool {
    &&& after.wf()
    &&& r.handle() == before.cells().len()
    &&& after.cells() == before.cells().push(after.cells()[r.handle() as int])
    &&& match after.cells()[r.handle() as int] {
        ScmBox::Symbol(sym) => interned_into(
            before.symbols(),
            after.symbols(),
            name.content_in(before.symbols()),
            name.existing_allocation(),
            sym.allocation(),
        ),
        _ => false,
    }
}

/// `after` is `before` with one more cell, named by `r`, holding `payload`;
/// the symbol table is unchanged.
pub open spec fn allocated<P, F, C>(before: Heap<P, F, C>, after: Heap<P, F, C>, payload: ScmBox<P, F, C>, r: Scm) -> bool {
    &&& after.wf()
    &&& r.handle() == before.cells().len()
    &&& after.cells() == before.cells().push(payload)
    &&& after.symbols() == before.symbols()
}

impl Scm {
    /// The cell this handle names.
    pub open spec fn handle(self) -> usize {
        self.value
    }

    /// The handle of cell `value`.
    pub fn new(value: usize) -> (r: Scm)
        ensures
            r.handle() == value,
    {
        Scm { value }
    }

    /// The sentinel that fills fresh vectors.
    pub fn uninitialized() -> (r: Scm)
        ensures
            r.handle() == UNINITIALIZED,
    {
        Scm::new(UNINITIALIZED)
    }

    /// The empty list: the same handle on every call.
    pub fn nil() -> (r: Scm)
        ensures
            r.handle() == NIL,
    {
        Scm::new(NIL)
    }

    /// True or false: the same handle for each on every call.
    pub fn bool(b: bool) -> (r: Scm)
        ensures
            r.handle() == (if b { TRUE } else { FALSE }),
    {
        if b {
            Scm::new(TRUE)
        } else {
            Scm::new(FALSE)
        }
    }

    /// A new character datum.
    pub fn char<P, F, C>(heap: &mut Heap<P, F, C>, ch: char) -> (r: Scm)
        requires
            old(heap).wf(),
        ensures
            allocated(*old(heap), *final(heap), ScmBox::Char(ch), r),
    {
        heap.allocate_cell(ScmBox::Char(ch))
    }

    /// A new symbol datum, whose symbol is the one interned for `name`.
    pub fn new_symbol<P, F, C, T: StringInterner>(heap: &mut Heap<P, F, C>, name: T) -> (r: Scm)
        requires
            old(heap).wf(),
            name.usable_in(old(heap).symbols()),
        ensures
            symbol_allocated(*old(heap), *final(heap), name, r),
    {
        let sym = Symbol::new(&mut heap.symbols, name);
        Scm::new(allocate(&mut heap.cells, ScmBox::Symbol(sym)))
    }

    /// A new integer datum.
    pub fn integer<P, F, C>(heap: &mut Heap<P, F, C>, i: i64) -> (r: Scm)
        requires
            old(heap).wf(),
        ensures
            allocated(*old(heap), *final(heap), ScmBox::Integer(i), r),
    {
        heap.allocate_cell(ScmBox::Integer(i))
    }

    /// A new floating-point datum, given by its IEEE 754 binary64 bits.
    pub fn float<P, F, C>(heap: &mut Heap<P, F, C>, bits: u64) -> (r: Scm)
        requires
            old(heap).wf(),
        ensures
            allocated(*old(heap), *final(heap), ScmBox::Float(bits), r),
    {
        heap.allocate_cell(ScmBox::Float(bits))
    }

    /// A new pair holding `car` and `cdr` themselves.
    pub fn cons<P, F, C>(heap: &mut Heap<P, F, C>, car: Scm, cdr: Scm) -> (r: Scm)
        requires
            old(heap).wf(),
        ensures
            allocated(*old(heap), *final(heap), ScmBox::Pair(car, cdr), r),
    {
        heap.allocate_cell(ScmBox::Pair(car, cdr))
    }

    /// A new vector of `size` slots, each holding the sentinel. Nothing checks
    /// later that the slots were given real values.
    pub fn vect<P, F, C>(heap: &mut Heap<P, F, C>, size: usize) -> (r: Scm)
        requires
            old(heap).wf(),
        ensures
            final(heap).wf(),
            r.handle() == old(heap).cells().len(),
            final(heap).cells() == old(heap).cells().push(final(heap).cells()[r.handle() as int]),
            final(heap).symbols() == old(heap).symbols(),
            match final(heap).cells()[r.handle() as int] {
                ScmBox::Vector(v) => v@.len() == size && forall|i: int|
                    0 <= i < size ==> (#[trigger] v@[i]).handle() == UNINITIALIZED,
                _ => false,
            },
    {
        let mut slots: Vec<Scm> = Vec::new();
        let mut i: usize = 0;
        while i < size
            invariant
                i <= size,
                slots@.len() == i,
                forall|j: int| 0 <= j < i ==> (#[trigger] slots@[j]).handle() == UNINITIALIZED,
            decreases size - i,
        {
            slots.push(Scm::uninitialized());
            i = i + 1;
        }
        heap.allocate_cell(ScmBox::Vector(slots))
    }

    /// A new string datum.
    pub fn string<P, F, C>(heap: &mut Heap<P, F, C>, s: String) -> (r: Scm)
        requires
            old(heap).wf(),
        ensures
            allocated(*old(heap), *final(heap), ScmBox::String(s), r),
    {
        heap.allocate_cell(ScmBox::String(s))
    }
}

/// The constructors that a datum representation offers, so that a reader or
/// an evaluator can be written against them rather than against one
/// representation and its way of allocating. `S` is where the representation
/// keeps its datums.
pub trait SchemeValue<S>: Sized {
    /// `store` is fit to allocate in.
    spec fn valid_store(store: &S) -> bool;

    /// The symbol table that symbols of `store` are interned in.
    spec fn symbols_of(store: &S) -> SymbolTable;

    fn nil() -> Self;

    fn bool(b: bool) -> Self;

    fn char(store: &mut S, ch: char) -> (r: Self)
        requires
            Self::valid_store(old(store)),
        ensures
            Self::valid_store(final(store)),
    ;

    fn symbol<T: StringInterner>(store: &mut S, name: T) -> (r: Self)
        requires
            Self::valid_store(old(store)),
            name.usable_in(Self::symbols_of(old(store))),
        ensures
            Self::valid_store(final(store)),
    ;

    fn integer(store: &mut S, i: i64) -> (r: Self)
        requires
            Self::valid_store(old(store)),
        ensures
            Self::valid_store(final(store)),
    ;

    fn float(store: &mut S, bits: u64) -> (r: Self)
        requires
            Self::valid_store(old(store)),
        ensures
            Self::valid_store(final(store)),
    ;

    fn cons(store: &mut S, car: Self, cdr: Self) -> (r: Self)
        requires
            Self::valid_store(old(store)),
        ensures
            Self::valid_store(final(store)),
    ;

    fn vect(store: &mut S, size: usize) -> (r: Self)
        requires
            Self::valid_store(old(store)),
        ensures
            Self::valid_store(final(store)),
    ;

    fn string(store: &mut S, s: String) -> (r: Self)
        requires
            Self::valid_store(old(store)),
        ensures
            Self::valid_store(final(store)),
    ;
}

impl<P, F, C> SchemeValue<Heap<P, F, C>> for Scm {
    open spec fn valid_store(store: &Heap<P, F, C>) -> bool {
        store.wf()
    }

    open spec fn symbols_of(store: &Heap<P, F, C>) -> SymbolTable {
        store.symbols()
    }

    fn nil() -> (r: Scm)
        ensures
            r.handle() == NIL,
    {
        Scm::nil()
    }

    fn bool(b: bool) -> (r: Scm)
        ensures
            r.handle() == (if b { TRUE } else { FALSE }),
    {
        Scm::bool(b)
    }

    fn char(store: &mut Heap<P, F, C>, ch: char) -> (r: Scm)
        ensures
            allocated(*old(store), *final(store), ScmBox::Char(ch), r),
    {
        Scm::char(store, ch)
    }

    fn symbol<T: StringInterner>(store: &mut Heap<P, F, C>, name: T) -> (r: Scm)
        ensures
            symbol_allocated(*old(store), *final(store), name, r),
    {
        Scm::new_symbol(store, name)
    }

    fn integer(store: &mut Heap<P, F, C>, i: i64) -> (r: Scm)
        ensures
            allocated(*old(store), *final(store), ScmBox::Integer(i), r),
    {
        Scm::integer(store, i)
    }

    fn float(store: &mut Heap<P, F, C>, bits: u64) -> (r: Scm)
        ensures
            allocated(*old(store), *final(store), ScmBox::Float(bits), r),
    {
        Scm::float(store, bits)
    }

    fn cons(store: &mut Heap<P, F, C>, car: Scm, cdr: Scm) -> (r: Scm)
        ensures
            allocated(*old(store), *final(store), ScmBox::Pair(car, cdr), r),
    {
        Scm::cons(store, car, cdr)
    }

    fn vect(store: &mut Heap<P, F, C>, size: usize) -> (r: Scm)
        ensures
            r.handle() == old(store).cells().len(),
            final(store).cells() == old(store).cells().push(final(store).cells()[r.handle() as int]),
            final(store).symbols() == old(store).symbols(),
            match final(store).cells()[r.handle() as int] {
                ScmBox::Vector(v) => v@.len() == size && forall|i: int|
                    0 <= i < size ==> (#[trigger] v@[i]).handle() == UNINITIALIZED,
                _ => false,
            },
    {
        Scm::vect(store, size)
    }

    fn string(store: &mut Heap<P, F, C>, s: String) -> (r: Scm)
        ensures
            allocated(*old(store), *final(store), ScmBox::String(s), r),
    {
        Scm::string(store, s)
    }
}

/// Taking apart a pair made by `cons` gives back the very handles it was
/// made from, and the cells that existed before still hold what they held.
pub proof fn lemma_cons_round_trip<P, F, C>(before: Heap<P, F, C>, after: Heap<P, F, C>, car: Scm, cdr: Scm, r: Scm)
    requires
        before.wf(),
        allocated(before, after, ScmBox::Pair(car, cdr), r),
    ensures
        r.handle() < after.cells().len(),
        after.cells()[r.handle() as int] == ScmBox::<P, F, C>::Pair(car, cdr),
        forall|i: int| 0 <= i < before.cells().len() ==> #[trigger] after.cells()[i] == before.cells()[i],
{
}

} // verus!
