use crate::backend::writer::{
    CodeBuilder, CodeBuilderModel, Label, LabelModel, Section, SectionKind, SectionModel,
};
use crate::reporter::obj::ObjectError;
use object::write::{Object, Relocation, SectionId, Symbol, SymbolId, SymbolSection};
use object::SectionKind as OutsideSectionKind;
use object::SymbolKind as OutsideSymbolKind;
use object::SymbolScope as OutsideSymbolScope;
use object::{Architecture, BinaryFormat, Endianness, RelocationFlags, SymbolFlags};
use vstd::prelude::*;
use vstd::string::StrSliceExecFns;
use vstd::utf8::encode_utf8;

verus! {

/// What a symbol names.
#[derive(Debug, Clone, Copy, PartialEq, Eq, Structural)]
pub enum SymbolKind {
    Unknown,
    Text,
    Data,
    File,
    Label,
    Tls,
}

/// How far a symbol is visible.
#[derive(Debug, Clone, Copy, PartialEq, Eq, Structural)]
pub enum SymbolScope {
    Unknown,
    Compilation,
    Linkage,
    Dynamic,
}

/// What a relocation computes.
#[derive(Debug, Clone, Copy, PartialEq, Eq, Structural)]
pub enum RelocationKind {
    Absolute,
    Relative,
    PltRelative,
}

/// How the result of a relocation is stored in the instruction.
#[derive(Debug, Clone, Copy, PartialEq, Eq, Structural)]
pub enum RelocationEncoding {
    Generic,
    X86Signed,
    X86RipRelative,
    X86Branch,
}

/// A section as it will be written.
#[derive(Debug)]
pub struct PlannedSection {
    pub name: String,
    pub kind: SectionKind,
    pub data: Vec<u8>,
}

pub struct SectionPlan {
    pub name: Seq<char>,
    pub kind: SectionKind,
    pub data: Seq<u8>,
}

impl View for PlannedSection {
    type V = SectionPlan;

    open spec fn view(&self) -> SectionPlan {
        SectionPlan { name: self.name@, kind: self.kind, data: self.data@ }
    }
}

/// A symbol as it will be written. One without a section is undefined.
#[derive(Debug)]
pub struct PlannedSymbol {
    pub name: String,
    pub value: u64,
    pub size: u64,
    pub kind: SymbolKind,
    pub scope: SymbolScope,
    pub weak: bool,
    pub section: Option<usize>,
}

pub struct SymbolPlan {
    pub name: Seq<char>,
    pub value: u64,
    pub size: u64,
    pub kind: SymbolKind,
    pub scope: SymbolScope,
    pub weak: bool,
    pub section: Option<usize>,
}

impl View for PlannedSymbol {
    type V = SymbolPlan;

    open spec fn view(&self) -> SymbolPlan {
        SymbolPlan {
            name: self.name@,
            value: self.value,
            size: self.size,
            kind: self.kind,
            scope: self.scope,
            weak: self.weak,
            section: self.section,
        }
    }
}

/// A relocation as it will be written: where, against which symbol, and how.
#[derive(Debug)]
pub struct PlannedRelocation {
    pub section: usize,
    pub offset: u64,
    pub symbol: usize,
    pub name: String,
    pub addend: i64,
    pub kind: RelocationKind,
    pub encoding: RelocationEncoding,
    pub size: u8,
}

pub struct RelocationPlan {
    pub section: usize,
    pub offset: u64,
    pub symbol: usize,
    pub name: Seq<char>,
    pub addend: i64,
    pub kind: RelocationKind,
    pub encoding: RelocationEncoding,
    pub size: u8,
}

impl View for PlannedRelocation {
    type V = RelocationPlan;

    open spec fn view(&self) -> RelocationPlan {
        RelocationPlan {
            section: self.section,
            offset: self.offset,
            symbol: self.symbol,
            name: self.name@,
            addend: self.addend,
            kind: self.kind,
            encoding: self.encoding,
            size: self.size,
        }
    }
}

/// The symbol table that the first `n` entries make: each name with the
/// section and the symbol that were entered for it last.
pub open spec fn table_of(entries: Seq<(Seq<char>, (usize, usize))>, n: nat) -> Map<
    Seq<char>,
    (usize, usize),
>
    decreases n,
{
    if n == 0 || n > entries.len() {
        Map::empty()
    } else {
        table_of(entries, (n - 1) as nat).insert(entries[n - 1].0, entries[n - 1].1)
    }
}

/// What an [`ObjectBuilder`] stands for: the object file as it will be written.
pub struct ObjectPlan {
    pub symbols: Map<Seq<char>, (usize, usize)>,
    pub sections: Seq<SectionPlan>,
    pub symbol_list: Seq<SymbolPlan>,
    pub relocs: Seq<RelocationPlan>,
}

/// Puts an object file together from the code of a [`CodeBuilder`].
#[derive(Debug)]
pub struct ObjectBuilder {
    /// The symbol table: names with their section and their place in
    /// `symbol_list`. A later entry for a name replaces an earlier one.
    pub symbols: Vec<(String, (usize, usize))>,
    pub relocs: Vec<PlannedRelocation>,
    pub sections: Vec<PlannedSection>,
    pub symbol_list: Vec<PlannedSymbol>,
}

/// The entries of a symbol table, with the names as sequences.
pub open spec fn entries_model(v: Vec<(String, (usize, usize))>) -> Seq<(Seq<char>, (usize, usize))> {
    Seq::new(v@.len(), |k: int| (v@[k].0@, v@[k].1))
}

impl View for ObjectBuilder {
    type V = ObjectPlan;

    open spec fn view(&self) -> ObjectPlan {
        ObjectPlan {
            symbols: table_of(entries_model(self.symbols), self.symbols@.len()),
            sections: Seq::new(self.sections@.len(), |k: int| self.sections@[k]@),
            symbol_list: Seq::new(self.symbol_list@.len(), |k: int| self.symbol_list@[k]@),
            relocs: Seq::new(self.relocs@.len(), |k: int| self.relocs@[k]@),
        }
    }
}

/// The symbol that stands for a name from elsewhere.
pub open spec fn undefined_symbol(name: Seq<char>) -> SymbolPlan {
    SymbolPlan {
        name,
        value: 0,
        size: 0,
        kind: SymbolKind::Unknown,
        scope: SymbolScope::Unknown,
        weak: false,
        section: None,
    }
}

/// Whether a label is private to its file: its name begins with a dot.
pub open spec fn is_private(name: Seq<char>) -> bool {
    name.len() > 0 && name[0] == '.'
}

/// The symbol of a label in the section at `section`: at the offset of the
/// label and as long as its code; local to the file, or global where the
/// label is marked so.
pub open spec fn label_symbol(label: LabelModel, section: usize) -> SymbolPlan {
    SymbolPlan {
        name: label.name,
        value: label.offset as u64,
        size: label.code.len() as u64,
        kind: SymbolKind::Text,
        scope: if label.global {
            SymbolScope::Dynamic
        } else {
            SymbolScope::Compilation
        },
        weak: label.weak,
        section: Some(section),
    }
}

/// The code of the first `n` labels, one after the other.
pub open spec fn code_of(labels: Seq<LabelModel>, n: nat) -> Seq<u8>
    decreases n,
{
    if n == 0 || n > labels.len() {
        Seq::empty()
    } else {
        code_of(labels, (n - 1) as nat) + labels[n - 1].code
    }
}

/// The plan with one more section, empty.
pub open spec fn with_section(p: ObjectPlan, name: Seq<char>, kind: SectionKind) -> ObjectPlan {
    ObjectPlan { sections: p.sections.push(SectionPlan { name, kind, data: Seq::empty() }), ..p }
}

/// The plan with one more symbol, entered in the symbol table under its name
/// with the section `section`.
pub open spec fn with_symbol(p: ObjectPlan, symbol: SymbolPlan, section: usize) -> ObjectPlan {
    ObjectPlan {
        symbols: p.symbols.insert(symbol.name, (section, p.symbol_list.len() as usize)),
        symbol_list: p.symbol_list.push(symbol),
        ..p
    }
}

/// The plan with a section for each of the first `n` sections of the code.
pub open spec fn with_sections(p: ObjectPlan, sections: Seq<SectionModel>, n: nat) -> ObjectPlan
    decreases n,
{
    if n == 0 || n > sections.len() {
        p
    } else {
        with_section(with_sections(p, sections, (n - 1) as nat), sections[n - 1].name, sections[n - 1].kind)
    }
}

/// The plan with an undefined symbol for each of the first `n` outside names.
pub open spec fn with_externs(p: ObjectPlan, external: Seq<(usize, Seq<char>)>, n: nat) -> ObjectPlan
    decreases n,
{
    if n == 0 || n > external.len() {
        p
    } else {
        with_symbol(
            with_externs(p, external, (n - 1) as nat),
            undefined_symbol(external[n - 1].1),
            external[n - 1].0,
        )
    }
}

/// The plan with a symbol for each of the first `n` labels that is not private.
pub open spec fn with_labels(p: ObjectPlan, labels: Seq<LabelModel>, n: nat, section: usize) -> ObjectPlan
    decreases n,
{
    if n == 0 || n > labels.len() {
        p
    } else {
        let head = with_labels(p, labels, (n - 1) as nat, section);
        if is_private(labels[n - 1].name) {
            head
        } else {
            with_symbol(head, label_symbol(labels[n - 1], section), section)
        }
    }
}

/// The plan with the symbols and the data of one section of the code.
pub open spec fn with_section_content(p: ObjectPlan, section: SectionModel) -> ObjectPlan {
    let q = with_labels(p, section.labels, section.labels.len(), section.i);
    ObjectPlan {
        sections: q.sections.update(
            section.i as int,
            SectionPlan {
                data: code_of(section.labels, section.labels.len()),
                ..q.sections[section.i as int]
            },
        ),
        ..q
    }
}

/// The plan with the symbols and the data of the first `n` sections of the code.
pub open spec fn with_contents(p: ObjectPlan, sections: Seq<SectionModel>, n: nat) -> ObjectPlan
    decreases n,
{
    if n == 0 || n > sections.len() {
        p
    } else {
        with_section_content(with_contents(p, sections, (n - 1) as nat), sections[n - 1])
    }
}

/// The relocation for an unresolved reference: relative to the instruction
/// pointer, 32 bits wide, with the addend -4 that makes up for the width of
/// the displacement.
pub open spec fn relocation(section: usize, name: Seq<char>, offset: isize, symbol: usize) -> RelocationPlan {
    RelocationPlan {
        section,
        offset: offset as u64,
        symbol,
        name,
        addend: -4i64,
        kind: RelocationKind::Relative,
        encoding: RelocationEncoding::X86RipRelative,
        size: 32,
    }
}

/// How many of the first `n` unresolved references have their symbol in the
/// table: all `n`, or the number before the first that has not.
pub open spec fn resolvable(p: ObjectPlan, relocs: Seq<(usize, Seq<char>, isize)>, n: nat) -> nat
    decreases n,
{
    if n == 0 || n > relocs.len() {
        0
    } else {
        let head = resolvable(p, relocs, (n - 1) as nat);
        if head == n - 1 && p.symbols.dom().contains(relocs[n - 1].1) {
            n
        } else {
            head
        }
    }
}

/// The plan with a relocation for each of the first `n` unresolved references.
pub open spec fn with_relocations(p: ObjectPlan, relocs: Seq<(usize, Seq<char>, isize)>, n: nat) -> ObjectPlan
    decreases n,
{
    if n == 0 || n > relocs.len() {
        p
    } else {
        let head = with_relocations(p, relocs, (n - 1) as nat);
        let r = relocs[n - 1];
        ObjectPlan { relocs: head.relocs.push(relocation(r.0, r.1, r.2, p.symbols[r.1].1)), ..head }
    }
}

/// The plan without anything in it.
pub open spec fn empty_plan() -> ObjectPlan {
    ObjectPlan {
        symbols: Map::empty(),
        sections: Seq::empty(),
        symbol_list: Seq::empty(),
        relocs: Seq::empty(),
    }
}

/// The sections and the symbols of the object file for this code: a section
/// for each section of the code, an undefined symbol for each outside name,
/// and a symbol for each label that is not private.
pub open spec fn laid_out(cb: CodeBuilderModel) -> ObjectPlan {
    with_contents(
        with_externs(
            with_sections(empty_plan(), cb.sections, cb.sections.len()),
            cb.external,
            cb.external.len(),
        ),
        cb.sections,
        cb.sections.len(),
    )
}

/// How many of the unresolved references of the code, counted from the
/// first, have a symbol in the object file.
pub open spec fn linked(cb: CodeBuilderModel) -> nat {
    resolvable(laid_out(cb), cb.relocs, cb.relocs.len())
}

/// The object file for this code, with a relocation for each unresolved
/// reference up to the first that has no symbol.
pub open spec fn planned(cb: CodeBuilderModel) -> ObjectPlan {
    with_relocations(laid_out(cb), cb.relocs, linked(cb))
}

/// Planning symbols for labels leaves the sections as they are.
pub proof fn lemma_labels_keep_sections(p: ObjectPlan, labels: Seq<LabelModel>, n: nat, section: usize)
    ensures
        with_labels(p, labels, n, section).sections == p.sections,
        with_labels(p, labels, n, section).relocs == p.relocs,
    decreases n,
{
    if n > 0 && n <= labels.len() {
        lemma_labels_keep_sections(p, labels, (n - 1) as nat, section);
    }
}

/// Planning sections adds one section for each section of the code.
pub proof fn lemma_sections_counted(p: ObjectPlan, sections: Seq<SectionModel>, n: nat)
    requires
        n <= sections.len(),
    ensures
        with_sections(p, sections, n).sections.len() == p.sections.len() + n,
    decreases n,
{
    if n > 0 {
        lemma_sections_counted(p, sections, (n - 1) as nat);
    }
}

/// Planning outside names leaves the sections as they are.
pub proof fn lemma_externs_keep_sections(p: ObjectPlan, external: Seq<(usize, Seq<char>)>, n: nat)
    ensures
        with_externs(p, external, n).sections == p.sections,
    decreases n,
{
    if n > 0 && n <= external.len() {
        lemma_externs_keep_sections(p, external, (n - 1) as nat);
    }
}

/// Once a reference has no symbol, the count of those that have stays where it is.
pub proof fn lemma_resolvable_stops(p: ObjectPlan, relocs: Seq<(usize, Seq<char>, isize)>, k: nat, n: nat)
    requires
        k < n <= relocs.len(),
        resolvable(p, relocs, k) == k,
        !p.symbols.dom().contains(relocs[k as int].1),
    ensures
        resolvable(p, relocs, n) == k,
    decreases n,
{
    if n > k + 1 {
        lemma_resolvable_stops(p, relocs, k, (n - 1) as nat);
    }
}

/// A builder whose lists are those of another but for new items at their
/// ends has the model that the items make of the model of the other.
proof fn lemma_symbol_added(before: ObjectBuilder, after: ObjectBuilder, section: usize)
    requires
        after.sections == before.sections,
        after.relocs == before.relocs,
        after.symbol_list@.len() == before.symbol_list@.len() + 1,
        forall|k: int|
            0 <= k < before.symbol_list@.len() ==> after.symbol_list@[k] == before.symbol_list@[k],
        after.symbols@.len() == before.symbols@.len() + 1,
        forall|k: int| 0 <= k < before.symbols@.len() ==> after.symbols@[k] == before.symbols@[k],
        after.symbols@.last().0@ == after.symbol_list@.last().name@,
        after.symbols@.last().1 == (section, before.symbol_list@.len() as usize),
    ensures
        after@ == with_symbol(before@, after.symbol_list@.last()@, section),
{
    let n = before.symbols@.len();
    lemma_table_prefix(entries_model(after.symbols), entries_model(before.symbols), n);
    assert(after@.symbols =~= with_symbol(before@, after.symbol_list@.last()@, section).symbols);
    assert(after@.symbol_list =~= before@.symbol_list.push(after.symbol_list@.last()@));
    assert(after@.sections =~= before@.sections);
    assert(after@.relocs =~= before@.relocs);
}

/// Two lists of entries that agree on their first `n` entries make the same table of them.
proof fn lemma_table_prefix(
    a: Seq<(Seq<char>, (usize, usize))>,
    b: Seq<(Seq<char>, (usize, usize))>,
    n: nat,
)
    requires
        n <= a.len(),
        n <= b.len(),
        forall|k: int| 0 <= k < n ==> a[k] == b[k],
    ensures
        table_of(a, n) == table_of(b, n),
    decreases n,
{
    if n > 0 {
        lemma_table_prefix(a, b, (n - 1) as nat);
    }
}

impl ObjectBuilder {
    /// A builder with nothing to write yet.
    pub fn new() -> (builder: ObjectBuilder)
        ensures
            builder@ == (ObjectPlan {
                symbols: Map::empty(),
                sections: Seq::empty(),
                symbol_list: Seq::empty(),
                relocs: Seq::empty(),
            }),
    {
        let builder = ObjectBuilder {
            symbols: Vec::new(),
            relocs: Vec::new(),
            sections: Vec::new(),
            symbol_list: Vec::new(),
        };
        assert(builder@.sections =~= Seq::<SectionPlan>::empty());
        assert(builder@.symbol_list =~= Seq::<SymbolPlan>::empty());
        assert(builder@.relocs =~= Seq::<RelocationPlan>::empty());
        builder
    }

    /// Adds an empty section, and returns its place.
    pub fn add_section(&mut self, name: String, kind: SectionKind) -> (i: usize)
        ensures
            i == old(self)@.sections.len(),
            final(self)@ == with_section(old(self)@, name@, kind),
    {
        let i = self.sections.len();
        self.sections.push(PlannedSection { name, kind, data: Vec::new() });
        proof {
            assert(self@.sections =~= with_section(old(self)@, name@, kind).sections);
            assert(self@.symbol_list =~= old(self)@.symbol_list);
            assert(self@.relocs =~= old(self)@.relocs);
        }
        i
    }

    /// Adds a symbol, enters it in the symbol table under its name with the
    /// section `section`, and returns its place.
    pub fn add_symbol(&mut self, symbol: PlannedSymbol, section: usize) -> (i: usize)
        ensures
            i == old(self)@.symbol_list.len(),
            final(self)@ == with_symbol(old(self)@, symbol@, section),
    {
        let i = self.symbol_list.len();
        let name = symbol.name.clone();
        self.symbol_list.push(symbol);
        self.symbols.push((name, (section, i)));
        proof {
            lemma_symbol_added(*old(self), *self, section);
        }
        i
    }

    /// The section and the symbol that the symbol table has for `name`.
    pub fn lookup(&self, name: &String) -> (r: Option<(usize, usize)>)
        ensures
            match r {
                Some(entry) => self@.symbols.dom().contains(name@) && self@.symbols[name@] == entry,
                None => !self@.symbols.dom().contains(name@),
            },
    {
        let ghost entries = entries_model(self.symbols);
        let ghost table = self@.symbols;
        let mut i: usize = self.symbols.len();
        while i > 0
            invariant
                i <= self.symbols.len(),
                entries == entries_model(self.symbols),
                table == table_of(entries, self.symbols@.len() as nat),
                table.dom().contains(name@) == table_of(entries, i as nat).dom().contains(name@),
                table.dom().contains(name@) ==> table[name@] == table_of(entries, i as nat)[name@],
            decreases i,
        {
            i -= 1;
            if self.symbols[i].0 == *name {
                return Some(self.symbols[i].1);
            }
        }
        None
    }

    /// Plans a section for each section of the code, in order.
    pub fn init_sects(&mut self, cb: &CodeBuilder)
        ensures
            final(self)@ == with_sections(old(self)@, cb@.sections, cb@.sections.len()),
    {
        let mut k: usize = 0;
        while k < cb.sections.len()
            invariant
                k <= cb.sections.len(),
                self@ == with_sections(old(self)@, cb@.sections, k as nat),
            decreases cb.sections.len() - k,
        {
            self.add_section(cb.sections[k].name.clone(), cb.sections[k].kind);
            k += 1;
        }
    }

    /// Plans an undefined symbol for each outside name, in order.
    pub fn process_ext(&mut self, cb: &CodeBuilder)
        ensures
            final(self)@ == with_externs(old(self)@, cb@.external, cb@.external.len()),
    {
        let mut k: usize = 0;
        while k < cb.external.len()
            invariant
                k <= cb.external.len(),
                self@ == with_externs(old(self)@, cb@.external, k as nat),
            decreases cb.external.len() - k,
        {
            let symbol = PlannedSymbol {
                name: cb.external[k].1.clone(),
                value: 0,
                size: 0,
                kind: SymbolKind::Unknown,
                scope: SymbolScope::Unknown,
                weak: false,
                section: None,
            };
            self.add_symbol(symbol, cb.external[k].0);
            k += 1;
        }
    }

    /// Whether a label with this name is private to its file.
    pub fn private_name(name: &String) -> (r: bool)
        ensures
            r == is_private(name@),
    {
        let text = name.as_str();
        text.unicode_len() > 0 && text.get_char(0) == '.'
    }

    /// The symbol of a label in the section at `section`.
    pub fn symbol_of(label: &Label, section: usize) -> (symbol: PlannedSymbol)
        ensures
            symbol@ == label_symbol(label@, section),
    {
        PlannedSymbol {
            name: label.name.clone(),
            value: label.offset as u64,
            size: label.code.len() as u64,
            kind: SymbolKind::Text,
            scope: if label.global {
                SymbolScope::Dynamic
            } else {
                SymbolScope::Compilation
            },
            weak: label.weak,
            section: Some(section),
        }
    }

    /// Plans the symbols and the data of one section of the code.
    pub fn populate_sect(&mut self, section: &Section)
        requires
            section.i < old(self)@.sections.len(),
        ensures
            final(self)@ == with_section_content(old(self)@, section@),
    {
        let mut code: Vec<u8> = Vec::new();
        let mut j: usize = 0;
        while j < section.labels.len()
            invariant
                j <= section.labels.len(),
                self@ == with_labels(old(self)@, section@.labels, j as nat, section.i),
                code@ == code_of(section@.labels, j as nat),
                section.i < self@.sections.len(),
                self@.sections == old(self)@.sections,
            decreases section.labels.len() - j,
        {
            let label = &section.labels[j];
            let mut k: usize = 0;
            let ghost head = code@;
            while k < label.code.len()
                invariant
                    k <= label.code.len(),
                    code@ == head + label.code@.subrange(0, k as int),
                decreases label.code.len() - k,
            {
                code.push(label.code[k]);
                k += 1;
                assert(code@ =~= head + label.code@.subrange(0, k as int));
            }
            assert(label.code@.subrange(0, label.code.len() as int) =~= label.code@);
            if !ObjectBuilder::private_name(&label.name) {
                self.add_symbol(ObjectBuilder::symbol_of(label, section.i), section.i);
            }
            j += 1;
        }
        let ghost q = self@;
        self.sections[section.i].data = code;
        proof {
            assert(self@.sections =~= with_section_content(old(self)@, section@).sections);
            assert(self@.symbol_list =~= q.symbol_list);
            assert(self@.relocs =~= q.relocs);
        }
    }

    /// Plans the symbols and the data of every section of the code, in order.
    pub fn populate_sects(&mut self, cb: &CodeBuilder) -> (r: Result<(), ObjectError>)
        requires
            forall|k: int|
                0 <= k < cb@.sections.len() ==> (#[trigger] cb@.sections[k]).i < old(
                    self,
                )@.sections.len(),
        ensures
            r is Ok,
            final(self)@ == with_contents(old(self)@, cb@.sections, cb@.sections.len()),
    {
        let mut k: usize = 0;
        while k < cb.sections.len()
            invariant
                k <= cb.sections.len(),
                self@ == with_contents(old(self)@, cb@.sections, k as nat),
                self@.sections.len() == old(self)@.sections.len(),
                forall|i: int|
                    0 <= i < cb@.sections.len() ==> (#[trigger] cb@.sections[i]).i < old(
                        self,
                    )@.sections.len(),
            decreases cb.sections.len() - k,
        {
            assert(cb@.sections[k as int] == cb.sections@[k as int]@);
            self.populate_sect(&cb.sections[k]);
            proof {
                lemma_labels_keep_sections(
                    with_contents(old(self)@, cb@.sections, k as nat),
                    cb@.sections[k as int].labels,
                    cb@.sections[k as int].labels.len(),
                    cb@.sections[k as int].i,
                );
            }
            k += 1;
        }
        Ok(())
    }

    /// Plans a relocation for each unresolved reference of the code, in
    /// order. Stops at the first whose name the symbol table lacks.
    pub fn solve_relocs(&mut self, cb: &CodeBuilder) -> (r: Result<(), ObjectError>)
        ensures
            ({
                let found = resolvable(old(self)@, cb@.relocs, cb@.relocs.len());
                &&& final(self)@ == with_relocations(old(self)@, cb@.relocs, found)
                &&& found == cb@.relocs.len() ==> r is Ok
                &&& found < cb@.relocs.len() ==> (r matches Err(
                    ObjectError::SymbolNotFound { symbol },
                ) && symbol@ == cb@.relocs[found as int].1)
            }),
    {
        let mut k: usize = 0;
        while k < cb.relocs.len()
            invariant
                k <= cb.relocs.len(),
                resolvable(old(self)@, cb@.relocs, k as nat) == k,
                self@ == with_relocations(old(self)@, cb@.relocs, k as nat),
                self@.symbols == old(self)@.symbols,
            decreases cb.relocs.len() - k,
        {
            let name = cb.relocs[k].1.clone();
            match self.lookup(&name) {
                Some(entry) => {
                    let ghost q = self@;
                    self.relocs.push(
                        PlannedRelocation {
                            section: cb.relocs[k].0,
                            offset: cb.relocs[k].2 as u64,
                            symbol: entry.1,
                            name,
                            addend: -4,
                            kind: RelocationKind::Relative,
                            encoding: RelocationEncoding::X86RipRelative,
                            size: 32,
                        },
                    );
                    proof {
                        assert(self@.relocs =~= with_relocations(
                            old(self)@,
                            cb@.relocs,
                            (k + 1) as nat,
                        ).relocs);
                        assert(self@.sections =~= q.sections);
                        assert(self@.symbol_list =~= q.symbol_list);
                    }
                },
                None => {
                    proof {
                        lemma_resolvable_stops(old(self)@, cb@.relocs, k as nat, cb@.relocs.len());
                    }
                    return Err(ObjectError::SymbolNotFound { symbol: name });
                },
            }
            k += 1;
        }
        Ok(())
    }

    /// Plans the whole object file: the sections, the outside names, the
    /// symbols and the data of each section, and the relocations.
    pub fn scan_cb(&mut self, cb: &CodeBuilder) -> (r: Result<(), ObjectError>)
        requires
            forall|k: int|
                0 <= k < cb@.sections.len() ==> (#[trigger] cb@.sections[k]).i < old(
                    self,
                )@.sections.len() + cb@.sections.len(),
        ensures
            ({
                let laid = with_contents(
                    with_externs(
                        with_sections(old(self)@, cb@.sections, cb@.sections.len()),
                        cb@.external,
                        cb@.external.len(),
                    ),
                    cb@.sections,
                    cb@.sections.len(),
                );
                let found = resolvable(laid, cb@.relocs, cb@.relocs.len());
                &&& final(self)@ == with_relocations(laid, cb@.relocs, found)
                &&& found == cb@.relocs.len() ==> r is Ok
                &&& found < cb@.relocs.len() ==> (r matches Err(
                    ObjectError::SymbolNotFound { symbol },
                ) && symbol@ == cb@.relocs[found as int].1)
            }),
    {
        self.init_sects(cb);
        proof {
            lemma_sections_counted(old(self)@, cb@.sections, cb@.sections.len());
        }
        self.process_ext(cb);
        proof {
            lemma_externs_keep_sections(
                with_sections(old(self)@, cb@.sections, cb@.sections.len()),
                cb@.external,
                cb@.external.len(),
            );
        }
        let populated = self.populate_sects(cb);
        self.solve_relocs(cb)
    }
}

/// The object file in the making, of the crate `object`.
#[verifier::external_type_specification]
#[verifier::external_body]
pub struct ExObject<'a>(Object<'a>);

/// The handle of a section of an object file in the making.
#[verifier::external_type_specification]
#[verifier::external_body]
pub struct ExSectionId(SectionId);

/// The handle of a symbol of an object file in the making.
#[verifier::external_type_specification]
#[verifier::external_body]
pub struct ExSymbolId(SymbolId);

/// The error of the writing half of the crate `object`.
#[verifier::external_type_specification]
#[verifier::external_body]
pub struct ExWriteError(object::write::Error);

/// A relocation as an object holds it in one of its sections: where it
/// applies, the place of its symbol, its addend and its form.
pub struct RelocationImage {
    pub offset: u64,
    pub symbol: nat,
    pub addend: i64,
    pub kind: RelocationKind,
    pub encoding: RelocationEncoding,
    pub size: u8,
}

/// A section as an object holds it: its name, its kind, its data and its
/// relocations, in the order in which they were added.
pub struct SectionImage {
    pub name: Seq<u8>,
    pub kind: SectionKind,
    pub data: Seq<u8>,
    pub relocations: Seq<RelocationImage>,
}

/// A symbol as an object holds it; `section` is the place of the section
/// that it is defined in.
pub struct SymbolImage {
    pub name: Seq<u8>,
    pub value: u64,
    pub size: u64,
    pub kind: SymbolKind,
    pub scope: SymbolScope,
    pub weak: bool,
    pub section: Option<nat>,
}

/// Whether the object is a little-endian ELF file for x86-64 without file
/// flags and without COMDAT groups, in which every section has no
/// segment, no flags and alignment 1, every symbol has no flags and is
/// undefined or lies in one of its sections, and every relocation is
/// against one of its symbols and has a form that the object took.
pub uninterp spec fn object_is_elf(obj: &Object<'static>) -> bool;

/// The sections of the object in the order in which they were added.
pub uninterp spec fn object_sections(obj: &Object<'static>) -> Seq<SectionImage>;

/// The symbols of the object in the order in which they were added.
pub uninterp spec fn object_symbols(obj: &Object<'static>) -> Seq<SymbolImage>;

/// The place of the section that the handle stands for.
pub uninterp spec fn section_number(id: SectionId) -> nat;

/// The place of the symbol that the handle stands for.
pub uninterp spec fn symbol_number(id: SymbolId) -> nat;

/// The bytes of the relocatable ELF file for x86-64 that `Object::write`
/// makes of these sections and symbols.
pub uninterp spec fn elf_image(sections: Seq<SectionImage>, symbols: Seq<SymbolImage>) -> Seq<u8>;

/// Whether a section of this kind holds no data in the file.
pub open spec fn is_bss(kind: SectionKind) -> bool {
    kind == SectionKind::UninitializedData || kind == SectionKind::UninitializedTls || kind
        == SectionKind::Common
}

/// Whether the ELF writer refuses a section of this kind.
pub open spec fn kind_refused(kind: SectionKind) -> bool {
    kind == SectionKind::Unknown || kind == SectionKind::Common || kind == SectionKind::TlsVariables
}

/// Whether ELF for x86-64 has a relocation of this form.
pub open spec fn reloc_taken(kind: RelocationKind, encoding: RelocationEncoding, size: u8) -> bool {
    match kind {
        RelocationKind::Absolute => (size == 64 && encoding == RelocationEncoding::Generic) || (size
            == 32 && (encoding == RelocationEncoding::Generic || encoding
            == RelocationEncoding::X86Signed)) || size == 16 || size == 8,
        RelocationKind::Relative => size == 32 || size == 16 || size == 8,
        RelocationKind::PltRelative => size == 32,
    }
}

/// Whether the ELF writer writes these sections and symbols: no section is
/// of a kind that it refuses, and no symbol of unknown kind is defined.
pub open spec fn image_taken(sections: Seq<SectionImage>, symbols: Seq<SymbolImage>) -> bool {
    &&& forall|k: int| 0 <= k < sections.len() ==> !kind_refused((#[trigger] sections[k]).kind)
    &&& forall|k: int|
        0 <= k < symbols.len() ==> !((#[trigger] symbols[k]).kind == SymbolKind::Unknown
            && symbols[k].section is Some)
}

/// `Object::new` for a little-endian ELF file for x86-64: an object without
/// sections and without symbols.
#[verifier::external_body]
fn new_object() -> (obj: Object<'static>)
    ensures
        object_is_elf(&obj),
        object_sections(&obj) == Seq::<SectionImage>::empty(),
        object_symbols(&obj) == Seq::<SymbolImage>::empty(),
{
    Object::new(BinaryFormat::Elf, Architecture::X86_64, Endianness::Little)
}

/// `Object::add_section` with an empty segment name: the section comes
/// last, without data and without relocations, and its handle stands for
/// its place. The symbols stay.
#[verifier::external_body]
fn add_section(obj: &mut Object<'static>, name: Vec<u8>, kind: SectionKind) -> (id: SectionId)
    ensures
        section_number(id) == object_sections(old(obj)).len(),
        object_sections(final(obj)) == object_sections(old(obj)).push(
            SectionImage { name: name@, kind, data: Seq::empty(), relocations: Seq::empty() },
        ),
        object_symbols(final(obj)) == object_symbols(old(obj)),
        object_is_elf(final(obj)) == object_is_elf(old(obj)),
{
    let kind = match kind {
        SectionKind::Unknown => OutsideSectionKind::Unknown, SectionKind::Text => OutsideSectionKind::Text,
        SectionKind::Data => OutsideSectionKind::Data, SectionKind::ReadOnlyData => OutsideSectionKind::ReadOnlyData,
        SectionKind::ReadOnlyDataWithRel => OutsideSectionKind::ReadOnlyDataWithRel,
        SectionKind::ReadOnlyString => OutsideSectionKind::ReadOnlyString,
        SectionKind::UninitializedData => OutsideSectionKind::UninitializedData,
        SectionKind::Common => OutsideSectionKind::Common, SectionKind::Tls => OutsideSectionKind::Tls,
        SectionKind::UninitializedTls => OutsideSectionKind::UninitializedTls,
        SectionKind::TlsVariables => OutsideSectionKind::TlsVariables,
        SectionKind::OtherString => OutsideSectionKind::OtherString, SectionKind::Other => OutsideSectionKind::Other,
        SectionKind::Debug => OutsideSectionKind::Debug, SectionKind::DebugString => OutsideSectionKind::DebugString,
        SectionKind::Linker => OutsideSectionKind::Linker, SectionKind::Note => OutsideSectionKind::Note,
        SectionKind::Metadata => OutsideSectionKind::Metadata, SectionKind::Elf(v) => OutsideSectionKind::Elf(v),
    };
    obj.add_section(Vec::new(), name, kind)
}

/// `Section::set_data` on `Object::section_mut`, with alignment 1: gives a
/// section that has no data, and is of a kind that can have some, its data.
/// Everything else stays.
#[verifier::external_body]
fn set_section_data(obj: &mut Object<'static>, id: SectionId, data: Vec<u8>)
    requires
        section_number(id) < object_sections(old(obj)).len(),
        object_sections(old(obj))[section_number(id) as int].data.len() == 0,
        !is_bss(object_sections(old(obj))[section_number(id) as int].kind),
    ensures
        object_sections(final(obj)) == object_sections(old(obj)).update(
            section_number(id) as int,
            SectionImage { data: data@, ..object_sections(old(obj))[section_number(id) as int] },
        ),
        object_symbols(final(obj)) == object_symbols(old(obj)),
        object_is_elf(final(obj)) == object_is_elf(old(obj)),
{
    obj.section_mut(id).set_data(data, 1);
}

/// `Object::add_symbol` on an ELF object, for a symbol without flags that
/// is undefined or lies in a section: the symbol comes last as it is
/// given, and its handle stands for its place. The sections stay.
#[verifier::external_body]
fn add_symbol(
    obj: &mut Object<'static>,
    name: Vec<u8>,
    symbol: &PlannedSymbol,
    section: Option<SectionId>,
) -> (id: SymbolId)
    requires
        object_is_elf(old(obj)),
        section is Some ==> symbol.scope != SymbolScope::Unknown && section_number(section->0)
            < object_sections(old(obj)).len(),
    ensures
        symbol_number(id) == object_symbols(old(obj)).len(),
        object_symbols(final(obj)) == object_symbols(old(obj)).push(
            SymbolImage {
                name: name@,
                value: symbol.value,
                size: symbol.size,
                kind: symbol.kind,
                scope: symbol.scope,
                weak: symbol.weak,
                section: match section {
                    Some(s) => Some(section_number(s)),
                    None => None,
                },
            },
        ),
        object_sections(final(obj)) == object_sections(old(obj)),
        object_is_elf(final(obj)),
{
    let kind = match symbol.kind {
        SymbolKind::Unknown => OutsideSymbolKind::Unknown, SymbolKind::Text => OutsideSymbolKind::Text,
        SymbolKind::Data => OutsideSymbolKind::Data, SymbolKind::File => OutsideSymbolKind::File,
        SymbolKind::Label => OutsideSymbolKind::Label, SymbolKind::Tls => OutsideSymbolKind::Tls,
    };
    let scope = match symbol.scope {
        SymbolScope::Unknown => OutsideSymbolScope::Unknown, SymbolScope::Compilation => OutsideSymbolScope::Compilation,
        SymbolScope::Linkage => OutsideSymbolScope::Linkage, SymbolScope::Dynamic => OutsideSymbolScope::Dynamic,
    };
    let section = match section { Some(id) => SymbolSection::Section(id), None => SymbolSection::Undefined };
    let (value, size, weak) = (symbol.value, symbol.size, symbol.weak);
    obj.add_symbol(Symbol { name, value, size, kind, scope, weak, section, flags: SymbolFlags::None })
}

/// `Object::add_relocation` on an ELF object for x86-64, for a section and
/// a symbol that it has: the object takes the relocation where ELF for
/// x86-64 has its form, and then holds it last among those of its section
/// with the addend as given; it refuses any other and stays as it is.
#[verifier::external_body]
fn add_relocation(
    obj: &mut Object<'static>,
    section: SectionId,
    symbol: SymbolId,
    plan: &PlannedRelocation,
) -> (r: Result<(), object::write::Error>)
    requires
        object_is_elf(old(obj)),
        section_number(section) < object_sections(old(obj)).len(),
        symbol_number(symbol) < object_symbols(old(obj)).len(),
    ensures
        r is Ok <==> reloc_taken(plan.kind, plan.encoding, plan.size),
        r is Ok ==> object_sections(final(obj)) == object_sections(old(obj)).update(
            section_number(section) as int,
            SectionImage {
                relocations: object_sections(old(obj))[section_number(
                    section,
                ) as int].relocations.push(
                    RelocationImage {
                        offset: plan.offset,
                        symbol: symbol_number(symbol),
                        addend: plan.addend,
                        kind: plan.kind,
                        encoding: plan.encoding,
                        size: plan.size,
                    },
                ),
                ..object_sections(old(obj))[section_number(section) as int]
            },
        ),
        r is Err ==> object_sections(final(obj)) == object_sections(old(obj)),
        object_symbols(final(obj)) == object_symbols(old(obj)),
        object_is_elf(final(obj)),
{
    let kind = match plan.kind {
        RelocationKind::Absolute => object::RelocationKind::Absolute,
        RelocationKind::Relative => object::RelocationKind::Relative,
        RelocationKind::PltRelative => object::RelocationKind::PltRelative,
    };
    let encoding = match plan.encoding {
        RelocationEncoding::Generic => object::RelocationEncoding::Generic,
        RelocationEncoding::X86Signed => object::RelocationEncoding::X86Signed,
        RelocationEncoding::X86RipRelative => object::RelocationEncoding::X86RipRelative,
        RelocationEncoding::X86Branch => object::RelocationEncoding::X86Branch,
    };
    let flags = RelocationFlags::Generic { kind, encoding, size: plan.size };
    obj.add_relocation(section, Relocation { offset: plan.offset, addend: plan.addend, symbol, flags })
}

/// `Object::write` on an ELF object in which no name of a section or of a
/// symbol holds a zero byte: it fails where a section is of a kind that the
/// ELF writer refuses or a symbol of unknown kind is defined, and nowhere
/// else; the bytes of the file are a function of the sections and the
/// symbols.
#[verifier::external_body]
fn write_object(obj: &Object<'static>) -> (r: Result<Vec<u8>, object::write::Error>)
    requires
        object_is_elf(obj),
        forall|k: int|
            0 <= k < object_sections(obj).len() ==> !(#[trigger] object_sections(
                obj,
            )[k]).name.contains(0u8),
        forall|k: int|
            0 <= k < object_symbols(obj).len() ==> !(#[trigger] object_symbols(obj)[k]).name.contains(
                0u8,
            ),
    ensures
        r is Ok <==> image_taken(object_sections(obj), object_symbols(obj)),
        r matches Ok(bytes) ==> bytes@ == elf_image(object_sections(obj), object_symbols(obj)),
{
    obj.write()
}

/// Whether the sections of a plan can be handed to the object: no name
/// holds a zero byte, and a section of a kind without data has none.
pub open spec fn sections_writable(p: ObjectPlan) -> bool {
    forall|k: int|
        0 <= k < p.sections.len() ==> {
            let s = #[trigger] p.sections[k];
            !encode_utf8(s.name).contains(0u8) && (is_bss(s.kind) ==> s.data.len() == 0)
        }
}

/// Whether the symbols of a plan can be handed to the object: no name holds
/// a zero byte, and a symbol that is defined lies in a section of the plan
/// and has a scope.
pub open spec fn symbols_writable(p: ObjectPlan) -> bool {
    forall|k: int|
        0 <= k < p.symbol_list.len() ==> {
            let s = #[trigger] p.symbol_list[k];
            &&& !encode_utf8(s.name).contains(0u8)
            &&& s.section matches Some(i) ==> i < p.sections.len() && s.scope != SymbolScope::Unknown
        }
}

/// Whether a relocation lies in a section of the plan and is against a
/// symbol of the plan.
pub open spec fn reloc_placed(p: ObjectPlan, r: RelocationPlan) -> bool {
    r.section < p.sections.len() && r.symbol < p.symbol_list.len()
}

/// The first relocation from `from` on that is not placed in the plan or
/// has a form that ELF for x86-64 lacks; the number of relocations where
/// there is none.
pub open spec fn first_refused(p: ObjectPlan, from: nat) -> nat
    decreases p.relocs.len() - from,
{
    if from >= p.relocs.len() {
        p.relocs.len()
    } else if !reloc_placed(p, p.relocs[from as int]) || !reloc_taken(
        p.relocs[from as int].kind,
        p.relocs[from as int].encoding,
        p.relocs[from as int].size,
    ) {
        from
    } else {
        first_refused(p, from + 1)
    }
}

/// A section of the plan as the object holds it before it has relocations.
pub open spec fn bare_section(s: SectionPlan) -> SectionImage {
    SectionImage {
        name: encode_utf8(s.name),
        kind: s.kind,
        data: s.data,
        relocations: Seq::empty(),
    }
}

/// The sections of the plan as the object holds them before they have relocations.
pub open spec fn bare_sections(p: ObjectPlan) -> Seq<SectionImage> {
    Seq::new(p.sections.len(), |k: int| bare_section(p.sections[k]))
}

/// A symbol of the plan as the object holds it.
pub open spec fn symbol_image(s: SymbolPlan) -> SymbolImage {
    SymbolImage {
        name: encode_utf8(s.name),
        value: s.value,
        size: s.size,
        kind: s.kind,
        scope: s.scope,
        weak: s.weak,
        section: match s.section {
            Some(i) => Some(i as nat),
            None => None,
        },
    }
}

/// The symbols of the plan as the object holds them.
pub open spec fn symbol_images(p: ObjectPlan) -> Seq<SymbolImage> {
    Seq::new(p.symbol_list.len(), |k: int| symbol_image(p.symbol_list[k]))
}

/// A relocation of the plan as the object holds it.
pub open spec fn relocation_image(r: RelocationPlan) -> RelocationImage {
    RelocationImage {
        offset: r.offset,
        symbol: r.symbol as nat,
        addend: r.addend,
        kind: r.kind,
        encoding: r.encoding,
        size: r.size,
    }
}

/// The sections with each of the first `n` relocations behind those of
/// its section.
pub open spec fn linked_sections(sections: Seq<SectionImage>, relocs: Seq<RelocationPlan>, n: nat) -> Seq<
    SectionImage,
>
    decreases n,
{
    if n == 0 || n > relocs.len() {
        sections
    } else {
        let before = linked_sections(sections, relocs, (n - 1) as nat);
        let r = relocs[n - 1];
        if r.section < before.len() {
            before.update(
                r.section as int,
                SectionImage {
                    relocations: before[r.section as int].relocations.push(relocation_image(r)),
                    ..before[r.section as int]
                },
            )
        } else {
            before
        }
    }
}

/// The sections of the plan as the object holds them, with their relocations.
pub open spec fn section_images(p: ObjectPlan) -> Seq<SectionImage> {
    linked_sections(bare_sections(p), p.relocs, p.relocs.len())
}

/// The bytes of the object file of a plan.
pub open spec fn plan_image(p: ObjectPlan) -> Seq<u8> {
    elf_image(section_images(p), symbol_images(p))
}

/// Whether the kinds of a plan are such as the ELF writer writes: no
/// section is of a kind that it refuses, and no symbol of unknown kind is
/// defined.
pub open spec fn kinds_taken(p: ObjectPlan) -> bool {
    &&& forall|k: int| 0 <= k < p.sections.len() ==> !kind_refused((#[trigger] p.sections[k]).kind)
    &&& forall|k: int|
        0 <= k < p.symbol_list.len() ==> !((#[trigger] p.symbol_list[k]).kind == SymbolKind::Unknown
            && p.symbol_list[k].section is Some)
}

/// What the writing of a plan comes to.
pub enum WriteOutcome {
    /// The bytes of the file.
    Bytes(Seq<u8>),
    /// The plan cannot be written.
    Unknown,
    /// The relocation against the symbol of this name has a form that the
    /// file format lacks.
    RelocationFailed(Seq<char>),
}

/// What the writing of a plan comes to. The sections and the symbols are
/// looked at first, then the relocations in their order, then the kinds.
pub open spec fn plan_outcome(p: ObjectPlan) -> WriteOutcome {
    if !sections_writable(p) || !symbols_writable(p) {
        WriteOutcome::Unknown
    } else if first_refused(p, 0) < p.relocs.len() {
        let r = p.relocs[first_refused(p, 0) as int];
        if reloc_placed(p, r) {
            WriteOutcome::RelocationFailed(r.name)
        } else {
            WriteOutcome::Unknown
        }
    } else if !kinds_taken(p) {
        WriteOutcome::Unknown
    } else {
        WriteOutcome::Bytes(plan_image(p))
    }
}

/// Whether `r` is what the writer returns for the outcome `o`.
pub open spec fn gives(r: Result<Vec<u8>, ObjectError>, o: WriteOutcome) -> bool {
    match o {
        WriteOutcome::Bytes(bytes) => r matches Ok(v) && v@ == bytes,
        WriteOutcome::Unknown => r matches Err(ObjectError::Unknown),
        WriteOutcome::RelocationFailed(name) => r matches Err(
            ObjectError::RelocationFailed { symbol },
        ) && symbol@ == name,
    }
}

/// Relocations change nothing of a section but its relocations.
pub proof fn lemma_linked_keeps(sections: Seq<SectionImage>, relocs: Seq<RelocationPlan>, n: nat)
    ensures
        linked_sections(sections, relocs, n).len() == sections.len(),
        forall|k: int|
            0 <= k < sections.len() ==> {
                let s = #[trigger] linked_sections(sections, relocs, n)[k];
                s.name == sections[k].name && s.kind == sections[k].kind && s.data
                    == sections[k].data
            },
    decreases n,
{
    if n > 0 && n <= relocs.len() {
        lemma_linked_keeps(sections, relocs, (n - 1) as nat);
    }
}

/// The relocations that are planned for unresolved references have a form
/// that ELF for x86-64 has: none of them is refused for its form.
pub proof fn lemma_planned_forms_taken(
    p: ObjectPlan,
    relocs: Seq<(usize, Seq<char>, isize)>,
    n: nat,
    k: int,
)
    requires
        n <= relocs.len(),
        p.relocs.len() <= k < p.relocs.len() + n,
    ensures
        with_relocations(p, relocs, n).relocs.len() == p.relocs.len() + n,
        reloc_taken(
            with_relocations(p, relocs, n).relocs[k].kind,
            with_relocations(p, relocs, n).relocs[k].encoding,
            with_relocations(p, relocs, n).relocs[k].size,
        ),
    decreases n,
{
    lemma_relocations_counted(p, relocs, (n - 1) as nat);
    if k < p.relocs.len() + n - 1 {
        lemma_planned_forms_taken(p, relocs, (n - 1) as nat, k);
    }
}

proof fn lemma_relocations_counted(p: ObjectPlan, relocs: Seq<(usize, Seq<char>, isize)>, n: nat)
    requires
        n <= relocs.len(),
    ensures
        with_relocations(p, relocs, n).relocs.len() == p.relocs.len() + n,
    decreases n,
{
    if n > 0 {
        lemma_relocations_counted(p, relocs, (n - 1) as nat);
    }
}

/// Whether one of the bytes is zero.
pub fn has_nul(bytes: &Vec<u8>) -> (r: bool)
    ensures
        r == bytes@.contains(0u8),
{
    let mut k: usize = 0;
    while k < bytes.len()
        invariant
            k <= bytes.len(),
            forall|j: int| 0 <= j < k ==> bytes@[j] != 0u8,
        decreases bytes.len() - k,
    {
        if bytes[k] == 0 {
            return true;
        }
        k += 1;
    }
    false
}

/// Whether a section of this kind holds no data in the file.
pub fn kind_is_bss(kind: SectionKind) -> (r: bool)
    ensures
        r == is_bss(kind),
{
    match kind {
        SectionKind::UninitializedData => true,
        SectionKind::UninitializedTls => true,
        SectionKind::Common => true,
        _ => false,
    }
}

/// What the writing of the object comes to: its bytes, or `Unknown` where
/// the object writer failed.
pub fn written(outcome: Result<Vec<u8>, object::write::Error>) -> (r: Result<Vec<u8>, ObjectError>)
    ensures
        match outcome {
            Ok(bytes) => r is Ok && r->Ok_0@ == bytes@,
            Err(_) => r matches Err(ObjectError::Unknown),
        },
{
    match outcome {
        Ok(bytes) => Ok(bytes),
        Err(_) => Err(ObjectError::Unknown),
    }
}

fn copy_bytes(data: &Vec<u8>) -> (r: Vec<u8>)
    ensures
        r@ == data@,
{
    let mut out: Vec<u8> = Vec::new();
    let mut k: usize = 0;
    while k < data.len()
        invariant
            k <= data.len(),
            out@ == data@.subrange(0, k as int),
        decreases data.len() - k,
    {
        out.push(data[k]);
        k += 1;
        assert(out@ =~= data@.subrange(0, k as int));
    }
    assert(data@.subrange(0, data.len() as int) =~= data@);
    out
}

impl ObjectBuilder {
    /// Hands the sections of the plan to the object, and returns their handles.
    fn emit_sections(&self, obj: &mut Object<'static>) -> (r: Option<Vec<SectionId>>)
        requires
            object_is_elf(old(obj)),
            object_sections(old(obj)).len() == 0,
            object_symbols(old(obj)).len() == 0,
        ensures
            r is Some <==> sections_writable(self@),
            r matches Some(ids) ==> {
                &&& object_is_elf(final(obj))
                &&& ids@.len() == self@.sections.len()
                &&& object_sections(final(obj)) == bare_sections(self@)
                &&& object_symbols(final(obj)).len() == 0
                &&& forall|k: int| 0 <= k < ids@.len() ==> section_number(#[trigger] ids@[k]) == k
            },
    {
        let mut ids: Vec<SectionId> = Vec::new();
        let mut i: usize = 0;
        assert(object_sections(obj) =~= Seq::new(0nat, |k: int| bare_section(self@.sections[k])));
        while i < self.sections.len()
            invariant
                i <= self.sections.len(),
                object_is_elf(obj),
                ids@.len() == i,
                object_sections(obj) == Seq::new(i as nat, |k: int| bare_section(self@.sections[k])),
                object_symbols(obj).len() == 0,
                forall|k: int| 0 <= k < i ==> section_number(#[trigger] ids@[k]) == k,
                forall|k: int|
                    0 <= k < i ==> {
                        let s = #[trigger] self@.sections[k];
                        !encode_utf8(s.name).contains(0u8) && (is_bss(s.kind) ==> s.data.len() == 0)
                    },
            decreases self.sections.len() - i,
        {
            let section = &self.sections[i];
            assert(self@.sections[i as int] == section@);
            let name = section.name.as_str().as_bytes_vec();
            if has_nul(&name) {
                return None;
            }
            let bss = kind_is_bss(section.kind);
            if bss && section.data.len() > 0 {
                return None;
            }
            let ghost before = object_sections(obj);
            let id = add_section(obj, name, section.kind);
            if !bss {
                set_section_data(obj, id, copy_bytes(&section.data));
            }
            ids.push(id);
            i += 1;
            assert(object_sections(obj) =~= Seq::new(
                i as nat,
                |k: int| bare_section(self@.sections[k]),
            )) by {
                assert(section@.data.len() == 0 ==> section@.data =~= Seq::<u8>::empty());
            }
        }
        assert(object_sections(obj) =~= bare_sections(self@));
        Some(ids)
    }

    /// Hands the symbols of the plan to the object, and returns their handles.
    fn emit_symbols(&self, obj: &mut Object<'static>, sections: &Vec<SectionId>) -> (r: Option<
        Vec<SymbolId>,
    >)
        requires
            object_is_elf(old(obj)),
            sections@.len() == self@.sections.len(),
            object_sections(old(obj)).len() == self@.sections.len(),
            object_symbols(old(obj)).len() == 0,
            forall|k: int| 0 <= k < sections@.len() ==> section_number(#[trigger] sections@[k]) == k,
        ensures
            r is Some <==> symbols_writable(self@),
            r matches Some(ids) ==> {
                &&& object_is_elf(final(obj))
                &&& ids@.len() == self@.symbol_list.len()
                &&& object_sections(final(obj)) == object_sections(old(obj))
                &&& object_symbols(final(obj)) == symbol_images(self@)
                &&& forall|k: int| 0 <= k < ids@.len() ==> symbol_number(#[trigger] ids@[k]) == k
            },
    {
        let mut ids: Vec<SymbolId> = Vec::new();
        let mut i: usize = 0;
        assert(object_symbols(obj) =~= Seq::new(0nat, |k: int| symbol_image(self@.symbol_list[k])));
        while i < self.symbol_list.len()
            invariant
                i <= self.symbol_list.len(),
                object_is_elf(obj),
                ids@.len() == i,
                sections@.len() == self@.sections.len(),
                object_sections(obj) == object_sections(old(obj)),
                object_sections(obj).len() == self@.sections.len(),
                object_symbols(obj) == Seq::new(
                    i as nat,
                    |k: int| symbol_image(self@.symbol_list[k]),
                ),
                forall|k: int| 0 <= k < sections@.len() ==> section_number(#[trigger] sections@[k]) == k,
                forall|k: int| 0 <= k < i ==> symbol_number(#[trigger] ids@[k]) == k,
                forall|k: int|
                    0 <= k < i ==> {
                        let s = #[trigger] self@.symbol_list[k];
                        &&& !encode_utf8(s.name).contains(0u8)
                        &&& s.section matches Some(n) ==> n < self@.sections.len() && s.scope
                            != SymbolScope::Unknown
                    },
            decreases self.symbol_list.len() - i,
        {
            let symbol = &self.symbol_list[i];
            assert(self@.symbol_list[i as int] == symbol@);
            let name = symbol.name.as_str().as_bytes_vec();
            if has_nul(&name) {
                return None;
            }
            let section: Option<SectionId> = match symbol.section {
                Some(n) => {
                    if n >= sections.len() || symbol.scope == SymbolScope::Unknown {
                        return None;
                    }
                    Some(sections[n])
                },
                None => None,
            };
            let id = add_symbol(obj, name, symbol, section);
            ids.push(id);
            i += 1;
            assert(object_symbols(obj) =~= Seq::new(
                i as nat,
                |k: int| symbol_image(self@.symbol_list[k]),
            ));
        }
        assert(object_symbols(obj) =~= symbol_images(self@));
        Some(ids)
    }

    /// Hands the relocations of the plan to the object, up to the first
    /// that cannot be written.
    fn emit_relocations(
        &self,
        obj: &mut Object<'static>,
        sections: &Vec<SectionId>,
        symbols: &Vec<SymbolId>,
    ) -> (r: Result<(), ObjectError>)
        requires
            object_is_elf(old(obj)),
            sections@.len() == self@.sections.len(),
            symbols@.len() == self@.symbol_list.len(),
            object_sections(old(obj)).len() == self@.sections.len(),
            object_symbols(old(obj)).len() == self@.symbol_list.len(),
            forall|k: int| 0 <= k < sections@.len() ==> section_number(#[trigger] sections@[k]) == k,
            forall|k: int| 0 <= k < symbols@.len() ==> symbol_number(#[trigger] symbols@[k]) == k,
        ensures
            object_is_elf(final(obj)),
            object_symbols(final(obj)) == object_symbols(old(obj)),
            ({
                let at = first_refused(self@, 0);
                if at < self@.relocs.len() {
                    if reloc_placed(self@, self@.relocs[at as int]) {
                        r matches Err(ObjectError::RelocationFailed { symbol }) && symbol@
                            == self@.relocs[at as int].name
                    } else {
                        r matches Err(ObjectError::Unknown)
                    }
                } else {
                    r is Ok && object_sections(final(obj)) == linked_sections(
                        object_sections(old(obj)),
                        self@.relocs,
                        self@.relocs.len(),
                    )
                }
            }),
    {
        let ghost base = object_sections(obj);
        let mut i: usize = 0;
        while i < self.relocs.len()
            invariant
                i <= self.relocs.len(),
                object_is_elf(obj),
                sections@.len() == self@.sections.len(),
                symbols@.len() == self@.symbol_list.len(),
                base == object_sections(old(obj)),
                base.len() == self@.sections.len(),
                object_sections(obj) == linked_sections(base, self@.relocs, i as nat),
                object_symbols(obj) == object_symbols(old(obj)),
                object_symbols(obj).len() == self@.symbol_list.len(),
                forall|k: int| 0 <= k < sections@.len() ==> section_number(#[trigger] sections@[k]) == k,
                forall|k: int| 0 <= k < symbols@.len() ==> symbol_number(#[trigger] symbols@[k]) == k,
                first_refused(self@, 0) == first_refused(self@, i as nat),
            decreases self.relocs.len() - i,
        {
            let plan = &self.relocs[i];
            assert(self@.relocs[i as int] == plan@);
            proof {
                lemma_linked_keeps(base, self@.relocs, i as nat);
            }
            if plan.section >= sections.len() || plan.symbol >= symbols.len() {
                return Err(ObjectError::Unknown);
            }
            match add_relocation(obj, sections[plan.section], symbols[plan.symbol], plan) {
                Ok(_) => {},
                Err(_) => {
                    return Err(ObjectError::RelocationFailed { symbol: plan.name.clone() });
                },
            }
            i += 1;
        }
        Ok(())
    }

    /// The bytes of the object file that was planned: a little-endian ELF
    /// file for x86-64. A plan whose sections or symbols cannot be handed
    /// to the object writer gives `Unknown`; the first relocation that is
    /// misplaced gives `Unknown`, and the first of a form that the format
    /// lacks `RelocationFailed` with the name of its symbol; kinds that the
    /// object writer refuses give `Unknown`.
    pub fn write_obj(&self) -> (r: Result<Vec<u8>, ObjectError>)
        ensures
            gives(r, plan_outcome(self@)),
    {
        let mut obj = new_object();
        let sections = match self.emit_sections(&mut obj) {
            Some(ids) => ids,
            None => {
                return Err(ObjectError::Unknown);
            },
        };
        let symbols = match self.emit_symbols(&mut obj, &sections) {
            Some(ids) => ids,
            None => {
                return Err(ObjectError::Unknown);
            },
        };
        match self.emit_relocations(&mut obj, &sections, &symbols) {
            Ok(_) => {},
            Err(e) => {
                return Err(e);
            },
        }
        proof {
            lemma_linked_keeps(bare_sections(self@), self@.relocs, self@.relocs.len());
            assert(object_sections(&obj) == section_images(self@));
            assert forall|k: int| 0 <= k < object_sections(&obj).len() implies !(
            #[trigger] object_sections(&obj)[k]).name.contains(0u8) by {
                assert(bare_sections(self@)[k].name == encode_utf8(self@.sections[k].name));
            }
            assert forall|k: int| 0 <= k < object_symbols(&obj).len() implies !(
            #[trigger] object_symbols(&obj)[k]).name.contains(0u8) by {
                assert(symbol_images(self@)[k].name == encode_utf8(self@.symbol_list[k].name));
            }
            assert(image_taken(object_sections(&obj), object_symbols(&obj)) == kinds_taken(self@))
                by {
                if kinds_taken(self@) {
                    assert forall|k: int| 0 <= k < object_sections(&obj).len() implies !kind_refused(
                        (#[trigger] object_sections(&obj)[k]).kind,
                    ) by {
                        assert(bare_sections(self@)[k].kind == self@.sections[k].kind);
                    }
                    assert forall|k: int| 0 <= k < object_symbols(&obj).len() implies !((
                    #[trigger] object_symbols(&obj)[k]).kind == SymbolKind::Unknown
                        && object_symbols(&obj)[k].section is Some) by {
                        assert(symbol_images(self@)[k] == symbol_image(self@.symbol_list[k]));
                    }
                }
                if image_taken(object_sections(&obj), object_symbols(&obj)) {
                    assert forall|k: int| 0 <= k < self@.sections.len() implies !kind_refused(
                        (#[trigger] self@.sections[k]).kind,
                    ) by {
                        assert(object_sections(&obj)[k].kind == bare_sections(self@)[k].kind);
                    }
                    assert forall|k: int| 0 <= k < self@.symbol_list.len() implies !((
                    #[trigger] self@.symbol_list[k]).kind == SymbolKind::Unknown
                        && self@.symbol_list[k].section is Some) by {
                        assert(object_symbols(&obj)[k] == symbol_image(self@.symbol_list[k]));
                    }
                }
            }
        }
        written(write_object(&obj))
    }
}

} // verus!
