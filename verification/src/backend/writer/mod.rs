use crate::backend::assembler::x86_64::instr::jmp::{branch, encode_branch};
use crate::backend::writer::obj::{gives, linked, plan_outcome, planned, ObjectBuilder};
use crate::reporter::assembler::AssemblerError;
use crate::reporter::obj::ObjectError;
use vstd::prelude::*;
use vstd::string::StringExecFns;

pub mod obj;

verus! {

/// What a section of an object file is for.
#[derive(Debug, Clone, Copy, PartialEq, Eq, Structural)]
pub enum SectionKind {
    Unknown,
    Text,
    Data,
    ReadOnlyData,
    ReadOnlyDataWithRel,
    ReadOnlyString,
    UninitializedData,
    Common,
    Tls,
    UninitializedTls,
    TlsVariables,
    OtherString,
    Other,
    Debug,
    DebugString,
    Linker,
    Note,
    Metadata,
    Elf(u32),
}

/// A named run of bytes in a section. Its offset from the start of the
/// section is fixed when it is made; bytes are only ever added at its end
/// or written over.
#[derive(Debug)]
pub struct Label {
    pub name: String,
    pub offset: isize,
    pub code: Vec<u8>,
    pub i: usize,
    pub global: bool,
    pub weak: bool,
}

pub struct LabelModel {
    pub name: Seq<char>,
    pub offset: isize,
    pub code: Seq<u8>,
    pub i: usize,
    pub global: bool,
    pub weak: bool,
}

impl View for Label {
    type V = LabelModel;

    open spec fn view(&self) -> LabelModel {
        LabelModel {
            name: self.name@,
            offset: self.offset,
            code: self.code@,
            i: self.i,
            global: self.global,
            weak: self.weak,
        }
    }
}

/// `code` with `bytes` written over what was at `at`.
pub open spec fn overwritten(code: Seq<u8>, bytes: Seq<u8>, at: int) -> Seq<u8> {
    Seq::new(
        code.len(),
        |k: int|
            if at <= k < at + bytes.len() {
                bytes[k - at]
            } else {
                code[k]
            },
    )
}

/// The target of a jump from the end of a label that is `len` bytes long and
/// lies at `origin`, to `target`, in wrapping arithmetic.
pub open spec fn relative_target(target: isize, origin: isize, len: isize) -> isize {
    vstd::wrapping::isize_specs::wrapping_sub(
        vstd::wrapping::isize_specs::wrapping_sub(target, origin),
        len,
    )
}

impl Label {
    /// An empty label, neither global nor weak.
    pub fn new(name: String, i: usize, offset: isize) -> (label: Label)
        ensures
            label@ == (LabelModel {
                name: name@,
                offset,
                code: Seq::empty(),
                i,
                global: false,
                weak: false,
            }),
    {
        Label { name, offset, code: Vec::new(), i, global: false, weak: false }
    }

    pub fn set_global(&mut self)
        ensures
            final(self)@ == (LabelModel { global: true, ..old(self)@ }),
    {
        self.global = true;
    }

    pub fn set_weak(&mut self)
        ensures
            final(self)@ == (LabelModel { weak: true, ..old(self)@ }),
    {
        self.weak = true;
    }

    /// Adds one byte at the end.
    pub fn add_byte(&mut self, byte: u8)
        ensures
            final(self)@ == (LabelModel { code: old(self)@.code.push(byte), ..old(self)@ }),
    {
        self.code.push(byte);
    }

    /// Adds bytes at the end.
    pub fn add_bytes(&mut self, bytes: Vec<u8>)
        ensures
            final(self)@ == (LabelModel { code: old(self)@.code + bytes@, ..old(self)@ }),
    {
        let mut k: usize = 0;
        assert(self@.code =~= old(self)@.code + bytes@.subrange(0, 0));
        while k < bytes.len()
            invariant
                k <= bytes.len(),
                self@ == (LabelModel {
                    code: old(self)@.code + bytes@.subrange(0, k as int),
                    ..old(self)@
                }),
            decreases bytes.len() - k,
        {
            self.code.push(bytes[k]);
            k += 1;
            assert(self@.code =~= old(self)@.code + bytes@.subrange(0, k as int));
        }
        assert(bytes@.subrange(0, bytes.len() as int) =~= bytes@);
    }

    /// Writes bytes over those at `offset`, which must be there.
    pub fn set_bytes_at(&mut self, bytes: Vec<u8>, offset: usize)
        requires
            offset + bytes.len() <= old(self).code.len(),
        ensures
            final(self)@ == (LabelModel {
                code: overwritten(old(self)@.code, bytes@, offset as int),
                ..old(self)@
            }),
    {
        let mut k: usize = 0;
        assert(self@.code =~= overwritten(old(self)@.code, bytes@.subrange(0, 0), offset as int));
        while k < bytes.len()
            invariant
                k <= bytes.len(),
                offset + bytes.len() <= self.code.len(),
                self@ == (LabelModel {
                    code: overwritten(old(self)@.code, bytes@.subrange(0, k as int), offset as int),
                    ..old(self)@
                }),
            decreases bytes.len() - k,
        {
            self.code.set(offset + k, bytes[k]);
            k += 1;
            assert(self@.code =~= overwritten(
                old(self)@.code,
                bytes@.subrange(0, k as int),
                offset as int,
            ));
        }
        assert(bytes@.subrange(0, bytes.len() as int) =~= bytes@);
    }

    /// Adds a jump from the end of this label to the place `offset` of its section.
    pub fn resolve_rel_jmp(&mut self, offset: isize)
        ensures
            final(self)@ == (LabelModel {
                code: old(self)@.code + branch(
                    0xE9,
                    relative_target(offset, old(self).offset, old(self).code.len() as isize),
                ),
                ..old(self)@
            }),
    {
        let addr_rel = offset.wrapping_sub(self.offset).wrapping_sub(self.code.len() as isize);
        self.add_bytes(encode_branch(0xE9, addr_rel));
    }
}

/// A section: an ordered list of labels, one of which is the current one.
#[derive(Debug)]
pub struct Section {
    pub name: String,
    pub labels: Vec<Label>,
    pub current_label: usize,
    pub i: usize,
    pub kind: SectionKind,
}

pub struct SectionModel {
    pub name: Seq<char>,
    pub labels: Seq<LabelModel>,
    pub current_label: usize,
    pub i: usize,
    pub kind: SectionKind,
}

/// The models of a list of labels, in order.
pub open spec fn labels_model(v: Vec<Label>) -> Seq<LabelModel> {
    Seq::new(v@.len(), |k: int| v@[k]@)
}

impl View for Section {
    type V = SectionModel;

    open spec fn view(&self) -> SectionModel {
        SectionModel {
            name: self.name@,
            labels: labels_model(self.labels),
            current_label: self.current_label,
            i: self.i,
            kind: self.kind,
        }
    }
}

impl Section {
    /// An empty text section.
    pub fn new(name: String, i: usize) -> (section: Section)
        ensures
            section@ == (SectionModel {
                name: name@,
                labels: Seq::empty(),
                current_label: 0,
                i,
                kind: SectionKind::Text,
            }),
    {
        let section = Section {
            name,
            labels: Vec::new(),
            current_label: 0,
            i,
            kind: SectionKind::Text,
        };
        assert(section@.labels =~= Seq::<LabelModel>::empty());
        section
    }
}

/// A jump or a call to a name, written with a placeholder and waiting to be resolved.
#[derive(Debug)]
pub struct Unresolved {
    /// The name of the target.
    pub name: String,
    /// The section and the label that hold the placeholder.
    pub section: usize,
    pub label: usize,
    /// The offset of that label in its section.
    pub label_offset: isize,
    /// Where in the label the placeholder starts.
    pub at: usize,
    /// Whether it is a call; else it is a jump.
    pub call: bool,
}

pub struct UnresolvedModel {
    pub name: Seq<char>,
    pub section: usize,
    pub label: usize,
    pub label_offset: isize,
    pub at: usize,
    pub call: bool,
}

impl View for Unresolved {
    type V = UnresolvedModel;

    open spec fn view(&self) -> UnresolvedModel {
        UnresolvedModel {
            name: self.name@,
            section: self.section,
            label: self.label,
            label_offset: self.label_offset,
            at: self.at,
            call: self.call,
        }
    }
}

/// The code of a compilation unit while it is written: sections of labels,
/// the jumps and calls that wait for their targets, the names that come from
/// elsewhere, and the relocations that the object file will need.
#[derive(Debug)]
pub struct CodeBuilder {
    pub sections: Vec<Section>,
    pub current_section: usize,
    pub unresolved_jmps: Vec<Unresolved>,
    /// The outside names, each with the section that was current when it was declared.
    pub external: Vec<(usize, String)>,
    /// The unresolved references: section, name, and offset in the section.
    pub relocs: Vec<(usize, String, isize)>,
}

pub struct CodeBuilderModel {
    pub sections: Seq<SectionModel>,
    pub current_section: usize,
    pub unresolved_jmps: Seq<UnresolvedModel>,
    pub external: Seq<(usize, Seq<char>)>,
    pub relocs: Seq<(usize, Seq<char>, isize)>,
}

impl View for CodeBuilder {
    type V = CodeBuilderModel;

    open spec fn view(&self) -> CodeBuilderModel {
        CodeBuilderModel {
            sections: Seq::new(self.sections@.len(), |k: int| self.sections@[k]@),
            current_section: self.current_section,
            unresolved_jmps: Seq::new(self.unresolved_jmps@.len(), |k: int| self.unresolved_jmps@[k]@),
            external: Seq::new(
                self.external@.len(),
                |k: int| (self.external@[k].0, self.external@[k].1@),
            ),
            relocs: Seq::new(
                self.relocs@.len(),
                |k: int| (self.relocs@[k].0, self.relocs@[k].1@, self.relocs@[k].2),
            ),
        }
    }
}

impl CodeBuilderModel {
    /// Whether there is a current section.
    pub open spec fn has_section(self) -> bool {
        self.current_section < self.sections.len()
    }

    /// The current section.
    pub open spec fn section(self) -> SectionModel {
        self.sections[self.current_section as int]
    }

    /// Whether there is a current label.
    pub open spec fn has_label(self) -> bool {
        self.has_section() && self.section().current_label < self.section().labels.len()
    }

    /// The current label.
    pub open spec fn label(self) -> LabelModel {
        self.section().labels[self.section().current_label as int]
    }

    /// The builder with `section` in the place of the current section.
    pub open spec fn with_section(self, section: SectionModel) -> CodeBuilderModel {
        CodeBuilderModel {
            sections: self.sections.update(self.current_section as int, section),
            ..self
        }
    }

    /// The builder with `label` in the place of the current label.
    pub open spec fn with_label(self, label: LabelModel) -> CodeBuilderModel {
        self.with_section(
            SectionModel {
                labels: self.section().labels.update(self.section().current_label as int, label),
                ..self.section()
            },
        )
    }

    /// Whether every placeholder lies within a label that exists.
    pub open spec fn wf(self) -> bool {
        forall|k: int|
            0 <= k < self.unresolved_jmps.len() ==> {
                let u = #[trigger] self.unresolved_jmps[k];
                &&& u.section < self.sections.len()
                &&& u.label < self.sections[u.section as int].labels.len()
                &&& u.at + 5 <= self.sections[u.section as int].labels[u.label as int].code.len()
            }
    }
}

/// The offset of the first label named `name` among those from `from` on.
pub open spec fn find_in_labels(labels: Seq<LabelModel>, name: Seq<char>, from: int) -> Option<isize>
    decreases labels.len() - from,
{
    if from < 0 || from >= labels.len() {
        None
    } else if labels[from].name == name {
        Some(labels[from].offset)
    } else {
        find_in_labels(labels, name, from + 1)
    }
}

/// The offset of the first label named `name` in the sections from `from` on,
/// section by section and in each label by label.
pub open spec fn find_in_sections(sections: Seq<SectionModel>, name: Seq<char>, from: int) -> Option<
    isize,
>
    decreases sections.len() - from,
{
    if from < 0 || from >= sections.len() {
        None
    } else {
        match find_in_labels(sections[from].labels, name, 0) {
            Some(offset) => Some(offset),
            None => find_in_sections(sections, name, from + 1),
        }
    }
}

/// The place of the first label named `name` from `from` on, or the length of the list.
pub open spec fn label_position(labels: Seq<LabelModel>, name: Seq<char>, from: int) -> int
    decreases labels.len() - from,
{
    if from < 0 || from >= labels.len() {
        labels.len() as int
    } else if labels[from].name == name {
        from
    } else {
        label_position(labels, name, from + 1)
    }
}

/// The place of the first section named `name` from `from` on, or the length of the list.
pub open spec fn section_position(sections: Seq<SectionModel>, name: Seq<char>, from: int) -> int
    decreases sections.len() - from,
{
    if from < 0 || from >= sections.len() {
        sections.len() as int
    } else if sections[from].name == name {
        from
    } else {
        section_position(sections, name, from + 1)
    }
}

/// The opcode of a deferred branch.
pub open spec fn branch_opcode(call: bool) -> u8 {
    if call {
        0xE8
    } else {
        0xE9
    }
}

/// The offset in its section of the displacement of a deferred branch: one
/// past its opcode. In wrapping arithmetic.
pub open spec fn displacement_offset(u: UnresolvedModel) -> isize {
    vstd::wrapping::isize_specs::wrapping_add(
        vstd::wrapping::isize_specs::wrapping_add(u.at as isize, u.label_offset),
        1,
    )
}

/// The builder after one deferred branch is dealt with. Where a label has the
/// name, the placeholder is overwritten with the branch to it, and the
/// section and the label of the placeholder become the current ones. Where
/// none has, a relocation is noted.
pub open spec fn resolve_one(b: CodeBuilderModel, u: UnresolvedModel) -> CodeBuilderModel {
    match find_in_sections(b.sections, u.name, 0) {
        Some(target) => {
            let section = b.sections[u.section as int];
            let label = section.labels[u.label as int];
            let patched = LabelModel {
                code: overwritten(
                    label.code,
                    branch(branch_opcode(u.call), relative_target(target, u.label_offset, u.at as isize)),
                    u.at as int,
                ),
                ..label
            };
            CodeBuilderModel {
                sections: b.sections.update(
                    u.section as int,
                    SectionModel {
                        labels: section.labels.update(u.label as int, patched),
                        current_label: u.label,
                        ..section
                    },
                ),
                current_section: u.section,
                ..b
            }
        },
        None => CodeBuilderModel {
            relocs: b.relocs.push((u.section, u.name, displacement_offset(u))),
            ..b
        },
    }
}

/// The builder after the first `n` deferred branches are dealt with, in order.
pub open spec fn resolve_first(b: CodeBuilderModel, n: nat) -> CodeBuilderModel
    decreases n,
{
    if n == 0 || n > b.unresolved_jmps.len() {
        b
    } else {
        resolve_one(resolve_first(b, (n - 1) as nat), b.unresolved_jmps[n - 1])
    }
}

/// Dealing with deferred branches leaves the list of them, the outside names
/// and the size of every label as they are.
pub proof fn lemma_resolve_keeps_shape(b: CodeBuilderModel, n: nat)
    requires
        b.wf(),
        n <= b.unresolved_jmps.len(),
    ensures
        resolve_first(b, n).unresolved_jmps == b.unresolved_jmps,
        resolve_first(b, n).external == b.external,
        resolve_first(b, n).wf(),
        resolve_first(b, n).sections.len() == b.sections.len(),
        forall|s: int|
            0 <= s < b.sections.len() ==> (#[trigger] resolve_first(b, n).sections[s]).labels.len()
                == b.sections[s].labels.len(),
        forall|s: int, l: int|
            0 <= s < b.sections.len() && 0 <= l < b.sections[s].labels.len() ==> (
            #[trigger] resolve_first(b, n).sections[s].labels[l]).code.len()
                == b.sections[s].labels[l].code.len(),
    decreases n,
{
    if n > 0 {
        lemma_resolve_keeps_shape(b, (n - 1) as nat);
        let prev = resolve_first(b, (n - 1) as nat);
        let u = b.unresolved_jmps[n - 1];
        assert(u == prev.unresolved_jmps[n - 1]);
        let next = resolve_one(prev, u);
        assert(next == resolve_first(b, n));
        match find_in_sections(prev.sections, u.name, 0) {
            Some(target) => {
                assert forall|k: int| 0 <= k < next.unresolved_jmps.len() implies {
                    let v = #[trigger] next.unresolved_jmps[k];
                    &&& v.section < next.sections.len()
                    &&& v.label < next.sections[v.section as int].labels.len()
                    &&& v.at + 5 <= next.sections[v.section as int].labels[v.label as int].code.len()
                } by {
                    let v = prev.unresolved_jmps[k];
                    assert(v.section < prev.sections.len());
                }
            },
            None => {},
        }
    }
}

/// Placeholders stay within their labels where sections and labels are only
/// added, and no label gets shorter.
pub proof fn lemma_wf_kept(before: CodeBuilderModel, after: CodeBuilderModel)
    requires
        before.wf(),
        after.unresolved_jmps == before.unresolved_jmps,
        after.sections.len() >= before.sections.len(),
        forall|s: int|
            0 <= s < before.sections.len() ==> (#[trigger] after.sections[s]).labels.len()
                >= before.sections[s].labels.len(),
        forall|s: int, l: int|
            0 <= s < before.sections.len() && 0 <= l < before.sections[s].labels.len() ==> (
            #[trigger] after.sections[s].labels[l]).code.len()
                >= before.sections[s].labels[l].code.len(),
    ensures
        after.wf(),
{
    assert forall|k: int| 0 <= k < after.unresolved_jmps.len() implies {
        let u = #[trigger] after.unresolved_jmps[k];
        &&& u.section < after.sections.len()
        &&& u.label < after.sections[u.section as int].labels.len()
        &&& u.at + 5 <= after.sections[u.section as int].labels[u.label as int].code.len()
    } by {
        let u = before.unresolved_jmps[k];
        assert(u.section < before.sections.len());
        assert(after.sections[u.section as int].labels.len() >= before.sections[
            u.section as int
        ].labels.len());
        assert(after.sections[u.section as int].labels[u.label as int].code.len()
            >= before.sections[u.section as int].labels[u.label as int].code.len());
    }
}

/// A builder that differs from another in its current label alone has the
/// model of the other with that label replaced.
proof fn lemma_label_replaced(before: CodeBuilder, after: CodeBuilder)
    requires
        before@.has_label(),
        after.current_section == before.current_section,
        after.unresolved_jmps == before.unresolved_jmps,
        after.external == before.external,
        after.relocs == before.relocs,
        after.sections@.len() == before.sections@.len(),
        forall|k: int|
            0 <= k < before.sections@.len() && k != before.current_section
                ==> after.sections@[k] == before.sections@[k],
        ({
            let old_section = before.sections@[before.current_section as int];
            let new_section = after.sections@[before.current_section as int];
            &&& new_section.name == old_section.name
            &&& new_section.current_label == old_section.current_label
            &&& new_section.i == old_section.i
            &&& new_section.kind == old_section.kind
            &&& new_section.labels@.len() == old_section.labels@.len()
            &&& forall|j: int|
                0 <= j < old_section.labels@.len() && j != old_section.current_label
                    ==> new_section.labels@[j] == old_section.labels@[j]
        }),
    ensures
        after@ == before@.with_label(after@.label()),
{
    let cs = before.current_section as int;
    let cl = before.sections@[cs].current_label as int;
    assert(after@.sections[cs].labels =~= before@.section().labels.update(cl, after@.label()));
    assert(after@.sections =~= before@.sections.update(cs, after@.sections[cs]));
    assert(after@.unresolved_jmps =~= before@.unresolved_jmps);
    assert(after@.external =~= before@.external);
    assert(after@.relocs =~= before@.relocs);
}

impl CodeBuilder {
    /// A builder without sections.
    pub fn new() -> (cb: CodeBuilder)
        ensures
            cb@ == (CodeBuilderModel {
                sections: Seq::empty(),
                current_section: 0,
                unresolved_jmps: Seq::empty(),
                external: Seq::empty(),
                relocs: Seq::empty(),
            }),
            cb@.wf(),
    {
        let cb = CodeBuilder {
            sections: Vec::new(),
            current_section: 0,
            unresolved_jmps: Vec::new(),
            external: Vec::new(),
            relocs: Vec::new(),
        };
        assert(cb@.sections =~= Seq::<SectionModel>::empty());
        assert(cb@.unresolved_jmps =~= Seq::<UnresolvedModel>::empty());
        assert(cb@.external =~= Seq::<(usize, Seq<char>)>::empty());
        assert(cb@.relocs =~= Seq::<(usize, Seq<char>, isize)>::empty());
        cb
    }

    /// Adds an empty text section at the end, and returns its place.
    pub fn add_section(&mut self, name: String) -> (i: usize)
        ensures
            i == old(self)@.sections.len(),
            final(self)@ == (CodeBuilderModel {
                sections: old(self)@.sections.push(
                    SectionModel {
                        name: name@,
                        labels: Seq::empty(),
                        current_label: 0,
                        i,
                        kind: SectionKind::Text,
                    },
                ),
                ..old(self)@
            }),
            old(self)@.wf() ==> final(self)@.wf(),
    {
        let i = self.sections.len();
        self.sections.push(Section::new(name, i));
        proof {
            assert(self@.sections =~= old(self)@.sections.push(self.sections@[i as int]@));
            assert(self@.unresolved_jmps =~= old(self)@.unresolved_jmps);
            assert(self@.external =~= old(self)@.external);
            assert(self@.relocs =~= old(self)@.relocs);
            if old(self)@.wf() {
                lemma_wf_kept(old(self)@, self@);
            }
        }
        i
    }

    /// Sets the kind of the current section.
    pub fn set_kind(&mut self, kind: SectionKind)
        requires
            old(self)@.has_section(),
        ensures
            final(self)@ == old(self)@.with_section(SectionModel { kind, ..old(self)@.section() }),
            old(self)@.wf() ==> final(self)@.wf(),
    {
        let cs = self.current_section;
        self.sections[cs].kind = kind;
        proof {
            assert(self@.sections =~= old(self)@.sections.update(cs as int, self.sections@[cs as int]@));
            assert(self@.unresolved_jmps =~= old(self)@.unresolved_jmps);
            assert(self@.external =~= old(self)@.external);
            assert(self@.relocs =~= old(self)@.relocs);
            if old(self)@.wf() {
                lemma_wf_kept(old(self)@, self@);
            }
        }
    }

    /// Declares a name that comes from elsewhere, with the current section.
    pub fn add_extern(&mut self, symbol: String)
        ensures
            final(self)@ == (CodeBuilderModel {
                external: old(self)@.external.push((old(self).current_section, symbol@)),
                ..old(self)@
            }),
            old(self)@.wf() ==> final(self)@.wf(),
    {
        self.external.push((self.current_section, symbol));
        proof {
            assert(self@.external =~= old(self)@.external.push((old(self).current_section, symbol@)));
            assert(self@.sections =~= old(self)@.sections);
            assert(self@.unresolved_jmps =~= old(self)@.unresolved_jmps);
            assert(self@.relocs =~= old(self)@.relocs);
            if old(self)@.wf() {
                lemma_wf_kept(old(self)@, self@);
            }
        }
    }

    /// Makes the section at `i` the current one.
    pub fn bind_section(&mut self, i: usize)
        ensures
            final(self)@ == (CodeBuilderModel { current_section: i, ..old(self)@ }),
            old(self)@.wf() ==> final(self)@.wf(),
    {
        self.current_section = i;
        proof {
            if old(self)@.wf() {
                lemma_wf_kept(old(self)@, self@);
            }
        }
    }

    /// Adds an empty label at the end of the current section, at the offset
    /// where the label before it ends, and returns its place.
    pub fn add_label(&mut self, name: String) -> (i: usize)
        requires
            old(self)@.has_section(),
            old(self)@.section().labels.len() > 0 ==> old(self)@.section().labels.last().code.len()
                <= isize::MAX && old(self)@.section().labels.last().offset + old(
                self,
            )@.section().labels.last().code.len() <= isize::MAX,
        ensures
            i == old(self)@.section().labels.len(),
            final(self)@ == old(self)@.with_section(
                SectionModel {
                    labels: old(self)@.section().labels.push(
                        LabelModel {
                            name: name@,
                            offset: if i == 0 {
                                0isize
                            } else {
                                (old(self)@.section().labels.last().offset + old(
                                    self,
                                )@.section().labels.last().code.len()) as isize
                            },
                            code: Seq::empty(),
                            i,
                            global: false,
                            weak: false,
                        },
                    ),
                    ..old(self)@.section()
                },
            ),
            old(self)@.wf() ==> final(self)@.wf(),
    {
        let cs = self.current_section;
        let i = self.sections[cs].labels.len();
        let mut offset: isize = 0;
        if i > 0 {
            let last = &self.sections[cs].labels[i - 1];
            offset = last.offset + (last.code.len() as isize);
        }
        self.sections[cs].labels.push(Label::new(name, i, offset));
        proof {
            let new_section = self.sections@[cs as int]@;
            assert(new_section.labels =~= old(self)@.section().labels.push(
                self.sections@[cs as int].labels@[i as int]@,
            ));
            assert(self@.sections =~= old(self)@.sections.update(cs as int, new_section));
            assert(self@.unresolved_jmps =~= old(self)@.unresolved_jmps);
            assert(self@.external =~= old(self)@.external);
            assert(self@.relocs =~= old(self)@.relocs);
            if old(self)@.wf() {
                lemma_wf_kept(old(self)@, self@);
            }
        }
        i
    }

    /// Makes the label at `i` the current one of the current section.
    pub fn bind_label(&mut self, i: usize)
        requires
            old(self)@.has_section(),
        ensures
            final(self)@ == old(self)@.with_section(
                SectionModel { current_label: i, ..old(self)@.section() },
            ),
            old(self)@.wf() ==> final(self)@.wf(),
    {
        let cs = self.current_section;
        self.sections[cs].current_label = i;
        proof {
            assert(self@.sections =~= old(self)@.sections.update(cs as int, self.sections@[cs as int]@));
            assert(self@.unresolved_jmps =~= old(self)@.unresolved_jmps);
            assert(self@.external =~= old(self)@.external);
            assert(self@.relocs =~= old(self)@.relocs);
            if old(self)@.wf() {
                lemma_wf_kept(old(self)@, self@);
            }
        }
    }

    /// Marks the current label as global.
    pub fn set_global(&mut self)
        requires
            old(self)@.has_label(),
        ensures
            final(self)@ == old(self)@.with_label(LabelModel { global: true, ..old(self)@.label() }),
            old(self)@.wf() ==> final(self)@.wf(),
    {
        let cs = self.current_section;
        let cl = self.sections[cs].current_label;
        self.sections[cs].labels[cl].set_global();
        proof {
            lemma_label_replaced(*old(self), *self);
            if old(self)@.wf() {
                lemma_wf_kept(old(self)@, self@);
            }
        }
    }

    /// Adds one byte at the end of the current label.
    pub fn add_byte(&mut self, byte: u8)
        requires
            old(self)@.has_label(),
        ensures
            final(self)@ == old(self)@.with_label(
                LabelModel { code: old(self)@.label().code.push(byte), ..old(self)@.label() },
            ),
            old(self)@.wf() ==> final(self)@.wf(),
    {
        let cs = self.current_section;
        let cl = self.sections[cs].current_label;
        self.sections[cs].labels[cl].add_byte(byte);
        proof {
            lemma_label_replaced(*old(self), *self);
            if old(self)@.wf() {
                lemma_wf_kept(old(self)@, self@);
            }
        }
    }

    /// Adds bytes at the end of the current label.
    pub fn add_bytes(&mut self, bytes: Vec<u8>)
        requires
            old(self)@.has_label(),
        ensures
            final(self)@ == old(self)@.with_label(
                LabelModel { code: old(self)@.label().code + bytes@, ..old(self)@.label() },
            ),
            old(self)@.wf() ==> final(self)@.wf(),
    {
        let cs = self.current_section;
        let cl = self.sections[cs].current_label;
        self.sections[cs].labels[cl].add_bytes(bytes);
        proof {
            lemma_label_replaced(*old(self), *self);
            if old(self)@.wf() {
                lemma_wf_kept(old(self)@, self@);
            }
        }
    }

    /// Writes bytes over those at `offset` of the current label, which must be there.
    pub fn set_bytes_at(&mut self, bytes: Vec<u8>, offset: isize)
        requires
            old(self)@.has_label(),
            0 <= offset,
            offset + bytes.len() <= old(self)@.label().code.len(),
        ensures
            final(self)@ == old(self)@.with_label(
                LabelModel {
                    code: overwritten(old(self)@.label().code, bytes@, offset as int),
                    ..old(self)@.label()
                },
            ),
            old(self)@.wf() ==> final(self)@.wf(),
    {
        let cs = self.current_section;
        let cl = self.sections[cs].current_label;
        self.sections[cs].labels[cl].set_bytes_at(bytes, offset as usize);
        proof {
            lemma_label_replaced(*old(self), *self);
            if old(self)@.wf() {
                lemma_wf_kept(old(self)@, self@);
            }
        }
    }

    /// Adds a jump from the end of the current label to the place `offset` of its section.
    pub fn resolve_rel_jmp(&mut self, offset: isize)
        requires
            old(self)@.has_label(),
        ensures
            final(self)@ == old(self)@.with_label(
                LabelModel {
                    code: old(self)@.label().code + branch(
                        0xE9,
                        relative_target(
                            offset,
                            old(self)@.label().offset,
                            old(self)@.label().code.len() as isize,
                        ),
                    ),
                    ..old(self)@.label()
                },
            ),
            old(self)@.wf() ==> final(self)@.wf(),
    {
        let cs = self.current_section;
        let cl = self.sections[cs].current_label;
        self.sections[cs].labels[cl].resolve_rel_jmp(offset);
        proof {
            lemma_label_replaced(*old(self), *self);
            if old(self)@.wf() {
                lemma_wf_kept(old(self)@, self@);
            }
        }
    }

    /// The place of the first section named `name`, if there is one.
    pub fn section_index(&self, name: &str) -> (r: Option<usize>)
        ensures
            ({
                let at = section_position(self@.sections, name@, 0);
                match r {
                    Some(k) => k == at && at < self@.sections.len(),
                    None => at >= self@.sections.len(),
                }
            }),
    {
        let wanted = String::from_str(name);
        let mut k: usize = 0;
        while k < self.sections.len()
            invariant
                k <= self.sections.len(),
                wanted@ == name@,
                section_position(self@.sections, name@, 0) == section_position(
                    self@.sections,
                    name@,
                    k as int,
                ),
            decreases self.sections.len() - k,
        {
            if self.sections[k].name == wanted {
                return Some(k);
            }
            k += 1;
        }
        None
    }

    /// The first section named `name`, if there is one.
    pub fn get_section(&mut self, name: &str) -> (r: Option<&mut Section>)
        ensures
            ({
                let at = section_position(old(self)@.sections, name@, 0);
                match r {
                    Some(section) => {
                        &&& at < old(self)@.sections.len()
                        &&& *section == old(self).sections@[at]
                        &&& final(self).sections@ == old(self).sections@.update(at, *final(section))
                        &&& final(self).current_section == old(self).current_section
                        &&& final(self).unresolved_jmps == old(self).unresolved_jmps
                        &&& final(self).external == old(self).external
                        &&& final(self).relocs == old(self).relocs
                    },
                    None => at >= old(self)@.sections.len() && *final(self) == *old(self),
                }
            }),
    {
        assert(self@.sections.len() == self.sections@.len());
        match self.section_index(name) {
            Some(k) => {
                assert(k < self.sections@.len());
                Some(&mut self.sections[k])
            },
            None => None,
        }
    }

    /// The place in the current section of the first label named `name`, if there is one.
    pub fn label_index(&self, name: &str) -> (r: Option<usize>)
        requires
            self@.has_section(),
        ensures
            ({
                let at = label_position(self@.section().labels, name@, 0);
                match r {
                    Some(k) => k == at && at < self@.section().labels.len(),
                    None => at >= self@.section().labels.len(),
                }
            }),
    {
        let wanted = String::from_str(name);
        let section = &self.sections[self.current_section];
        let mut k: usize = 0;
        while k < section.labels.len()
            invariant
                k <= section.labels.len(),
                wanted@ == name@,
                section@ == self@.section(),
                label_position(section@.labels, name@, 0) == label_position(
                    section@.labels,
                    name@,
                    k as int,
                ),
            decreases section.labels.len() - k,
        {
            if section.labels[k].name == wanted {
                return Some(k);
            }
            k += 1;
        }
        None
    }

    /// The first label of the current section that is named `name`, if there is one.
    pub fn get_label(&mut self, name: &str) -> (r: Option<&mut Label>)
        requires
            old(self)@.has_section(),
        ensures
            ({
                let cs = old(self).current_section as int;
                let at = label_position(old(self)@.section().labels, name@, 0);
                match r {
                    Some(label) => {
                        &&& at < old(self)@.section().labels.len()
                        &&& *label == old(self).sections@[cs].labels@[at]
                        &&& final(self).sections@.len() == old(self).sections@.len()
                        &&& forall|k: int|
                            0 <= k < old(self).sections@.len() && k != cs ==> final(self).sections@[k]
                                == old(self).sections@[k]
                        &&& final(self).sections@[cs].labels@ == old(self).sections@[cs].labels@.update(
                            at,
                            *final(label),
                        )
                        &&& final(self).sections@[cs].name == old(self).sections@[cs].name
                        &&& final(self).sections@[cs].current_label == old(
                            self,
                        ).sections@[cs].current_label
                        &&& final(self).sections@[cs].i == old(self).sections@[cs].i
                        &&& final(self).sections@[cs].kind == old(self).sections@[cs].kind
                        &&& final(self).current_section == old(self).current_section
                        &&& final(self).unresolved_jmps == old(self).unresolved_jmps
                        &&& final(self).external == old(self).external
                        &&& final(self).relocs == old(self).relocs
                    },
                    None => at >= old(self)@.section().labels.len() && *final(self) == *old(self),
                }
            }),
    {
        let cs = self.current_section;
        assert(cs < self.sections.len());
        assert(self@.section() == self.sections@[cs as int]@);
        assert(self@.section().labels.len() == self.sections@[cs as int].labels@.len());
        match self.label_index(name) {
            Some(k) => {
                assert(k < self.sections@[cs as int].labels@.len());
                Some(&mut self.sections[cs].labels[k])
            },
            None => None,
        }
    }

    /// Notes a branch to `name` and writes its placeholder at the end of the current label.
    fn defer(&mut self, name: String, call: bool)
        requires
            old(self)@.has_label(),
        ensures
            final(self)@ == (CodeBuilderModel {
                unresolved_jmps: old(self)@.unresolved_jmps.push(
                    UnresolvedModel {
                        name: name@,
                        section: old(self).current_section,
                        label: old(self)@.section().current_label,
                        label_offset: old(self)@.label().offset,
                        at: old(self)@.label().code.len() as usize,
                        call,
                    },
                ),
                ..old(self)@.with_label(
                    LabelModel {
                        code: old(self)@.label().code + branch(branch_opcode(call), 0),
                        ..old(self)@.label()
                    },
                )
            }),
            old(self)@.wf() ==> final(self)@.wf(),
    {
        let cs = self.current_section;
        let cl = self.sections[cs].current_label;
        let entry = Unresolved {
            name,
            section: cs,
            label: cl,
            label_offset: self.sections[cs].labels[cl].offset,
            at: self.sections[cs].labels[cl].code.len(),
            call,
        };
        let placeholder = encode_branch(if call { 0xE8 } else { 0xE9 }, 0);
        self.sections[cs].labels[cl].add_bytes(placeholder);
        let ghost patched = *self;
        proof {
            lemma_label_replaced(*old(self), patched);
        }
        self.unresolved_jmps.push(entry);
        proof {
            assert(self@.unresolved_jmps =~= old(self)@.unresolved_jmps.push(entry@));
            assert(self@.sections =~= patched@.sections);
            assert(self@.external =~= patched@.external);
            assert(self@.relocs =~= patched@.relocs);
            if old(self)@.wf() {
                assert forall|k: int| 0 <= k < self@.unresolved_jmps.len() implies {
                    let u = #[trigger] self@.unresolved_jmps[k];
                    &&& u.section < self@.sections.len()
                    &&& u.label < self@.sections[u.section as int].labels.len()
                    &&& u.at + 5 <= self@.sections[u.section as int].labels[u.label as int].code.len()
                } by {
                    if k < old(self)@.unresolved_jmps.len() {
                        assert(self@.unresolved_jmps[k] == old(self)@.unresolved_jmps[k]);
                    }
                }
            }
        }
    }

    /// Writes a jump to `name` with a placeholder for its target, to be resolved later.
    pub fn symbol_jmp(&mut self, name: String)
        requires
            old(self)@.has_label(),
        ensures
            final(self)@ == (CodeBuilderModel {
                unresolved_jmps: old(self)@.unresolved_jmps.push(
                    UnresolvedModel {
                        name: name@,
                        section: old(self).current_section,
                        label: old(self)@.section().current_label,
                        label_offset: old(self)@.label().offset,
                        at: old(self)@.label().code.len() as usize,
                        call: false,
                    },
                ),
                ..old(self)@.with_label(
                    LabelModel {
                        code: old(self)@.label().code + branch(0xE9, 0),
                        ..old(self)@.label()
                    },
                )
            }),
            old(self)@.wf() ==> final(self)@.wf(),
    {
        self.defer(name, false);
    }

    /// Writes a call of `name` with a placeholder for its target, to be resolved later.
    pub fn symbol_call(&mut self, name: String)
        requires
            old(self)@.has_label(),
        ensures
            final(self)@ == (CodeBuilderModel {
                unresolved_jmps: old(self)@.unresolved_jmps.push(
                    UnresolvedModel {
                        name: name@,
                        section: old(self).current_section,
                        label: old(self)@.section().current_label,
                        label_offset: old(self)@.label().offset,
                        at: old(self)@.label().code.len() as usize,
                        call: true,
                    },
                ),
                ..old(self)@.with_label(
                    LabelModel {
                        code: old(self)@.label().code + branch(0xE8, 0),
                        ..old(self)@.label()
                    },
                )
            }),
            old(self)@.wf() ==> final(self)@.wf(),
    {
        self.defer(name, true);
    }

    /// The offset of the first label named `name`, section by section.
    pub fn find_label(&self, name: &String) -> (r: Option<isize>)
        ensures
            r == find_in_sections(self@.sections, name@, 0),
    {
        let mut s: usize = 0;
        while s < self.sections.len()
            invariant
                s <= self.sections.len(),
                find_in_sections(self@.sections, name@, 0) == find_in_sections(
                    self@.sections,
                    name@,
                    s as int,
                ),
            decreases self.sections.len() - s,
        {
            let section = &self.sections[s];
            let mut l: usize = 0;
            while l < section.labels.len()
                invariant
                    l <= section.labels.len(),
                    s < self.sections.len(),
                    *section == self.sections@[s as int],
                    find_in_sections(self@.sections, name@, 0) == find_in_sections(
                        self@.sections,
                        name@,
                        s as int,
                    ),
                    find_in_labels(section@.labels, name@, 0) == find_in_labels(
                        section@.labels,
                        name@,
                        l as int,
                    ),
                decreases section.labels.len() - l,
            {
                if section.labels[l].name == *name {
                    return Some(section.labels[l].offset);
                }
                l += 1;
            }
            s += 1;
        }
        None
    }

    /// Deals with one deferred branch, as [`resolve_one`] states it.
    fn resolve_entry(&mut self, k: usize)
        requires
            old(self)@.wf(),
            k < old(self)@.unresolved_jmps.len(),
        ensures
            final(self)@ == resolve_one(old(self)@, old(self)@.unresolved_jmps[k as int]),
    {
        let ghost u = self@.unresolved_jmps[k as int];
        let section = self.unresolved_jmps[k].section;
        let label = self.unresolved_jmps[k].label;
        let label_offset = self.unresolved_jmps[k].label_offset;
        let at = self.unresolved_jmps[k].at;
        let call = self.unresolved_jmps[k].call;
        let name = self.unresolved_jmps[k].name.clone();
        assert(u.section == section && u.label == label && u.at == at);
        match self.find_label(&name) {
            Some(target) => {
                let rel = target.wrapping_sub(label_offset).wrapping_sub(at as isize);
                let bytes = encode_branch(if call { 0xE8 } else { 0xE9 }, rel);
                assert(self.sections@[section as int]@ == self@.sections[section as int]);
                assert(self.sections@[section as int].labels@[label as int]@
                    == self@.sections[section as int].labels[label as int]);
                self.sections[section].labels[label].set_bytes_at(bytes, at);
                self.sections[section].current_label = label;
                self.current_section = section;
                proof {
                    let want = resolve_one(old(self)@, u);
                    assert(self@.sections[section as int].labels =~= want.sections[section as int].labels);
                    assert(self@.sections =~= want.sections);
                    assert(self@.unresolved_jmps =~= want.unresolved_jmps);
                    assert(self@.external =~= want.external);
                    assert(self@.relocs =~= want.relocs);
                }
            },
            None => {
                let offset = (at as isize).wrapping_add(label_offset).wrapping_add(1);
                self.relocs.push((section, name, offset));
                proof {
                    let want = resolve_one(old(self)@, u);
                    assert(self@.relocs =~= want.relocs);
                    assert(self@.sections =~= want.sections);
                    assert(self@.unresolved_jmps =~= want.unresolved_jmps);
                    assert(self@.external =~= want.external);
                }
            },
        }
    }

    /// Deals with every deferred branch, in the order in which they were
    /// written: a branch to a label that exists is written over its
    /// placeholder, any other becomes a relocation.
    pub fn resolve_jmps(&mut self) -> (r: Result<(), AssemblerError>)
        requires
            old(self)@.wf(),
        ensures
            r is Ok,
            final(self)@ == resolve_first(old(self)@, old(self)@.unresolved_jmps.len()),
    {
        let n = self.unresolved_jmps.len();
        let mut k: usize = 0;
        while k < n
            invariant
                k <= n,
                n == old(self)@.unresolved_jmps.len(),
                old(self)@.wf(),
                self@ == resolve_first(old(self)@, k as nat),
            decreases n - k,
        {
            proof {
                lemma_resolve_keeps_shape(old(self)@, k as nat);
            }
            self.resolve_entry(k);
            k += 1;
        }
        Ok(())
    }

    /// Ends the writing of code: deals with every deferred branch.
    pub fn finalize(&mut self) -> (r: Result<(), AssemblerError>)
        requires
            old(self)@.wf(),
        ensures
            r is Ok,
            final(self)@ == resolve_first(old(self)@, old(self)@.unresolved_jmps.len()),
    {
        self.resolve_jmps()
    }
    /// The bytes of the object file for this code. An unresolved reference
    /// to a name that is neither a label nor declared as coming from
    /// elsewhere gives `SymbolNotFound` with that name; where there is
    /// none, the plan that the code makes is written.
    pub fn write_obj(&self) -> (r: Result<Vec<u8>, ObjectError>)
        requires
            forall|k: int|
                0 <= k < self@.sections.len() ==> (#[trigger] self@.sections[k]).i
                    < self@.sections.len(),
        ensures
            linked(self@) < self@.relocs.len() ==> (r matches Err(
                ObjectError::SymbolNotFound { symbol },
            ) && symbol@ == self@.relocs[linked(self@) as int].1),
            linked(self@) == self@.relocs.len() ==> gives(r, plan_outcome(planned(self@))),
    {
        let mut plan = ObjectBuilder::new();
        assert(plan@ == crate::backend::writer::obj::empty_plan());
        match plan.scan_cb(self) {
            Ok(_) => {},
            Err(e) => {
                return Err(e);
            },
        }
        assert(plan@ == planned(self@));
        plan.write_obj()
    }
}

} // verus!
