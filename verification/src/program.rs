//! The program assembler: label detection, the label table, the line-by-line
//! first pass, the address-resolution second pass, and the final encoding
//! walk that serializes every instruction to its 32-bit word.

use vstd::prelude::*;
use vstd::arithmetic::div_mod::{lemma_fundamental_div_mod, lemma_mod_multiples_vanish};
use crate::error::AssemblerError;
use crate::instruction::{line_to_seq, seq_view, Instruction};
use crate::model::{
    abs_label_of, encode_model, rel_label_of, with_abs_addr, with_rel_addr, ErrModel, InstrModel,
};

verus! {

/// An identifier character of a label.
pub open spec fn is_ident_char(c: char) -> bool {
    ('a' as int <= c as int <= 'z' as int) || ('A' as int <= c as int <= 'Z' as int) || ('0' as int
        <= c as int <= '9' as int) || c == '_'
}

/// Whether position `i` of `s` is a colon directly preceded by an identifier
/// character, which makes the line a label definition.
pub open spec fn colon_hit(s: Seq<char>, i: int) -> bool {
    0 < i < s.len() && s[i] == ':' && is_ident_char(s[i - 1])
}

/// The first label-defining colon of `s` at or after position `i`.
pub open spec fn flc_from(s: Seq<char>, i: int) -> Option<int>
    decreases s.len() - i,
{
    if i >= s.len() {
        None
    } else if colon_hit(s, i) {
        Some(i)
    } else {
        flc_from(s, i + 1)
    }
}

/// The start of the maximal identifier run that ends just before position
/// `i`.
pub open spec fn run_start(s: Seq<char>, i: int) -> int
    decreases i,
{
    if i > 0 && is_ident_char(s[i - 1]) {
        run_start(s, i - 1)
    } else {
        i
    }
}

/// The label a line defines, if any: the maximal identifier run directly
/// before the first colon that follows at least one identifier character.
pub open spec fn detect_label_spec(s: Seq<char>) -> Option<Seq<char>> {
    match flc_from(s, 0) {
        Some(i) => Some(s.subrange(run_start(s, i), i)),
        None => None,
    }
}

proof fn lemma_flc_found(s: Seq<char>, j: int, i: int)
    requires
        0 <= j <= i,
        colon_hit(s, i),
        forall|k: int| j <= k < i ==> !colon_hit(s, k),
    ensures
        flc_from(s, j) == Some(i),
    decreases i - j,
{
    if j < i {
        lemma_flc_found(s, j + 1, i);
    }
}

proof fn lemma_flc_none(s: Seq<char>, j: int)
    requires
        0 <= j,
        forall|k: int| j <= k < s.len() ==> !colon_hit(s, k),
    ensures
        flc_from(s, j) is None,
    decreases s.len() - j,
{
    if j < s.len() {
        lemma_flc_none(s, j + 1);
    }
}

proof fn lemma_run_start_at(s: Seq<char>, i: int, p: int)
    requires
        0 <= p <= i <= s.len(),
        forall|k: int| p <= k < i ==> is_ident_char(s[k]),
        p == 0 || !is_ident_char(s[p - 1]),
    ensures
        run_start(s, i) == p,
    decreases i - p,
{
    if i > p {
        lemma_run_start_at(s, i - 1, p);
    }
}

/// Whether `c` is an identifier character.
fn ident_c(c: char) -> (r: bool)
    ensures
        r == is_ident_char(c),
{
    let u = c as u32;
    (97 <= u && u <= 122) || (65 <= u && u <= 90) || (48 <= u && u <= 57) || c == '_'
}

/// Detects a label definition: an identifier immediately followed by a colon.
/// Returns the label name, or `None` for an instruction line.
pub fn detect_label(line: &str) -> (r: Option<String>)
    ensures
        match r {
            Some(l) => detect_label_spec(line@) == Some(l@),
            None => detect_label_spec(line@) is None,
        },
{
    let n = line.unicode_len();
    let mut i: usize = 0;
    let mut prev_ident: bool = false;
    while i < n
        invariant
            n == line@.len(),
            i <= n,
            forall|k: int| 0 <= k < i ==> !colon_hit(line@, k),
            prev_ident == (i > 0 && is_ident_char(line@[i as int - 1])),
        decreases n - i,
    {
        let c = line.get_char(i);
        if c == ':' && prev_ident {
            proof {
                lemma_flc_found(line@, 0, i as int);
            }
            let mut p: usize = i;
            while p > 0 && ident_c(line.get_char(p - 1))
                invariant
                    n == line@.len(),
                    p <= i < n,
                    forall|k: int| p <= k < i ==> is_ident_char(line@[k]),
                decreases p,
            {
                p -= 1;
            }
            proof {
                lemma_run_start_at(line@, i as int, p as int);
            }
            return Some(line.substring_char(p, i).to_owned());
        }
        prev_ident = ident_c(c);
        i += 1;
    }
    proof {
        lemma_flc_none(line@, 0);
    }
    None
}

/// The label table: maps each defined label name to the instruction index it
/// stands before. A redefinition silently overwrites the earlier one.
pub struct LabelTable {
    entries: Vec<(String, usize)>,
}

/// The mapping a list of definitions denotes, later entries shadowing
/// earlier ones.
pub open spec fn table_map(entries: Seq<(String, usize)>) -> Map<Seq<char>, usize>
    decreases entries.len(),
{
    if entries.len() == 0 {
        Map::empty()
    } else {
        table_map(entries.drop_last()).insert(entries.last().0@, entries.last().1)
    }
}

impl View for LabelTable {
    type V = Map<Seq<char>, usize>;

    closed spec fn view(&self) -> Map<Seq<char>, usize> {
        table_map(self.entries@)
    }
}

proof fn lemma_table_skip(entries: Seq<(String, usize)>, name: Seq<char>, j: int)
    requires
        0 <= j <= entries.len(),
        forall|k: int| j <= k < entries.len() ==> entries[k].0@ != name,
    ensures
        table_map(entries).contains_key(name) == table_map(entries.subrange(0, j)).contains_key(
            name,
        ),
        table_map(entries).contains_key(name) ==> table_map(entries)[name] == table_map(
            entries.subrange(0, j),
        )[name],
    decreases entries.len() - j,
{
    if j < entries.len() {
        let t = entries.drop_last();
        assert(forall|k: int| j <= k < t.len() ==> t[k].0@ != name);
        lemma_table_skip(t, name, j);
        assert(t.subrange(0, j) =~= entries.subrange(0, j));
    } else {
        assert(entries.subrange(0, j) =~= entries);
    }
}

impl LabelTable {
    /// An empty label table.
    pub fn new() -> (r: Self)
        ensures
            r@ == Map::<Seq<char>, usize>::empty(),
    {
        LabelTable { entries: Vec::new() }
    }

    /// Records that `name` stands before instruction index `idx`,
    /// overwriting an earlier definition of the same name.
    pub fn insert(&mut self, name: String, idx: usize)
        ensures
            final(self)@ == old(self)@.insert(name@, idx),
    {
        self.entries.push((name, idx));
        proof {
            assert(self.entries@.drop_last() =~= old(self).entries@);
        }
    }

    /// Looks a label name up.
    pub fn get(&self, name: &str) -> (r: Option<usize>)
        ensures
            match r {
                Some(idx) => self@.contains_key(name@) && self@[name@] == idx,
                None => !self@.contains_key(name@),
            },
    {
        let n = self.entries.len();
        let mut j: usize = n;
        while j > 0
            invariant
                n == self.entries@.len(),
                j <= n,
                forall|k: int| j <= k < n ==> self.entries@[k].0@ != name@,
            decreases j,
        {
            j -= 1;
            if crate::scan::str_eq(self.entries[j].0.as_str(), name) {
                proof {
                    lemma_table_skip(self.entries@, name@, j + 1);
                    let pre = self.entries@.subrange(0, j + 1);
                    assert(pre.drop_last() =~= self.entries@.subrange(0, j as int));
                    assert(pre.last() == self.entries@[j as int]);
                }
                return Some(self.entries[j].1);
            }
        }
        proof {
            lemma_table_skip(self.entries@, name@, 0);
            assert(self.entries@.subrange(0, 0) =~= Seq::<(String, usize)>::empty());
        }
        None
    }
}

/// Model of an assembled program: the ordered instruction sequence and the
/// label table.
pub ghost struct ProgramModel {
    pub instrs: Seq<InstrModel>,
    pub labels: Map<Seq<char>, usize>,
}

/// An assembled program: the ordered instruction sequence, whose ordinal
/// position is the sole addressing unit, and the label table.
pub struct Program {
    pub instrs: Vec<Instruction>,
    pub labels: LabelTable,
}

impl View for Program {
    type V = ProgramModel;

    open spec fn view(&self) -> ProgramModel {
        ProgramModel { instrs: seq_view(self.instrs@), labels: self.labels@ }
    }
}

/// The views of a sequence of source lines.
pub open spec fn lines_view(lines: Seq<String>) -> Seq<Seq<char>> {
    lines.map_values(|l: String| l@)
}

/// What a sequence of source lines assembles to in the first pass: a label
/// line records the current instruction count under its name; an instruction
/// line appends its (expanded) primitive instructions. The first failing
/// line's error aborts the pass.
pub open spec fn build_program(lines: Seq<Seq<char>>) -> Result<ProgramModel, ErrModel>
    decreases lines.len(),
{
    if lines.len() == 0 {
        Ok(ProgramModel { instrs: seq![], labels: Map::empty() })
    } else {
        match build_program(lines.drop_last()) {
            Err(e) => Err(e),
            Ok(pm) => {
                let line = lines.last();
                match detect_label_spec(line) {
                    Some(l) => Ok(
                        ProgramModel {
                            instrs: pm.instrs,
                            labels: pm.labels.insert(l, pm.instrs.len() as usize),
                        },
                    ),
                    None => match line_to_seq(line) {
                        Ok(ms) => Ok(ProgramModel { instrs: pm.instrs + ms, labels: pm.labels }),
                        Err(e) => Err(e),
                    },
                }
            },
        }
    }
}

/// The displacement pattern of a relative branch at instruction index `i`
/// targeting a label defined at index `j`: the signed word count from the
/// next instruction, truncated to 16 bits.
pub open spec fn rel_disp(j: int, i: int) -> u16 {
    (((j - i - 1) % 0x10000) as u16)
}

/// Relative-branch law: the displacement pattern is exactly the byte
/// distance from the next instruction's program counter (`i * 4 + 4`) to the
/// label's address (`j * 4`), arithmetic-shifted right by two with its sign
/// preserved (an exact division by four), truncated to 16 bits.
pub proof fn lemma_relative_branch(j: int, i: int)
    ensures
        rel_disp(j, i) == ((j * 4 - (i * 4 + 4)) / 4) % 0x10000,
{
    assert((j * 4 - (i * 4 + 4)) / 4 == j - i - 1) by (nonlinear_arith);
}

proof fn lemma_neg_mod(d: int, m: int)
    requires
        d >= 0,
        m > 0,
    ensures
        (-d) % m == (if d % m == 0 {
            0int
        } else {
            m - (d % m)
        }),
{
    lemma_fundamental_div_mod(d, m);
    let q = d / m;
    let r = d % m;
    if r == 0 {
        assert(-d == m * (-q) + 0) by (nonlinear_arith)
            requires
                d == m * q + r,
                r == 0,
        ;
        lemma_mod_multiples_vanish(-q, 0, m);
        vstd::arithmetic::div_mod::lemma_small_mod(0nat, m as nat);
        assert((-d) % m == 0);
    } else {
        assert(-d == m * (-q - 1) + (m - r)) by (nonlinear_arith)
            requires
                d == m * q + r,
        ;
        lemma_mod_multiples_vanish(-q - 1, m - r, m);
        vstd::arithmetic::div_mod::lemma_small_mod((m - r) as nat, m as nat);
        assert((-d) % m == m - r);
    }
}

/// Computes the relative displacement pattern for a branch at index `i`
/// targeting index `j`.
fn rel_imm(j: usize, i: usize) -> (r: u16)
    requires
        i < usize::MAX,
    ensures
        r == rel_disp(j as int, i as int),
{
    if j > i {
        let d = j - i - 1;
        (d % 65536) as u16
    } else {
        let d = i - j + 1;
        let rm = d % 65536;
        proof {
            lemma_neg_mod(d as int, 0x10000);
        }
        if rm == 0 {
            0
        } else {
            (65536 - rm) as u16
        }
    }
}

/// What the resolution pass makes of one instruction at index `idx`: an
/// absolute label resolves to `off + 4 * position`; a relative label to the
/// displacement pattern from the next instruction; an instruction without a
/// label is untouched; a label never defined is the undefined-label error.
pub open spec fn resolve_instr(
    m: InstrModel,
    idx: int,
    labels: Map<Seq<char>, usize>,
    off: u32,
) -> Result<InstrModel, ErrModel> {
    match abs_label_of(m) {
        Some(name) => if labels.contains_key(name) {
            Ok(with_abs_addr(m, (off + 4 * labels[name]) as u32))
        } else {
            Err(ErrModel::UndefinedLabel { name })
        },
        None => match rel_label_of(m) {
            Some(name) => if labels.contains_key(name) {
                Ok(with_rel_addr(m, rel_disp(labels[name] as int, idx)))
            } else {
                Err(ErrModel::UndefinedLabel { name })
            },
            None => Ok(m),
        },
    }
}

/// The whole resolution pass over an instruction sequence: every instruction
/// resolved at its own index, stopping at the first undefined label.
pub open spec fn resolve_all(
    instrs: Seq<InstrModel>,
    labels: Map<Seq<char>, usize>,
    off: u32,
) -> Result<Seq<InstrModel>, ErrModel>
    decreases instrs.len(),
{
    if instrs.len() == 0 {
        Ok(seq![])
    } else {
        match resolve_all(instrs.drop_last(), labels, off) {
            Err(e) => Err(e),
            Ok(pre) => match resolve_instr(instrs.last(), instrs.len() - 1, labels, off) {
                Ok(ri) => Ok(pre.push(ri)),
                Err(e) => Err(e),
            },
        }
    }
}

/// Every label the table holds points into (or just past) the instruction
/// sequence. The first pass only ever defines a label at the current
/// instruction count, so every program it builds satisfies this.
pub open spec fn labels_bounded(pm: ProgramModel) -> bool {
    forall|n: Seq<char>|
        pm.labels.contains_key(n) ==> (#[trigger] pm.labels[n]) <= pm.instrs.len()
}

proof fn lemma_build_labels_bounded(lines: Seq<Seq<char>>)
    ensures
        build_program(lines) matches Ok(pm) ==> labels_bounded(pm),
    decreases lines.len(),
{
    if lines.len() > 0 {
        lemma_build_labels_bounded(lines.drop_last());
    }
}

/// Every label address the resolution pass would assign fits in a 32-bit
/// word once the base offset is added.
pub open spec fn labels_in_range(labels: Map<Seq<char>, usize>, off: u32) -> bool {
    forall|n: Seq<char>|
        labels.contains_key(n) ==> off + 4 * (#[trigger] labels[n] as int) <= u32::MAX
}

/// The whole encoding walk: each instruction's 32-bit word in order,
/// stopping at the first instruction that still carries an unresolved label.
pub open spec fn encode_all(instrs: Seq<InstrModel>) -> Result<Seq<u32>, ErrModel>
    decreases instrs.len(),
{
    if instrs.len() == 0 {
        Ok(seq![])
    } else {
        match encode_all(instrs.drop_last()) {
            Err(e) => Err(e),
            Ok(pre) => match encode_model(instrs.last()) {
                Ok(w) => Ok(pre.push(w)),
                Err(e) => Err(e),
            },
        }
    }
}

proof fn lemma_build_program_prefix_err(lines: Seq<Seq<char>>, i: int)
    requires
        0 <= i <= lines.len(),
        build_program(lines.subrange(0, i)) is Err,
    ensures
        build_program(lines) == build_program(lines.subrange(0, i)),
    decreases lines.len() - i,
{
    if i < lines.len() {
        assert(lines.subrange(0, i + 1).drop_last() =~= lines.subrange(0, i));
        lemma_build_program_prefix_err(lines, i + 1);
    } else {
        assert(lines.subrange(0, i) =~= lines);
    }
}

proof fn lemma_resolve_all_prefix_err(
    instrs: Seq<InstrModel>,
    labels: Map<Seq<char>, usize>,
    off: u32,
    i: int,
)
    requires
        0 <= i <= instrs.len(),
        resolve_all(instrs.subrange(0, i), labels, off) is Err,
    ensures
        resolve_all(instrs, labels, off) == resolve_all(instrs.subrange(0, i), labels, off),
    decreases instrs.len() - i,
{
    if i < instrs.len() {
        assert(instrs.subrange(0, i + 1).drop_last() =~= instrs.subrange(0, i));
        lemma_resolve_all_prefix_err(instrs, labels, off, i + 1);
    } else {
        assert(instrs.subrange(0, i) =~= instrs);
    }
}

proof fn lemma_encode_all_prefix_err(instrs: Seq<InstrModel>, i: int)
    requires
        0 <= i <= instrs.len(),
        encode_all(instrs.subrange(0, i)) is Err,
    ensures
        encode_all(instrs) == encode_all(instrs.subrange(0, i)),
    decreases instrs.len() - i,
{
    if i < instrs.len() {
        assert(instrs.subrange(0, i + 1).drop_last() =~= instrs.subrange(0, i));
        lemma_encode_all_prefix_err(instrs, i + 1);
    } else {
        assert(instrs.subrange(0, i) =~= instrs);
    }
}

impl Program {
    /// Assembles a sequence of source lines: the first pass of the
    /// assembler. Each line is either a label definition or one (possibly
    /// pseudo) instruction; the first bad line's error aborts the run.
    pub fn parse_lines(lines: &Vec<String>) -> (r: Result<Program, AssemblerError>)
        ensures
            match r {
                Ok(p) => build_program(lines_view(lines@)) == Ok::<_, ErrModel>(p@)
                    && labels_bounded(p@),
                Err(e) => build_program(lines_view(lines@)) == Err::<ProgramModel, _>(e@),
            },
    {
        let mut prog = Program { instrs: Vec::new(), labels: LabelTable::new() };
        proof {
            assert(lines_view(lines@).subrange(0, 0) =~= Seq::<Seq<char>>::empty());
            assert(seq_view(prog.instrs@) =~= Seq::<InstrModel>::empty());
        }
        let n = lines.len();
        let mut i: usize = 0;
        while i < n
            invariant
                n == lines@.len(),
                i <= n,
                build_program(lines_view(lines@).subrange(0, i as int)) == Ok::<_, ErrModel>(
                    prog@,
                ),
            decreases n - i,
        {
            proof {
                assert(lines_view(lines@).subrange(0, i + 1).drop_last() =~= lines_view(
                    lines@,
                ).subrange(0, i as int));
                assert(lines_view(lines@).subrange(0, i + 1).last() == lines@[i as int]@);
            }
            let line: &String = &lines[i];
            match detect_label(line.as_str()) {
                Some(label) => {
                    let idx = prog.instrs.len();
                    prog.labels.insert(label, idx);
                },
                None => match Instruction::from_str(line.as_str()) {
                    Ok(mut v) => {
                        let ghost pre = seq_view(prog.instrs@);
                        let ghost add = seq_view(v@);
                        prog.instrs.append(&mut v);
                        proof {
                            assert(seq_view(prog.instrs@) =~= pre + add);
                        }
                    },
                    Err(e) => {
                        proof {
                            lemma_build_program_prefix_err(lines_view(lines@), i + 1);
                        }
                        return Err(e);
                    },
                },
            }
            i += 1;
        }
        proof {
            assert(lines_view(lines@).subrange(0, n as int) =~= lines_view(lines@));
            lemma_build_labels_bounded(lines_view(lines@));
        }
        Ok(prog)
    }

    /// The resolution pass: walks the instruction sequence and writes every
    /// label-carrying instruction's address — absolute labels get
    /// `off + 4 * definingPosition`, relative labels the displacement from
    /// the next instruction — failing on a label never defined.
    pub fn assign_labels(&mut self, off: u32) -> (r: Result<(), AssemblerError>)
        requires
            labels_in_range(old(self)@.labels, off),
        ensures
            final(self)@.labels == old(self)@.labels,
            final(self)@.instrs.len() == old(self)@.instrs.len(),
            match r {
                Ok(()) => resolve_all(old(self)@.instrs, old(self)@.labels, off) == Ok::<
                    _,
                    ErrModel,
                >(final(self)@.instrs),
                Err(e) => resolve_all(old(self)@.instrs, old(self)@.labels, off) == Err::<
                    Seq<InstrModel>,
                    _,
                >(e@),
            },
    {
        let ghost ov = old(self)@.instrs;
        let ghost labels = old(self)@.labels;
        let n = self.instrs.len();
        proof {
            assert(ov.subrange(0, 0) =~= Seq::<InstrModel>::empty());
            assert(seq_view(self.instrs@).subrange(0, 0) =~= Seq::<InstrModel>::empty());
            assert(resolve_all(Seq::<InstrModel>::empty(), labels, off) == Ok::<_, ErrModel>(
                Seq::<InstrModel>::empty(),
            ));
        }
        let mut i: usize = 0;
        while i < n
            invariant
                n == self.instrs@.len(),
                i <= n,
                ov == old(self)@.instrs,
                labels == old(self)@.labels,
                labels_in_range(labels, off),
                self.labels@ == labels,
                ov.len() == n,
                forall|k: int| i <= k < n ==> seq_view(self.instrs@)[k] == ov[k],
                resolve_all(ov.subrange(0, i as int), labels, off) == Ok::<_, ErrModel>(
                    seq_view(self.instrs@).subrange(0, i as int),
                ),
            decreases n - i,
        {
            proof {
                assert(ov.subrange(0, i + 1).drop_last() =~= ov.subrange(0, i as int));
                assert(ov.subrange(0, i + 1).last() == ov[i as int]);
            }
            let ghost pre_view = seq_view(self.instrs@);
            if self.instrs[i].has_abs_label() {
                let idx_opt = self.labels.get(self.instrs[i].get_label_name().as_str());
                match idx_opt {
                    None => {
                        let nm = self.instrs[i].get_label_name().clone();
                        proof {
                            assert(resolve_instr(ov[i as int], i as int, labels, off) == Err::<
                                InstrModel,
                                ErrModel,
                            >(ErrModel::UndefinedLabel { name: nm@ }));
                            lemma_resolve_all_prefix_err(ov, labels, off, i + 1);
                        }
                        return Err(AssemblerError::UndefinedLabel(nm));
                    },
                    Some(j) => {
                        let a: u32 = off + 4 * (j as u32);
                        self.instrs[i].set_abs_addr(a);
                        proof {
                            assert(seq_view(self.instrs@).subrange(0, i + 1) =~= pre_view.subrange(
                                0,
                                i as int,
                            ).push(with_abs_addr(ov[i as int], a)));
                            assert(forall|k: int|
                                i + 1 <= k < n ==> seq_view(self.instrs@)[k] == ov[k]);
                        }
                    },
                }
            } else if self.instrs[i].has_rel_label() {
                let idx_opt = self.labels.get(self.instrs[i].get_label_name().as_str());
                match idx_opt {
                    None => {
                        let nm = self.instrs[i].get_label_name().clone();
                        proof {
                            assert(resolve_instr(ov[i as int], i as int, labels, off) == Err::<
                                InstrModel,
                                ErrModel,
                            >(ErrModel::UndefinedLabel { name: nm@ }));
                            lemma_resolve_all_prefix_err(ov, labels, off, i + 1);
                        }
                        return Err(AssemblerError::UndefinedLabel(nm));
                    },
                    Some(j) => {
                        let d: u16 = rel_imm(j, i);
                        self.instrs[i].set_rel_addr(d);
                        proof {
                            assert(seq_view(self.instrs@).subrange(0, i + 1) =~= pre_view.subrange(
                                0,
                                i as int,
                            ).push(with_rel_addr(ov[i as int], d)));
                            assert(forall|k: int|
                                i + 1 <= k < n ==> seq_view(self.instrs@)[k] == ov[k]);
                        }
                    },
                }
            } else {
                proof {
                    assert(seq_view(self.instrs@).subrange(0, i + 1) =~= pre_view.subrange(
                        0,
                        i as int,
                    ).push(ov[i as int]));
                }
            }
            i += 1;
        }
        proof {
            assert(ov.subrange(0, n as int) =~= ov);
            assert(seq_view(self.instrs@).subrange(0, n as int) =~= seq_view(self.instrs@));
        }
        Ok(())
    }

    /// The encoding walk: every instruction's 32-bit word, in instruction
    /// order, failing at the first instruction whose label is still
    /// unresolved.
    pub fn encode(&self) -> (r: Result<Vec<u32>, AssemblerError>)
        ensures
            match r {
                Ok(ws) => encode_all(self@.instrs) == Ok::<_, ErrModel>(ws@),
                Err(e) => encode_all(self@.instrs) == Err::<Seq<u32>, _>(e@),
            },
    {
        let ghost iv = seq_view(self.instrs@);
        let n = self.instrs.len();
        let mut ws: Vec<u32> = Vec::new();
        let mut i: usize = 0;
        while i < n
            invariant
                n == self.instrs@.len(),
                i <= n,
                iv == seq_view(self.instrs@),
                encode_all(iv.subrange(0, i as int)) == Ok::<_, ErrModel>(ws@),
            decreases n - i,
        {
            proof {
                assert(iv.subrange(0, i + 1).drop_last() =~= iv.subrange(0, i as int));
                assert(iv.subrange(0, i + 1).last() == iv[i as int]);
            }
            match self.instrs[i].encode() {
                Ok(w) => {
                    ws.push(w);
                },
                Err(e) => {
                    proof {
                        lemma_encode_all_prefix_err(iv, i + 1);
                    }
                    return Err(e);
                },
            }
            i += 1;
        }
        proof {
            assert(iv.subrange(0, n as int) =~= iv);
        }
        Ok(ws)
    }
}

/// The 32-character big-endian binary rendering of a word: character `k`
/// shows bit `31 - k`.
pub open spec fn bits_of(w: u32) -> Seq<char> {
    Seq::new(32, |k: int| if (w >> (31 - k)) & 1 == 1 { '1' } else { '0' })
}

/// Renders a word as its 32-character big-endian binary string.
pub fn word_to_bits(w: u32) -> (r: String)
    ensures
        r@ == bits_of(w),
{
    proof {
        reveal_strlit("0");
        reveal_strlit("1");
        reveal_strlit("");
    }
    let mut s = String::new();
    let mut k: usize = 0;
    while k < 32
        invariant
            k <= 32,
            s@.len() == k,
            forall|idx: int| 0 <= idx < k ==> s@[idx] == bits_of(w)[idx],
        decreases 32 - k,
    {
        proof {
            reveal_strlit("0");
            reveal_strlit("1");
        }
        let sh: u32 = (31 - k) as u32;
        if (w >> sh) & 1 == 1 {
            s.append("1");
        } else {
            s.append("0");
        }
        k += 1;
    }
    proof {
        assert(s@ =~= bits_of(w));
    }
    s
}

} // verus!
