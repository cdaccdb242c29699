//! Statement buffer and two-pass resolver. The assembler owns an ordered log
//! of statements; `dump` first materializes bytes while recording label
//! offsets and exported functions, then patches every deferred jump
//! displacement, producing an `ObjectFile`.

use crate::emit::le_bytes;
use crate::emit::push_le;
use crate::emit::push_le_signed;
use crate::emit::push_repeat;
use crate::object_file::ExportedFunction;
use crate::object_file::ExportedFunctionV;
use crate::object_file::ObjectFile;
use crate::object_file::ObjectFileV;
use crate::x64::parser::Arg;
use crate::x64::parser::Ident;
use crate::x64::parser::ImmediateValue;
use crate::x64::parser::JumpTarget;
use crate::x64::parser::Size;
use std::collections::HashMap;
use std::collections::HashSet;
use vstd::map::*;
use vstd::prelude::*;

verus! {

/// One element of the statement log.
#[derive(Debug, Clone)]
pub enum Stmt {
    /// A literal code byte.
    Const(u8),
    /// An immediate, materialized as the little-endian bytes of its value at
    /// the given width.
    Var(ImmediateValue, Size),
    /// Exports the current output offset under a function name.
    GlobalLabel(Ident),
    /// Records the current output offset as the target's address.
    LocalLabel(JumpTarget),
    /// Marks that the field ending at the current output offset must be
    /// patched with the displacement to the target's address.
    ForwardJumpTarget(JumpTarget, Size),
    /// Pads the output with NOP bytes up to the requested alignment.
    Align(ImmediateValue),
}

pub type StmtBuffer = Vec<Stmt>;

/// The statement log element with names abstracted to character sequences.
pub enum StmtV {
    Const(u8),
    Var(ImmediateValue, Size),
    GlobalLabel(Seq<char>),
    LocalLabel(JumpTarget),
    ForwardJumpTarget(JumpTarget, Size),
    Align(ImmediateValue),
}

impl View for Stmt {
    type V = StmtV;

    open spec fn view(&self) -> StmtV {
        match self {
            Stmt::Const(b) => StmtV::Const(*b),
            Stmt::Var(v, s) => StmtV::Var(*v, *s),
            Stmt::GlobalLabel(name) => StmtV::GlobalLabel(name@),
            Stmt::LocalLabel(t) => StmtV::LocalLabel(*t),
            Stmt::ForwardJumpTarget(t, s) => StmtV::ForwardJumpTarget(*t, *s),
            Stmt::Align(v) => StmtV::Align(*v),
        }
    }
}

pub open spec fn buf_view(b: Seq<Stmt>) -> Seq<StmtV> {
    b.map_values(|s: Stmt| s@)
}

pub proof fn lemma_buf_view_push(b: Seq<Stmt>, s: Stmt)
    ensures
        buf_view(b.push(s)) == buf_view(b).push(s@),
{
    assert(buf_view(b.push(s)) =~= buf_view(b).push(s@));
}

/// Resolution-time failures. These reflect invalid code-generation requests
/// discovered only while resolving the log, not recoverable conditions.
#[derive(Debug, Clone, Copy, PartialEq, Eq, Structural)]
pub enum AsmError {
    /// A `Var` value/width combination, or an `Align` payload (width
    /// `None`), that the materializer does not implement; carries the
    /// offending value and width.
    UnimplementedStatement(ImmediateValue, Option<Size>),
    /// An alignment request of zero or of more than 1024 bytes; carries the
    /// requested alignment.
    AlignmentOutOfRange(u64),
    /// A jump whose target was never placed with `LocalLabel`.
    UnresolvedAddress(JumpTarget),
    /// A deferred jump displacement of a width other than `DWORD`; carries
    /// the target and the unsupported width.
    UnimplementedJumpSize(JumpTarget, Size),
    /// A patch field that would extend before the start of the code buffer;
    /// carries the target whose field underflows.
    PatchBeforeStart(JumpTarget),
}

/// The little-endian bytes a `Var` statement materializes to, or `None` for
/// a value/width combination the materializer does not implement.
pub open spec fn var_bytes(v: ImmediateValue, s: Size) -> Option<Seq<u8>> {
    match (v, s) {
        (ImmediateValue::I64(x), Size::BYTE) => Some(le_bytes(x as int, 1)),
        (ImmediateValue::I64(x), Size::DWORD) => Some(le_bytes(x as int, 4)),
        (ImmediateValue::U64(x), Size::QWORD) => Some(le_bytes(x as int, 8)),
        _ => None,
    }
}

/// How many NOP bytes bring a buffer of length `len` up to a multiple of `k`.
pub open spec fn pad_len(len: nat, k: nat) -> nat
    recommends
        k > 0,
{
    ((k as int - (len as int % k as int)) % k as int) as nat
}

pub open spec fn nop_pad(len: nat, k: nat) -> Seq<u8> {
    Seq::new(pad_len(len, k), |i: int| 0x90u8)
}

/// The state pass 1 threads through the log: materialized code, exported
/// functions, placed label offsets, and pending jump patches
/// `(target, width, field end offset)`.
#[verifier::ext_equal]
pub struct ResolveState {
    pub code: Seq<u8>,
    pub functions: Seq<ExportedFunctionV>,
    pub labels: Map<JumpTarget, int>,
    pub jumps: Seq<(JumpTarget, Size, int)>,
}

pub open spec fn init_state() -> ResolveState {
    ResolveState { code: Seq::empty(), functions: Seq::empty(), labels: Map::empty(), jumps: Seq::empty() }
}

/// Pass 1, one statement.
pub open spec fn resolve_step(st: ResolveState, s: StmtV) -> Result<ResolveState, AsmError> {
    match s {
        StmtV::Const(b) => Ok(ResolveState { code: st.code + seq![b], ..st }),
        StmtV::Var(v, sz) => match var_bytes(v, sz) {
            Some(bs) => Ok(ResolveState { code: st.code + bs, ..st }),
            None => Err(AsmError::UnimplementedStatement(v, Some(sz))),
        },
        StmtV::GlobalLabel(name) => Ok(
            ResolveState {
                functions: st.functions + seq![
                    ExportedFunctionV {
                        offset: (st.code.len() % 0x1_0000_0000) as u32,
                        name: name,
                    },
                ],
                ..st
            },
        ),
        StmtV::LocalLabel(t) => Ok(
            ResolveState { labels: st.labels.insert(t, st.code.len() as int), ..st },
        ),
        StmtV::ForwardJumpTarget(t, sz) => Ok(
            ResolveState { jumps: st.jumps + seq![(t, sz, st.code.len() as int)], ..st },
        ),
        StmtV::Align(v) => match v {
            ImmediateValue::U64(k) => if k == 0 || k > 1024 {
                Err(AsmError::AlignmentOutOfRange(k))
            } else {
                Ok(ResolveState { code: st.code + nop_pad(st.code.len(), k as nat), ..st })
            },
            ImmediateValue::I64(_) => Err(AsmError::UnimplementedStatement(v, None)),
        },
    }
}

/// Pass 1 over a whole log.
pub open spec fn resolve_all(st: ResolveState, stmts: Seq<StmtV>) -> Result<ResolveState, AsmError>
    decreases stmts.len(),
{
    if stmts.len() == 0 {
        Ok(st)
    } else {
        match resolve_step(st, stmts[0]) {
            Ok(st2) => resolve_all(st2, stmts.skip(1)),
            Err(e) => Err(e),
        }
    }
}

/// `bs` written over `code` at `pos`.
pub open spec fn splice(code: Seq<u8>, pos: int, bs: Seq<u8>) -> Seq<u8> {
    code.take(pos) + bs + code.skip(pos + bs.len())
}

/// Pass 2, one pending jump: look the target up, check the width, and write
/// the little-endian displacement into the four bytes before the field end.
pub open spec fn patch_step(code: Seq<u8>, labels: Map<JumpTarget, int>, j: (JumpTarget, Size, int)) -> Result<
    Seq<u8>,
    AsmError,
> {
    if !labels.contains_key(j.0) {
        Err(AsmError::UnresolvedAddress(j.0))
    } else if !(j.1 is DWORD) {
        Err(AsmError::UnimplementedJumpSize(j.0, j.1))
    } else if j.2 < 4 {
        Err(AsmError::PatchBeforeStart(j.0))
    } else {
        Ok(splice(code, j.2 - 4, le_bytes(labels[j.0] - j.2, 4)))
    }
}

/// Pass 2 over all pending jumps.
pub open spec fn patch_all(code: Seq<u8>, labels: Map<JumpTarget, int>, jumps: Seq<(JumpTarget, Size, int)>) -> Result<
    Seq<u8>,
    AsmError,
>
    decreases jumps.len(),
{
    if jumps.len() == 0 {
        Ok(code)
    } else {
        match patch_step(code, labels, jumps[0]) {
            Ok(code2) => patch_all(code2, labels, jumps.skip(1)),
            Err(e) => Err(e),
        }
    }
}

/// What `dump` returns: both passes over the log, from an empty state.
pub open spec fn spec_dump(stmts: Seq<StmtV>) -> Result<ObjectFileV, AsmError> {
    match resolve_all(init_state(), stmts) {
        Ok(st) => match patch_all(st.code, st.labels, st.jumps) {
            Ok(code) => Ok(ObjectFileV { functions: st.functions, code: code }),
            Err(e) => Err(e),
        },
        Err(e) => Err(e),
    }
}

/// Every pending jump's field end lies within the materialized code.
pub open spec fn jumps_bounded(st: ResolveState) -> bool {
    forall|i: int|
        0 <= i < st.jumps.len() ==> 0 <= #[trigger] st.jumps[i].2 <= st.code.len()
}

pub proof fn lemma_resolve_step_bounds(st: ResolveState, s: StmtV)
    requires
        jumps_bounded(st),
        resolve_step(st, s) is Ok,
    ensures
        jumps_bounded(resolve_step(st, s)->Ok_0),
        resolve_step(st, s)->Ok_0.code.len() >= st.code.len(),
{
}

pub proof fn lemma_resolve_all_bounds(st: ResolveState, stmts: Seq<StmtV>)
    requires
        jumps_bounded(st),
        resolve_all(st, stmts) is Ok,
    ensures
        jumps_bounded(resolve_all(st, stmts)->Ok_0),
        resolve_all(st, stmts)->Ok_0.code.len() >= st.code.len(),
    decreases stmts.len(),
{
    if stmts.len() > 0 {
        let st2 = resolve_step(st, stmts[0])->Ok_0;
        lemma_resolve_step_bounds(st, stmts[0]);
        lemma_resolve_all_bounds(st2, stmts.skip(1));
    }
}

/// A jump waiting for pass 2: the statement-log data plus where in the code
/// buffer its patch field ends.
#[derive(Debug)]
struct JumpToResolve {
    target: JumpTarget,
    from: usize,
    size: Size,
}

/// The assembler: a statement log under construction, the active instruction
/// prefixes, and the local-label allocator state.
pub struct FlaggedAssembler {
    pub buffer: StmtBuffer,
    pub prefixes: Vec<Ident>,
    pub jump_target_counter: JumpTarget,
    pub allocated_jump_targets: HashSet<JumpTarget>,
}

impl FlaggedAssembler {
    /// Well-formedness: the set of allocated local labels is finite, as any
    /// set grown by single insertions is.
    pub open spec fn wf(&self) -> bool {
        self.allocated_jump_targets@.finite()
    }

    /// Encode one instruction under the active prefixes: select the matching
    /// variant from `data` and append its statements to the buffer. An
    /// invalid code-generation request fails without touching the buffer.
    pub fn encode(&mut self, name: &str, data: &[crate::x64::compiler::Opdata], args: &Vec<Arg>) -> (r: Result<
        (),
        crate::x64::compiler::EncodeError,
    >)
        ensures
            final(self).prefixes == old(self).prefixes,
            final(self).jump_target_counter == old(self).jump_target_counter,
            final(self).allocated_jump_targets == old(self).allocated_jump_targets,
            match r {
                Ok(_) => crate::x64::compiler::spec_compile(
                    name@,
                    crate::x64::compiler::prefix_views(old(self).prefixes@),
                    args@,
                    crate::x64::compiler::opdata_views(data@),
                ) is Ok && buf_view(final(self).buffer@) == buf_view(old(self).buffer@)
                    + crate::x64::compiler::spec_compile(
                    name@,
                    crate::x64::compiler::prefix_views(old(self).prefixes@),
                    args@,
                    crate::x64::compiler::opdata_views(data@),
                )->Ok_0,
                Err(e) => crate::x64::compiler::spec_compile(
                    name@,
                    crate::x64::compiler::prefix_views(old(self).prefixes@),
                    args@,
                    crate::x64::compiler::opdata_views(data@),
                ) == Err::<Seq<StmtV>, crate::x64::compiler::EncodeErrorV>(e@)
                    && final(self).buffer@ == old(self).buffer@,
            },
    {
        crate::x64::compiler::compile_op(&mut self.buffer, name, &self.prefixes, args, data)
    }
}

pub struct Assembler {
    pub inner: FlaggedAssembler,
}

/// The label allocator's affine recurrence: deterministic, and perturbed by
/// the current buffer length so that separate assembler instances in one
/// build are unlikely (though not guaranteed) to collide.
pub open spec fn next_counter(c: u64, buffer_len: u64) -> u64 {
    vstd::wrapping::u64_specs::wrapping_mul(
        vstd::wrapping::u64_specs::wrapping_add(
            vstd::wrapping::u64_specs::wrapping_add(c, 47),
            buffer_len,
        ),
        199,
    )
}

impl Assembler {
    pub fn new() -> (r: Assembler)
        ensures
            r.inner.buffer@ == Seq::<Stmt>::empty(),
            r.inner.prefixes@ == Seq::<Ident>::empty(),
            r.inner.jump_target_counter == 5050u64,
            r.inner.allocated_jump_targets@ == Set::<JumpTarget>::empty(),
            r.inner.wf(),
    {
        Assembler {
            inner: FlaggedAssembler {
                buffer: Vec::new(),
                prefixes: Vec::new(),
                jump_target_counter: 5050,
                allocated_jump_targets: HashSet::new(),
            },
        }
    }

    /// Export the current position in the output under `name`.
    pub fn global(&mut self, name: &str)
        ensures
            buf_view(final(self).inner.buffer@) == buf_view(old(self).inner.buffer@).push(
                StmtV::GlobalLabel(name@),
            ),
            final(self).inner.prefixes == old(self).inner.prefixes,
            final(self).inner.jump_target_counter == old(self).inner.jump_target_counter,
            final(self).inner.allocated_jump_targets == old(self).inner.allocated_jump_targets,
    {
        self.inner.buffer.push(Stmt::GlobalLabel(name.to_owned()));
        proof {
            assert(buf_view(self.inner.buffer@) =~= buf_view(old(self).inner.buffer@).push(
                StmtV::GlobalLabel(name@),
            ));
        }
    }

    /// Append literal code bytes.
    pub fn constant(&mut self, xs: &[u8])
        ensures
            buf_view(final(self).inner.buffer@) == buf_view(old(self).inner.buffer@) + xs@
                .map_values(|b: u8| StmtV::Const(b)),
            final(self).inner.prefixes == old(self).inner.prefixes,
            final(self).inner.jump_target_counter == old(self).inner.jump_target_counter,
            final(self).inner.allocated_jump_targets == old(self).inner.allocated_jump_targets,
    {
        let mut i: usize = 0;
        while i < xs.len()
            invariant
                i <= xs.len(),
                buf_view(self.inner.buffer@) == buf_view(old(self).inner.buffer@) + xs@.take(
                    i as int,
                ).map_values(|b: u8| StmtV::Const(b)),
                self.inner.prefixes == old(self).inner.prefixes,
                self.inner.jump_target_counter == old(self).inner.jump_target_counter,
                self.inner.allocated_jump_targets == old(self).inner.allocated_jump_targets,
            decreases xs.len() - i,
        {
            let ghost prev = self.inner.buffer@;
            let b = xs[i];
            self.inner.buffer.push(Stmt::Const(b));
            i = i + 1;
            proof {
                lemma_buf_view_push(prev, Stmt::Const(b));
                assert(xs@.take(i as int) =~= xs@.take(i - 1).push(b));
                assert(xs@.take(i as int).map_values(|b: u8| StmtV::Const(b)) =~= xs@.take(
                    i - 1,
                ).map_values(|b: u8| StmtV::Const(b)).push(StmtV::Const(b)));
                assert(buf_view(self.inner.buffer@) =~= buf_view(old(self).inner.buffer@) + xs@
                    .take(i as int).map_values(|b: u8| StmtV::Const(b)));
            }
        }
        proof {
            assert(xs@.take(xs@.len() as int) =~= xs@);
            assert(buf_view(self.inner.buffer@) =~= buf_view(old(self).inner.buffer@) + xs@
                .map_values(|b: u8| StmtV::Const(b)));
        }
    }

    /// Allocate a local label identifier that no earlier allocation on this
    /// assembler returned. When the counter's next value is free — the
    /// ordinary case — that value is returned and the counter advances by
    /// the affine recurrence; a collision falls back to the smallest free
    /// identifier.
    pub fn allocate_local(&mut self) -> (r: JumpTarget)
        requires
            old(self).inner.wf(),
        ensures
            final(self).inner.wf(),
            !old(self).inner.allocated_jump_targets@.contains(r),
            final(self).inner.allocated_jump_targets@ == old(
                self,
            ).inner.allocated_jump_targets@.insert(r),
            final(self).inner.buffer == old(self).inner.buffer,
            final(self).inner.prefixes == old(self).inner.prefixes,
            !old(self).inner.allocated_jump_targets@.contains(
                old(self).inner.jump_target_counter,
            ) ==> r == old(self).inner.jump_target_counter
                && final(self).inner.jump_target_counter == next_counter(
                old(self).inner.jump_target_counter,
                old(self).inner.buffer@.len() as u64,
            ),
    {
        let ret = self.inner.jump_target_counter;
        self.inner.jump_target_counter = self.inner.jump_target_counter.wrapping_add(
            47,
        ).wrapping_add(self.inner.buffer.len() as u64).wrapping_mul(199);
        if !self.inner.allocated_jump_targets.contains(&ret) {
            self.inner.allocated_jump_targets.insert(ret);
            return ret;
        }
        let fresh = scan_fresh(&self.inner.allocated_jump_targets);
        self.inner.allocated_jump_targets.insert(fresh);
        fresh
    }

    /// Place `target` at the current position in the output.
    pub fn place_local(&mut self, target: JumpTarget)
        ensures
            buf_view(final(self).inner.buffer@) == buf_view(old(self).inner.buffer@).push(
                StmtV::LocalLabel(target),
            ),
            final(self).inner.prefixes == old(self).inner.prefixes,
            final(self).inner.jump_target_counter == old(self).inner.jump_target_counter,
            final(self).inner.allocated_jump_targets == old(self).inner.allocated_jump_targets,
    {
        self.inner.buffer.push(Stmt::LocalLabel(target));
        proof {
            assert(buf_view(self.inner.buffer@) =~= buf_view(old(self).inner.buffer@).push(
                StmtV::LocalLabel(target),
            ));
        }
    }

    /// Allocate a fresh local label and place it here.
    pub fn local(&mut self) -> (r: JumpTarget)
        requires
            old(self).inner.wf(),
        ensures
            final(self).inner.wf(),
            !old(self).inner.allocated_jump_targets@.contains(r),
            final(self).inner.allocated_jump_targets@ == old(
                self,
            ).inner.allocated_jump_targets@.insert(r),
            buf_view(final(self).inner.buffer@) == buf_view(old(self).inner.buffer@).push(
                StmtV::LocalLabel(r),
            ),
            final(self).inner.prefixes == old(self).inner.prefixes,
    {
        let ret = self.allocate_local();
        self.place_local(ret);
        ret
    }

    /// Request NOP padding of the output up to a multiple of
    /// `alignment_bytes`.
    pub fn align(&mut self, alignment_bytes: u64)
        ensures
            buf_view(final(self).inner.buffer@) == buf_view(old(self).inner.buffer@).push(
                StmtV::Align(ImmediateValue::U64(alignment_bytes)),
            ),
            final(self).inner.prefixes == old(self).inner.prefixes,
            final(self).inner.jump_target_counter == old(self).inner.jump_target_counter,
            final(self).inner.allocated_jump_targets == old(self).inner.allocated_jump_targets,
    {
        self.inner.buffer.push(Stmt::Align(ImmediateValue::U64(alignment_bytes)));
        proof {
            assert(buf_view(self.inner.buffer@) =~= buf_view(old(self).inner.buffer@).push(
                StmtV::Align(ImmediateValue::U64(alignment_bytes)),
            ));
        }
    }

    /// Encode one instruction with no active prefixes.
    pub fn encode(&mut self, name: &str, data: &[crate::x64::compiler::Opdata], args: &Vec<Arg>) -> (r: Result<
        (),
        crate::x64::compiler::EncodeError,
    >)
        ensures
            final(self).inner.prefixes == old(self).inner.prefixes,
            final(self).inner.jump_target_counter == old(self).inner.jump_target_counter,
            final(self).inner.allocated_jump_targets == old(self).inner.allocated_jump_targets,
            match r {
                Ok(_) => crate::x64::compiler::spec_compile(
                    name@,
                    crate::x64::compiler::prefix_views(old(self).inner.prefixes@),
                    args@,
                    crate::x64::compiler::opdata_views(data@),
                ) is Ok && buf_view(final(self).inner.buffer@) == buf_view(old(self).inner.buffer@)
                    + crate::x64::compiler::spec_compile(
                    name@,
                    crate::x64::compiler::prefix_views(old(self).inner.prefixes@),
                    args@,
                    crate::x64::compiler::opdata_views(data@),
                )->Ok_0,
                Err(e) => crate::x64::compiler::spec_compile(
                    name@,
                    crate::x64::compiler::prefix_views(old(self).inner.prefixes@),
                    args@,
                    crate::x64::compiler::opdata_views(data@),
                ) == Err::<Seq<StmtV>, crate::x64::compiler::EncodeErrorV>(e@)
                    && final(self).inner.buffer@ == old(self).inner.buffer@,
            },
    {
        self.inner.encode(name, data, args)
    }

    /// Set the active instruction prefixes and hand out the inner assembler
    /// that encodes under them.
    pub fn with_prefixes(&mut self, prefixes: Vec<Ident>) -> (r: &mut FlaggedAssembler)
        ensures
            *r == (FlaggedAssembler { prefixes: prefixes, ..old(self).inner }),
            *final(self) == (Assembler { inner: *final(r) }),
    {
        self.inner.prefixes = prefixes;
        &mut self.inner
    }

    /// Resolve the statement log: materialize bytes and label offsets, then
    /// patch every deferred jump displacement.
    pub fn dump(&self) -> (r: Result<ObjectFile, AsmError>)
        ensures
            match r {
                Ok(of) => spec_dump(buf_view(self.inner.buffer@)) == Ok::<
                    ObjectFileV,
                    AsmError,
                >(of@),
                Err(e) => spec_dump(buf_view(self.inner.buffer@)) == Err::<
                    ObjectFileV,
                    AsmError,
                >(e),
            },
    {
        let ghost stmts = buf_view(self.inner.buffer@);
        match materialize(&self.inner.buffer) {
            Err(e) => Err(e),
            Ok((mut code, functions, labels, jumps)) => {
                proof {
                    lemma_resolve_all_bounds(init_state(), stmts);
                    let st = resolve_all(init_state(), stmts)->Ok_0;
                    assert forall|k: int| 0 <= k < jumps@.len() implies #[trigger] jumps@[k].from
                        <= code@.len() by {
                        assert(st.jumps[k] == (jumps@[k].target, jumps@[k].size, jumps@[k].from as int));
                        assert(st.jumps[k].2 <= st.code.len());
                    }
                }
                match patch(&mut code, &labels, &jumps) {
                    Err(e) => Err(e),
                    Ok(()) => {
                        let of = ObjectFile { functions: functions, code: code };
                        proof {
                            let st = resolve_all(init_state(), stmts)->Ok_0;
                            assert(of@ =~= ObjectFileV {
                                functions: st.functions,
                                code: patch_all(st.code, st.labels, st.jumps)->Ok_0,
                            });
                        }
                        Ok(of)
                    },
                }
            },
        }
    }
}

/// The smallest identifier missing from `s`: a finite set cannot contain all
/// of `0 ..= s.len()`.
fn scan_fresh(s: &HashSet<u64>) -> (r: u64)
    requires
        s@.finite(),
    ensures
        !s@.contains(r),
{
    let n: usize = s.len();
    let mut i: u64 = 0;
    loop
        invariant
            i <= n as u64,
            forall|j: u64| j < i ==> s@.contains(j),
            n == s@.len(),
            s@.finite(),
        decreases n - i,
    {
        if !s.contains(&i) {
            return i;
        }
        proof {
            if i == n as u64 {
                lemma_bounded_missing(s@, n as nat);
                let w = choose|x: u64| x <= n as u64 && !s@.contains(x);
                assert(false);
            }
        }
        i = i + 1;
    }
}

/// A finite set of `n` identifiers cannot contain every value in `0 ..= n`.
proof fn lemma_bounded_missing(s: Set<u64>, n: nat)
    requires
        s.finite(),
        s.len() == n,
        n <= u64::MAX,
    ensures
        exists|x: u64| x <= n && !s.contains(x),
    decreases n,
{
    if n == 0 {
        if s.contains(0) {
            assert(s.remove(0).len() + 1 == 0);
        }
        assert(0u64 <= n && !s.contains(0));
    } else {
        if s.contains(n as u64) {
            let s2 = s.remove(n as u64);
            lemma_bounded_missing(s2, (n - 1) as nat);
            let w = choose|x: u64| x <= (n - 1) as nat && !s2.contains(x);
            assert(w <= n && !s.contains(w));
        } else {
            assert((n as u64) <= n && !s.contains(n as u64));
        }
    }
}

/// The pass-1 state as carried by the executable resolver.
spec fn st_of(
    code: Seq<u8>,
    fns: Seq<ExportedFunction>,
    labels: Map<u64, usize>,
    jumps: Seq<JumpToResolve>,
) -> ResolveState {
    ResolveState {
        code: code,
        functions: fns.map_values(|f: ExportedFunction| f@),
        labels: labels.map_values(|v: usize| v as int),
        jumps: jumps.map_values(|j: JumpToResolve| (j.target, j.size, j.from as int)),
    }
}

/// Pass 1: materialize code bytes and record functions, labels and pending
/// jumps.
#[verifier::rlimit(100)]
#[verifier::spinoff_prover]
fn materialize(buffer: &StmtBuffer) -> (r: Result<
    (Vec<u8>, Vec<ExportedFunction>, HashMap<u64, usize>, Vec<JumpToResolve>),
    AsmError,
>)
    ensures
        match r {
            Ok(t) => resolve_all(init_state(), buf_view(buffer@)) == Ok::<ResolveState, AsmError>(
                st_of(t.0@, t.1@, t.2@, t.3@),
            ),
            Err(e) => resolve_all(init_state(), buf_view(buffer@)) == Err::<
                ResolveState,
                AsmError,
            >(e),
        },
{
    let ghost stmts = buf_view(buffer@);
    let mut code: Vec<u8> = Vec::new();
    let mut functions: Vec<ExportedFunction> = Vec::new();
    let mut labels: HashMap<u64, usize> = HashMap::new();
    let mut jumps: Vec<JumpToResolve> = Vec::new();
    let mut i: usize = 0;
    proof {
        assert(st_of(code@, functions@, labels@, jumps@) =~= init_state());
        assert(stmts.skip(0) =~= stmts);
    }
    while i < buffer.len()
        invariant
            i <= buffer.len(),
            stmts == buf_view(buffer@),
            stmts.len() == buffer@.len(),
            resolve_all(init_state(), stmts) == resolve_all(
                st_of(code@, functions@, labels@, jumps@),
                stmts.skip(i as int),
            ),
        decreases buffer.len() - i,
    {
        let ghost pre = st_of(code@, functions@, labels@, jumps@);
        proof {
            assert(stmts.skip(i as int)[0] == stmts[i as int]);
            assert(stmts.skip(i as int).skip(1) =~= stmts.skip(i as int + 1));
        }
        let stmt = &buffer[i];
        match stmt {
            Stmt::Const(x) => {
                code.push(*x);
                proof {
                    assert(st_of(code@, functions@, labels@, jumps@) =~= resolve_step(
                        pre,
                        stmts[i as int],
                    )->Ok_0);
                }
            },
            Stmt::Var(v, sz) => {
                match (v, sz) {
                    (ImmediateValue::I64(x), Size::BYTE) => {
                        push_le_signed(&mut code, *x, 1);
                    },
                    (ImmediateValue::I64(x), Size::DWORD) => {
                        push_le_signed(&mut code, *x, 4);
                    },
                    (ImmediateValue::U64(x), Size::QWORD) => {
                        push_le(&mut code, *x as u128, 8);
                        proof {
                            crate::emit::lemma_le_bytes_len(*x as int, 8);
                        }
                    },
                    _ => {
                        proof {
                            assert(resolve_step(pre, stmts[i as int]) == Err::<
                                ResolveState,
                                AsmError,
                            >(AsmError::UnimplementedStatement(*v, Some(*sz))));
                        }
                        return Err(AsmError::UnimplementedStatement(*v, Some(*sz)));
                    },
                }
                proof {
                    assert(st_of(code@, functions@, labels@, jumps@) =~= resolve_step(
                        pre,
                        stmts[i as int],
                    )->Ok_0);
                }
            },
            Stmt::GlobalLabel(ident) => {
                let offset: u32 = ((code.len() as u64) % 0x1_0000_0000) as u32;
                functions.push(ExportedFunction { offset: offset, name: ident.clone() });
                proof {
                    assert(functions@.map_values(|f: ExportedFunction| f@) =~= pre.functions
                        + seq![
                        ExportedFunctionV {
                            offset: (pre.code.len() % 0x1_0000_0000) as u32,
                            name: ident@,
                        },
                    ]);
                    assert(st_of(code@, functions@, labels@, jumps@) =~= resolve_step(
                        pre,
                        stmts[i as int],
                    )->Ok_0);
                }
            },
            Stmt::LocalLabel(target) => {
                let off = code.len();
                labels.insert(*target, off);
                proof {
                    vstd::map::assert_maps_equal!(
                        labels@.map_values(|v: usize| v as int),
                        pre.labels.insert(*target, off as int),
                    );
                    assert(st_of(code@, functions@, labels@, jumps@) =~= resolve_step(
                        pre,
                        stmts[i as int],
                    )->Ok_0);
                }
            },
            Stmt::ForwardJumpTarget(target, size) => {
                jumps.push(JumpToResolve { target: *target, size: *size, from: code.len() });
                proof {
                    assert(jumps@.map_values(|j: JumpToResolve| (j.target, j.size, j.from as int))
                        =~= pre.jumps + seq![(*target, *size, pre.code.len() as int)]);
                    assert(st_of(code@, functions@, labels@, jumps@) =~= resolve_step(
                        pre,
                        stmts[i as int],
                    )->Ok_0);
                }
            },
            Stmt::Align(v) => {
                match v {
                    ImmediateValue::U64(k) => {
                        if *k == 0 || *k > 1024 {
                            proof {
                                assert(resolve_step(pre, stmts[i as int]) == Err::<
                                    ResolveState,
                                    AsmError,
                                >(AsmError::AlignmentOutOfRange(*k)));
                            }
                            return Err(AsmError::AlignmentOutOfRange(*k));
                        }
                        let k64 = *k;
                        let rem: u64 = (code.len() as u64) % k64;
                        let pad: u64 = (k64 - rem) % k64;
                        push_repeat(&mut code, 0x90, pad as usize);
                        proof {
                            assert(Seq::new(pad as nat, |j: int| 0x90u8) =~= nop_pad(
                                pre.code.len(),
                                k64 as nat,
                            ));
                            assert(st_of(code@, functions@, labels@, jumps@) =~= resolve_step(
                                pre,
                                stmts[i as int],
                            )->Ok_0);
                        }
                    },
                    ImmediateValue::I64(_) => {
                        proof {
                            assert(resolve_step(pre, stmts[i as int]) == Err::<
                                ResolveState,
                                AsmError,
                            >(AsmError::UnimplementedStatement(*v, None)));
                        }
                        return Err(AsmError::UnimplementedStatement(*v, None));
                    },
                }
            },
        }
        i = i + 1;
    }
    proof {
        assert(stmts.skip(i as int) =~= Seq::<StmtV>::empty());
    }
    Ok((code, functions, labels, jumps))
}

/// Pass 2: write each pending displacement over its placeholder bytes.
#[verifier::rlimit(100)]
#[verifier::spinoff_prover]
fn patch(code: &mut Vec<u8>, labels: &HashMap<u64, usize>, jumps: &Vec<JumpToResolve>) -> (r:
    Result<(), AsmError>)
    requires
        forall|i: int|
            0 <= i < jumps@.len() ==> #[trigger] jumps@[i].from <= old(code)@.len(),
    ensures
        match r {
            Ok(_) => patch_all(
                old(code)@,
                labels@.map_values(|v: usize| v as int),
                jumps@.map_values(|j: JumpToResolve| (j.target, j.size, j.from as int)),
            ) == Ok::<Seq<u8>, AsmError>(final(code)@),
            Err(e) => patch_all(
                old(code)@,
                labels@.map_values(|v: usize| v as int),
                jumps@.map_values(|j: JumpToResolve| (j.target, j.size, j.from as int)),
            ) == Err::<Seq<u8>, AsmError>(e),
        },
{
    let ghost lbl = labels@.map_values(|v: usize| v as int);
    let ghost js = jumps@.map_values(|j: JumpToResolve| (j.target, j.size, j.from as int));
    let mut i: usize = 0;
    proof {
        assert(js.skip(0) =~= js);
    }
    while i < jumps.len()
        invariant
            i <= jumps@.len(),
            js == jumps@.map_values(|j: JumpToResolve| (j.target, j.size, j.from as int)),
            lbl == labels@.map_values(|v: usize| v as int),
            js.len() == jumps@.len(),
            code@.len() == old(code)@.len(),
            forall|k: int|
                0 <= k < jumps@.len() ==> #[trigger] jumps@[k].from <= old(code)@.len(),
            patch_all(old(code)@, lbl, js) == patch_all(code@, lbl, js.skip(i as int)),
        decreases jumps@.len() - i,
    {
        proof {
            assert(js.skip(i as int)[0] == js[i as int]);
            assert(js.skip(i as int).skip(1) =~= js.skip(i as int + 1));
        }
        let ghost precode = code@;
        let j = &jumps[i];
        let target_addr: usize = match labels.get(&j.target) {
            Some(addr) => *addr,
            None => {
                return Err(AsmError::UnresolvedAddress(j.target));
            },
        };
        match j.size {
            Size::DWORD => {},
            _ => {
                return Err(AsmError::UnimplementedJumpSize(j.target, j.size));
            },
        }
        if j.from < 4 {
            return Err(AsmError::PatchBeforeStart(j.target));
        }
        let a32: u32 = ((target_addr as u64) % 0x1_0000_0000) as u32;
        let from32: u32 = ((j.from as u64) % 0x1_0000_0000) as u32;
        let d32: u32 = a32.wrapping_sub(from32);
        proof {
            lemma_le_bytes_4_congruent(d32 as int, lbl[j.target] - j.from as int);
        }
        let mut field: Vec<u8> = Vec::new();
        push_le(&mut field, d32 as u128, 4);
        proof {
            crate::emit::lemma_le_bytes_len(d32 as int, 4);
        }
        write_at(code, j.from - 4, field.as_slice());
        proof {
            assert(code@ =~= patch_step(precode, lbl, js[i as int])->Ok_0);
        }
        i = i + 1;
    }
    proof {
        assert(js.skip(i as int) =~= Seq::<(JumpTarget, Size, int)>::empty());
    }
    Ok(())
}

/// A statement that materializes bytes and nothing else: a literal byte, or
/// an immediate of a supported value/width combination.
pub open spec fn is_flat(s: StmtV) -> bool {
    match s {
        StmtV::Const(_) => true,
        StmtV::Var(v, sz) => var_bytes(v, sz) is Some,
        _ => false,
    }
}

/// The declared byte width of a flat statement.
pub open spec fn flat_width(s: StmtV) -> nat {
    match s {
        StmtV::Const(_) => 1,
        StmtV::Var(_, sz) => sz.spec_bytes() as nat,
        _ => 0,
    }
}

/// The bytes a flat statement materializes to.
pub open spec fn flat_bytes(s: StmtV) -> Seq<u8> {
    match s {
        StmtV::Const(b) => seq![b],
        StmtV::Var(v, sz) => var_bytes(v, sz)->Some_0,
        _ => Seq::empty(),
    }
}

pub open spec fn flat_bytes_all(stmts: Seq<StmtV>) -> Seq<u8>
    decreases stmts.len(),
{
    if stmts.len() == 0 {
        Seq::empty()
    } else {
        flat_bytes(stmts[0]) + flat_bytes_all(stmts.skip(1))
    }
}

pub open spec fn flat_width_sum(stmts: Seq<StmtV>) -> nat
    decreases stmts.len(),
{
    if stmts.len() == 0 {
        0
    } else {
        flat_width(stmts[0]) + flat_width_sum(stmts.skip(1))
    }
}

proof fn lemma_flat_bytes_width(s: StmtV)
    requires
        is_flat(s),
    ensures
        flat_bytes(s).len() == flat_width(s),
{
    match s {
        StmtV::Var(v, sz) => {
            match (v, sz) {
                (ImmediateValue::I64(x), Size::BYTE) => crate::emit::lemma_le_bytes_len(x as int, 1),
                (ImmediateValue::I64(x), Size::DWORD) => crate::emit::lemma_le_bytes_len(
                    x as int,
                    4,
                ),
                (ImmediateValue::U64(x), Size::QWORD) => crate::emit::lemma_le_bytes_len(
                    x as int,
                    8,
                ),
                _ => {},
            }
        },
        _ => {},
    }
}

proof fn lemma_resolve_flat(st: ResolveState, stmts: Seq<StmtV>)
    requires
        forall|i: int| 0 <= i < stmts.len() ==> is_flat(#[trigger] stmts[i]),
    ensures
        resolve_all(st, stmts) == Ok::<ResolveState, AsmError>(
            ResolveState { code: st.code + flat_bytes_all(stmts), ..st },
        ),
    decreases stmts.len(),
{
    if stmts.len() == 0 {
        assert(st.code + flat_bytes_all(stmts) =~= st.code);
        assert(ResolveState { code: st.code + flat_bytes_all(stmts), ..st } =~= st);
    } else {
        let st2 = resolve_step(st, stmts[0])->Ok_0;
        assert(st2 == ResolveState { code: st.code + flat_bytes(stmts[0]), ..st });
        lemma_resolve_flat(st2, stmts.skip(1));
        assert(st2.code + flat_bytes_all(stmts.skip(1)) =~= st.code + flat_bytes_all(stmts));
    }
}

/// Resolving a log of only `Const` and supported `Var` statements succeeds,
/// and its code is the concatenation of each statement's little-endian
/// encoding; in particular its length is the sum of the declared widths, and
/// no functions are exported.
pub proof fn lemma_dump_flat_log(stmts: Seq<StmtV>)
    requires
        forall|i: int| 0 <= i < stmts.len() ==> is_flat(#[trigger] stmts[i]),
    ensures
        spec_dump(stmts) == Ok::<ObjectFileV, AsmError>(
            ObjectFileV { functions: Seq::empty(), code: flat_bytes_all(stmts) },
        ),
        flat_bytes_all(stmts).len() == flat_width_sum(stmts),
    decreases stmts.len(),
{
    lemma_resolve_flat(init_state(), stmts);
    let st = resolve_all(init_state(), stmts)->Ok_0;
    assert(st.code =~= flat_bytes_all(stmts));
    if stmts.len() > 0 {
        lemma_flat_bytes_width(stmts[0]);
        lemma_dump_flat_log(stmts.skip(1));
    }
}

/// A placed label at offset `n`, with exactly one pending `DWORD` jump to it
/// whose placeholder field ends at offset `p`, resolves to the code with the
/// little-endian signed 32-bit value `n - p` written over bytes
/// `[p - 4, p)`, everything else unchanged.
pub proof fn lemma_forward_jump_patched(stmts: Seq<StmtV>, t: JumpTarget, p: int, n: int)
    requires
        resolve_all(init_state(), stmts) is Ok,
        resolve_all(init_state(), stmts)->Ok_0.jumps =~= seq![(t, Size::DWORD, p)],
        resolve_all(init_state(), stmts)->Ok_0.labels.contains_key(t),
        resolve_all(init_state(), stmts)->Ok_0.labels[t] == n,
        p >= 4,
    ensures
        spec_dump(stmts) is Ok,
        spec_dump(stmts)->Ok_0.code == splice(
            resolve_all(init_state(), stmts)->Ok_0.code,
            p - 4,
            le_bytes(n - p, 4),
        ),
        spec_dump(stmts)->Ok_0.code.subrange(p - 4, p) == le_bytes(n - p, 4),
        spec_dump(stmts)->Ok_0.code.len() == resolve_all(init_state(), stmts)->Ok_0.code.len(),
{
    let st = resolve_all(init_state(), stmts)->Ok_0;
    lemma_resolve_all_bounds(init_state(), stmts);
    assert(st.jumps[0] == (t, Size::DWORD, p));
    assert(p <= st.code.len());
    crate::emit::lemma_le_bytes_len(n - p, 4);
    let patched = splice(st.code, p - 4, le_bytes(n - p, 4));
    assert(st.jumps.skip(1) =~= Seq::<(JumpTarget, Size, int)>::empty());
    assert(patch_step(st.code, st.labels, st.jumps[0]) == Ok::<Seq<u8>, AsmError>(patched));
    assert(patch_all(patched, st.labels, st.jumps.skip(1)) == Ok::<Seq<u8>, AsmError>(patched));
    assert(patch_all(st.code, st.labels, st.jumps) == Ok::<Seq<u8>, AsmError>(patched));
    assert(patched.subrange(p - 4, p) =~= le_bytes(n - p, 4));
}

proof fn lemma_patch_all_unresolved(
    code: Seq<u8>,
    labels: Map<JumpTarget, int>,
    jumps: Seq<(JumpTarget, Size, int)>,
)
    requires
        exists|i: int| 0 <= i < jumps.len() && !labels.contains_key(#[trigger] jumps[i].0),
    ensures
        patch_all(code, labels, jumps) is Err,
    decreases jumps.len(),
{
    let i = choose|i: int| 0 <= i < jumps.len() && !labels.contains_key(#[trigger] jumps[i].0);
    if patch_step(code, labels, jumps[0]) is Ok {
        assert(i >= 1);
        assert(jumps.skip(1)[i - 1] == jumps[i]);
        lemma_patch_all_unresolved(patch_step(code, labels, jumps[0])->Ok_0, labels, jumps.skip(1));
    }
}

/// A pending jump whose target was never placed makes resolution fail:
/// no object file is produced.
pub proof fn lemma_unplaced_target_fails(stmts: Seq<StmtV>)
    requires
        resolve_all(init_state(), stmts) is Ok,
        exists|i: int|
            0 <= i < resolve_all(init_state(), stmts)->Ok_0.jumps.len() && !resolve_all(
                init_state(),
                stmts,
            )->Ok_0.labels.contains_key(
                #[trigger] resolve_all(init_state(), stmts)->Ok_0.jumps[i].0,
            ),
    ensures
        spec_dump(stmts) is Err,
{
    let st = resolve_all(init_state(), stmts)->Ok_0;
    lemma_patch_all_unresolved(st.code, st.labels, st.jumps);
}

/// An alignment request of `1 <= k <= 1024` pads the code to the next
/// multiple of `k` with NOP (`0x90`) bytes and nothing else: the new length
/// is a multiple of `k`, fewer than `k` bytes are added (the minimal count:
/// no smaller padding reaches a multiple of `k`), the old code is kept
/// unchanged, and every added byte is `0x90`.
pub proof fn lemma_align_step(st: ResolveState, k: u64)
    requires
        1 <= k <= 1024,
    ensures
        resolve_step(st, StmtV::Align(ImmediateValue::U64(k))) is Ok,
        ({
            let st2 = resolve_step(st, StmtV::Align(ImmediateValue::U64(k)))->Ok_0;
            &&& st2.code.len() as int % k as int == 0
            &&& st2.code.len() - st.code.len() < k
            &&& st2.code.take(st.code.len() as int) == st.code
            &&& forall|i: int|
                st.code.len() <= i < st2.code.len() ==> #[trigger] st2.code[i] == 0x90u8
            &&& forall|m: int|
                0 <= m < st2.code.len() - st.code.len() ==> #[trigger] ((st.code.len() + m)
                    % k as int) != 0
            &&& st2 == (ResolveState { code: st2.code, ..st })
        }),
{
    let len = st.code.len() as int;
    let ki = k as int;
    let r = len % ki;
    vstd::arithmetic::div_mod::lemma_mod_bound(len, ki);
    let pad = (ki - r) % ki;
    vstd::arithmetic::div_mod::lemma_fundamental_div_mod(len, ki);
    if r == 0 {
        assert(pad == 0) by {
            vstd::arithmetic::div_mod::lemma_mod_self_0(ki);
        }
        assert(len % ki == 0);
    } else {
        vstd::arithmetic::div_mod::lemma_small_mod((ki - r) as nat, ki as nat);
        assert(pad == ki - r);
        assert(len + pad == ki * (len / ki) + ki);
        assert(ki * (len / ki) + ki == ki * (len / ki + 1)) by (nonlinear_arith);
        assert((ki * (len / ki + 1)) % ki == 0) by {
            vstd::arithmetic::div_mod::lemma_mod_multiples_basic(len / ki + 1, ki);
        }
    }
    let st2 = resolve_step(st, StmtV::Align(ImmediateValue::U64(k)))->Ok_0;
    assert(st2.code.take(st.code.len() as int) =~= st.code);
    assert forall|m: int| 0 <= m < pad implies #[trigger] ((len + m) % ki) != 0 by {
        assert(len + m == ki * (len / ki) + (r + m));
        assert(0 < r + m < ki);
        assert((ki * (len / ki) + (r + m)) % ki == (r + m) % ki) by {
            vstd::arithmetic::div_mod::lemma_mod_multiples_vanish(len / ki, r + m, ki);
        }
        vstd::arithmetic::div_mod::lemma_small_mod((r + m) as nat, ki as nat);
    }
}

/// An alignment request over 1024 bytes is fatal.
pub proof fn lemma_align_step_fails(st: ResolveState, k: u64)
    requires
        k > 1024,
    ensures
        resolve_step(st, StmtV::Align(ImmediateValue::U64(k))) == Err::<ResolveState, AsmError>(
            AsmError::AlignmentOutOfRange(k),
        ),
{
}

/// Operand collection: heterogeneous tuples of operand-convertible values
/// and `Option`s of them flatten left-to-right into an ordered operand list;
/// an absent optional contributes no element.
pub trait CollectableToArgs: Sized {
    /// The operands this value contributes, in order.
    spec fn arg_seq(self) -> Seq<Arg>;

    fn collect_into(self, args: &mut Vec<Arg>)
        ensures
            final(args)@ == old(args)@ + self.arg_seq(),
    ;
}

impl CollectableToArgs for Arg {
    open spec fn arg_seq(self) -> Seq<Arg> {
        seq![self]
    }

    fn collect_into(self, args: &mut Vec<Arg>) {
        let ghost s = self;
        args.push(self);
        proof {
            assert(args@ =~= old(args)@ + s.arg_seq());
        }
    }
}

impl CollectableToArgs for i8 {
    open spec fn arg_seq(self) -> Seq<Arg> {
        seq![Arg::Immediate(ImmediateValue::I64(self as i64), None)]
    }

    fn collect_into(self, args: &mut Vec<Arg>) {
        args.push(Arg::Immediate(ImmediateValue::I64(self as i64), None));
        proof {
            assert(args@ =~= old(args)@ + self.arg_seq());
        }
    }
}

impl CollectableToArgs for i32 {
    open spec fn arg_seq(self) -> Seq<Arg> {
        seq![Arg::Immediate(ImmediateValue::I64(self as i64), None)]
    }

    fn collect_into(self, args: &mut Vec<Arg>) {
        args.push(Arg::Immediate(ImmediateValue::I64(self as i64), None));
        proof {
            assert(args@ =~= old(args)@ + self.arg_seq());
        }
    }
}

impl CollectableToArgs for u64 {
    open spec fn arg_seq(self) -> Seq<Arg> {
        seq![Arg::Immediate(ImmediateValue::U64(self), None)]
    }

    fn collect_into(self, args: &mut Vec<Arg>) {
        args.push(Arg::Immediate(ImmediateValue::U64(self), None));
        proof {
            assert(args@ =~= old(args)@ + self.arg_seq());
        }
    }
}

impl<X: CollectableToArgs> CollectableToArgs for Option<X> {
    open spec fn arg_seq(self) -> Seq<Arg> {
        match self {
            Some(x) => x.arg_seq(),
            None => Seq::empty(),
        }
    }

    fn collect_into(self, args: &mut Vec<Arg>) {
        match self {
            Some(x) => x.collect_into(args),
            None => {
                proof {
                    assert(args@ =~= args@ + Seq::<Arg>::empty());
                }
            },
        }
    }
}

impl<X: CollectableToArgs, Y: CollectableToArgs> CollectableToArgs for (X, Y) {
    open spec fn arg_seq(self) -> Seq<Arg> {
        self.0.arg_seq() + self.1.arg_seq()
    }

    fn collect_into(self, args: &mut Vec<Arg>) {
        let ghost s = self;
        let (x, y) = self;
        x.collect_into(args);
        y.collect_into(args);
        proof {
            assert(args@ =~= old(args)@ + s.arg_seq());
        }
    }
}

impl<X: CollectableToArgs, Y: CollectableToArgs, Z: CollectableToArgs> CollectableToArgs for (
    X,
    Y,
    Z,
) {
    open spec fn arg_seq(self) -> Seq<Arg> {
        self.0.arg_seq() + self.1.arg_seq() + self.2.arg_seq()
    }

    fn collect_into(self, args: &mut Vec<Arg>) {
        let ghost s = self;
        let (x, y, z) = self;
        x.collect_into(args);
        y.collect_into(args);
        z.collect_into(args);
        proof {
            assert(args@ =~= old(args)@ + s.arg_seq());
        }
    }
}

impl<
    W: CollectableToArgs,
    X: CollectableToArgs,
    Y: CollectableToArgs,
    Z: CollectableToArgs,
> CollectableToArgs for (W, X, Y, Z) {
    open spec fn arg_seq(self) -> Seq<Arg> {
        self.0.arg_seq() + self.1.arg_seq() + self.2.arg_seq() + self.3.arg_seq()
    }

    fn collect_into(self, args: &mut Vec<Arg>) {
        let ghost s = self;
        let (w, x, y, z) = self;
        w.collect_into(args);
        x.collect_into(args);
        y.collect_into(args);
        z.collect_into(args);
        proof {
            assert(args@ =~= old(args)@ + s.arg_seq());
        }
    }
}

impl<
    A: CollectableToArgs,
    B: CollectableToArgs,
    C: CollectableToArgs,
    D: CollectableToArgs,
    E: CollectableToArgs,
> CollectableToArgs for (A, B, C, D, E) {
    open spec fn arg_seq(self) -> Seq<Arg> {
        self.0.arg_seq() + self.1.arg_seq() + self.2.arg_seq() + self.3.arg_seq()
            + self.4.arg_seq()
    }

    fn collect_into(self, args: &mut Vec<Arg>) {
        let ghost s = self;
        let (a, b, c, d, e) = self;
        a.collect_into(args);
        b.collect_into(args);
        c.collect_into(args);
        d.collect_into(args);
        e.collect_into(args);
        proof {
            assert(args@ =~= old(args)@ + s.arg_seq());
        }
    }
}

/// Flatten a tuple of operand-convertible values into an operand list.
pub fn collect_args<T: CollectableToArgs>(x: T) -> (r: Vec<Arg>)
    ensures
        r@ == x.arg_seq(),
{
    let ghost s = x;
    let mut args = Vec::new();
    x.collect_into(&mut args);
    proof {
        assert(args@ =~= s.arg_seq());
    }
    args
}

/// Two values congruent modulo `2^32` have the same 4-byte encoding.
proof fn lemma_le_bytes_4_congruent(x: int, y: int)
    requires
        x % 0x1_0000_0000 == y % 0x1_0000_0000,
    ensures
        le_bytes(x, 4) == le_bytes(y, 4),
{
    let m: int = 0x1_0000_0000;
    assert(vstd::arithmetic::power::pow(256, 4) == m) by {
        reveal_with_fuel(vstd::arithmetic::power::pow, 5);
    }
    vstd::arithmetic::div_mod::lemma_fundamental_div_mod(x, m);
    vstd::arithmetic::div_mod::lemma_fundamental_div_mod(y, m);
    let qx = x / m;
    let qy = y / m;
    assert(y == x + (qy - qx) * m) by (nonlinear_arith)
        requires
            x == m * qx + x % m,
            y == m * qy + y % m,
            x % m == y % m,
    ;
    crate::emit::lemma_le_bytes_mod(x, qy - qx, 4);
}

/// Overwrite `code[pos .. pos + bs.len()]` with `bs`.
fn write_at(code: &mut Vec<u8>, pos: usize, bs: &[u8])
    requires
        pos + bs@.len() <= old(code)@.len(),
    ensures
        final(code)@ == splice(old(code)@, pos as int, bs@),
{
    let total = code.len();
    let mut i: usize = 0;
    while i < bs.len()
        invariant
            i <= bs@.len(),
            pos + bs@.len() <= code@.len(),
            code@.len() == old(code)@.len(),
            code@.len() == total,
            code@ == old(code)@.take(pos as int) + bs@.take(i as int) + old(code)@.skip(
                pos as int + i,
            ),
        decreases bs@.len() - i,
    {
        proof {
            assert(code@ =~= old(code)@.take(pos as int) + bs@.take(i as int) + old(code)@.skip(
                pos as int + i,
            ));
        }
        code.set(pos + i, bs[i]);
        i = i + 1;
        proof {
            assert(code@ =~= old(code)@.take(pos as int) + bs@.take(i as int) + old(code)@.skip(
                pos as int + i,
            ));
        }
    }
    proof {
        assert(bs@.take(bs@.len() as int) =~= bs@);
        assert(code@ =~= splice(old(code)@, pos as int, bs@));
    }
}

} // verus!
